use rbx_product::catalog::{ProductTable, VCSProducts};
use rbx_product::product::{Metadata, Product};
use rbx_product::text::NameFilter;
use toml_edit::DocumentMut;

fn product(id: Option<u64>, name: &str, price: i64) -> Product {
    Product {
        id,
        name: name.to_string(),
        prefix: None,
        description: None,
        active: true,
        discount: None,
        price,
        regional_pricing: None,
    }
}

fn catalog(passes: Vec<(&str, Product)>, products: Vec<(&str, Product)>) -> VCSProducts {
    let mut gamepasses = ProductTable::new();
    for (key, p) in passes {
        gamepasses.insert(key.to_string(), p);
    }
    let mut table = ProductTable::new();
    for (key, p) in products {
        table.insert(key.to_string(), p);
    }
    VCSProducts {
        metadata: Metadata {
            universe_id: 77,
            luau_file: None,
            discount_prefix: None,
            name_filters: None,
        },
        gamepasses,
        products: table,
    }
}

fn saved(c: &VCSProducts, existing: &str) -> DocumentMut {
    let mut doc: DocumentMut = existing.parse().unwrap();
    c.save_products(doc.as_table_mut());
    doc
}

#[test]
fn a_product_is_written_with_the_fields_that_are_set() {
    let full = Product {
        id: Some(5),
        name: "VIP".to_string(),
        prefix: Some("[x]".to_string()),
        description: Some("Text.".to_string()),
        active: false,
        discount: Some(20),
        price: 1000,
        regional_pricing: Some(true),
    };
    assert_eq!(
        full.to_table().to_string(),
        "id = 5\nprefix = \"[x]\"\nname = \"VIP\"\ndescription = \"Text.\"\nactive = false\n\
discount = 20\nprice = 1000\nregional-pricing = true\n"
    );
    assert_eq!(
        product(None, "Draft", 3).to_table().to_string(),
        "name = \"Draft\"\nactive = true\nprice = 3\n"
    );
}

#[test]
fn a_new_document_gets_all_three_sections() {
    let mut c = catalog(vec![("vip", product(Some(1), "VIP", 10))], vec![("gems", product(None, "Gems", 5))]);
    c.metadata.luau_file = Some("out.luau".to_string());
    c.metadata.discount_prefix = Some("{}% ".to_string());
    c.metadata.name_filters = Some(vec![NameFilter::new("a+".to_string()).unwrap()]);
    let doc = saved(&c, "");
    assert_eq!(
        doc.to_string(),
        "[metadata]\ndiscount-prefix = \"{}% \"\nuniverse-id = 77\nluau-file = \"out.luau\"\n\
name-filters = [\"a+\"]\n\n[gamepasses]\n\n[gamepasses.vip]\nid = 1\nname = \"VIP\"\nactive = true\n\
price = 10\n\n[products]\n\n[products.gems]\nname = \"Gems\"\nactive = true\nprice = 5\n"
    );
}

#[test]
fn unset_settings_are_removed_and_filters_are_written_as_an_empty_list() {
    let c = catalog(vec![], vec![]);
    let doc = saved(
        &c,
        "[metadata]\nuniverse-id = 1\ndiscount-prefix = \"x\"\nluau-file = \"y\"\nname-filters = [\"z\"]\n",
    );
    let metadata = doc["metadata"].as_table().unwrap();
    assert_eq!(metadata["universe-id"].as_integer(), Some(77));
    assert!(!metadata.contains_key("discount-prefix"));
    assert!(!metadata.contains_key("luau-file"));
    assert_eq!(metadata["name-filters"].as_array().unwrap().len(), 0);
}

#[test]
fn keys_that_the_catalog_does_not_own_survive_a_save() {
    let c = catalog(vec![("vip", product(Some(1), "VIP", 10))], vec![]);
    let existing = "# my catalog\ntitle = \"mine\"\n\n[metadata]\n# the universe\nuniverse-id = 1\nowner = \"me\"\n\n\
[gamepasses.legacy]\nname = \"Legacy\"\nactive = true\nprice = 1\n\n[extra]\nkept = true\n";
    let doc = saved(&c, existing);
    assert_eq!(doc["title"].as_str(), Some("mine"));
    assert_eq!(doc["extra"]["kept"].as_bool(), Some(true));
    assert_eq!(doc["metadata"]["owner"].as_str(), Some("me"));
    assert_eq!(doc["metadata"]["universe-id"].as_integer(), Some(77));
    assert_eq!(doc["gamepasses"]["legacy"]["name"].as_str(), Some("Legacy"));
    assert_eq!(doc["gamepasses"]["vip"]["id"].as_integer(), Some(1));
    assert!(doc["products"].as_table().unwrap().is_empty());
    let text = doc.to_string();
    assert!(text.contains("# my catalog"));
    assert!(text.contains("# the universe"));
}

#[test]
fn a_saved_product_keeps_the_keys_that_the_catalog_does_not_own() {
    let c = catalog(vec![], vec![("gems", product(Some(2), "Gems", 5))]);
    let existing = "[products.gems]\n# the best seller\nid = 1\nname = \"Old\"\ndescription = \"gone\"\nactive = false\n\
discount = 10\nprice = 9\nregional-pricing = true\nnote = \"x\"\n";
    let doc = saved(&c, existing);
    let gems = doc["products"]["gems"].as_table().unwrap();
    assert_eq!(gems["id"].as_integer(), Some(2));
    assert_eq!(gems["name"].as_str(), Some("Gems"));
    assert_eq!(gems["active"].as_bool(), Some(true));
    assert_eq!(gems["price"].as_integer(), Some(5));
    assert!(!gems.contains_key("description"));
    assert!(!gems.contains_key("discount"));
    assert!(!gems.contains_key("regional-pricing"));
    assert!(!gems.contains_key("prefix"));
    assert_eq!(gems["note"].as_str(), Some("x"));
    assert!(doc.to_string().contains("# the best seller"));
}

#[test]
fn a_product_can_be_written_over_a_table() {
    let mut doc: DocumentMut = "id = 1\nextra = 3\nprefix = \"p\"\n".parse().unwrap();
    let mut p = product(None, "Gems", 5);
    p.regional_pricing = Some(false);
    p.discount = Some(0);
    p.write_to(doc.as_table_mut());
    assert_eq!(
        doc.to_string(),
        "extra = 3\nname = \"Gems\"\nactive = true\ndiscount = 0\nprice = 5\nregional-pricing = false\n"
    );
}

#[test]
fn a_section_that_is_no_table_is_replaced() {
    let c = catalog(vec![("vip", product(Some(1), "VIP", 10))], vec![]);
    let doc = saved(&c, "gamepasses = 3\nproducts = { a = 1 }\n");
    assert_eq!(doc["gamepasses"]["vip"]["name"].as_str(), Some("VIP"));
    assert!(doc["products"].as_table().unwrap().is_empty());
}

#[test]
fn saving_twice_writes_the_same_document() {
    let mut c = catalog(vec![("vip", product(Some(1), "VIP", 10))], vec![("gems", product(None, "Gems", 5))]);
    c.metadata.discount_prefix = Some("{}%".to_string());
    let once = saved(&c, "# top\n[metadata]\nowner = \"me\"\n").to_string();
    let twice = saved(&c, &once).to_string();
    assert_eq!(once, twice);
}
