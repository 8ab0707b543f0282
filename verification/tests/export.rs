use rbx_product::catalog::{ProductTable, VCSProducts};
use rbx_product::export::push_line;
use rbx_product::product::{Metadata, Product};

fn product(id: Option<u64>, name: &str, price: i64) -> Product {
    Product {
        id,
        name: name.to_string(),
        prefix: None,
        description: None,
        active: true,
        discount: None,
        price,
        regional_pricing: None,
    }
}

fn catalog(file: Option<&str>, passes: Vec<Product>, products: Vec<Product>) -> VCSProducts {
    let mut gamepasses = ProductTable::new();
    for (i, p) in passes.into_iter().enumerate() {
        gamepasses.insert(format!("pass-{}", i), p);
    }
    let mut table = ProductTable::new();
    for (i, p) in products.into_iter().enumerate() {
        table.insert(format!("product-{}", i), p);
    }
    VCSProducts {
        metadata: Metadata {
            universe_id: 1,
            luau_file: file.map(|f| f.to_string()),
            discount_prefix: None,
            name_filters: None,
        },
        gamepasses,
        products: table,
    }
}

#[test]
fn no_script_without_a_file_for_it() {
    assert_eq!(catalog(None, vec![product(Some(1), "VIP", 1)], vec![]).serialize_luau(), None);
}

#[test]
fn the_script_of_an_empty_catalog() {
    let expected = "-- This file is automatically generated by rbx-products. Do not edit this file directly.\n\
export type Product = { id: number, price: number }\n\n\
return {\n\tGamepasses = {\n\t} :: {[string]: Product},\n\n\tProducts = {\n\t} :: {[string]: Product}\n}";
    assert_eq!(catalog(Some("out.luau"), vec![], vec![]).serialize_luau().unwrap(), expected);
}

#[test]
fn the_script_lists_titles_ids_and_discounted_prices_by_id() {
    let mut sale = product(Some(3), "Sale", 1000);
    sale.discount = Some(20);
    sale.prefix = Some("[x]".to_string());
    let mut fresh = product(Some(20), "Fresh", 5);
    fresh.prefix = Some("[NEW]".to_string());
    let c = catalog(
        Some("out.luau"),
        vec![fresh, sale, product(None, "Draft", 7)],
        vec![product(Some(2), "Say \"hi\"\\now", 0)],
    );
    let expected = "-- This file is automatically generated by rbx-products. Do not edit this file directly.\n\
export type Product = { id: number, price: number }\n\n\
return {\n\tGamepasses = {\n\
\t\t[\"Draft\"] = { id = 0, price = 7 },\n\
\t\t[\"Sale\"] = { id = 3, price = 800 },\n\
\t\t[\"[NEW] Fresh\"] = { id = 20, price = 5 }\n\
\t} :: {[string]: Product},\n\n\tProducts = {\n\
\t\t[\"Say \\\"hi\\\"\\\\now\"] = { id = 2, price = 0 }\n\
\t} :: {[string]: Product}\n}";
    assert_eq!(c.serialize_luau().unwrap(), expected);
}

#[test]
fn products_with_one_id_keep_their_order_in_the_script() {
    let c = catalog(
        Some("out.luau"),
        vec![],
        vec![product(Some(1), "B", 1), product(None, "Z", 1), product(Some(1), "A", 1), product(None, "Y", 1)],
    );
    let text = c.serialize_luau().unwrap();
    let titles: Vec<&str> = text
        .lines()
        .filter(|l| l.starts_with("\t\t["))
        .map(|l| l.split('"').nth(1).unwrap())
        .collect();
    assert_eq!(titles, vec!["Z", "Y", "B", "A"]);
}

#[test]
fn the_starting_catalog_is_empty_and_valid() {
    let c = VCSProducts::initial();
    assert_eq!(c.metadata.universe_id, 1234);
    assert_eq!(c.metadata.discount_prefix, Some("\u{1F4B2}{}% OFF\u{1F4B2} ".to_string()));
    assert_eq!(c.metadata.luau_file, Some("products.luau".to_string()));
    assert!(c.metadata.name_filters.is_none());
    assert!(c.gamepasses.entries.is_empty());
    assert!(c.products.entries.is_empty());
    assert!(c.is_well_formed());
}

#[test]
fn a_catalog_with_a_bad_price_or_a_repeated_key_is_not_well_formed() {
    let mut c = catalog(None, vec![product(Some(1), "A", -1)], vec![]);
    assert!(!c.is_well_formed());
    assert!(!c.gamepasses.is_priced());
    c.gamepasses.entries[0].product.price = 1;
    assert!(c.is_well_formed());
    let copy = c.gamepasses.entries[0].clone();
    c.gamepasses.entries.push(copy);
    assert!(!c.gamepasses.has_distinct_keys());
    assert!(!c.is_well_formed());
}

#[test]
fn a_table_finds_products_by_key_and_by_id() {
    let mut t = ProductTable::new();
    t.insert("a".to_string(), product(Some(1), "A", 1));
    t.insert("b".to_string(), product(None, "B", 1));
    t.insert("c".to_string(), product(Some(1), "C", 1));
    assert_eq!(t.len(), 3);
    assert_eq!(t.position_of_key(&"b".to_string()), Some(1));
    assert_eq!(t.position_of_key(&"z".to_string()), None);
    assert_eq!(t.position_of_id(Some(1)), Some(0));
    assert_eq!(t.position_of_id(None), Some(1));
    assert_eq!(t.position_of_id(Some(2)), None);
    assert_eq!(t.get(&"c".to_string()).unwrap().name, "C");
    assert!(t.get(&"d".to_string()).is_none());
    assert_eq!(t.entry(2).key, "c");
    t.insert("a".to_string(), product(Some(9), "A2", 1));
    assert_eq!(t.len(), 3);
    assert_eq!(t.entry(0).product.name, "A2");
    t.set_id(1, 44);
    assert_eq!(t.entry(1).product.id, Some(44));
    assert_eq!(t.entry(1).product.name, "B");
}

#[test]
fn a_line_of_the_script() {
    let mut out: Vec<char> = "x".chars().collect();
    push_line(&mut out, "\"VIP\"", 3, 800, false);
    push_line(&mut out, "\"Gems\"", 0, 0, true);
    let text: String = out.into_iter().collect();
    assert_eq!(
        text,
        "x\t\t[\"VIP\"] = { id = 3, price = 800 },\n\t\t[\"Gems\"] = { id = 0, price = 0 }\n"
    );
}
