use rbx_product::catalog::{ProductTable, VCSProducts};
use rbx_product::download::{merge_into, store_regional, Downloader};
use rbx_product::product::{Metadata, MultiProduct, Product};
use rbx_product::text::NameFilter;

fn local(id: Option<u64>, name: &str) -> Product {
    Product {
        id,
        name: name.to_string(),
        prefix: Some("[HOT]".to_string()),
        description: Some("Local text.".to_string()),
        active: true,
        discount: Some(25),
        price: 400,
        regional_pricing: Some(true),
    }
}

fn remote(id: u64, name: &str) -> Product {
    Product {
        id: Some(id),
        name: name.to_string(),
        prefix: None,
        description: Some("Remote text.".to_string()),
        active: false,
        discount: None,
        price: 900,
        regional_pricing: Some(false),
    }
}

fn catalog(passes: Vec<(&str, Product)>, products: Vec<(&str, Product)>) -> VCSProducts {
    let mut gamepasses = ProductTable::new();
    for (key, p) in passes {
        gamepasses.insert(key.to_string(), p);
    }
    let mut table = ProductTable::new();
    for (key, p) in products {
        table.insert(key.to_string(), p);
    }
    VCSProducts {
        metadata: Metadata {
            universe_id: 1,
            luau_file: None,
            discount_prefix: None,
            name_filters: None,
        },
        gamepasses,
        products: table,
    }
}

fn keys(table: &ProductTable) -> Vec<String> {
    table.entries.iter().map(|e| e.key.clone()).collect()
}

#[test]
fn regional_pricing_that_is_off_is_left_out() {
    assert_eq!(store_regional(Some(false)), None);
    assert_eq!(store_regional(Some(true)), Some(true));
    assert_eq!(store_regional(None), None);
}

#[test]
fn a_new_record_is_filed_under_the_slug_of_its_canonical_name() {
    let c = catalog(vec![], vec![]);
    let records = vec![MultiProduct::GamePass(remote(5, "\u{1F4B2}20% OFF\u{1F4B2} Mega VIP [new]"))];
    let out = Downloader::new(c, records).merge(false);
    assert_eq!(keys(&out.gamepasses), vec!["mega-vip"]);
    assert!(out.products.entries.is_empty());
    let p = &out.gamepasses.entries[0].product;
    assert_eq!(
        *p,
        Product {
            id: Some(5),
            name: "Mega VIP".to_string(),
            prefix: None,
            description: Some("Remote text.".to_string()),
            active: false,
            discount: None,
            price: 900,
            regional_pricing: None,
        }
    );
}

#[test]
fn records_go_to_the_table_of_their_kind() {
    let c = catalog(vec![], vec![]);
    let records = vec![
        MultiProduct::GamePass(remote(1, "Pass")),
        MultiProduct::DevProduct(remote(1, "Gems")),
    ];
    let out = Downloader::new(c, records).merge(false);
    assert_eq!(keys(&out.gamepasses), vec!["pass"]);
    assert_eq!(keys(&out.products), vec!["gems"]);
}

#[test]
fn without_overwrite_a_matched_product_keeps_what_was_edited() {
    let c = catalog(vec![("my-key", local(Some(5), "Local  Name [x]"))], vec![]);
    let out = Downloader::new(c, vec![MultiProduct::GamePass(remote(5, "Remote Name"))]).merge(false);
    assert_eq!(keys(&out.gamepasses), vec!["my-key"]);
    assert_eq!(
        out.gamepasses.entries[0].product,
        Product {
            id: Some(5),
            name: "Local Name".to_string(),
            prefix: Some("[HOT]".to_string()),
            description: Some("Local text.".to_string()),
            active: false,
            discount: Some(25),
            price: 400,
            regional_pricing: Some(true),
        }
    );
}

#[test]
fn with_overwrite_the_remote_values_win() {
    let c = catalog(vec![("my-key", local(Some(5), "Local Name"))], vec![]);
    let mut record = remote(5, "Remote  Name");
    record.regional_pricing = Some(true);
    let out = Downloader::new(c, vec![MultiProduct::GamePass(record)]).merge(true);
    assert_eq!(keys(&out.gamepasses), vec!["my-key"]);
    assert_eq!(
        out.gamepasses.entries[0].product,
        Product {
            id: Some(5),
            name: "Remote Name".to_string(),
            prefix: None,
            description: Some("Remote text.".to_string()),
            active: false,
            discount: Some(25),
            price: 900,
            regional_pricing: Some(true),
        }
    );
}

#[test]
fn regional_pricing_is_never_stored_as_off() {
    for overwrite in [false, true] {
        let mut mine = local(Some(5), "A");
        mine.regional_pricing = Some(false);
        let c = catalog(vec![("a", mine)], vec![]);
        let records = vec![
            MultiProduct::GamePass(remote(5, "A")),
            MultiProduct::GamePass(remote(6, "B")),
        ];
        let out = Downloader::new(c, records).merge(overwrite);
        for e in &out.gamepasses.entries {
            assert_eq!(e.product.regional_pricing, None);
        }
    }
}

#[test]
fn a_censored_description_never_replaces_a_local_one() {
    for overwrite in [false, true] {
        let c = catalog(vec![("a", local(Some(5), "A"))], vec![]);
        let mut record = remote(5, "A");
        record.description = Some("#### ## ####".to_string());
        let out = Downloader::new(c, vec![MultiProduct::GamePass(record)]).merge(overwrite);
        assert_eq!(
            out.gamepasses.entries[0].product.description,
            Some("Local text.".to_string())
        );
    }
}

#[test]
fn a_censored_description_is_taken_for_a_new_product() {
    let c = catalog(vec![], vec![]);
    let mut record = remote(5, "A");
    record.description = Some("###".to_string());
    let out = Downloader::new(c, vec![MultiProduct::DevProduct(record)]).merge(false);
    assert_eq!(out.products.entries[0].product.description, Some("###".to_string()));
}

#[test]
fn a_discount_survives_only_while_it_is_active() {
    for overwrite in [false, true] {
        let mut none = local(Some(1), "A");
        none.discount = None;
        let mut zero = local(Some(2), "B");
        zero.discount = Some(0);
        let some = local(Some(3), "C");
        let c = catalog(vec![("a", none), ("b", zero), ("c", some)], vec![]);
        let records = vec![
            MultiProduct::GamePass(remote(1, "A")),
            MultiProduct::GamePass(remote(2, "B")),
            MultiProduct::GamePass(remote(3, "C")),
        ];
        let out = Downloader::new(c, records).merge(overwrite);
        assert_eq!(out.gamepasses.entries[0].product.discount, None);
        assert_eq!(out.gamepasses.entries[1].product.discount, None);
        assert_eq!(out.gamepasses.entries[2].product.discount, Some(25));
    }
}

#[test]
fn the_first_product_with_the_id_is_the_match() {
    let c = catalog(
        vec![("first", local(Some(5), "First")), ("second", local(Some(5), "Second"))],
        vec![],
    );
    let out = Downloader::new(c, vec![MultiProduct::GamePass(remote(5, "Remote"))]).merge(true);
    assert_eq!(keys(&out.gamepasses), vec!["first", "second"]);
    assert_eq!(out.gamepasses.entries[0].product.name, "Remote");
    assert_eq!(out.gamepasses.entries[1].product.name, "Second");
}

#[test]
fn products_that_no_record_matches_stay_as_they_are() {
    let c = catalog(vec![("mine", local(None, "Draft")), ("old", local(Some(9), "Old"))], vec![]);
    let out = Downloader::new(c, vec![MultiProduct::GamePass(remote(5, "Fresh"))]).merge(true);
    assert_eq!(keys(&out.gamepasses), vec!["mine", "old", "fresh"]);
    assert_eq!(out.gamepasses.entries[0].product, local(None, "Draft"));
    assert_eq!(out.gamepasses.entries[1].product, local(Some(9), "Old"));
}

#[test]
fn a_new_record_takes_the_place_of_a_product_with_its_key() {
    let c = catalog(vec![("fresh", local(Some(9), "Old"))], vec![]);
    let out = Downloader::new(c, vec![MultiProduct::GamePass(remote(5, "Fresh"))]).merge(false);
    assert_eq!(keys(&out.gamepasses), vec!["fresh"]);
    assert_eq!(out.gamepasses.entries[0].product.id, Some(5));
    assert_eq!(out.gamepasses.entries[0].product.discount, None);
}

#[test]
fn merging_again_changes_nothing() {
    let c = catalog(vec![("a", local(Some(1), "A"))], vec![]);
    let records = || {
        vec![
            MultiProduct::GamePass(remote(1, "A")),
            MultiProduct::GamePass(remote(2, "B [x]")),
            MultiProduct::DevProduct(remote(3, "C")),
        ]
    };
    let once = Downloader::new(c, records()).merge(false);
    let passes: Vec<(String, Product)> =
        once.gamepasses.entries.iter().map(|e| (e.key.clone(), e.product.clone())).collect();
    let products: Vec<(String, Product)> =
        once.products.entries.iter().map(|e| (e.key.clone(), e.product.clone())).collect();
    let twice = Downloader::new(once, records()).merge(false);
    let passes2: Vec<(String, Product)> =
        twice.gamepasses.entries.iter().map(|e| (e.key.clone(), e.product.clone())).collect();
    let products2: Vec<(String, Product)> =
        twice.products.entries.iter().map(|e| (e.key.clone(), e.product.clone())).collect();
    assert_eq!(passes, passes2);
    assert_eq!(products, products2);
}

#[test]
fn the_catalog_filters_are_used_for_names_and_keys() {
    let mut c = catalog(vec![], vec![]);
    c.metadata.name_filters = Some(vec![NameFilter::new("(?i)deluxe".to_string()).unwrap()]);
    let out = Downloader::new(c, vec![MultiProduct::GamePass(remote(5, "VIP Deluxe [x]"))]).merge(false);
    assert_eq!(keys(&out.gamepasses), vec!["vip-x"]);
    assert_eq!(out.gamepasses.entries[0].product.name, "VIP [x]");
}

#[test]
fn one_record_can_be_merged_into_a_table() {
    let mut table = ProductTable::new();
    table.insert("a".to_string(), local(Some(1), "A"));
    merge_into(&mut table, &remote(1, "Z"), true, &None);
    merge_into(&mut table, &remote(2, "Y"), true, &None);
    assert_eq!(keys(&table), vec!["a", "y"]);
    assert_eq!(table.entries[0].product.name, "Z");
}

#[test]
fn the_merged_catalog_is_well_formed() {
    let c = catalog(vec![("a", local(Some(1), "A"))], vec![("b", local(None, "B"))]);
    assert!(c.is_well_formed());
    let out = Downloader::new(c, vec![MultiProduct::GamePass(remote(2, "A"))]).merge(false);
    assert!(out.is_well_formed());
    assert_eq!(keys(&out.gamepasses), vec!["a"]);
    assert_eq!(out.gamepasses.entries[0].product.id, Some(2));
}
