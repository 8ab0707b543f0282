use rbx_product::catalog::{ProductTable, VCSProducts};
use rbx_product::confirm::ConfirmState;
use rbx_product::diff::{DiffChange, ProductDiff};
use rbx_product::model::ProductUpdateRequest;
use rbx_product::product::{Metadata, MultiProduct, Product, ProductType};
use rbx_product::upload::{
    after_creation, after_update, apply_discount_prefix, confirm_all, creation_approved,
    modification_step, selection_step, substitute, CreationResult, CreationStep, ModificationStep,
    QueueStep, SelectionStep, Uploader,
};

fn product(id: Option<u64>, name: &str, price: i64) -> Product {
    Product {
        id,
        name: name.to_string(),
        prefix: None,
        description: Some("Text.".to_string()),
        active: true,
        discount: None,
        price,
        regional_pricing: None,
    }
}

fn catalog(
    prefix: Option<&str>,
    passes: Vec<(&str, Product)>,
    products: Vec<(&str, Product)>,
) -> VCSProducts {
    let mut gamepasses = ProductTable::new();
    for (key, p) in passes {
        gamepasses.insert(key.to_string(), p);
    }
    let mut table = ProductTable::new();
    for (key, p) in products {
        table.insert(key.to_string(), p);
    }
    VCSProducts {
        metadata: Metadata {
            universe_id: 1,
            luau_file: None,
            discount_prefix: prefix.map(|p| p.to_string()),
            name_filters: None,
        },
        gamepasses,
        products: table,
    }
}

fn substituted(template: &str, value: &str) -> String {
    substitute(&template.chars().collect(), &value.chars().collect()).into_iter().collect()
}

#[test]
fn every_slot_of_a_template_is_filled() {
    assert_eq!(substituted("{}% OFF", "20"), "20% OFF");
    assert_eq!(substituted("a{}b{}c", "--"), "a--b--c");
    assert_eq!(substituted("no slot", "20"), "no slot");
    assert_eq!(substituted("", "20"), "");
    assert_eq!(substituted("{", "20"), "{");
    assert_eq!(substituted("{{}}", "x"), "{x}");
    assert_eq!(substituted("{}{}", ""), "");
    assert_eq!(substituted("} {", "x"), "} {");
}

#[test]
fn filling_a_template_is_what_std_replace_does() {
    let templates = ["{}", "{{}", "{}}", "a{}", "{}a{}", "{ }", "}{", "{}{}{}", "\u{1F4B2}{}% OFF\u{1F4B2}"];
    for t in templates {
        for v in ["", "7", "{}", "{"] {
            assert_eq!(substituted(t, v), t.replace("{}", v), "{:?} with {:?}", t, v);
        }
    }
}

#[test]
fn a_discounted_product_uploads_under_the_default_mark() {
    let mut vip = product(None, "VIP", 1000);
    vip.discount = Some(20);
    apply_discount_prefix(&mut vip, None);
    assert_eq!(vip.name, "\u{1F4B2}20% OFF\u{1F4B2} VIP");
    let request = ProductUpdateRequest::from_product(&vip);
    assert_eq!(request.name, "\u{1F4B2}20% OFF\u{1F4B2} VIP");
    assert_eq!(request.price, Some(800));
}

#[test]
fn a_configured_template_is_used_for_the_mark() {
    let mut vip = product(None, "VIP", 1000);
    vip.discount = Some(5);
    apply_discount_prefix(&mut vip, Some("SALE -{}%!".to_string()));
    assert_eq!(vip.name, "SALE -5%! VIP");
    let mut full = product(None, "VIP", 1000);
    full.discount = Some(100);
    apply_discount_prefix(&mut full, Some("{}".to_string()));
    assert_eq!(full.name, "100 VIP");
}

#[test]
fn a_product_without_discount_keeps_its_name() {
    let mut vip = product(None, "VIP", 1000);
    apply_discount_prefix(&mut vip, Some("SALE {}".to_string()));
    assert_eq!(vip, product(None, "VIP", 1000));
    vip.discount = Some(0);
    apply_discount_prefix(&mut vip, None);
    assert_eq!(vip.name, "VIP");
}

#[test]
fn products_without_id_are_pending() {
    let none = Uploader::new(catalog(None, vec![("a", product(Some(1), "A", 1))], vec![]), vec![]);
    assert!(!none.has_empty_products());
    let pass = Uploader::new(catalog(None, vec![("a", product(None, "A", 1))], vec![]), vec![]);
    assert!(pass.has_empty_products());
    let dev = Uploader::new(
        catalog(None, vec![("a", product(Some(1), "A", 1))], vec![("b", product(None, "B", 1))]),
        vec![],
    );
    assert!(dev.has_empty_products());
    let empty = Uploader::new(catalog(None, vec![], vec![]), vec![]);
    assert!(!empty.has_empty_products());
}

#[test]
fn creation_asks_unless_overwrite_is_set() {
    let none = Uploader::new(catalog(None, vec![("a", product(Some(1), "A", 1))], vec![]), vec![]);
    assert_eq!(none.creation_step(false), CreationStep::Nothing);
    assert_eq!(none.creation_step(true), CreationStep::Nothing);
    let some = Uploader::new(catalog(None, vec![("a", product(None, "A", 1))], vec![]), vec![]);
    assert_eq!(some.creation_step(false), CreationStep::AskApproval);
    assert_eq!(some.creation_step(true), CreationStep::Create);
}

#[test]
fn only_a_confirmation_approves_the_creation() {
    assert!(creation_approved(&ConfirmState::Confirmed));
    assert!(!creation_approved(&ConfirmState::Closed));
}

#[test]
fn creation_requests_cover_the_pending_products_passes_first() {
    let mut sale = product(None, "Sale", 200);
    sale.discount = Some(50);
    let c = catalog(
        Some("[-{}%]"),
        vec![("known", product(Some(1), "Known", 1)), ("vip", product(None, "VIP", 10))],
        vec![("sale", sale), ("gems", product(None, "Gems", 5)), ("old", product(Some(2), "Old", 1))],
    );
    let requests = Uploader::new(c, vec![]).creation_requests();
    let summary: Vec<(ProductType, &str, &str, Option<u64>)> = requests
        .iter()
        .map(|r| (r.product_type, r.key.as_str(), r.request.name.as_str(), r.request.price))
        .collect();
    assert_eq!(
        summary,
        vec![
            (ProductType::GamePass, "vip", "VIP", Some(10)),
            (ProductType::DevProduct, "sale", "[-50%] Sale", Some(100)),
            (ProductType::DevProduct, "gems", "Gems", Some(5)),
        ]
    );
    assert_eq!(
        requests[0].request,
        ProductUpdateRequest {
            name: "VIP".to_string(),
            description: Some("Text.".to_string()),
            is_for_sale: Some(true),
            price: Some(10),
            is_regional_pricing_enabled: None,
            store_page_enabled: None,
        }
    );
}

#[test]
fn a_failed_creation_leaves_its_product_without_id() {
    let c = catalog(
        None,
        vec![("first", product(None, "First", 1)), ("second", product(None, "Second", 2))],
        vec![],
    );
    let mut uploader = Uploader::new(c, vec![]);
    uploader.apply_created(&vec![
        CreationResult { product_type: ProductType::GamePass, key: "first".to_string(), id: Some(77) },
        CreationResult { product_type: ProductType::GamePass, key: "second".to_string(), id: None },
    ]);
    let entries = &uploader.local_products.gamepasses.entries;
    assert_eq!(entries.len(), 2);
    assert_eq!(entries[0].key, "first");
    assert_eq!(entries[0].product.id, Some(77));
    assert_eq!(entries[0].product.name, "First");
    assert_eq!(entries[1].key, "second");
    assert_eq!(entries[1].product, product(None, "Second", 2));
    assert!(uploader.has_empty_products());
}

#[test]
fn created_ids_go_to_the_table_of_their_kind() {
    let c = catalog(None, vec![("x", product(None, "Pass", 1))], vec![("x", product(None, "Dev", 2))]);
    let mut uploader = Uploader::new(c, vec![]);
    uploader.apply_created(&vec![
        CreationResult { product_type: ProductType::DevProduct, key: "x".to_string(), id: Some(5) },
        CreationResult { product_type: ProductType::GamePass, key: "gone".to_string(), id: Some(6) },
    ]);
    assert_eq!(uploader.local_products.gamepasses.entries[0].product.id, None);
    assert_eq!(uploader.local_products.products.entries[0].product.id, Some(5));
    assert_eq!(uploader.local_products.products.entries[0].product.name, "Dev");
}

#[test]
fn the_discount_mark_is_not_written_to_the_catalog() {
    let mut sale = product(None, "Sale", 200);
    sale.discount = Some(50);
    let mut uploader = Uploader::new(catalog(None, vec![("sale", sale)], vec![]), vec![]);
    let requests = uploader.creation_requests();
    assert_eq!(requests[0].request.name, "\u{1F4B2}50% OFF\u{1F4B2} Sale");
    uploader.apply_created(&vec![CreationResult {
        product_type: ProductType::GamePass,
        key: "sale".to_string(),
        id: Some(1),
    }]);
    assert_eq!(uploader.local_products.gamepasses.entries[0].product.name, "Sale");
}

#[test]
fn diffs_are_reported_one_time_products_first_then_by_id() {
    let c = catalog(
        None,
        vec![("gold", product(Some(9), "Gold", 1)), ("silver", product(Some(3), "Silver", 1))],
        vec![
            ("d8", product(Some(8), "D8", 1)),
            ("d2", product(Some(2), "D2", 1)),
            ("d5", product(Some(5), "D5", 1)),
        ],
    );
    let remote = vec![
        MultiProduct::GamePass(product(Some(3), "Silver", 2)),
        MultiProduct::GamePass(product(Some(9), "Gold", 2)),
        MultiProduct::DevProduct(product(Some(2), "D2", 2)),
        MultiProduct::DevProduct(product(Some(5), "D5", 2)),
        MultiProduct::DevProduct(product(Some(8), "D8", 2)),
    ];
    let diffs = Uploader::new(c, remote).product_diffs();
    let order: Vec<(ProductType, u64)> = diffs.iter().map(|d| (d.0, d.1.id)).collect();
    assert_eq!(
        order,
        vec![
            (ProductType::DevProduct, 2),
            (ProductType::DevProduct, 5),
            (ProductType::DevProduct, 8),
            (ProductType::GamePass, 3),
            (ProductType::GamePass, 9),
        ]
    );
    assert_eq!(diffs[0].1.name, "D2");
    assert_eq!(diffs[0].1.diffs[2], DiffChange::Changed(ProductDiff::Price(2, 1)));
    assert_eq!(confirm_all(&diffs), order);
}

#[test]
fn only_products_that_differ_from_their_record_are_reported() {
    let c = catalog(
        None,
        vec![
            ("same", product(Some(1), "Same", 1)),
            ("draft", product(None, "Draft", 1)),
            ("stale", product(Some(404), "Stale", 1)),
            ("changed", product(Some(2), "Changed", 1)),
        ],
        vec![],
    );
    let remote = vec![
        MultiProduct::GamePass(product(Some(1), "Same", 1)),
        MultiProduct::GamePass(product(Some(2), "Changed once", 1)),
    ];
    let diffs = Uploader::new(c, remote).product_diffs();
    assert_eq!(diffs.len(), 1);
    assert_eq!(diffs[0].0, ProductType::GamePass);
    assert_eq!(diffs[0].1.id, 2);
}

#[test]
fn a_product_is_compared_with_the_record_of_its_own_kind() {
    let c = catalog(None, vec![("a", product(Some(1), "Pass", 1))], vec![("b", product(Some(1), "Dev", 1))]);
    let remote = vec![
        MultiProduct::DevProduct(product(Some(1), "Dev", 1)),
        MultiProduct::GamePass(product(Some(1), "Pass", 7)),
    ];
    let diffs = Uploader::new(c, remote).product_diffs();
    assert_eq!(diffs.len(), 1);
    assert_eq!(diffs[0].0, ProductType::GamePass);
    assert_eq!(diffs[0].1.name, "Pass");
}

#[test]
fn the_first_record_with_the_id_is_compared() {
    let c = catalog(None, vec![("a", product(Some(1), "Pass", 1))], vec![]);
    let remote = vec![
        MultiProduct::GamePass(product(Some(1), "Pass", 1)),
        MultiProduct::GamePass(product(Some(1), "Other", 9)),
    ];
    assert!(Uploader::new(c, remote).product_diffs().is_empty());
}

#[test]
fn diffs_of_one_kind_and_id_keep_their_order() {
    let c = catalog(
        None,
        vec![("first", product(Some(1), "First", 1)), ("second", product(Some(1), "Second", 1))],
        vec![],
    );
    let remote = vec![MultiProduct::GamePass(product(Some(1), "Remote", 1))];
    let diffs = Uploader::new(c, remote).product_diffs();
    let names: Vec<&str> = diffs.iter().map(|d| d.1.name.as_str()).collect();
    assert_eq!(names, vec!["First", "Second"]);
}

#[test]
fn modification_ends_without_diffs_and_asks_unless_overwrite_is_set() {
    assert_eq!(modification_step(0, false), ModificationStep::Nothing);
    assert_eq!(modification_step(0, true), ModificationStep::Nothing);
    assert_eq!(modification_step(3, false), ModificationStep::AskSelection);
    assert_eq!(modification_step(3, true), ModificationStep::PushAll);
}

#[test]
fn declining_aborts_and_an_empty_selection_ends_the_phase() {
    assert_eq!(selection_step(&ConfirmState::Closed, 2), SelectionStep::Abort);
    assert_eq!(selection_step(&ConfirmState::Closed, 0), SelectionStep::Abort);
    assert_eq!(selection_step(&ConfirmState::Confirmed, 0), SelectionStep::Nothing);
    assert_eq!(selection_step(&ConfirmState::Confirmed, 2), SelectionStep::Push);
}

#[test]
fn an_update_sends_the_marked_name_and_the_discounted_price() {
    let mut vip = product(Some(4), "VIP", 1000);
    vip.discount = Some(20);
    vip.prefix = Some("[x]".to_string());
    vip.regional_pricing = Some(true);
    let c = catalog(None, vec![("vip", vip)], vec![("gems", product(Some(4), "Gems", 3))]);
    let uploader = Uploader::new(c, vec![]);
    assert_eq!(
        uploader.update_request(ProductType::GamePass, 4),
        Some(ProductUpdateRequest {
            name: "\u{1F4B2}20% OFF\u{1F4B2} VIP".to_string(),
            description: Some("Text.".to_string()),
            is_for_sale: Some(true),
            price: Some(800),
            is_regional_pricing_enabled: Some(true),
            store_page_enabled: None,
        })
    );
    assert_eq!(uploader.update_request(ProductType::DevProduct, 4).unwrap().name, "Gems");
    assert_eq!(uploader.update_request(ProductType::DevProduct, 5), None);
}

#[test]
fn an_update_of_a_prefixed_product_sends_its_title() {
    let mut vip = product(Some(4), "VIP", 1000);
    vip.prefix = Some("[x]".to_string());
    let c = catalog(Some("{}%"), vec![("vip", vip)], vec![]);
    let request = Uploader::new(c, vec![]).update_request(ProductType::GamePass, 4).unwrap();
    assert_eq!(request.name, "[x] VIP");
    assert_eq!(request.price, Some(1000));
}

#[test]
fn a_failed_creation_does_not_stop_the_others() {
    assert_eq!(after_creation(true), QueueStep::Continue);
    assert_eq!(after_creation(false), QueueStep::Continue);
}

#[test]
fn a_failed_update_stops_the_queue() {
    assert_eq!(after_update(true), QueueStep::Continue);
    assert_eq!(after_update(false), QueueStep::Abort);
}

#[test]
fn every_pending_product_and_no_other_has_a_request() {
    let c = catalog(
        None,
        vec![("a", product(None, "A", 1)), ("b", product(Some(1), "B", 1))],
        vec![("c", product(None, "C", 1)), ("d", product(None, "D", 1))],
    );
    let requests = Uploader::new(c, vec![]).creation_requests();
    let keys: Vec<(ProductType, &str)> =
        requests.iter().map(|r| (r.product_type, r.key.as_str())).collect();
    assert_eq!(
        keys,
        vec![
            (ProductType::GamePass, "a"),
            (ProductType::DevProduct, "c"),
            (ProductType::DevProduct, "d"),
        ]
    );
}

#[test]
fn every_reported_difference_carries_the_id_of_a_local_product_of_its_kind() {
    let c = catalog(
        None,
        vec![("a", product(Some(1), "A", 1)), ("b", product(Some(2), "B", 1))],
        vec![("c", product(Some(1), "C", 1))],
    );
    let remote = vec![
        MultiProduct::GamePass(product(Some(1), "A", 5)),
        MultiProduct::GamePass(product(Some(3), "Z", 5)),
        MultiProduct::DevProduct(product(Some(1), "C", 5)),
        MultiProduct::DevProduct(product(Some(2), "B", 5)),
    ];
    let uploader = Uploader::new(c, remote);
    let diffs = uploader.product_diffs();
    let found: Vec<(ProductType, u64, &str)> =
        diffs.iter().map(|d| (d.0, d.1.id, d.1.name.as_str())).collect();
    assert_eq!(found, vec![(ProductType::DevProduct, 1, "C"), (ProductType::GamePass, 1, "A")]);
    for (kind, id, _) in found {
        assert!(uploader.update_request(kind, id).is_some());
    }
}
