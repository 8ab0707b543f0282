use rbx_product::diff::{DiffChange, ProductDiff, ProductDiffs};
use rbx_product::product::{is_changed, Metadata, MultiProduct, Product, ProductType};

fn product(name: &str, price: i64) -> Product {
    Product {
        id: Some(7),
        name: name.to_string(),
        prefix: None,
        description: Some("A pass.".to_string()),
        active: true,
        discount: None,
        price,
        regional_pricing: None,
    }
}

fn changed(diffs: &ProductDiffs) -> Vec<usize> {
    let mut out = vec![];
    for (i, d) in diffs.diffs.iter().enumerate() {
        if is_changed(d) {
            out.push(i);
        }
    }
    out
}

#[test]
fn price_without_discount_is_the_price() {
    assert_eq!(product("VIP", 1000).get_price(), 1000);
    let mut zero = product("VIP", 1000);
    zero.discount = Some(0);
    assert_eq!(zero.get_price(), 1000);
    assert_eq!(product("Free", 0).get_price(), 0);
}

#[test]
fn price_with_discount_is_rounded_down() {
    let mut p = product("VIP", 1000);
    p.discount = Some(20);
    assert_eq!(p.get_price(), 800);
    p.price = 999;
    p.discount = Some(33);
    assert_eq!(p.get_price(), 669);
    p.price = 1;
    p.discount = Some(50);
    assert_eq!(p.get_price(), 0);
    p.price = 199;
    p.discount = Some(1);
    assert_eq!(p.get_price(), 197);
}

#[test]
fn full_discount_is_free() {
    let mut p = product("VIP", 1000);
    p.discount = Some(100);
    assert_eq!(p.get_price(), 0);
}

#[test]
fn price_is_the_floor_for_every_percentage() {
    let prices: [i64; 7] = [0, 1, 99, 100, 101, 12345, i64::MAX];
    for price in prices {
        for d in 1..=100u8 {
            let mut p = product("VIP", price);
            p.discount = Some(d);
            let e = p.get_price() as i128;
            let whole = price as i128 * (100 - d as i128);
            assert!(100 * e <= whole && whole < 100 * (e + 1), "{} at {}%", price, d);
        }
    }
}

#[test]
fn largest_price_does_not_overflow() {
    let mut p = product("VIP", i64::MAX);
    p.discount = Some(1);
    assert_eq!(p.get_price(), 9131138316486228048);
    p.discount = None;
    assert_eq!(p.get_price(), i64::MAX as u64);
}

#[test]
fn discount_counts_only_above_zero() {
    let mut p = product("VIP", 10);
    assert!(!p.has_discount());
    p.discount = Some(0);
    assert!(!p.has_discount());
    p.discount = Some(1);
    assert!(p.has_discount());
}

#[test]
fn well_formed_means_price_and_percentage_in_range() {
    let mut p = product("VIP", 10);
    assert!(p.is_well_formed());
    p.discount = Some(100);
    assert!(p.is_well_formed());
    p.discount = Some(101);
    assert!(!p.is_well_formed());
    p.discount = None;
    p.price = -1;
    assert!(!p.is_well_formed());
}

#[test]
fn title_is_the_name_behind_its_prefix() {
    let mut p = product("VIP", 10);
    assert_eq!(p.get_title(), "VIP");
    p.prefix = Some("[NEW]".to_string());
    assert_eq!(p.get_title(), "[NEW] VIP");
    p.prefix = Some("".to_string());
    assert_eq!(p.get_title(), " VIP");
}

#[test]
fn title_under_a_discount_is_the_bare_name() {
    let mut p = product("VIP", 10);
    p.prefix = Some("[NEW]".to_string());
    p.discount = Some(20);
    assert_eq!(p.get_title(), "VIP");
    p.discount = Some(0);
    assert_eq!(p.get_title(), "[NEW] VIP");
}

#[test]
fn clone_keeps_every_field() {
    let mut p = product("VIP", 10);
    p.prefix = Some("x".to_string());
    p.discount = Some(3);
    p.regional_pricing = Some(true);
    assert_eq!(p.clone(), p);
}

#[test]
fn identical_products_have_no_diff() {
    let local = product("VIP", 1000);
    let remote = product("VIP", 1000);
    assert_eq!(local.diff(&remote, None), None);
}

#[test]
fn products_that_upload_the_same_have_no_diff() {
    // The local title and discounted price are what the remote record holds.
    let mut local = product("VIP", 1000);
    local.prefix = Some("[NEW]".to_string());
    local.regional_pricing = None;
    let mut remote = product("[NEW] VIP", 1000);
    remote.regional_pricing = Some(false);
    remote.id = Some(99);
    assert_eq!(local.diff(&remote, None), None);

    let mut discounted = product("VIP", 1000);
    discounted.discount = Some(20);
    let remote = product("VIP", 800);
    assert_eq!(discounted.diff(&remote, None), None);
}

#[test]
fn diff_lists_all_five_fields_in_order() {
    let local = product("VIP", 1000);
    let mut remote = product("VIP", 500);
    remote.regional_pricing = Some(true);
    let diffs = local.diff(&remote, None).unwrap();
    assert_eq!(diffs.name, "VIP");
    assert_eq!(diffs.id, 7);
    assert_eq!(
        diffs.diffs,
        vec![
            DiffChange::Unchanged(ProductDiff::Title("VIP".to_string(), "VIP".to_string())),
            DiffChange::Unchanged(ProductDiff::Description(
                "A pass.".to_string(),
                "A pass.".to_string()
            )),
            DiffChange::Changed(ProductDiff::Price(500, 1000)),
            DiffChange::Changed(ProductDiff::RegionalPricing(true, false)),
            DiffChange::Unchanged(ProductDiff::Active(true, true)),
        ]
    );
}

#[test]
fn one_changed_field_gives_one_changed_entry() {
    let local = product("VIP", 1000);

    let remote = product("Vip", 1000);
    assert_eq!(changed(&local.diff(&remote, None).unwrap()), vec![0]);

    let mut remote = product("VIP", 1000);
    remote.description = Some("Another.".to_string());
    assert_eq!(changed(&local.diff(&remote, None).unwrap()), vec![1]);

    let remote = product("VIP", 999);
    assert_eq!(changed(&local.diff(&remote, None).unwrap()), vec![2]);

    let mut remote = product("VIP", 1000);
    remote.regional_pricing = Some(true);
    assert_eq!(changed(&local.diff(&remote, None).unwrap()), vec![3]);

    let mut remote = product("VIP", 1000);
    remote.active = false;
    assert_eq!(changed(&local.diff(&remote, None).unwrap()), vec![4]);
}

#[test]
fn diff_compares_the_discounted_price() {
    let mut local = product("VIP", 1000);
    local.discount = Some(20);
    let remote = product("VIP", 1000);
    let diffs = local.diff(&remote, None).unwrap();
    assert_eq!(changed(&diffs), vec![2]);
    assert_eq!(diffs.diffs[2], DiffChange::Changed(ProductDiff::Price(1000, 800)));
}

#[test]
fn diff_does_not_put_the_discount_mark_on_the_title() {
    let metadata = Metadata {
        universe_id: 1,
        luau_file: None,
        discount_prefix: Some("SALE {}%".to_string()),
        name_filters: None,
    };
    let mut local = product("VIP", 1000);
    local.discount = Some(20);
    let remote = product("VIP", 800);
    assert_eq!(local.diff(&remote, Some(&metadata)), None);
    let marked = product("SALE 20% VIP", 800);
    let diffs = local.diff(&marked, Some(&metadata)).unwrap();
    assert_eq!(
        diffs.diffs[0],
        DiffChange::Changed(ProductDiff::Title("SALE 20% VIP".to_string(), "VIP".to_string()))
    );
}

#[test]
fn missing_remote_description_counts_as_empty() {
    let mut local = product("VIP", 1000);
    local.description = None;
    let mut remote = product("VIP", 1000);
    remote.description = None;
    assert_eq!(local.diff(&remote, None), None);

    local.description = Some("".to_string());
    assert_eq!(local.diff(&remote, None), None);

    local.description = Some("text".to_string());
    let diffs = local.diff(&remote, None).unwrap();
    assert_eq!(
        diffs.diffs[1],
        DiffChange::Changed(ProductDiff::Description("".to_string(), "text".to_string()))
    );
}

#[test]
fn diff_of_a_product_without_id_reports_id_zero() {
    let mut local = product("VIP", 1000);
    local.id = None;
    let remote = product("VIP", 1);
    assert_eq!(local.diff(&remote, None).unwrap().id, 0);
}

#[test]
fn diffs_can_be_copied() {
    let local = product("VIP", 1000);
    let remote = product("Vip", 10);
    let diffs = local.diff(&remote, None).unwrap();
    assert_eq!(diffs.clone(), diffs);
}

#[test]
fn a_record_knows_its_kind_and_product() {
    let pass = MultiProduct::GamePass(product("A", 1));
    let dev = MultiProduct::DevProduct(product("B", 2));
    assert_eq!(pass.product_type(), ProductType::GamePass);
    assert_eq!(dev.product_type(), ProductType::DevProduct);
    assert_eq!(pass.product().name, "A");
    assert_eq!(dev.product().price, 2);
}
