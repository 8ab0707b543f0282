//! Folding freshly fetched remote records into the local catalog.
//!
//! A remote record is matched with the first local product of its kind that
//! has its id. Without the overwrite flag a matched product keeps its name,
//! prefix, description, price and regional pricing; with it the remote values
//! win, except that a description which the platform has censored never
//! replaces a local one. A matched product keeps its key; a new one is keyed
//! by the slug of its canonical name.

use crate::catalog::{
    all_wf, distinct_keys, id_position, inserted, is_first_with_key, key_position,
    lemma_id_position, lemma_inserted, lemma_key_position_found, EntryView, ProductTable,
    VCSProducts, VCSProductsView,
};
use crate::product::{clone_text, MultiProduct, Product, ProductType, ProductView};
use crate::text::{
    canonical_name, canonical_of, censored, filter_patterns, format_name, is_censored, slug_of,
    NameFilter,
};
use vstd::prelude::*;

verus! {

/// Regional pricing as the catalog stores it: a flag that is off is left out.
pub open spec fn stored_regional(flag: Option<bool>) -> Option<bool> {
    if flag == Some(false) {
        None
    } else {
        flag
    }
}

/// The description of a merged product. A new product takes the remote one.
/// A matched product keeps its own unless the remote one is to overwrite it
/// and is not censored.
pub open spec fn merged_description(
    existing: Option<ProductView>,
    remote: ProductView,
    overwrite: bool,
) -> Option<Seq<char>> {
    match existing {
        Some(local) => if !overwrite {
            local.description
        } else if remote.description matches Some(d) && censored(d) {
            local.description
        } else {
            remote.description
        },
        None => remote.description,
    }
}

/// The product that a remote record becomes, given the local product that
/// it was matched with, if any.
pub open spec fn merged_product(
    existing: Option<ProductView>,
    remote: ProductView,
    overwrite: bool,
    patterns: Seq<Seq<char>>,
) -> ProductView {
    let keep = existing is Some && !overwrite;
    ProductView {
        id: remote.id,
        name: if keep {
            canonical_of(existing->0.name, patterns)
        } else {
            canonical_of(remote.name, patterns)
        },
        prefix: if keep {
            existing->0.prefix
        } else {
            None
        },
        description: merged_description(existing, remote, overwrite),
        active: remote.active,
        discount: if existing is Some && existing->0.has_discount() {
            existing->0.discount
        } else {
            None
        },
        price: if keep {
            existing->0.price
        } else {
            remote.price
        },
        regional_pricing: stored_regional(
            if keep {
                existing->0.regional_pricing
            } else {
                remote.regional_pricing
            },
        ),
    }
}

/// The local product that a remote record is matched with: the first in the
/// table that has its id.
pub open spec fn matched(t: Seq<EntryView>, remote: ProductView) -> Option<ProductView> {
    match id_position(t, remote.id) {
        Some(i) => Some(t[i].product),
        None => None,
    }
}

/// The key under which a remote record is filed: that of the product it was
/// matched with, or the slug of its canonical name.
pub open spec fn merged_key(
    t: Seq<EntryView>,
    remote: ProductView,
    patterns: Seq<Seq<char>>,
) -> Seq<char> {
    match id_position(t, remote.id) {
        Some(i) => t[i].key,
        None => slug_of(canonical_of(remote.name, patterns)),
    }
}

/// A table after one remote record has been merged into it.
pub open spec fn merge_one(
    t: Seq<EntryView>,
    remote: ProductView,
    overwrite: bool,
    patterns: Seq<Seq<char>>,
) -> Seq<EntryView> {
    inserted(
        t,
        merged_key(t, remote, patterns),
        merged_product(matched(t, remote), remote, overwrite, patterns),
    )
}

/// A catalog after one remote record has been merged into the table of its
/// kind.
pub open spec fn merge_record(
    c: VCSProductsView,
    record: (ProductType, ProductView),
    overwrite: bool,
) -> VCSProductsView {
    c.with_table(
        record.0,
        merge_one(c.table(record.0), record.1, overwrite, c.metadata.name_filters),
    )
}

/// A catalog after the remote records have been merged into it, first to
/// last.
pub open spec fn merge_all(
    c: VCSProductsView,
    records: Seq<(ProductType, ProductView)>,
    overwrite: bool,
) -> VCSProductsView
    decreases records.len(),
{
    if records.len() == 0 {
        c
    } else {
        merge_record(merge_all(c, records.drop_last(), overwrite), records.last(), overwrite)
    }
}

/// Every record's product has a price that is not negative and a discount
/// that is a percentage.
pub open spec fn records_wf(records: Seq<(ProductType, ProductView)>) -> bool {
    forall|i: int| 0 <= i < records.len() ==> (#[trigger] records[i]).1.wf()
}

/// Whether every record's product has a price that is not negative and a
/// discount that is a percentage.
pub fn records_are_priced(records: &Vec<MultiProduct>) -> (b: bool)
    ensures
        b == records_wf(records@.map_values(|r: MultiProduct| r@)),
{
    let ghost all = records@.map_values(|r: MultiProduct| r@);
    let mut i: usize = 0;
    while i < records.len()
        invariant
            i <= records.len(),
            all == records@.map_values(|r: MultiProduct| r@),
            forall|j: int| 0 <= j < i ==> (#[trigger] all[j]).1.wf(),
        decreases records.len() - i,
    {
        if !records[i].product().is_well_formed() {
            proof {
                assert(!all[i as int].1.wf());
            }
            return false;
        }
        i += 1;
    }
    true
}

/// Regional pricing as the catalog stores it.
pub fn store_regional(flag: Option<bool>) -> (out: Option<bool>)
    ensures
        out == stored_regional(flag),
{
    match flag {
        Some(false) => None,
        other => other,
    }
}

/// Merges one remote record into a table.
pub fn merge_into(
    table: &mut ProductTable,
    remote: &Product,
    overwrite: bool,
    filters: &Option<Vec<NameFilter>>,
)
    ensures
        final(table)@ == merge_one(old(table)@, remote@, overwrite, filter_patterns(*filters)),
        old(table).wf() ==> final(table).wf(),
{
    let ghost patterns = filter_patterns(*filters);
    let ghost before = table@;
    let remote_name = canonical_name(remote.name.as_str(), filters);
    proof {
        lemma_id_position(before, remote@.id);
    }
    let (key, product) = match table.position_of_id(remote.id) {
        Some(i) => {
            let entry = table.entry(i);
            let local = &entry.product;
            let censored_remote = match &remote.description {
                Some(d) => is_censored(d.as_str()),
                None => false,
            };
            let product = Product {
                id: remote.id,
                name: if overwrite {
                    remote_name
                } else {
                    canonical_name(local.name.as_str(), filters)
                },
                prefix: if overwrite {
                    None
                } else {
                    clone_text(&local.prefix)
                },
                description: if !overwrite || censored_remote {
                    clone_text(&local.description)
                } else {
                    clone_text(&remote.description)
                },
                active: remote.active,
                discount: if local.has_discount() {
                    local.discount
                } else {
                    None
                },
                price: if overwrite {
                    remote.price
                } else {
                    local.price
                },
                regional_pricing: store_regional(
                    if overwrite {
                        remote.regional_pricing
                    } else {
                        local.regional_pricing
                    },
                ),
            };
            (entry.key.clone(), product)
        },
        None => {
            let key = format_name(remote_name.as_str());
            let product = Product {
                id: remote.id,
                name: remote_name,
                prefix: None,
                description: clone_text(&remote.description),
                active: remote.active,
                discount: None,
                price: remote.price,
                regional_pricing: store_regional(remote.regional_pricing),
            };
            (key, product)
        },
    };
    proof {
        assert(key@ == merged_key(before, remote@, patterns));
        assert(product@ == merged_product(matched(before, remote@), remote@, overwrite, patterns));
    }
    table.insert(key, product);
}

/// The local catalog and the remote records that are to be merged into it.
#[derive(Debug)]
pub struct Downloader {
    pub local_products: VCSProducts,
    pub remote_products: Vec<MultiProduct>,
}

/// The values of a list of remote records.
pub open spec fn records_of(records: Seq<MultiProduct>) -> Seq<(ProductType, ProductView)> {
    records.map_values(|r: MultiProduct| r@)
}

impl Downloader {
    /// A download of `remote_products` into `local_products`.
    pub fn new(local_products: VCSProducts, remote_products: Vec<MultiProduct>) -> (out: Self)
        ensures
            out.local_products == local_products,
            out.remote_products == remote_products,
    {
        Downloader { local_products, remote_products }
    }

    /// The catalog after every remote record has been merged into it, in
    /// the order in which the records were fetched.
    pub fn merge(self, overwrite: bool) -> (out: VCSProducts)
        ensures
            out@ == merge_all(
                self.local_products@,
                records_of(self.remote_products@),
                overwrite,
            ),
            self.local_products@.wf() ==> out@.wf(),
            self.local_products@.wf() && self.local_products@.priced() && records_wf(
                records_of(self.remote_products@),
            ) ==> out@.priced(),
    {
        let Downloader { local_products, remote_products } = self;
        let mut catalog = local_products;
        let ghost start = catalog@;
        let ghost records = records_of(remote_products@);
        let mut i: usize = 0;
        while i < remote_products.len()
            invariant
                i <= remote_products.len(),
                records == records_of(remote_products@),
                catalog@ == merge_all(start, records.take(i as int), overwrite),
                start.wf() ==> catalog@.wf(),
            decreases remote_products.len() - i,
        {
            proof {
                assert(records.take(i + 1).drop_last() =~= records.take(i as int));
                assert(records.take(i + 1).last() == remote_products@[i as int]@);
            }
            let record = &remote_products[i];
            match record.product_type() {
                ProductType::GamePass => {
                    merge_into(
                        &mut catalog.gamepasses,
                        record.product(),
                        overwrite,
                        &catalog.metadata.name_filters,
                    );
                },
                ProductType::DevProduct => {
                    merge_into(
                        &mut catalog.products,
                        record.product(),
                        overwrite,
                        &catalog.metadata.name_filters,
                    );
                },
            }
            i += 1;
        }
        proof {
            assert(records.take(records.len() as int) =~= records);
            if start.wf() {
                lemma_merge_all(start, records, overwrite);
            }
        }
        catalog
    }
}

/// No product of `t` stores regional pricing as off.
pub open spec fn no_regional_off(t: Seq<EntryView>) -> bool {
    forall|i: int| 0 <= i < t.len() ==> (#[trigger] t[i]).product.regional_pricing != Some(false)
}

/// A merged product never stores regional pricing as off.
pub proof fn lemma_merged_regional(
    existing: Option<ProductView>,
    remote: ProductView,
    overwrite: bool,
    patterns: Seq<Seq<char>>,
)
    ensures
        merged_product(existing, remote, overwrite, patterns).regional_pricing != Some(false),
{
}

/// Without the overwrite flag a matched product keeps its description.
/// With or without it, a description that replaces another is never censored.
pub proof fn lemma_merged_description(
    local: ProductView,
    remote: ProductView,
    overwrite: bool,
    patterns: Seq<Seq<char>>,
)
    ensures
        !overwrite ==> merged_product(Some(local), remote, overwrite, patterns).description
            == local.description,
        merged_product(Some(local), remote, overwrite, patterns).description != local.description
            ==> !(merged_product(Some(local), remote, overwrite, patterns).description matches Some(
            d,
        ) && censored(d)),
{
}

/// With the overwrite flag a matched product takes the remote price and
/// regional pricing, and the remote description unless that is censored.
pub proof fn lemma_overwrite_adopts_remote(
    local: ProductView,
    remote: ProductView,
    patterns: Seq<Seq<char>>,
)
    ensures
        ({
            let merged = merged_product(Some(local), remote, true, patterns);
            &&& merged.price == remote.price
            &&& merged.regional_pricing == stored_regional(remote.regional_pricing)
            &&& merged.description == if remote.description matches Some(d) && censored(d) {
                local.description
            } else {
                remote.description
            }
            &&& merged.name == canonical_of(remote.name, patterns)
            &&& merged.active == remote.active
        }),
{
}

/// A merged product has a valid price and discount where the remote record
/// and the product it was matched with have.
pub proof fn lemma_merged_wf(
    existing: Option<ProductView>,
    remote: ProductView,
    overwrite: bool,
    patterns: Seq<Seq<char>>,
)
    requires
        remote.wf(),
        existing matches Some(local) ==> local.wf(),
    ensures
        merged_product(existing, remote, overwrite, patterns).wf(),
{
}

/// Merging a record into a table with distinct keys. A record that matches a
/// product replaces it in its place and under its key. A record that matches
/// none is filed under the slug of its canonical name. Every entry with
/// another key stays as it was and where it was.
pub proof fn lemma_merge_one(
    t: Seq<EntryView>,
    remote: ProductView,
    overwrite: bool,
    patterns: Seq<Seq<char>>,
)
    requires
        distinct_keys(t),
    ensures
        ({
            let out = merge_one(t, remote, overwrite, patterns);
            let key = merged_key(t, remote, patterns);
            &&& distinct_keys(out)
            &&& t.len() <= out.len() <= t.len() + 1
            &&& forall|j: int| 0 <= j < t.len() ==> (#[trigger] out[j]).key == t[j].key
            &&& forall|j: int| 0 <= j < t.len() && t[j].key != key ==> #[trigger] out[j] == t[j]
            &&& match id_position(t, remote.id) {
                Some(i) => {
                    &&& out.len() == t.len()
                    &&& key == t[i].key
                    &&& out[i].product == merged_product(
                        Some(t[i].product),
                        remote,
                        overwrite,
                        patterns,
                    )
                },
                None => {
                    &&& key == slug_of(canonical_of(remote.name, patterns))
                    &&& key_position(out, key) matches Some(k) && out[k].product == merged_product(
                        None,
                        remote,
                        overwrite,
                        patterns,
                    )
                },
            }
        }),
{
    let key = merged_key(t, remote, patterns);
    let product = merged_product(matched(t, remote), remote, overwrite, patterns);
    lemma_inserted(t, key, product);
    lemma_id_position(t, remote.id);
    if let Some(i) = id_position(t, remote.id) {
        assert(is_first_with_key(t, key, i));
        lemma_key_position_found(t, key, i);
    }
}

/// Merging a record keeps every price and discount valid, where the record's
/// own are.
pub proof fn lemma_merge_one_priced(
    t: Seq<EntryView>,
    remote: ProductView,
    overwrite: bool,
    patterns: Seq<Seq<char>>,
)
    requires
        all_wf(t),
        remote.wf(),
    ensures
        all_wf(merge_one(t, remote, overwrite, patterns)),
{
    lemma_id_position(t, remote.id);
    lemma_merged_wf(matched(t, remote), remote, overwrite, patterns);
    let out = merge_one(t, remote, overwrite, patterns);
    assert forall|i: int| 0 <= i < out.len() implies (#[trigger] out[i]).product.wf() by {
        if i < t.len() {
            assert(t[i].product.wf());
        }
    }
}

/// Merging a record into a table that stores no regional pricing as off
/// leaves such a table.
pub proof fn lemma_merge_one_regional(
    t: Seq<EntryView>,
    remote: ProductView,
    overwrite: bool,
    patterns: Seq<Seq<char>>,
)
    requires
        no_regional_off(t),
    ensures
        no_regional_off(merge_one(t, remote, overwrite, patterns)),
{
    let out = merge_one(t, remote, overwrite, patterns);
    assert forall|i: int| 0 <= i < out.len() implies (#[trigger] out[i]).product.regional_pricing
        != Some(false) by {
        if i < t.len() {
            assert(t[i].product.regional_pricing != Some(false));
        }
    }
}

/// Merging any number of records keeps the keys of each table distinct and
/// the keys that were there in their places; it keeps prices and discounts
/// valid where those of the records are; and it leaves no regional pricing
/// stored as off where none was.
pub proof fn lemma_merge_all(
    c: VCSProductsView,
    records: Seq<(ProductType, ProductView)>,
    overwrite: bool,
)
    requires
        c.wf(),
    ensures
        ({
            let out = merge_all(c, records, overwrite);
            &&& out.wf()
            &&& out.metadata == c.metadata
            &&& c.gamepasses.len() <= out.gamepasses.len()
            &&& c.products.len() <= out.products.len()
            &&& forall|j: int|
                0 <= j < c.gamepasses.len() ==> (#[trigger] out.gamepasses[j]).key
                    == c.gamepasses[j].key
            &&& forall|j: int|
                0 <= j < c.products.len() ==> (#[trigger] out.products[j]).key == c.products[j].key
            &&& c.priced() && records_wf(records) ==> out.priced()
            &&& no_regional_off(c.gamepasses) && no_regional_off(c.products) ==> no_regional_off(
                out.gamepasses,
            ) && no_regional_off(out.products)
        }),
    decreases records.len(),
{
    if records.len() > 0 {
        let rest = records.drop_last();
        lemma_merge_all(c, rest, overwrite);
        let mid = merge_all(c, rest, overwrite);
        let record = records.last();
        let patterns = mid.metadata.name_filters;
        lemma_merge_one(mid.table(record.0), record.1, overwrite, patterns);
        if c.priced() && records_wf(records) {
            assert forall|i: int| 0 <= i < rest.len() implies (#[trigger] rest[i]).1.wf() by {
                assert(rest[i] == records[i]);
            }
            assert(record.1.wf());
            lemma_merge_one_priced(mid.table(record.0), record.1, overwrite, patterns);
        }
        if no_regional_off(c.gamepasses) && no_regional_off(c.products) {
            lemma_merge_one_regional(mid.table(record.0), record.1, overwrite, patterns);
        }
    }
}

} // verus!
