//! The local catalog: its settings and its two tables of products, each keyed
//! by a slug. A table keeps its entries in the order in which their keys were
//! first inserted, and no key occurs twice in it.

use crate::product::{Metadata, MetadataView, Product, ProductType, ProductView};
use vstd::prelude::*;

verus! {

/// One entry of a table: a key and the product filed under it.
#[derive(Debug)]
pub struct CatalogEntry {
    pub key: String,
    pub product: Product,
}

/// The mathematical value of a [`CatalogEntry`].
pub struct EntryView {
    pub key: Seq<char>,
    pub product: ProductView,
}

impl View for CatalogEntry {
    type V = EntryView;

    open spec fn view(&self) -> EntryView {
        EntryView { key: self.key@, product: self.product@ }
    }
}

/// No key occurs twice in `t`.
pub open spec fn distinct_keys(t: Seq<EntryView>) -> bool {
    forall|i: int, j: int| 0 <= i < j < t.len() ==> (#[trigger] t[i]).key != (#[trigger] t[j]).key
}

/// Every product of `t` has a price that is not negative and a discount that
/// is a percentage.
pub open spec fn all_wf(t: Seq<EntryView>) -> bool {
    forall|i: int| 0 <= i < t.len() ==> (#[trigger] t[i]).product.wf()
}

/// `i` is the first place in `t` whose key is `key`.
pub open spec fn is_first_with_key(t: Seq<EntryView>, key: Seq<char>, i: int) -> bool {
    &&& 0 <= i < t.len()
    &&& t[i].key == key
    &&& forall|j: int| 0 <= j < i ==> (#[trigger] t[j]).key != key
}

/// The first place in `t` whose key is `key`.
pub open spec fn key_position(t: Seq<EntryView>, key: Seq<char>) -> Option<int> {
    if exists|i: int| is_first_with_key(t, key, i) {
        Some(choose|i: int| is_first_with_key(t, key, i))
    } else {
        None
    }
}

/// `i` is the first place in `t` whose product has the id `id`.
pub open spec fn is_first_with_id(t: Seq<EntryView>, id: Option<u64>, i: int) -> bool {
    &&& 0 <= i < t.len()
    &&& t[i].product.id == id
    &&& forall|j: int| 0 <= j < i ==> (#[trigger] t[j]).product.id != id
}

/// The first place in `t` whose product has the id `id`.
pub open spec fn id_position(t: Seq<EntryView>, id: Option<u64>) -> Option<int> {
    if exists|i: int| is_first_with_id(t, id, i) {
        Some(choose|i: int| is_first_with_id(t, id, i))
    } else {
        None
    }
}

/// `t` after `product` has been filed under `key`: in the place of the entry
/// that had the key, or at the end where none had it.
pub open spec fn inserted(t: Seq<EntryView>, key: Seq<char>, product: ProductView) -> Seq<
    EntryView,
> {
    match key_position(t, key) {
        Some(i) => t.update(i, EntryView { key, product }),
        None => t.push(EntryView { key, product }),
    }
}

/// `t` with the id of the product at `i` set to `id`.
pub open spec fn with_id(t: Seq<EntryView>, i: int, id: u64) -> Seq<EntryView> {
    t.update(i, EntryView { key: t[i].key, product: ProductView { id: Some(id), ..t[i].product } })
}

/// The first place with a key is the only answer of [`key_position`].
pub proof fn lemma_key_position_found(t: Seq<EntryView>, key: Seq<char>, i: int)
    requires
        is_first_with_key(t, key, i),
    ensures
        key_position(t, key) == Some(i),
{
    let c = choose|c: int| is_first_with_key(t, key, c);
    assert(is_first_with_key(t, key, c));
    if c < i {
        assert(t[c].key != key);
    } else if i < c {
        assert(t[i].key != key);
    }
}

/// Where no entry has the key, [`key_position`] finds none.
pub proof fn lemma_key_position_missing(t: Seq<EntryView>, key: Seq<char>)
    requires
        forall|j: int| 0 <= j < t.len() ==> (#[trigger] t[j]).key != key,
    ensures
        key_position(t, key) is None,
{
}

/// What [`key_position`] finds is the first place with the key; where it
/// finds none, no entry has the key.
pub proof fn lemma_key_position(t: Seq<EntryView>, key: Seq<char>)
    ensures
        key_position(t, key) matches Some(i) ==> is_first_with_key(t, key, i),
        key_position(t, key) is None ==> forall|j: int|
            0 <= j < t.len() ==> (#[trigger] t[j]).key != key,
{
    if key_position(t, key) is None {
        assert forall|j: int| 0 <= j < t.len() implies (#[trigger] t[j]).key != key by {
            if t[j].key == key {
                lemma_first_key_exists(t, key, j);
            }
        }
    }
}

proof fn lemma_first_key_exists(t: Seq<EntryView>, key: Seq<char>, j: int)
    requires
        0 <= j < t.len(),
        t[j].key == key,
    ensures
        exists|i: int| is_first_with_key(t, key, i),
    decreases j,
{
    if exists|k: int| 0 <= k < j && (#[trigger] t[k]).key == key {
        let k = choose|k: int| 0 <= k < j && (#[trigger] t[k]).key == key;
        lemma_first_key_exists(t, key, k);
    } else {
        assert(is_first_with_key(t, key, j));
    }
}

/// The first place with an id is the only answer of [`id_position`].
pub proof fn lemma_id_position_found(t: Seq<EntryView>, id: Option<u64>, i: int)
    requires
        is_first_with_id(t, id, i),
    ensures
        id_position(t, id) == Some(i),
{
    let c = choose|c: int| is_first_with_id(t, id, c);
    assert(is_first_with_id(t, id, c));
    if c < i {
        assert(t[c].product.id != id);
    } else if i < c {
        assert(t[i].product.id != id);
    }
}

/// What [`id_position`] finds is the first place with the id; where it finds
/// none, no product has the id.
pub proof fn lemma_id_position(t: Seq<EntryView>, id: Option<u64>)
    ensures
        id_position(t, id) matches Some(i) ==> is_first_with_id(t, id, i),
        id_position(t, id) is None ==> forall|j: int|
            0 <= j < t.len() ==> (#[trigger] t[j]).product.id != id,
{
    if id_position(t, id) is None {
        assert forall|j: int| 0 <= j < t.len() implies (#[trigger] t[j]).product.id != id by {
            if t[j].product.id == id {
                lemma_first_id_exists(t, id, j);
            }
        }
    }
}

proof fn lemma_first_id_exists(t: Seq<EntryView>, id: Option<u64>, j: int)
    requires
        0 <= j < t.len(),
        t[j].product.id == id,
    ensures
        exists|i: int| is_first_with_id(t, id, i),
    decreases j,
{
    if exists|k: int| 0 <= k < j && (#[trigger] t[k]).product.id == id {
        let k = choose|k: int| 0 <= k < j && (#[trigger] t[k]).product.id == id;
        lemma_first_id_exists(t, id, k);
    } else {
        assert(is_first_with_id(t, id, j));
    }
}

/// Filing a product keeps the keys distinct, keeps every other entry as it
/// was and in its place, and adds at most one entry.
pub proof fn lemma_inserted(t: Seq<EntryView>, key: Seq<char>, product: ProductView)
    requires
        distinct_keys(t),
    ensures
        distinct_keys(inserted(t, key, product)),
        t.len() <= inserted(t, key, product).len() <= t.len() + 1,
        forall|i: int| 0 <= i < t.len() ==> (#[trigger] inserted(t, key, product)[i]).key == t[i].key,
        forall|i: int|
            0 <= i < t.len() && t[i].key != key ==> #[trigger] inserted(t, key, product)[i] == t[i],
        key_position(inserted(t, key, product), key) matches Some(i) && inserted(
            t,
            key,
            product,
        )[i].product == product,
{
    lemma_key_position(t, key);
    let out = inserted(t, key, product);
    match key_position(t, key) {
        Some(i) => {
            assert(is_first_with_key(out, key, i));
            lemma_key_position_found(out, key, i);
        },
        None => {
            assert(is_first_with_key(out, key, t.len() as int));
            lemma_key_position_found(out, key, t.len() as int);
        },
    }
}

/// A table of products, keyed by slug.
#[derive(Debug)]
pub struct ProductTable {
    pub entries: Vec<CatalogEntry>,
}

impl View for ProductTable {
    type V = Seq<EntryView>;

    open spec fn view(&self) -> Seq<EntryView> {
        self.entries@.map_values(|e: CatalogEntry| e@)
    }
}

impl ProductTable {
    /// No key occurs twice in the table.
    pub open spec fn wf(&self) -> bool {
        distinct_keys(self@)
    }

    /// The empty table.
    pub fn new() -> (out: Self)
        ensures
            out@ == Seq::<EntryView>::empty(),
            out.wf(),
    {
        let out = ProductTable { entries: Vec::new() };
        proof {
            assert(out@ =~= Seq::<EntryView>::empty());
        }
        out
    }

    /// The number of entries.
    pub fn len(&self) -> (n: usize)
        ensures
            n == self@.len(),
    {
        self.entries.len()
    }

    /// The entry at `i`.
    pub fn entry(&self, i: usize) -> (out: &CatalogEntry)
        requires
            i < self@.len(),
        ensures
            out@ == self@[i as int],
    {
        &self.entries[i]
    }

    /// The first place whose key is `key`.
    pub fn position_of_key(&self, key: &String) -> (out: Option<usize>)
        ensures
            out is Some <==> key_position(self@, key@) is Some,
            out matches Some(i) ==> key_position(self@, key@) == Some(i as int),
    {
        let mut i: usize = 0;
        while i < self.entries.len()
            invariant
                i <= self.entries.len(),
                forall|j: int| 0 <= j < i ==> (#[trigger] self@[j]).key != key@,
            decreases self.entries.len() - i,
        {
            if self.entries[i].key == *key {
                proof {
                    lemma_key_position_found(self@, key@, i as int);
                }
                return Some(i);
            }
            i += 1;
        }
        proof {
            lemma_key_position_missing(self@, key@);
        }
        None
    }

    /// The first place whose product has the id `id`.
    pub fn position_of_id(&self, id: Option<u64>) -> (out: Option<usize>)
        ensures
            out is Some <==> id_position(self@, id) is Some,
            out matches Some(i) ==> id_position(self@, id) == Some(i as int),
    {
        let mut i: usize = 0;
        while i < self.entries.len()
            invariant
                i <= self.entries.len(),
                forall|j: int| 0 <= j < i ==> (#[trigger] self@[j]).product.id != id,
            decreases self.entries.len() - i,
        {
            if self.entries[i].product.id == id {
                proof {
                    lemma_id_position_found(self@, id, i as int);
                }
                return Some(i);
            }
            i += 1;
        }
        proof {
            lemma_id_position(self@, id);
        }
        None
    }

    /// The product filed under `key`.
    pub fn get(&self, key: &String) -> (out: Option<&Product>)
        ensures
            out is Some <==> key_position(self@, key@) is Some,
            out matches Some(p) ==> p@ == self@[key_position(self@, key@)->0].product,
    {
        match self.position_of_key(key) {
            Some(i) => {
                proof {
                    lemma_key_position(self@, key@);
                }
                Some(&self.entries[i].product)
            },
            None => None,
        }
    }

    /// Files `product` under `key`: in the place of the entry that has the
    /// key, or at the end where none has it.
    pub fn insert(&mut self, key: String, product: Product)
        ensures
            final(self)@ == inserted(old(self)@, key@, product@),
            old(self).wf() ==> final(self).wf(),
    {
        proof {
            if self.wf() {
                lemma_inserted(self@, key@, product@);
            }
            lemma_key_position(self@, key@);
        }
        let ghost before = self@;
        match self.position_of_key(&key) {
            Some(i) => {
                self.entries.set(i, CatalogEntry { key, product });
                proof {
                    assert(self@ =~= inserted(before, key@, product@));
                }
            },
            None => {
                self.entries.push(CatalogEntry { key, product });
                proof {
                    assert(self@ =~= inserted(before, key@, product@));
                }
            },
        }
    }

    /// Sets the id of the product at `i`.
    pub fn set_id(&mut self, i: usize, id: u64)
        requires
            i < old(self)@.len(),
        ensures
            final(self)@ == with_id(old(self)@, i as int, id),
            old(self).wf() ==> final(self).wf(),
    {
        let ghost before = self@;
        let key = self.entries[i].key.clone();
        let mut product = self.entries[i].product.clone();
        product.id = Some(id);
        self.entries.set(i, CatalogEntry { key, product });
        proof {
            assert(self@ =~= with_id(before, i as int, id));
            if distinct_keys(before) {
                assert forall|a: int, b: int| 0 <= a < b < self@.len() implies (
                #[trigger] self@[a]).key != (#[trigger] self@[b]).key by {
                    assert(self@[a].key == before[a].key);
                    assert(self@[b].key == before[b].key);
                }
            }
        }
    }
}

impl Clone for CatalogEntry {
    fn clone(&self) -> (out: Self)
        ensures
            out@ == self@,
    {
        CatalogEntry { key: self.key.clone(), product: self.product.clone() }
    }
}

/// The whole local catalog.
#[derive(Debug)]
pub struct VCSProducts {
    pub metadata: Metadata,
    pub gamepasses: ProductTable,
    pub products: ProductTable,
}

/// The mathematical value of a [`VCSProducts`].
pub struct VCSProductsView {
    pub metadata: MetadataView,
    pub gamepasses: Seq<EntryView>,
    pub products: Seq<EntryView>,
}

impl View for VCSProducts {
    type V = VCSProductsView;

    open spec fn view(&self) -> VCSProductsView {
        VCSProductsView {
            metadata: self.metadata@,
            gamepasses: self.gamepasses@,
            products: self.products@,
        }
    }
}

impl VCSProductsView {
    /// The table of one kind of product.
    pub open spec fn table(self, kind: ProductType) -> Seq<EntryView> {
        match kind {
            ProductType::GamePass => self.gamepasses,
            ProductType::DevProduct => self.products,
        }
    }

    /// The catalog with the table of one kind replaced.
    pub open spec fn with_table(self, kind: ProductType, t: Seq<EntryView>) -> VCSProductsView {
        match kind {
            ProductType::GamePass => VCSProductsView { gamepasses: t, ..self },
            ProductType::DevProduct => VCSProductsView { products: t, ..self },
        }
    }

    /// No key occurs twice within a table.
    pub open spec fn wf(self) -> bool {
        distinct_keys(self.gamepasses) && distinct_keys(self.products)
    }

    /// Every product has a price that is not negative and a discount that
    /// is a percentage.
    pub open spec fn priced(self) -> bool {
        all_wf(self.gamepasses) && all_wf(self.products)
    }
}

impl ProductTable {
    /// Whether every product has a price that is not negative and a
    /// discount that is a percentage.
    pub fn is_priced(&self) -> (b: bool)
        ensures
            b == all_wf(self@),
    {
        let mut i: usize = 0;
        while i < self.entries.len()
            invariant
                i <= self.entries.len(),
                forall|j: int| 0 <= j < i ==> (#[trigger] self@[j]).product.wf(),
            decreases self.entries.len() - i,
        {
            if !self.entries[i].product.is_well_formed() {
                proof {
                    assert(!self@[i as int].product.wf());
                }
                return false;
            }
            i += 1;
        }
        true
    }

    /// Whether no key occurs twice.
    pub fn has_distinct_keys(&self) -> (b: bool)
        ensures
            b == self.wf(),
    {
        let mut j: usize = 0;
        while j < self.entries.len()
            invariant
                j <= self.entries.len(),
                forall|a: int, b: int|
                    0 <= a < b < j ==> (#[trigger] self@[a]).key != (#[trigger] self@[b]).key,
            decreases self.entries.len() - j,
        {
            let mut i: usize = 0;
            while i < j
                invariant
                    i <= j < self.entries.len(),
                    forall|a: int| 0 <= a < i ==> (#[trigger] self@[a]).key != self@[j as int].key,
                decreases j - i,
            {
                if self.entries[i].key == self.entries[j].key {
                    proof {
                        assert(self@[i as int].key == self@[j as int].key);
                    }
                    return false;
                }
                i += 1;
            }
            j += 1;
        }
        true
    }
}

impl VCSProducts {
    /// The catalog that a new project starts from: no products, a
    /// placeholder for the universe id, the usual discount mark and
    /// `products.luau` as the script file.
    pub fn initial() -> (out: Self)
        ensures
            out@.metadata.universe_id == 1234,
            out@.metadata.discount_prefix == Some("\u{1F4B2}{}% OFF\u{1F4B2} "@),
            out@.metadata.luau_file == Some("products.luau"@),
            out.metadata.name_filters is None,
            out@.gamepasses == Seq::<EntryView>::empty(),
            out@.products == Seq::<EntryView>::empty(),
            out@.wf(),
            out@.priced(),
    {
        VCSProducts {
            metadata: Metadata {
                universe_id: 1234,
                discount_prefix: Some("\u{1F4B2}{}% OFF\u{1F4B2} ".to_owned()),
                luau_file: Some("products.luau".to_owned()),
                name_filters: None,
            },
            gamepasses: ProductTable::new(),
            products: ProductTable::new(),
        }
    }

    /// Whether no key occurs twice within a table and every product has a
    /// price that is not negative and a discount that is a percentage.
    pub fn is_well_formed(&self) -> (b: bool)
        ensures
            b == (self@.wf() && self@.priced()),
    {
        self.gamepasses.has_distinct_keys() && self.products.has_distinct_keys()
            && self.gamepasses.is_priced() && self.products.is_priced()
    }
}

} // verus!
