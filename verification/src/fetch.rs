//! Walking a listing page by page, and the addresses of the platform.

use crate::model::{price_fits, price_of, DevProduct, FormField, GamePass};
use crate::number::{decimal_of, push_decimal};
use crate::product::{text_of, MultiProduct, Product, ProductType, ProductView};
use crate::text::{push_str, string_of};
use vstd::prelude::*;

verus! {

/// A walk through a listing: the records collected so far, the cursor that
/// the last page gave, and whether the last page was the final one.
#[derive(Debug)]
pub struct PageWalk<T> {
    pub items: Vec<T>,
    pub cursor: Option<String>,
    pub done: bool,
}

/// The query of the request for a page: the page size, and the cursor,
/// letter for letter, where the page before gave one. Only the request for
/// the first page carries no cursor.
pub open spec fn page_query(cursor: Option<Seq<char>>) -> Seq<(Seq<char>, Seq<char>)> {
    match cursor {
        Some(c) => seq![("pageSize"@, "100"@), ("pageToken"@, c)],
        None => seq![("pageSize"@, "100"@)],
    }
}

impl<T> PageWalk<T> {
    /// A walk that has not asked for a page yet.
    pub fn new() -> (out: Self)
        ensures
            out.items@ == Seq::<T>::empty(),
            out.cursor is None,
            !out.done,
    {
        PageWalk { items: Vec::new(), cursor: None, done: false }
    }

    /// The query of the request for the next page.
    pub fn query(&self) -> (out: Vec<FormField>)
        ensures
            out@.map_values(|f: FormField| f@) == page_query(text_of(self.cursor)),
    {
        let mut out: Vec<FormField> = Vec::new();
        out.push(FormField { key: "pageSize".to_owned(), value: "100".to_owned() });
        match &self.cursor {
            Some(c) => {
                out.push(FormField { key: "pageToken".to_owned(), value: c.clone() });
            },
            None => {},
        }
        proof {
            assert(out@.map_values(|f: FormField| f@) =~= page_query(text_of(self.cursor)));
        }
        out
    }

    /// The query of the next request; none once a page has come without a
    /// cursor, for no request follows that page.
    pub fn next_query(&self) -> (out: Option<Vec<FormField>>)
        ensures
            out is None <==> self.done,
            out matches Some(q) ==> q@.map_values(|f: FormField| f@) == page_query(
                text_of(self.cursor),
            ),
    {
        if self.done {
            None
        } else {
            Some(self.query())
        }
    }

    /// Takes a page: its records go behind those collected, its cursor
    /// becomes the one to ask with, and the walk is done where it gave none.
    pub fn absorb(&mut self, page: Vec<T>, next: Option<String>)
        ensures
            final(self).items@ == old(self).items@ + page@,
            final(self).cursor == next,
            final(self).done == next is None,
    {
        let mut page = page;
        self.items.append(&mut page);
        self.done = next.is_none();
        self.cursor = next;
    }

    /// Whether the last page was the final one.
    pub fn is_done(&self) -> (b: bool)
        ensures
            b == self.done,
    {
        self.done
    }

    /// The records collected, in the order of the pages, once the walk is
    /// done: no list is handed out while pages are still to come.
    pub fn finish(self) -> (out: Vec<T>)
        requires
            self.done,
        ensures
            out == self.items,
    {
        self.items
    }
}

/// The address under which the platform keeps one kind of product of a
/// universe.
pub open spec fn collection_url(kind: ProductType, universe_id: u64) -> Seq<char> {
    match kind {
        ProductType::GamePass => "https://apis.roblox.com/game-passes/v1/universes/"@ + decimal_of(
            universe_id as nat,
        ) + "/game-passes"@,
        ProductType::DevProduct => "https://apis.roblox.com/developer-products/v2/universes/"@
            + decimal_of(universe_id as nat) + "/developer-products"@,
    }
}

/// The address that lists the products of one kind.
pub open spec fn list_url_of(kind: ProductType, universe_id: u64) -> Seq<char> {
    collection_url(kind, universe_id) + "/creator"@
}

/// The address of one product.
pub open spec fn update_url_of(kind: ProductType, universe_id: u64, id: u64) -> Seq<char> {
    collection_url(kind, universe_id) + "/"@ + decimal_of(id as nat)
}

fn collection_chars(kind: ProductType, universe_id: u64) -> (out: Vec<char>)
    ensures
        out@ == collection_url(kind, universe_id),
{
    let mut out: Vec<char> = Vec::new();
    match kind {
        ProductType::GamePass => {
            push_str(&mut out, "https://apis.roblox.com/game-passes/v1/universes/");
            push_decimal(&mut out, universe_id);
            push_str(&mut out, "/game-passes");
        },
        ProductType::DevProduct => {
            push_str(&mut out, "https://apis.roblox.com/developer-products/v2/universes/");
            push_decimal(&mut out, universe_id);
            push_str(&mut out, "/developer-products");
        },
    }
    proof {
        assert(out@ =~= collection_url(kind, universe_id));
    }
    out
}

/// The address to which a new product of one kind is posted.
pub fn create_url(kind: ProductType, universe_id: u64) -> (out: String)
    ensures
        out@ == collection_url(kind, universe_id),
{
    let chars = collection_chars(kind, universe_id);
    string_of(&chars)
}

/// The address that lists the products of one kind.
pub fn list_url(kind: ProductType, universe_id: u64) -> (out: String)
    ensures
        out@ == list_url_of(kind, universe_id),
{
    let mut chars = collection_chars(kind, universe_id);
    push_str(&mut chars, "/creator");
    string_of(&chars)
}

/// The address at which one product is updated.
pub fn update_url(kind: ProductType, universe_id: u64, id: u64) -> (out: String)
    ensures
        out@ == update_url_of(kind, universe_id, id),
{
    let mut chars = collection_chars(kind, universe_id);
    push_str(&mut chars, "/");
    push_decimal(&mut chars, id);
    string_of(&chars)
}

/// Whether every price among the passes can be held by a product.
pub open spec fn passes_fit(passes: Seq<GamePass>) -> bool {
    forall|i: int| 0 <= i < passes.len() ==> price_fits(price_of((#[trigger] passes[i]).price_information))
}

/// Whether every price among the one-time products can be held by a product.
pub open spec fn products_fit(products: Seq<DevProduct>) -> bool {
    forall|i: int|
        0 <= i < products.len() ==> price_fits(price_of((#[trigger] products[i]).price_information))
}

/// The remote records as products: the passes first, then the one-time
/// products, each list in its order.
pub open spec fn remote_records(passes: Seq<GamePass>, products: Seq<DevProduct>) -> Seq<
    (ProductType, ProductView),
> {
    passes.map_values(|p: GamePass| (ProductType::GamePass, p.product())) + products.map_values(
        |p: DevProduct| (ProductType::DevProduct, p.product()),
    )
}

/// Whether every price among the passes can be held by a product.
pub fn passes_in_range(passes: &Vec<GamePass>) -> (b: bool)
    ensures
        b == passes_fit(passes@),
{
    let mut i: usize = 0;
    while i < passes.len()
        invariant
            i <= passes.len(),
            forall|j: int|
                0 <= j < i ==> price_fits(price_of((#[trigger] passes@[j]).price_information)),
        decreases passes.len() - i,
    {
        if !crate::model::price_is_in_range(&passes[i].price_information) {
            return false;
        }
        i += 1;
    }
    true
}

/// Whether every price among the one-time products can be held by a product.
pub fn products_in_range(products: &Vec<DevProduct>) -> (b: bool)
    ensures
        b == products_fit(products@),
{
    let mut i: usize = 0;
    while i < products.len()
        invariant
            i <= products.len(),
            forall|j: int|
                0 <= j < i ==> price_fits(price_of((#[trigger] products@[j]).price_information)),
        decreases products.len() - i,
    {
        if !crate::model::price_is_in_range(&products[i].price_information) {
            return false;
        }
        i += 1;
    }
    true
}

/// The remote records as products, passes first.
pub fn fetch_all_products(passes: &Vec<GamePass>, products: &Vec<DevProduct>) -> (out: Vec<
    MultiProduct,
>)
    requires
        passes_fit(passes@),
        products_fit(products@),
    ensures
        out@.map_values(|r: MultiProduct| r@) == remote_records(passes@, products@),
        crate::download::records_wf(out@.map_values(|r: MultiProduct| r@)),
{
    let ghost view = |r: MultiProduct| r@;
    let ghost first = passes@.map_values(|p: GamePass| (ProductType::GamePass, p.product()));
    let ghost second = products@.map_values(
        |p: DevProduct| (ProductType::DevProduct, p.product()),
    );
    let mut out: Vec<MultiProduct> = Vec::new();
    let mut i: usize = 0;
    while i < passes.len()
        invariant
            i <= passes.len(),
            passes_fit(passes@),
            view == |r: MultiProduct| r@,
            first == passes@.map_values(|p: GamePass| (ProductType::GamePass, p.product())),
            out@.map_values(view) == first.take(i as int),
            crate::download::records_wf(out@.map_values(view)),
        decreases passes.len() - i,
    {
        let record = MultiProduct::GamePass(Product::from_game_pass(&passes[i]));
        proof {
            assert(out@.push(record).map_values(view) =~= out@.map_values(view).push(record@));
            assert(first.take(i + 1) =~= first.take(i as int).push(record@));
        }
        out.push(record);
        i += 1;
    }
    proof {
        assert(first.take(first.len() as int) =~= first);
        assert(second.take(0) =~= Seq::empty());
        assert(first + Seq::empty() =~= first);
    }
    let mut j: usize = 0;
    while j < products.len()
        invariant
            j <= products.len(),
            products_fit(products@),
            view == |r: MultiProduct| r@,
            second == products@.map_values(|p: DevProduct| (ProductType::DevProduct, p.product())),
            out@.map_values(view) == first + second.take(j as int),
            crate::download::records_wf(out@.map_values(view)),
        decreases products.len() - j,
    {
        let record = MultiProduct::DevProduct(Product::from_dev_product(&products[j]));
        proof {
            assert(out@.push(record).map_values(view) =~= out@.map_values(view).push(record@));
            assert(first + second.take(j + 1) =~= (first + second.take(j as int)).push(record@));
        }
        out.push(record);
        j += 1;
    }
    proof {
        assert(second.take(second.len() as int) =~= second);
    }
    out
}

} // verus!
