//! The generated script: two tables, one for each kind of product, that map
//! a product's title to its id and its discounted price.

use crate::catalog::{all_wf, EntryView, ProductTable, VCSProducts, VCSProductsView};
use crate::number::{decimal_of, push_decimal};
use crate::order::{lemma_insert_by_at, sort_by};
use crate::product::{Product, ProductView};
use crate::text::{push_str, string_of};
use vstd::prelude::*;

verus! {

/// What `{:?}` writes for a string with these characters: the string in
/// double quotes, with the escapes of `str`'s `Debug`.
pub uninterp spec fn debug_quoted(s: Seq<char>) -> Seq<char>;

/// `format!("{:?}", s)` for a string: its `Debug` form, which depends on its
/// characters alone.
#[verifier::external_body]
fn quote_debug(s: &str) -> (out: String)
    ensures
        out@ == debug_quoted(s@),
{
    format!("{:?}", s)
}

/// Whether a product with the id `a` may stand before one with the id `b`:
/// a product without an id stands before all others, the others stand by
/// ascending id.
pub open spec fn id_may_precede(a: Option<u64>, b: Option<u64>) -> bool {
    match (a, b) {
        (None, _) => true,
        (Some(_), None) => false,
        (Some(x), Some(y)) => x <= y,
    }
}

/// The order of the entries of a table of the script.
pub open spec fn id_order() -> spec_fn(ProductView, ProductView) -> bool {
    |a: ProductView, b: ProductView| id_may_precede(a.id, b.id)
}

/// The products of a table, in the order of the script.
pub open spec fn export_order(t: Seq<EntryView>) -> Seq<ProductView> {
    sort_by(t.map_values(|e: EntryView| e.product), id_order())
}

/// A line of a table: the quoted title as the key, then the id and the
/// price; every line but the last of its table ends in a comma.
pub open spec fn line_of(quoted_title: Seq<char>, id: u64, price: u64, last: bool) -> Seq<char> {
    "\t\t["@ + quoted_title + "] = { id = "@ + decimal_of(id as nat) + ", price = "@ + decimal_of(
        price as nat,
    ) + " }"@ + if last {
        "\n"@
    } else {
        ",\n"@
    }
}

/// The line of one product: under its title, with its id, or 0 where it has
/// none, and its discounted price.
pub open spec fn export_line(p: ProductView, last: bool) -> Seq<char> {
    line_of(debug_quoted(p.title()), p.id_or_zero(), p.effective_price() as u64, last)
}

/// The lines of the first `n` of `products`.
pub open spec fn export_lines(products: Seq<ProductView>, n: int) -> Seq<char>
    decreases n,
{
    if n <= 0 {
        Seq::empty()
    } else {
        export_lines(products, n - 1) + export_line(products[n - 1], n == products.len())
    }
}

/// The lines of a table of the script.
pub open spec fn export_table(t: Seq<EntryView>) -> Seq<char> {
    export_lines(export_order(t), t.len() as int)
}

/// The text above the first table.
pub open spec fn export_header() -> Seq<char> {
    "-- This file is automatically generated by rbx-products. Do not edit this file directly.\n"@
        + "export type Product = { id: number, price: number }\n\n"@
        + "return {\n\tGamepasses = {\n"@
}

/// The script for a catalog.
pub open spec fn export_of(c: VCSProductsView) -> Seq<char> {
    export_header() + export_table(c.gamepasses) + "\t} :: {[string]: Product},\n\n\tProducts = {\n"@
        + export_table(c.products) + "\t} :: {[string]: Product}\n}"@
}

/// Appends a line of a table to `out`.
pub fn push_line(out: &mut Vec<char>, quoted_title: &str, id: u64, price: u64, last: bool)
    ensures
        final(out)@ == old(out)@ + line_of(quoted_title@, id, price, last),
{
    push_str(out, "\t\t[");
    push_str(out, quoted_title);
    push_str(out, "] = { id = ");
    push_decimal(out, id);
    push_str(out, ", price = ");
    push_decimal(out, price);
    push_str(out, " }");
    if last {
        push_str(out, "\n");
    } else {
        push_str(out, ",\n");
    }
    proof {
        assert(out@ =~= old(out)@ + line_of(quoted_title@, id, price, last));
    }
}

fn id_precedes(a: Option<u64>, b: Option<u64>) -> (out: bool)
    ensures
        out == id_may_precede(a, b),
{
    match (a, b) {
        (None, _) => true,
        (Some(_), None) => false,
        (Some(x), Some(y)) => x <= y,
    }
}

fn products_in_order(table: &ProductTable) -> (out: Vec<Product>)
    ensures
        out@.map_values(|p: Product| p@) == export_order(table@),
        out.len() == table@.len(),
{
    let ghost view = |p: Product| p@;
    let ghost all = table@.map_values(|e: EntryView| e.product);
    let mut out: Vec<Product> = Vec::new();
    let mut i: usize = 0;
    proof {
        assert(all.take(0) =~= Seq::<ProductView>::empty());
        assert(out@.map_values(view) =~= Seq::<ProductView>::empty());
    }
    while i < table.len()
        invariant
            i <= table@.len(),
            view == |p: Product| p@,
            all == table@.map_values(|e: EntryView| e.product),
            out@.map_values(view) == sort_by(all.take(i as int), id_order()),
            out.len() == i,
        decreases table@.len() - i,
    {
        let product = table.entry(i).product.clone();
        let ghost before = out@.map_values(view);
        proof {
            assert(all.take(i + 1).drop_last() =~= all.take(i as int));
            assert(all.take(i + 1).last() == product@);
        }
        let mut pos: usize = out.len();
        while pos > 0 && !id_precedes(out[pos - 1].id, product.id)
            invariant
                pos <= out.len(),
                before == out@.map_values(view),
                view == |p: Product| p@,
                forall|j: int| pos <= j < before.len() ==> !id_order()(#[trigger] before[j], product@),
            decreases pos,
        {
            proof {
                assert(before[pos - 1] == out@[pos - 1]@);
            }
            pos -= 1;
        }
        proof {
            if pos > 0 {
                assert(before[pos - 1] == out@[pos - 1]@);
            }
            lemma_insert_by_at(before, product@, id_order(), pos as int);
        }
        out.insert(pos, product);
        proof {
            assert(out@.map_values(view) =~= before.insert(pos as int, product@));
        }
        i += 1;
    }
    proof {
        assert(all.take(all.len() as int) =~= all);
    }
    out
}

fn push_table(out: &mut Vec<char>, table: &ProductTable)
    requires
        all_wf(table@),
    ensures
        final(out)@ == old(out)@ + export_table(table@),
{
    let products = products_in_order(table);
    let ghost views = export_order(table@);
    let ghost start = out@;
    proof {
        crate::order::lemma_sort_by(table@.map_values(|e: EntryView| e.product), id_order());
        lemma_all_wf_sorted(table@);
        assert(start + Seq::<char>::empty() =~= start);
    }
    let mut i: usize = 0;
    while i < products.len()
        invariant
            i <= products.len(),
            products.len() == views.len(),
            views == products@.map_values(|p: Product| p@),
            forall|j: int| 0 <= j < views.len() ==> (#[trigger] views[j]).wf(),
            out@ == start + export_lines(views, i as int),
        decreases products.len() - i,
    {
        let product = &products[i];
        let ghost before = out@;
        proof {
            assert(views[i as int] == product@);
            assert(product@.wf());
        }
        let title = product.get_title();
        let quoted = quote_debug(title.as_str());
        push_line(
            out,
            quoted.as_str(),
            match product.id {
                Some(id) => id,
                None => 0,
            },
            product.get_price(),
            i + 1 == products.len(),
        );
        proof {
            let line = export_line(views[i as int], i + 1 == views.len());
            assert(out@ =~= before + line);
            assert(start + (export_lines(views, i as int) + line) =~= (start + export_lines(
                views,
                i as int,
            )) + line);
        }
        i += 1;
    }
}

/// A table of the script lists the products of the catalog's table, each as
/// often as it occurs there, those without an id first and the others by
/// ascending id.
pub proof fn lemma_export_order(t: Seq<EntryView>)
    ensures
        export_order(t).len() == t.len(),
        export_order(t).to_multiset() == t.map_values(|e: EntryView| e.product).to_multiset(),
        forall|i: int, j: int|
            0 <= i < j < t.len() ==> id_may_precede(
                (#[trigger] export_order(t)[i]).id,
                (#[trigger] export_order(t)[j]).id,
            ),
{
    crate::order::lemma_sort_by(t.map_values(|e: EntryView| e.product), id_order());
    let sorted = export_order(t);
    assert forall|i: int, j: int| 0 <= i < j < t.len() implies id_may_precede(
        (#[trigger] sorted[i]).id,
        (#[trigger] sorted[j]).id,
    ) by {
        assert(id_order()(sorted[i], sorted[j]));
    }
}

/// Sorting a table of valid products leaves valid products.
proof fn lemma_all_wf_sorted(t: Seq<EntryView>)
    requires
        all_wf(t),
    ensures
        forall|j: int| 0 <= j < export_order(t).len() ==> (#[trigger] export_order(t)[j]).wf(),
{
    broadcast use vstd::seq_lib::group_to_multiset_ensures;

    let all = t.map_values(|e: EntryView| e.product);
    let sorted = export_order(t);
    crate::order::lemma_sort_by(all, id_order());
    assert forall|j: int| 0 <= j < sorted.len() implies (#[trigger] sorted[j]).wf() by {
        assert(sorted.to_multiset().count(sorted[j]) > 0);
        assert(all.to_multiset().count(sorted[j]) > 0);
        assert(all.contains(sorted[j]));
        let k = choose|k: int| 0 <= k < all.len() && all[k] == sorted[j];
        assert(t[k].product.wf());
    }
}

impl VCSProducts {
    /// The generated script, where the catalog names a file for it; nothing
    /// where it names none. Each table lists its products by ascending id,
    /// those without an id first as id 0, under their titles and with their
    /// discounted prices.
    pub fn serialize_luau(&self) -> (out: Option<String>)
        requires
            self@.priced(),
        ensures
            out is Some <==> self@.metadata.luau_file is Some,
            out matches Some(text) ==> text@ == export_of(self@),
    {
        if self.metadata.luau_file.is_none() {
            return None;
        }
        let mut out: Vec<char> = Vec::new();
        push_str(
            &mut out,
            "-- This file is automatically generated by rbx-products. Do not edit this file directly.\n",
        );
        push_str(&mut out, "export type Product = { id: number, price: number }\n\n");
        push_str(&mut out, "return {\n\tGamepasses = {\n");
        proof {
            assert(out@ =~= export_header());
        }
        push_table(&mut out, &self.gamepasses);
        push_str(&mut out, "\t} :: {[string]: Product},\n\n\tProducts = {\n");
        push_table(&mut out, &self.products);
        push_str(&mut out, "\t} :: {[string]: Product}\n}");
        Some(string_of(&out))
    }
}

} // verus!
