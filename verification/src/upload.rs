//! Pushing local changes to the platform: which products are created, which
//! differences are reported and in what order, and what is sent for each.
//!
//! Nothing here talks to the platform. The functions say what to ask the
//! operator, what to send, and what the catalog holds once the answers are
//! in; the caller asks, sends and stores.

use crate::catalog::{
    all_wf, key_position, lemma_key_position, with_id, EntryView, ProductTable, VCSProducts,
    VCSProductsView,
};
use crate::confirm::ConfirmState;
use crate::diff::{ProductDiffs, ProductDiffsView};
use crate::model::{request_of, ProductUpdateRequest, ProductUpdateRequestView};
use crate::number::{decimal_of, push_decimal};
use crate::order::{insert_by, lemma_insert_by_at, lemma_sort_by, sort_by};
use crate::product::{
    diff_of, text_of, MultiProduct, Product, ProductType, ProductView,
};
use crate::text::{chars_of, push_chars, push_str, string_of};
use vstd::prelude::*;

verus! {

/// `template` with every `{}` replaced by `value`, left to right.
pub open spec fn substituted(template: Seq<char>, value: Seq<char>) -> Seq<char>
    decreases template.len(),
{
    if template.len() < 2 {
        template
    } else if template[0] == '{' && template[1] == '}' {
        value + substituted(template.skip(2), value)
    } else {
        seq![template[0]] + substituted(template.drop_first(), value)
    }
}

/// The template of the discount mark where the catalog configures none.
pub open spec fn default_discount_template() -> Seq<char> {
    "\u{1F4B2}{}% OFF\u{1F4B2}"@
}

/// The name under which a product is uploaded: behind the discount mark for
/// its percentage where it has a discount, else as it is.
pub open spec fn marked_name(p: ProductView, template: Option<Seq<char>>) -> Seq<char> {
    if p.has_discount() {
        substituted(
            match template {
                Some(t) => t,
                None => default_discount_template(),
            },
            decimal_of(p.discount->0 as nat),
        ) + seq![' '] + p.name
    } else {
        p.name
    }
}

/// A product as it is uploaded: under its marked name.
pub open spec fn marked(p: ProductView, template: Option<Seq<char>>) -> ProductView {
    ProductView { name: marked_name(p, template), ..p }
}

/// `template` with every `{}` replaced by `value`.
pub fn substitute(template: &Vec<char>, value: &Vec<char>) -> (out: Vec<char>)
    ensures
        out@ == substituted(template@, value@),
{
    let mut out: Vec<char> = Vec::new();
    let mut i: usize = 0;
    proof {
        assert(template@.skip(0) =~= template@);
        assert(out@ + substituted(template@, value@) =~= substituted(template@, value@));
    }
    while i < template.len()
        invariant
            i <= template.len(),
            substituted(template@, value@) == out@ + substituted(template@.skip(i as int), value@),
        decreases template.len() - i,
    {
        let ghost rest = template@.skip(i as int);
        let ghost done = out@;
        if i + 1 < template.len() && template[i] == '{' && template[i + 1] == '}' {
            push_chars(&mut out, value);
            proof {
                assert(rest.skip(2) =~= template@.skip(i + 2));
                assert(done + (value@ + substituted(rest.skip(2), value@)) =~= (done + value@)
                    + substituted(rest.skip(2), value@));
            }
            i += 2;
        } else {
            out.push(template[i]);
            proof {
                assert(rest[0] == template@[i as int]);
                if rest.len() >= 2 {
                    assert(rest[1] == template@[i + 1]);
                    assert(rest.drop_first() =~= template@.skip(i + 1));
                    assert(done + (seq![rest[0]] + substituted(rest.drop_first(), value@)) =~= done.push(
                        rest[0],
                    ) + substituted(rest.drop_first(), value@));
                } else {
                    assert(rest =~= seq![rest[0]]);
                    assert(template@.skip(i + 1) =~= Seq::<char>::empty());
                    assert(substituted(Seq::<char>::empty(), value@) =~= Seq::<char>::empty());
                    assert(done + rest =~= done.push(rest[0]) + Seq::<char>::empty());
                }
            }
            i += 1;
        }
    }
    proof {
        assert(template@.skip(template@.len() as int) =~= Seq::<char>::empty());
        assert(out@ + Seq::<char>::empty() =~= out@);
    }
    out
}

/// Puts the discount mark before the name of a product that has a discount:
/// the template with the percentage in the place of every `{}`, a space, and
/// the name. A product without a discount is left as it is.
pub fn apply_discount_prefix(product: &mut Product, prefix: Option<String>)
    ensures
        final(product)@ == marked(old(product)@, text_of(prefix)),
{
    if product.has_discount() {
        let template = match &prefix {
            Some(t) => chars_of(t.as_str()),
            None => chars_of("\u{1F4B2}{}% OFF\u{1F4B2}"),
        };
        let percent: u8 = match product.discount {
            Some(d) => d,
            None => 0,
        };
        let mut digits: Vec<char> = Vec::new();
        push_decimal(&mut digits, percent as u64);
        proof {
            assert(digits@ =~= decimal_of(percent as nat));
        }
        let mut name = substitute(&template, &digits);
        name.push(' ');
        push_str(&mut name, product.name.as_str());
        product.name = string_of(&name);
        proof {
            assert(product@.name =~= marked_name(old(product)@, text_of(prefix)));
        }
    }
}

/// The local catalog and the remote records that it is compared with.
#[derive(Debug)]
pub struct Uploader {
    pub local_products: VCSProducts,
    pub remote_products: Vec<MultiProduct>,
}

/// Whether some product of `t` has no id yet.
pub open spec fn has_pending(t: Seq<EntryView>) -> bool {
    exists|i: int| 0 <= i < t.len() && (#[trigger] t[i]).product.id is None
}

/// What the creation phase does first.
#[derive(Clone, Copy, Debug, PartialEq, Eq, Structural)]
pub enum CreationStep {
    /// Every product has an id: the phase is over.
    Nothing,
    /// The operator is asked once whether the new products are to be
    /// created.
    AskApproval,
    /// The new products are created without asking.
    Create,
}

/// One product that is to be created remotely.
#[derive(Debug)]
pub struct CreationRequest {
    pub product_type: ProductType,
    pub key: String,
    pub request: ProductUpdateRequest,
}

/// The mathematical value of a [`CreationRequest`].
pub struct CreationRequestView {
    pub product_type: ProductType,
    pub key: Seq<char>,
    pub request: ProductUpdateRequestView,
}

impl View for CreationRequest {
    type V = CreationRequestView;

    open spec fn view(&self) -> CreationRequestView {
        CreationRequestView {
            product_type: self.product_type,
            key: self.key@,
            request: self.request@,
        }
    }
}

/// The request that creates the product of an entry: under the entry's
/// key, for the product under its marked name.
pub open spec fn request_for(
    kind: ProductType,
    entry: EntryView,
    template: Option<Seq<char>>,
) -> CreationRequestView {
    CreationRequestView {
        product_type: kind,
        key: entry.key,
        request: request_of(marked(entry.product, template)),
    }
}

/// The requests that create the products of `t` that have no id, in the
/// order of the table, each under its marked name.
pub open spec fn pending_requests(
    t: Seq<EntryView>,
    kind: ProductType,
    template: Option<Seq<char>>,
) -> Seq<CreationRequestView>
    decreases t.len(),
{
    if t.len() == 0 {
        Seq::empty()
    } else {
        let before = pending_requests(t.drop_last(), kind, template);
        if t.last().product.id is None {
            before.push(request_for(kind, t.last(), template))
        } else {
            before
        }
    }
}

/// The requests of the creation phase: those for the passes, then those for
/// the one-time products.
pub open spec fn creation_requests_of(c: VCSProductsView) -> Seq<CreationRequestView> {
    pending_requests(c.gamepasses, ProductType::GamePass, c.metadata.discount_prefix)
        + pending_requests(c.products, ProductType::DevProduct, c.metadata.discount_prefix)
}

/// Whether `r` is the request for a product of the table that has no id.
pub open spec fn is_request_for_pending(
    t: Seq<EntryView>,
    kind: ProductType,
    template: Option<Seq<char>>,
    r: CreationRequestView,
) -> bool {
    exists|i: int|
        0 <= i < t.len() && (#[trigger] t[i]).product.id is None && r == request_for(
            kind,
            t[i],
            template,
        )
}

/// Every product of the table without an id has its request among the
/// requests for the table, and every request is that of such a product.
pub proof fn lemma_pending_requests(
    t: Seq<EntryView>,
    kind: ProductType,
    template: Option<Seq<char>>,
)
    ensures
        forall|i: int|
            0 <= i < t.len() && (#[trigger] t[i]).product.id is None ==> pending_requests(
                t,
                kind,
                template,
            ).contains(request_for(kind, t[i], template)),
        forall|j: int|
            0 <= j < pending_requests(t, kind, template).len() ==> is_request_for_pending(
                t,
                kind,
                template,
                #[trigger] pending_requests(t, kind, template)[j],
            ),
        pending_requests(t, kind, template).len() == 0 <==> !has_pending(t),
    decreases t.len(),
{
    if t.len() > 0 {
        let rest = t.drop_last();
        let before = pending_requests(rest, kind, template);
        let all = pending_requests(t, kind, template);
        let n = t.len() - 1;
        lemma_pending_requests(rest, kind, template);
        assert forall|i: int| 0 <= i < t.len() && (#[trigger] t[i]).product.id is None implies all.contains(
            request_for(kind, t[i], template),
        ) by {
            if i < n {
                assert(rest[i] == t[i]);
                let k = choose|k: int|
                    0 <= k < before.len() && before[k] == request_for(kind, t[i], template);
                assert(all[k] == before[k]);
            } else {
                assert(all[all.len() - 1] == request_for(kind, t[i], template));
            }
        }
        assert forall|j: int| 0 <= j < all.len() implies is_request_for_pending(
            t,
            kind,
            template,
            #[trigger] all[j],
        ) by {
            if j < before.len() {
                assert(all[j] == before[j]);
                assert(is_request_for_pending(rest, kind, template, before[j]));
                let i = choose|i: int|
                    0 <= i < rest.len() && (#[trigger] rest[i]).product.id is None && before[j]
                        == request_for(kind, rest[i], template);
                assert(t[i] == rest[i]);
            } else {
                assert(t[n].product.id is None);
            }
        }
        if has_pending(t) {
            let i = choose|i: int| 0 <= i < t.len() && (#[trigger] t[i]).product.id is None;
            assert(all.contains(request_for(kind, t[i], template)));
        }
        if all.len() > 0 {
            assert(is_request_for_pending(t, kind, template, all[0]));
            let i = choose|i: int|
                0 <= i < t.len() && (#[trigger] t[i]).product.id is None && all[0] == request_for(
                    kind,
                    t[i],
                    template,
                );
            assert(has_pending(t));
        }
    }
}

/// The creation phase asks for every local product without an id, pass or
/// one-time product, and for nothing else; it has nothing to ask for just
/// when every product has an id.
pub proof fn lemma_creation_requests(c: VCSProductsView)
    ensures
        forall|i: int|
            0 <= i < c.gamepasses.len() && (#[trigger] c.gamepasses[i]).product.id is None
                ==> creation_requests_of(c).contains(
                request_for(ProductType::GamePass, c.gamepasses[i], c.metadata.discount_prefix),
            ),
        forall|i: int|
            0 <= i < c.products.len() && (#[trigger] c.products[i]).product.id is None
                ==> creation_requests_of(c).contains(
                request_for(ProductType::DevProduct, c.products[i], c.metadata.discount_prefix),
            ),
        forall|j: int|
            0 <= j < creation_requests_of(c).len() ==> is_request_for_pending(
                c.table(creation_requests_of(c)[j].product_type),
                creation_requests_of(c)[j].product_type,
                c.metadata.discount_prefix,
                #[trigger] creation_requests_of(c)[j],
            ),
        creation_requests_of(c).len() == 0 <==> !(has_pending(c.gamepasses) || has_pending(
            c.products,
        )),
{
    let tpl = c.metadata.discount_prefix;
    let passes = pending_requests(c.gamepasses, ProductType::GamePass, tpl);
    let products = pending_requests(c.products, ProductType::DevProduct, tpl);
    let all = creation_requests_of(c);
    lemma_pending_requests(c.gamepasses, ProductType::GamePass, tpl);
    lemma_pending_requests(c.products, ProductType::DevProduct, tpl);
    assert forall|i: int|
        0 <= i < c.gamepasses.len() && (#[trigger] c.gamepasses[i]).product.id is None implies all.contains(
        request_for(ProductType::GamePass, c.gamepasses[i], tpl),
    ) by {
        let k = choose|k: int|
            0 <= k < passes.len() && passes[k] == request_for(
                ProductType::GamePass,
                c.gamepasses[i],
                tpl,
            );
        assert(all[k] == passes[k]);
    }
    assert forall|i: int|
        0 <= i < c.products.len() && (#[trigger] c.products[i]).product.id is None implies all.contains(
        request_for(ProductType::DevProduct, c.products[i], tpl),
    ) by {
        let k = choose|k: int|
            0 <= k < products.len() && products[k] == request_for(
                ProductType::DevProduct,
                c.products[i],
                tpl,
            );
        assert(all[passes.len() + k] == products[k]);
    }
    assert forall|j: int| 0 <= j < all.len() implies is_request_for_pending(
        c.table(all[j].product_type),
        all[j].product_type,
        tpl,
        #[trigger] all[j],
    ) by {
        if j < passes.len() {
            assert(all[j] == passes[j]);
            assert(is_request_for_pending(c.gamepasses, ProductType::GamePass, tpl, passes[j]));
        } else {
            assert(all[j] == products[j - passes.len()]);
            assert(is_request_for_pending(
                c.products,
                ProductType::DevProduct,
                tpl,
                products[j - passes.len()],
            ));
        }
    }
}

/// How the creation of one product ended: with the id that the platform
/// gave it, or without one where the call failed.
#[derive(Debug)]
pub struct CreationResult {
    pub product_type: ProductType,
    pub key: String,
    pub id: Option<u64>,
}

/// The mathematical value of a [`CreationResult`].
pub struct CreationResultView {
    pub product_type: ProductType,
    pub key: Seq<char>,
    pub id: Option<u64>,
}

impl View for CreationResult {
    type V = CreationResultView;

    open spec fn view(&self) -> CreationResultView {
        CreationResultView { product_type: self.product_type, key: self.key@, id: self.id }
    }
}

/// A table after the outcome of one creation has been written to it: the
/// product under the key has the new id. A failed creation, or a key that
/// the table does not hold, changes nothing.
pub open spec fn table_with_result(t: Seq<EntryView>, key: Seq<char>, id: Option<u64>) -> Seq<
    EntryView,
> {
    match (key_position(t, key), id) {
        (Some(i), Some(id)) => with_id(t, i, id),
        _ => t,
    }
}

/// A catalog after the outcome of one creation has been written to it.
pub open spec fn with_result(c: VCSProductsView, r: CreationResultView) -> VCSProductsView {
    c.with_table(r.product_type, table_with_result(c.table(r.product_type), r.key, r.id))
}

/// A catalog after the outcomes of the creations have been written to it,
/// first to last.
pub open spec fn with_results(c: VCSProductsView, results: Seq<CreationResultView>) -> VCSProductsView
    decreases results.len(),
{
    if results.len() == 0 {
        c
    } else {
        with_result(with_results(c, results.drop_last()), results.last())
    }
}

fn table_has_pending(table: &ProductTable) -> (b: bool)
    ensures
        b == has_pending(table@),
{
    let mut i: usize = 0;
    while i < table.len()
        invariant
            i <= table@.len(),
            forall|j: int| 0 <= j < i ==> (#[trigger] table@[j]).product.id is Some,
        decreases table@.len() - i,
    {
        if table.entry(i).product.id.is_none() {
            return true;
        }
        i += 1;
    }
    false
}

fn push_pending(
    out: &mut Vec<CreationRequest>,
    table: &ProductTable,
    kind: ProductType,
    template: &Option<String>,
)
    requires
        all_wf(table@),
    ensures
        final(out)@.map_values(|r: CreationRequest| r@) == old(out)@.map_values(
            |r: CreationRequest| r@,
        ) + pending_requests(table@, kind, text_of(*template)),
{
    let ghost view = |r: CreationRequest| r@;
    let ghost start = out@.map_values(view);
    let ghost t = table@;
    let ghost tpl = text_of(*template);
    let mut i: usize = 0;
    proof {
        assert(t.take(0) =~= Seq::<EntryView>::empty());
        assert(start + Seq::<CreationRequestView>::empty() =~= start);
    }
    while i < table.len()
        invariant
            i <= t.len(),
            t == table@,
            all_wf(t),
            tpl == text_of(*template),
            view == |r: CreationRequest| r@,
            out@.map_values(view) == start + pending_requests(t.take(i as int), kind, tpl),
        decreases t.len() - i,
    {
        let entry = table.entry(i);
        proof {
            assert(t.take(i + 1).drop_last() =~= t.take(i as int));
            assert(t.take(i + 1).last() == t[i as int]);
            assert(t[i as int].product.wf());
        }
        if entry.product.id.is_none() {
            let mut product = entry.product.clone();
            let prefix = crate::product::clone_text(template);
            apply_discount_prefix(&mut product, prefix);
            let request = CreationRequest {
                product_type: kind,
                key: entry.key.clone(),
                request: ProductUpdateRequest::from_product(&product),
            };
            proof {
                let before = pending_requests(t.take(i as int), kind, tpl);
                assert(out@.push(request).map_values(view) =~= out@.map_values(view).push(request@));
                assert((start + before).push(request@) =~= start + before.push(request@));
            }
            out.push(request);
        }
        i += 1;
    }
    proof {
        assert(t.take(t.len() as int) =~= t);
    }
}

impl Uploader {
    /// An upload of `local_products`, compared with `remote_products`.
    pub fn new(local_products: VCSProducts, remote_products: Vec<MultiProduct>) -> (out: Self)
        ensures
            out.local_products == local_products,
            out.remote_products == remote_products,
    {
        Uploader { local_products, remote_products }
    }

    /// Whether the catalog and the records are fit to be compared: no key
    /// occurs twice within a table, and every price and discount, local or
    /// remote, is valid.
    pub fn is_well_formed(&self) -> (b: bool)
        ensures
            b == (self.local_products@.wf() && self.local_products@.priced()
                && crate::download::records_wf(
                self.remote_products@.map_values(|r: MultiProduct| r@),
            )),
    {
        self.local_products.is_well_formed() && crate::download::records_are_priced(
            &self.remote_products,
        )
    }

    /// Whether some local product has no id yet.
    pub fn has_empty_products(&self) -> (b: bool)
        ensures
            b == (has_pending(self.local_products@.gamepasses) || has_pending(
                self.local_products@.products,
            )),
    {
        let passes = table_has_pending(&self.local_products.gamepasses);
        let products = table_has_pending(&self.local_products.products);
        passes || products
    }

    /// What the creation phase does first: nothing where every product has
    /// an id; else it creates the new products, after asking the operator
    /// unless the overwrite flag is set.
    pub fn creation_step(&self, overwrite: bool) -> (step: CreationStep)
        ensures
            step == if !(has_pending(self.local_products@.gamepasses) || has_pending(
                self.local_products@.products,
            )) {
                CreationStep::Nothing
            } else if overwrite {
                CreationStep::Create
            } else {
                CreationStep::AskApproval
            },
    {
        if !self.has_empty_products() {
            CreationStep::Nothing
        } else if overwrite {
            CreationStep::Create
        } else {
            CreationStep::AskApproval
        }
    }

    /// The requests that create the products without an id.
    pub fn creation_requests(&self) -> (out: Vec<CreationRequest>)
        requires
            self.local_products@.priced(),
        ensures
            out@.map_values(|r: CreationRequest| r@) == creation_requests_of(self.local_products@),
    {
        let mut out: Vec<CreationRequest> = Vec::new();
        proof {
            assert(out@.map_values(|r: CreationRequest| r@) =~= Seq::empty());
        }
        push_pending(
            &mut out,
            &self.local_products.gamepasses,
            ProductType::GamePass,
            &self.local_products.metadata.discount_prefix,
        );
        push_pending(
            &mut out,
            &self.local_products.products,
            ProductType::DevProduct,
            &self.local_products.metadata.discount_prefix,
        );
        proof {
            let c = self.local_products@;
            assert(Seq::<CreationRequestView>::empty() + pending_requests(
                c.gamepasses,
                ProductType::GamePass,
                c.metadata.discount_prefix,
            ) =~= pending_requests(c.gamepasses, ProductType::GamePass, c.metadata.discount_prefix));
        }
        out
    }

    /// Writes the outcomes of the creations to the catalog, first to last:
    /// each product that was created gets its id, each one whose creation
    /// failed stays without.
    pub fn apply_created(&mut self, results: &Vec<CreationResult>)
        ensures
            final(self).local_products@ == with_results(
                old(self).local_products@,
                results@.map_values(|r: CreationResult| r@),
            ),
            old(self).local_products@.wf() ==> final(self).local_products@.wf(),
            old(self).local_products@.priced() ==> final(self).local_products@.priced(),
            final(self).remote_products == old(self).remote_products,
    {
        let ghost start = self.local_products@;
        let ghost all = results@.map_values(|r: CreationResult| r@);
        let mut i: usize = 0;
        while i < results.len()
            invariant
                i <= results.len(),
                all == results@.map_values(|r: CreationResult| r@),
                self.local_products@ == with_results(start, all.take(i as int)),
                start.wf() ==> self.local_products@.wf(),
                start.priced() ==> self.local_products@.priced(),
                self.remote_products == old(self).remote_products,
            decreases results.len() - i,
        {
            let result = &results[i];
            proof {
                assert(all.take(i + 1).drop_last() =~= all.take(i as int));
                assert(all.take(i + 1).last() == result@);
            }
            match result.product_type {
                ProductType::GamePass => {
                    write_result(&mut self.local_products.gamepasses, &result.key, result.id);
                },
                ProductType::DevProduct => {
                    write_result(&mut self.local_products.products, &result.key, result.id);
                },
            }
            i += 1;
        }
        proof {
            assert(all.take(all.len() as int) =~= all);
        }
    }
}

fn write_result(table: &mut ProductTable, key: &String, id: Option<u64>)
    ensures
        final(table)@ == table_with_result(old(table)@, key@, id),
        old(table).wf() ==> final(table).wf(),
        all_wf(old(table)@) ==> all_wf(final(table)@),
{
    if let Some(id) = id {
        if let Some(i) = table.position_of_key(key) {
            proof {
                lemma_key_position(table@, key@);
            }
            let ghost before = table@;
            table.set_id(i, id);
            proof {
                if all_wf(before) {
                    assert forall|j: int| 0 <= j < table@.len() implies (#[trigger] table@[j]).product.wf() by {
                        assert(before[j].product.wf());
                    }
                }
            }
        }
    }
}

/// Whether an answer to the question of the creation phase lets it go on.
pub fn creation_approved(answer: &ConfirmState) -> (b: bool)
    ensures
        b == (*answer == ConfirmState::Confirmed),
{
    *answer == ConfirmState::Confirmed
}

/// One reported difference: the kind of the product and its comparison.
pub type KindDiff = (ProductType, ProductDiffsView);

/// The values of a list of reported differences.
pub open spec fn diffs_of(diffs: Seq<(ProductType, ProductDiffs)>) -> Seq<KindDiff> {
    diffs.map_values(|d: (ProductType, ProductDiffs)| (d.0, d.1@))
}

/// `i` is the first place in `records` with a record of this kind and id.
pub open spec fn is_first_record(
    records: Seq<(ProductType, ProductView)>,
    kind: ProductType,
    id: u64,
    i: int,
) -> bool {
    &&& 0 <= i < records.len()
    &&& records[i].0 == kind && records[i].1.id == Some(id)
    &&& forall|j: int|
        0 <= j < i ==> !((#[trigger] records[j]).0 == kind && records[j].1.id == Some(id))
}

/// The first place in `records` with a record of this kind and id.
pub open spec fn record_position(
    records: Seq<(ProductType, ProductView)>,
    kind: ProductType,
    id: u64,
) -> Option<int> {
    if exists|i: int| is_first_record(records, kind, id, i) {
        Some(choose|i: int| is_first_record(records, kind, id, i))
    } else {
        None
    }
}

/// The difference reported for a local product: none where it has no id,
/// where no remote record of its kind has its id, or where it is uploaded as
/// that record already stands.
pub open spec fn entry_diff(
    records: Seq<(ProductType, ProductView)>,
    kind: ProductType,
    local: ProductView,
) -> Option<KindDiff> {
    match local.id {
        Some(id) => match record_position(records, kind, id) {
            Some(i) => match diff_of(local, records[i].1) {
                Some(d) => Some((kind, d)),
                None => None,
            },
            None => None,
        },
        None => None,
    }
}

/// The differences reported for the products of a table, in its order.
pub open spec fn table_diffs(
    t: Seq<EntryView>,
    kind: ProductType,
    records: Seq<(ProductType, ProductView)>,
) -> Seq<KindDiff>
    decreases t.len(),
{
    if t.len() == 0 {
        Seq::empty()
    } else {
        let before = table_diffs(t.drop_last(), kind, records);
        match entry_diff(records, kind, t.last().product) {
            Some(d) => before.push(d),
            None => before,
        }
    }
}

/// The place of a kind in the report: one-time products come first.
pub open spec fn rank(kind: ProductType) -> int {
    match kind {
        ProductType::DevProduct => 0,
        ProductType::GamePass => 1,
    }
}

/// Whether `a` may stand before `b` in the report: its kind comes first, or
/// the kinds are the same and its id is not the greater.
pub open spec fn may_precede(a: KindDiff, b: KindDiff) -> bool {
    rank(a.0) < rank(b.0) || (rank(a.0) == rank(b.0) && a.1.id <= b.1.id)
}

/// The order of the report.
pub open spec fn report_order() -> spec_fn(KindDiff, KindDiff) -> bool {
    |a: KindDiff, b: KindDiff| may_precede(a, b)
}

/// `s` in the order of the report: by kind, one-time products first, then by
/// id; differences of one kind and id stay in the order they had.
pub open spec fn ordered(s: Seq<KindDiff>) -> Seq<KindDiff> {
    sort_by(s, report_order())
}

/// The differences that the modification phase reports.
pub open spec fn product_diffs_of(
    c: VCSProductsView,
    records: Seq<(ProductType, ProductView)>,
) -> Seq<KindDiff> {
    ordered(
        table_diffs(c.gamepasses, ProductType::GamePass, records) + table_diffs(
            c.products,
            ProductType::DevProduct,
            records,
        ),
    )
}

/// The report holds the differences that it was made from, each as often as
/// it occurred, and each may stand before all that follow it.
pub proof fn lemma_ordered(s: Seq<KindDiff>)
    ensures
        forall|i: int, j: int|
            0 <= i < j < s.len() ==> may_precede(#[trigger] ordered(s)[i], #[trigger] ordered(s)[j]),
        ordered(s).to_multiset() == s.to_multiset(),
        ordered(s).len() == s.len(),
{
    lemma_sort_by(s, report_order());
    let o = ordered(s);
    assert forall|i: int, j: int| 0 <= i < j < s.len() implies may_precede(
        #[trigger] o[i],
        #[trigger] o[j],
    ) by {
        assert(report_order()(o[i], o[j]));
    }
}

/// A difference that is reported for a product is of the product's kind,
/// carries its id and name, and is its comparison with the first remote
/// record of that kind and id.
pub proof fn lemma_entry_diff(
    records: Seq<(ProductType, ProductView)>,
    kind: ProductType,
    local: ProductView,
)
    ensures
        entry_diff(records, kind, local) matches Some(d) ==> {
            &&& d.0 == kind
            &&& local.id == Some(d.1.id)
            &&& d.1.name == local.name
            &&& record_position(records, kind, d.1.id) matches Some(r) && diff_of(
                local,
                records[r].1,
            ) == Some(d.1)
        },
{
}

/// Every difference reported for a table is that of one of its products,
/// and every product of the table that has a difference has it reported.
pub proof fn lemma_table_diffs(
    t: Seq<EntryView>,
    kind: ProductType,
    records: Seq<(ProductType, ProductView)>,
)
    ensures
        forall|j: int|
            0 <= j < table_diffs(t, kind, records).len() ==> exists|i: int|
                0 <= i < t.len() && entry_diff(records, kind, (#[trigger] t[i]).product) == Some(
                    #[trigger] table_diffs(t, kind, records)[j],
                ),
        forall|i: int|
            0 <= i < t.len() && entry_diff(records, kind, (#[trigger] t[i]).product) is Some
                ==> table_diffs(t, kind, records).contains(
                entry_diff(records, kind, t[i].product)->0,
            ),
    decreases t.len(),
{
    if t.len() > 0 {
        let rest = t.drop_last();
        let before = table_diffs(rest, kind, records);
        let all = table_diffs(t, kind, records);
        let n = t.len() - 1;
        lemma_table_diffs(rest, kind, records);
        assert forall|j: int| 0 <= j < all.len() implies exists|i: int|
            0 <= i < t.len() && entry_diff(records, kind, (#[trigger] t[i]).product) == Some(
                #[trigger] all[j],
            ) by {
            if j < before.len() {
                assert(all[j] == before[j]);
                let i = choose|i: int|
                    0 <= i < rest.len() && entry_diff(records, kind, (#[trigger] rest[i]).product)
                        == Some(before[j]);
                assert(t[i] == rest[i]);
            } else {
                assert(entry_diff(records, kind, t[n].product) == Some(all[j]));
            }
        }
        assert forall|i: int|
            0 <= i < t.len() && entry_diff(
                records,
                kind,
                (#[trigger] t[i]).product,
            ) is Some implies all.contains(entry_diff(records, kind, t[i].product)->0) by {
            let d = entry_diff(records, kind, t[i].product)->0;
            if i < n {
                assert(rest[i] == t[i]);
                let k = choose|k: int| 0 <= k < before.len() && before[k] == d;
                assert(all[k] == before[k]);
            } else {
                assert(all[all.len() - 1] == d);
            }
        }
    }
}

/// Whether `d` is the difference of a local product of its kind that has
/// its id.
pub open spec fn is_diff_of_local(
    c: VCSProductsView,
    records: Seq<(ProductType, ProductView)>,
    d: KindDiff,
) -> bool {
    exists|i: int|
        0 <= i < c.table(d.0).len() && (#[trigger] c.table(d.0)[i]).product.id == Some(d.1.id)
            && entry_diff(records, d.0, c.table(d.0)[i].product) == Some(d)
}

/// Every difference that the modification phase reports is that of a local
/// product of its kind with its id, compared with the first remote record of
/// that kind and id; and every local product that differs from its record is
/// reported.
pub proof fn lemma_product_diffs(c: VCSProductsView, records: Seq<(ProductType, ProductView)>)
    ensures
        forall|j: int|
            0 <= j < product_diffs_of(c, records).len() ==> is_diff_of_local(
                c,
                records,
                #[trigger] product_diffs_of(c, records)[j],
            ),
        forall|i: int|
            0 <= i < c.gamepasses.len() && entry_diff(
                records,
                ProductType::GamePass,
                (#[trigger] c.gamepasses[i]).product,
            ) is Some ==> product_diffs_of(c, records).contains(
                entry_diff(records, ProductType::GamePass, c.gamepasses[i].product)->0,
            ),
        forall|i: int|
            0 <= i < c.products.len() && entry_diff(
                records,
                ProductType::DevProduct,
                (#[trigger] c.products[i]).product,
            ) is Some ==> product_diffs_of(c, records).contains(
                entry_diff(records, ProductType::DevProduct, c.products[i].product)->0,
            ),
{
    broadcast use vstd::seq_lib::group_to_multiset_ensures;

    let passes = table_diffs(c.gamepasses, ProductType::GamePass, records);
    let products = table_diffs(c.products, ProductType::DevProduct, records);
    let found = passes + products;
    let report = product_diffs_of(c, records);
    lemma_table_diffs(c.gamepasses, ProductType::GamePass, records);
    lemma_table_diffs(c.products, ProductType::DevProduct, records);
    lemma_sort_by(found, report_order());
    assert forall|j: int| 0 <= j < report.len() implies is_diff_of_local(
        c,
        records,
        #[trigger] report[j],
    ) by {
        let d = report[j];
        assert(report.to_multiset().count(d) > 0);
        assert(found.to_multiset().count(d) > 0);
        assert(found.contains(d));
        let k = choose|k: int| 0 <= k < found.len() && found[k] == d;
        if k < passes.len() {
            assert(found[k] == passes[k]);
            let i = choose|i: int|
                0 <= i < c.gamepasses.len() && entry_diff(
                    records,
                    ProductType::GamePass,
                    (#[trigger] c.gamepasses[i]).product,
                ) == Some(passes[k]);
            lemma_entry_diff(records, ProductType::GamePass, c.gamepasses[i].product);
            assert(c.table(ProductType::GamePass)[i] == c.gamepasses[i]);
        } else {
            assert(found[k] == products[k - passes.len()]);
            let i = choose|i: int|
                0 <= i < c.products.len() && entry_diff(
                    records,
                    ProductType::DevProduct,
                    (#[trigger] c.products[i]).product,
                ) == Some(products[k - passes.len()]);
            lemma_entry_diff(records, ProductType::DevProduct, c.products[i].product);
            assert(c.table(ProductType::DevProduct)[i] == c.products[i]);
        }
    }
    assert forall|i: int|
        0 <= i < c.gamepasses.len() && entry_diff(
            records,
            ProductType::GamePass,
            (#[trigger] c.gamepasses[i]).product,
        ) is Some implies report.contains(
        entry_diff(records, ProductType::GamePass, c.gamepasses[i].product)->0,
    ) by {
        let d = entry_diff(records, ProductType::GamePass, c.gamepasses[i].product)->0;
        let k = choose|k: int| 0 <= k < passes.len() && passes[k] == d;
        assert(found[k] == d);
        assert(found.contains(d));
        assert(found.to_multiset().count(d) > 0);
        assert(report.to_multiset().count(d) > 0);
    }
    assert forall|i: int|
        0 <= i < c.products.len() && entry_diff(
            records,
            ProductType::DevProduct,
            (#[trigger] c.products[i]).product,
        ) is Some implies report.contains(
        entry_diff(records, ProductType::DevProduct, c.products[i].product)->0,
    ) by {
        let d = entry_diff(records, ProductType::DevProduct, c.products[i].product)->0;
        let k = choose|k: int| 0 <= k < products.len() && products[k] == d;
        assert(found[passes.len() + k] == d);
        assert(found.contains(d));
        assert(found.to_multiset().count(d) > 0);
        assert(report.to_multiset().count(d) > 0);
    }
}

/// What follows the outcome of one remote call of a phase.
#[derive(Clone, Copy, Debug, PartialEq, Eq, Structural)]
pub enum QueueStep {
    /// The next call of the phase is made.
    Continue,
    /// No further call of the phase is made, and the failure is reported.
    Abort,
}

/// What follows the creation of one product: the next product is created,
/// whether this one was created or not. A failed creation only leaves its
/// product without an id.
pub fn after_creation(succeeded: bool) -> (next: QueueStep)
    ensures
        next == QueueStep::Continue,
{
    QueueStep::Continue
}

/// What follows the update of one product: the next update where this one
/// succeeded, none where it failed.
pub fn after_update(succeeded: bool) -> (next: QueueStep)
    ensures
        next == if succeeded {
            QueueStep::Continue
        } else {
            QueueStep::Abort
        },
{
    if succeeded {
        QueueStep::Continue
    } else {
        QueueStep::Abort
    }
}

/// What the modification phase does once the differences are known.
#[derive(Clone, Copy, Debug, PartialEq, Eq, Structural)]
pub enum ModificationStep {
    /// There is no difference: the phase is over.
    Nothing,
    /// The operator selects the differences to push, and is then asked
    /// whether to go on.
    AskSelection,
    /// Every difference is pushed without asking.
    PushAll,
}

/// What the modification phase does once the operator has answered.
#[derive(Clone, Copy, Debug, PartialEq, Eq, Structural)]
pub enum SelectionStep {
    /// The operator did not confirm: nothing is pushed.
    Abort,
    /// The operator selected no difference: the phase is over.
    Nothing,
    /// The selected differences are pushed.
    Push,
}

/// What the modification phase does with `diff_count` differences.
pub fn modification_step(diff_count: usize, overwrite: bool) -> (step: ModificationStep)
    ensures
        step == if diff_count == 0 {
            ModificationStep::Nothing
        } else if overwrite {
            ModificationStep::PushAll
        } else {
            ModificationStep::AskSelection
        },
{
    if diff_count == 0 {
        ModificationStep::Nothing
    } else if overwrite {
        ModificationStep::PushAll
    } else {
        ModificationStep::AskSelection
    }
}

/// What the modification phase does after the operator has selected
/// `selected` differences and answered the question whether to go on.
pub fn selection_step(answer: &ConfirmState, selected: usize) -> (step: SelectionStep)
    ensures
        step == if *answer == ConfirmState::Closed {
            SelectionStep::Abort
        } else if selected == 0 {
            SelectionStep::Nothing
        } else {
            SelectionStep::Push
        },
{
    if *answer == ConfirmState::Closed {
        SelectionStep::Abort
    } else if selected == 0 {
        SelectionStep::Nothing
    } else {
        SelectionStep::Push
    }
}

/// The kind and id of every difference, in the order of the report: what
/// counts as confirmed where the operator is not asked.
pub fn confirm_all(diffs: &Vec<(ProductType, ProductDiffs)>) -> (out: Vec<(ProductType, u64)>)
    ensures
        out@ == diffs_of(diffs@).map_values(|d: KindDiff| (d.0, d.1.id)),
{
    let mut out: Vec<(ProductType, u64)> = Vec::new();
    let ghost all = diffs_of(diffs@).map_values(|d: KindDiff| (d.0, d.1.id));
    let mut i: usize = 0;
    while i < diffs.len()
        invariant
            i <= diffs.len(),
            all == diffs_of(diffs@).map_values(|d: KindDiff| (d.0, d.1.id)),
            out@ == all.take(i as int),
        decreases diffs.len() - i,
    {
        let pair = (diffs[i].0, diffs[i].1.id);
        proof {
            assert(all[i as int] == pair);
            assert(all.take(i + 1) =~= all.take(i as int).push(pair));
        }
        out.push(pair);
        i += 1;
    }
    proof {
        assert(all.take(all.len() as int) =~= all);
    }
    out
}

fn precedes(a_kind: ProductType, a_id: u64, b_kind: ProductType, b_id: u64) -> (b: bool)
    ensures
        b == (rank(a_kind) < rank(b_kind) || (rank(a_kind) == rank(b_kind) && a_id <= b_id)),
{
    match (a_kind, b_kind) {
        (ProductType::DevProduct, ProductType::GamePass) => true,
        (ProductType::GamePass, ProductType::DevProduct) => false,
        _ => a_id <= b_id,
    }
}

fn insert_diff(report: &mut Vec<(ProductType, ProductDiffs)>, kind: ProductType, diff: ProductDiffs)
    ensures
        diffs_of(final(report)@) == insert_by(
            diffs_of(old(report)@),
            (kind, diff@),
            report_order(),
        ),
{
    let ghost before = diffs_of(report@);
    let ghost x = (kind, diff@);
    let mut pos: usize = report.len();
    while pos > 0 && !precedes(report[pos - 1].0, report[pos - 1].1.id, kind, diff.id)
        invariant
            pos <= report.len(),
            before == diffs_of(report@),
            x == (kind, diff@),
            forall|j: int| pos <= j < before.len() ==> !may_precede(#[trigger] before[j], x),
        decreases pos,
    {
        pos -= 1;
    }
    proof {
        if pos > 0 {
            assert(may_precede(before[pos - 1], x));
        }
        assert forall|j: int| pos <= j < before.len() implies !report_order()(
            #[trigger] before[j],
            x,
        ) by {
            assert(!may_precede(before[j], x));
        }
        lemma_insert_by_at(before, x, report_order(), pos as int);
    }
    report.insert(pos, (kind, diff));
    proof {
        assert(diffs_of(report@) =~= before.insert(pos as int, x));
    }
}

fn find_record(records: &Vec<MultiProduct>, kind: ProductType, id: u64) -> (out: Option<usize>)
    ensures
        out is Some <==> record_position(records@.map_values(|r: MultiProduct| r@), kind, id)
            is Some,
        out matches Some(i) ==> record_position(
            records@.map_values(|r: MultiProduct| r@),
            kind,
            id,
        ) == Some(i as int) && i < records.len(),
{
    let ghost all = records@.map_values(|r: MultiProduct| r@);
    let mut i: usize = 0;
    while i < records.len()
        invariant
            i <= records.len(),
            all == records@.map_values(|r: MultiProduct| r@),
            forall|j: int| 0 <= j < i ==> !((#[trigger] all[j]).0 == kind && all[j].1.id == Some(id)),
        decreases records.len() - i,
    {
        let record = &records[i];
        if record.product_type() == kind && record.product().id == Some(id) {
            proof {
                assert(is_first_record(all, kind, id, i as int));
                let c = choose|c: int| is_first_record(all, kind, id, c);
                if c < i {
                    assert(!(all[c].0 == kind && all[c].1.id == Some(id)));
                } else if i < c {
                    assert(all[i as int].0 == kind);
                }
            }
            return Some(i);
        }
        i += 1;
    }
    None
}

fn push_table_diffs(
    out: &mut Vec<(ProductType, ProductDiffs)>,
    table: &ProductTable,
    kind: ProductType,
    records: &Vec<MultiProduct>,
)
    requires
        all_wf(table@),
        crate::download::records_wf(records@.map_values(|r: MultiProduct| r@)),
    ensures
        diffs_of(final(out)@) == diffs_of(old(out)@) + table_diffs(
            table@,
            kind,
            records@.map_values(|r: MultiProduct| r@),
        ),
{
    let ghost all = records@.map_values(|r: MultiProduct| r@);
    let ghost start = diffs_of(out@);
    let ghost t = table@;
    let mut i: usize = 0;
    proof {
        assert(t.take(0) =~= Seq::<EntryView>::empty());
        assert(start + Seq::<KindDiff>::empty() =~= start);
    }
    while i < table.len()
        invariant
            i <= t.len(),
            t == table@,
            all_wf(t),
            all == records@.map_values(|r: MultiProduct| r@),
            crate::download::records_wf(all),
            diffs_of(out@) == start + table_diffs(t.take(i as int), kind, all),
        decreases t.len() - i,
    {
        let local = &table.entry(i).product;
        let ghost before = table_diffs(t.take(i as int), kind, all);
        proof {
            assert(t.take(i + 1).drop_last() =~= t.take(i as int));
            assert(t.take(i + 1).last() == t[i as int]);
            assert(t[i as int].product.wf());
        }
        if let Some(id) = local.id {
            if let Some(r) = find_record(records, kind, id) {
                proof {
                    assert(all[r as int].1.wf());
                }
                if let Some(diff) = local.diff(records[r].product(), None) {
                    proof {
                        let v = |d: (ProductType, ProductDiffs)| (d.0, d.1@);
                        assert(out@.push((kind, diff)).map_values(v) =~= out@.map_values(v).push(
                            (kind, diff@),
                        ));
                        assert((start + before).push((kind, diff@)) =~= start + before.push(
                            (kind, diff@),
                        ));
                    }
                    out.push((kind, diff));
                }
            }
        }
        i += 1;
    }
    proof {
        assert(t.take(t.len() as int) =~= t);
    }
}

impl Uploader {
    /// The differences between the local products that have an id and the
    /// remote records of their kind and id, in the order of the report. A
    /// local product whose id no remote record has is passed over.
    pub fn product_diffs(&self) -> (out: Vec<(ProductType, ProductDiffs)>)
        requires
            self.local_products@.priced(),
            crate::download::records_wf(self.remote_products@.map_values(|r: MultiProduct| r@)),
        ensures
            diffs_of(out@) == product_diffs_of(
                self.local_products@,
                self.remote_products@.map_values(|r: MultiProduct| r@),
            ),
    {
        let ghost records = self.remote_products@.map_values(|r: MultiProduct| r@);
        let mut found: Vec<(ProductType, ProductDiffs)> = Vec::new();
        proof {
            assert(diffs_of(found@) =~= Seq::<KindDiff>::empty());
        }
        push_table_diffs(
            &mut found,
            &self.local_products.gamepasses,
            ProductType::GamePass,
            &self.remote_products,
        );
        push_table_diffs(
            &mut found,
            &self.local_products.products,
            ProductType::DevProduct,
            &self.remote_products,
        );
        let ghost unordered = diffs_of(found@);
        proof {
            let passes = table_diffs(self.local_products@.gamepasses, ProductType::GamePass, records);
            assert(Seq::<KindDiff>::empty() + passes =~= passes);
        }
        let mut report: Vec<(ProductType, ProductDiffs)> = Vec::new();
        proof {
            assert(diffs_of(report@) =~= Seq::<KindDiff>::empty());
            assert(unordered.take(0) =~= Seq::<KindDiff>::empty());
        }
        let mut i: usize = 0;
        while i < found.len()
            invariant
                i <= found.len(),
                unordered == diffs_of(found@),
                diffs_of(report@) == ordered(unordered.take(i as int)),
            decreases found.len() - i,
        {
            proof {
                assert(unordered.take(i + 1).drop_last() =~= unordered.take(i as int));
                assert(unordered.take(i + 1).last() == (found@[i as int].0, found@[i as int].1@));
            }
            let diff = found[i].1.clone();
            insert_diff(&mut report, found[i].0, diff);
            i += 1;
        }
        proof {
            assert(unordered.take(unordered.len() as int) =~= unordered);
        }
        report
    }

    /// What is sent to update the remote record of this kind and id: the
    /// request for the first local product of the kind that has the id,
    /// under its marked name. Nothing where no local product has the id.
    pub fn update_request(&self, kind: ProductType, id: u64) -> (out: Option<ProductUpdateRequest>)
        requires
            self.local_products@.priced(),
        ensures
            match crate::catalog::id_position(self.local_products@.table(kind), Some(id)) {
                Some(i) => out matches Some(r) && r@ == request_of(
                    marked(
                        self.local_products@.table(kind)[i].product,
                        self.local_products@.metadata.discount_prefix,
                    ),
                ),
                None => out is None,
            },
    {
        let table = match kind {
            ProductType::GamePass => &self.local_products.gamepasses,
            ProductType::DevProduct => &self.local_products.products,
        };
        proof {
            crate::catalog::lemma_id_position(table@, Some(id));
        }
        match table.position_of_id(Some(id)) {
            Some(i) => {
                let mut product = table.entry(i).product.clone();
                proof {
                    assert(table@[i as int].product.wf());
                }
                apply_discount_prefix(
                    &mut product,
                    crate::product::clone_text(&self.local_products.metadata.discount_prefix),
                );
                Some(ProductUpdateRequest::from_product(&product))
            },
            None => None,
        }
    }
}

} // verus!
