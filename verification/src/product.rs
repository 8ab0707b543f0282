//! The product record of the local catalog, its derived price and title, and
//! its comparison with a remote record.

use crate::diff::{
    changed_count, DiffChange, ProductDiff, ProductDiffView, ProductDiffs, ProductDiffsView,
};
use crate::text::{chars_of, filter_patterns, push_str, string_of, NameFilter};
use vstd::prelude::*;

verus! {

/// The two kinds of product that the platform sells.
#[derive(Clone, Copy, Debug, PartialEq, Eq, Structural)]
pub enum ProductType {
    GamePass,
    DevProduct,
}

/// A pass or a one-time product, as the catalog holds it.
#[derive(Debug, PartialEq, Eq)]
pub struct Product {
    pub id: Option<u64>,
    pub name: String,
    pub prefix: Option<String>,
    pub description: Option<String>,
    pub active: bool,
    pub discount: Option<u8>,
    pub price: i64,
    pub regional_pricing: Option<bool>,
}

/// A remote record, turned into a product and tagged with its kind.
#[derive(Debug)]
pub enum MultiProduct {
    GamePass(Product),
    DevProduct(Product),
}

/// The settings that a catalog holds beside its products.
#[derive(Debug)]
pub struct Metadata {
    pub universe_id: u64,
    pub luau_file: Option<String>,
    pub discount_prefix: Option<String>,
    pub name_filters: Option<Vec<NameFilter>>,
}

/// The mathematical value of a [`Metadata`].
pub struct MetadataView {
    pub universe_id: u64,
    pub luau_file: Option<Seq<char>>,
    pub discount_prefix: Option<Seq<char>>,
    pub name_filters: Seq<Seq<char>>,
}

impl View for Metadata {
    type V = MetadataView;

    open spec fn view(&self) -> MetadataView {
        MetadataView {
            universe_id: self.universe_id,
            luau_file: text_of(self.luau_file),
            discount_prefix: text_of(self.discount_prefix),
            name_filters: filter_patterns(self.name_filters),
        }
    }
}

impl View for MultiProduct {
    type V = (ProductType, ProductView);

    open spec fn view(&self) -> (ProductType, ProductView) {
        match *self {
            MultiProduct::GamePass(p) => (ProductType::GamePass, p@),
            MultiProduct::DevProduct(p) => (ProductType::DevProduct, p@),
        }
    }
}

impl MultiProduct {
    /// The kind of the record.
    pub fn product_type(&self) -> (kind: ProductType)
        ensures
            kind == self@.0,
    {
        match self {
            MultiProduct::GamePass(_) => ProductType::GamePass,
            MultiProduct::DevProduct(_) => ProductType::DevProduct,
        }
    }

    /// The record as a product.
    pub fn product(&self) -> (p: &Product)
        ensures
            p@ == self@.1,
    {
        match self {
            MultiProduct::GamePass(p) => p,
            MultiProduct::DevProduct(p) => p,
        }
    }
}

/// The characters of an optional string.
pub open spec fn text_of(s: Option<String>) -> Option<Seq<char>> {
    match s {
        Some(s) => Some(s@),
        None => None,
    }
}

/// The mathematical value of a [`Product`].
pub struct ProductView {
    pub id: Option<u64>,
    pub name: Seq<char>,
    pub prefix: Option<Seq<char>>,
    pub description: Option<Seq<char>>,
    pub active: bool,
    pub discount: Option<u8>,
    pub price: i64,
    pub regional_pricing: Option<bool>,
}

impl View for Product {
    type V = ProductView;

    open spec fn view(&self) -> ProductView {
        ProductView {
            id: self.id,
            name: self.name@,
            prefix: text_of(self.prefix),
            description: text_of(self.description),
            active: self.active,
            discount: self.discount,
            price: self.price,
            regional_pricing: self.regional_pricing,
        }
    }
}

impl ProductView {
    /// The price is not negative and the discount is a percentage.
    pub open spec fn wf(self) -> bool {
        &&& self.price >= 0
        &&& self.discount matches Some(d) ==> d <= 100
    }

    /// Whether a discount above zero is set.
    pub open spec fn has_discount(self) -> bool {
        self.discount matches Some(d) && d > 0
    }

    /// The price after the discount, rounded down.
    pub open spec fn effective_price(self) -> int {
        if self.has_discount() {
            self.price * (100 - self.discount->0) / 100
        } else {
            self.price as int
        }
    }

    /// The title that is shown and uploaded: the bare name under a discount,
    /// else the name behind its prefix, if it has one.
    pub open spec fn title(self) -> Seq<char> {
        if self.has_discount() {
            self.name
        } else {
            match self.prefix {
                Some(prefix) => prefix + seq![' '] + self.name,
                None => self.name,
            }
        }
    }

    /// Regional pricing, where an unset flag counts as off.
    pub open spec fn regional(self) -> bool {
        self.regional_pricing == Some(true)
    }

    /// The description, where a missing one counts as empty.
    pub open spec fn description_text(self) -> Seq<char> {
        match self.description {
            Some(d) => d,
            None => Seq::empty(),
        }
    }

    /// The id, where a missing one counts as zero.
    pub open spec fn id_or_zero(self) -> u64 {
        match self.id {
            Some(id) => id,
            None => 0,
        }
    }
}

/// The five comparisons of a local product with a remote record, in the
/// order in which they are shown: title, description, price, regional
/// pricing, active. Each holds the remote value first.
pub open spec fn field_diffs(local: ProductView, remote: ProductView) -> Seq<ProductDiffView> {
    seq![
        ProductDiffView::Title(remote.name, local.title()),
        ProductDiffView::Description(remote.description_text(), local.description_text()),
        ProductDiffView::Price(remote.price as u64, local.effective_price() as u64),
        ProductDiffView::RegionalPricing(remote.regional(), local.regional()),
        ProductDiffView::Active(remote.active, local.active),
    ]
}

/// Whether the local product, as it would be uploaded, is what the remote
/// record already holds.
pub open spec fn same_as_remote(local: ProductView, remote: ProductView) -> bool {
    &&& remote.name == local.title()
    &&& remote.description_text() == local.description_text()
    &&& remote.price == local.effective_price()
    &&& remote.regional() == local.regional()
    &&& remote.active == local.active
}

/// How many of the five fields differ between the local product, as it would
/// be uploaded, and the remote record.
pub open spec fn differing_fields(local: ProductView, remote: ProductView) -> nat {
    let one = |b: bool| if b { 0nat } else { 1nat };
    one(remote.name == local.title()) + one(
        remote.description_text() == local.description_text(),
    ) + one(remote.price == local.effective_price()) + one(remote.regional() == local.regional())
        + one(remote.active == local.active)
}

/// What [`Product::diff`] returns: nothing where no field differs, else all
/// five comparisons, tagged, under the local product's name and id.
pub open spec fn diff_of(local: ProductView, remote: ProductView) -> Option<ProductDiffsView> {
    if same_as_remote(local, remote) {
        None
    } else {
        Some(
            ProductDiffsView {
                name: local.name,
                id: local.id_or_zero(),
                diffs: field_diffs(local, remote).map_values(|d: ProductDiffView| d.tagged()),
            },
        )
    }
}

/// A copy of an optional string.
pub fn clone_text(s: &Option<String>) -> (out: Option<String>)
    ensures
        text_of(out) == text_of(*s),
{
    match s {
        Some(s) => Some(s.clone()),
        None => None,
    }
}

impl Clone for Product {
    fn clone(&self) -> (out: Self)
        ensures
            out@ == self@,
    {
        Product {
            id: self.id,
            name: self.name.clone(),
            prefix: clone_text(&self.prefix),
            description: clone_text(&self.description),
            active: self.active,
            discount: self.discount,
            price: self.price,
            regional_pricing: self.regional_pricing,
        }
    }
}

impl Product {
    /// Whether the price is not negative and the discount is a percentage.
    pub fn is_well_formed(&self) -> (b: bool)
        ensures
            b == self@.wf(),
    {
        self.price >= 0 && match self.discount {
            Some(d) => d <= 100,
            None => true,
        }
    }

    /// Whether a discount above zero is set.
    pub fn has_discount(&self) -> (b: bool)
        ensures
            b == self@.has_discount(),
    {
        match self.discount {
            Some(d) => d > 0,
            None => false,
        }
    }

    /// The price after the discount, rounded down.
    pub fn get_price(&self) -> (price: u64)
        requires
            self@.wf(),
        ensures
            price == self@.effective_price(),
    {
        match self.discount {
            Some(d) if d > 0 => {
                let full: u128 = self.price as u128;
                let left: u128 = (100 - d) as u128;
                assert(full * left <= full * 100) by (nonlinear_arith)
                    requires
                        0 <= left <= 100,
                        0 <= full,
                ;
                assert(full * left / 100 <= full) by (nonlinear_arith)
                    requires
                        full * left <= full * 100,
                        0 <= full,
                        0 <= left,
                ;
                (full * left / 100) as u64
            },
            _ => self.price as u64,
        }
    }

    /// The title that is shown and uploaded.
    pub fn get_title(&self) -> (title: String)
        ensures
            title@ == self@.title(),
    {
        if self.has_discount() {
            return self.name.clone();
        }
        match &self.prefix {
            Some(prefix) => {
                let mut chars = chars_of(prefix.as_str());
                chars.push(' ');
                push_str(&mut chars, self.name.as_str());
                proof {
                    assert(chars@ =~= prefix@ + seq![' '] + self.name@);
                }
                string_of(&chars)
            },
            None => self.name.clone(),
        }
    }

    /// Compares this product, as it would be uploaded, with the remote record
    /// `other`. The title compared is [`Product::get_title`]: the discount
    /// mark is put on a name only when it is uploaded, so `metadata` does not
    /// bear on the result. A remote record without a description counts as
    /// one with an empty description.
    pub fn diff(&self, other: &Self, metadata: Option<&Metadata>) -> (out: Option<ProductDiffs>)
        requires
            self@.wf(),
            other@.wf(),
        ensures
            out is Some <==> diff_of(self@, other@) is Some,
            out matches Some(d) ==> diff_of(self@, other@) == Some(d@),
    {
        let local_description = match &self.description {
            Some(d) => d.clone(),
            None => String::new(),
        };
        let remote_description = match &other.description {
            Some(d) => d.clone(),
            None => String::new(),
        };
        let title = ProductDiff::Title(other.name.clone(), self.get_title()).tagged();
        let description = ProductDiff::Description(remote_description, local_description).tagged();
        let price = ProductDiff::Price(other.price as u64, self.get_price()).tagged();
        let regional = ProductDiff::RegionalPricing(
            other.regional_pricing == Some(true),
            self.regional_pricing == Some(true),
        ).tagged();
        let active = ProductDiff::Active(other.active, self.active).tagged();
        let has_diffs = is_changed(&title) || is_changed(&description) || is_changed(&price)
            || is_changed(&regional) || is_changed(&active);
        if !has_diffs {
            return None;
        }
        let mut diffs: Vec<DiffChange> = Vec::new();
        diffs.push(title);
        diffs.push(description);
        diffs.push(price);
        diffs.push(regional);
        diffs.push(active);
        let out = ProductDiffs {
            name: self.name.clone(),
            id: match self.id {
                Some(id) => id,
                None => 0,
            },
            diffs,
        };
        proof {
            assert(out@.diffs =~= field_diffs(self@, other@).map_values(
                |d: ProductDiffView| d.tagged(),
            ));
        }
        Some(out)
    }
}

/// Whether a comparison is tagged as changed.
pub fn is_changed(change: &DiffChange) -> (b: bool)
    ensures
        b == (change@ is Changed),
{
    match change {
        DiffChange::Changed(_) => true,
        _ => false,
    }
}

/// The discounted price is the floor of `price * (1 - discount / 100)`: the
/// greatest whole number `e` with `100 * e <= price * (100 - discount)`. With
/// no discount, or one of zero, it is the price itself.
pub proof fn lemma_effective_price_is_floor(p: ProductView)
    requires
        p.wf(),
    ensures
        p.has_discount() ==> {
            let d = p.discount->0 as int;
            let e = p.effective_price();
            &&& 1 <= d <= 100
            &&& 100 * e <= p.price * (100 - d) < 100 * (e + 1)
        },
        !p.has_discount() ==> p.effective_price() == p.price,
        0 <= p.effective_price() <= p.price,
{
    if p.has_discount() {
        let d = p.discount->0 as int;
        let whole = p.price * (100 - d);
        assert(0 <= whole <= p.price * 100) by (nonlinear_arith)
            requires
                0 <= p.price,
                1 <= d <= 100,
                whole == p.price * (100 - d),
        ;
        assert(100 * (whole / 100) <= whole < 100 * (whole / 100 + 1)) by (nonlinear_arith)
            requires
                0 <= whole,
        ;
        assert(0 <= whole / 100 <= p.price) by (nonlinear_arith)
            requires
                0 <= whole <= p.price * 100,
        ;
    }
}

/// A product that is uploaded as the remote record already stands is not
/// reported; any other is reported with all five fields in their fixed order,
/// and as many of them tagged as changed as there are fields that differ.
pub proof fn lemma_diff_counts_changes(local: ProductView, remote: ProductView)
    requires
        local.wf(),
        remote.wf(),
    ensures
        diff_of(local, remote) is None <==> same_as_remote(local, remote),
        diff_of(local, remote) is None <==> differing_fields(local, remote) == 0,
        diff_of(local, remote) matches Some(d) ==> {
            &&& d.diffs.len() == 5
            &&& d.diffs[0] == ProductDiffView::Title(remote.name, local.title()).tagged()
            &&& d.diffs[1] == ProductDiffView::Description(
                remote.description_text(),
                local.description_text(),
            ).tagged()
            &&& d.diffs[2] == ProductDiffView::Price(
                remote.price as u64,
                local.effective_price() as u64,
            ).tagged()
            &&& d.diffs[3] == ProductDiffView::RegionalPricing(
                remote.regional(),
                local.regional(),
            ).tagged()
            &&& d.diffs[4] == ProductDiffView::Active(remote.active, local.active).tagged()
            &&& changed_count(d.diffs) == differing_fields(local, remote)
            &&& changed_count(d.diffs) >= 1
        },
{
    lemma_effective_price_is_floor(local);
    if diff_of(local, remote) is Some {
        let d = diff_of(local, remote)->0;
        let s = d.diffs;
        assert(s.len() == 5);
        let s4 = s.drop_last();
        let s3 = s4.drop_last();
        let s2 = s3.drop_last();
        let s1 = s2.drop_last();
        let s0 = s1.drop_last();
        assert(s0.len() == 0);
        assert(changed_count(s0) == 0);
        assert(changed_count(s1) == changed_count(s0) + if s[0] is Changed { 1nat } else { 0nat });
        assert(changed_count(s2) == changed_count(s1) + if s[1] is Changed { 1nat } else { 0nat });
        assert(changed_count(s3) == changed_count(s2) + if s[2] is Changed { 1nat } else { 0nat });
        assert(changed_count(s4) == changed_count(s3) + if s[3] is Changed { 1nat } else { 0nat });
        assert(changed_count(s) == changed_count(s4) + if s[4] is Changed { 1nat } else { 0nat });
    }
}

} // verus!
