//! Field-by-field differences between a local product and its remote record.

use vstd::prelude::*;

verus! {

/// One field of a product, with its remote value first and its local value
/// second.
#[derive(Debug, PartialEq, Eq)]
pub enum ProductDiff {
    Title(String, String),
    Description(String, String),
    Price(u64, u64),
    RegionalPricing(bool, bool),
    Active(bool, bool),
}

/// A field comparison, tagged with its outcome.
#[derive(Debug, PartialEq, Eq)]
pub enum DiffChange {
    Unchanged(ProductDiff),
    Changed(ProductDiff),
    Created(ProductDiff),
}

/// The comparison of all fields of one product.
#[derive(Debug, PartialEq, Eq)]
pub struct ProductDiffs {
    pub name: String,
    pub id: u64,
    pub diffs: Vec<DiffChange>,
}

/// The mathematical value of a [`ProductDiff`].
pub enum ProductDiffView {
    Title(Seq<char>, Seq<char>),
    Description(Seq<char>, Seq<char>),
    Price(u64, u64),
    RegionalPricing(bool, bool),
    Active(bool, bool),
}

/// The mathematical value of a [`DiffChange`].
pub enum DiffChangeView {
    Unchanged(ProductDiffView),
    Changed(ProductDiffView),
    Created(ProductDiffView),
}

/// The mathematical value of a [`ProductDiffs`].
pub struct ProductDiffsView {
    pub name: Seq<char>,
    pub id: u64,
    pub diffs: Seq<DiffChangeView>,
}

impl View for ProductDiff {
    type V = ProductDiffView;

    open spec fn view(&self) -> ProductDiffView {
        match *self {
            ProductDiff::Title(old, new) => ProductDiffView::Title(old@, new@),
            ProductDiff::Description(old, new) => ProductDiffView::Description(old@, new@),
            ProductDiff::Price(old, new) => ProductDiffView::Price(old, new),
            ProductDiff::RegionalPricing(old, new) => ProductDiffView::RegionalPricing(old, new),
            ProductDiff::Active(old, new) => ProductDiffView::Active(old, new),
        }
    }
}

impl View for DiffChange {
    type V = DiffChangeView;

    open spec fn view(&self) -> DiffChangeView {
        match *self {
            DiffChange::Unchanged(d) => DiffChangeView::Unchanged(d@),
            DiffChange::Changed(d) => DiffChangeView::Changed(d@),
            DiffChange::Created(d) => DiffChangeView::Created(d@),
        }
    }
}

impl View for ProductDiffs {
    type V = ProductDiffsView;

    open spec fn view(&self) -> ProductDiffsView {
        ProductDiffsView {
            name: self.name@,
            id: self.id,
            diffs: self.diffs@.map_values(|c: DiffChange| c@),
        }
    }
}

impl ProductDiffView {
    /// Whether the two values of the field are the same.
    pub open spec fn same(self) -> bool {
        match self {
            ProductDiffView::Title(old, new) => old == new,
            ProductDiffView::Description(old, new) => old == new,
            ProductDiffView::Price(old, new) => old == new,
            ProductDiffView::RegionalPricing(old, new) => old == new,
            ProductDiffView::Active(old, new) => old == new,
        }
    }

    /// The comparison tagged with its outcome.
    pub open spec fn tagged(self) -> DiffChangeView {
        if self.same() {
            DiffChangeView::Unchanged(self)
        } else {
            DiffChangeView::Changed(self)
        }
    }
}

/// How many of the comparisons are tagged as changed.
pub open spec fn changed_count(diffs: Seq<DiffChangeView>) -> nat
    decreases diffs.len(),
{
    if diffs.len() == 0 {
        0
    } else {
        changed_count(diffs.drop_last()) + if diffs.last() is Changed {
            1nat
        } else {
            0nat
        }
    }
}

impl Clone for ProductDiff {
    fn clone(&self) -> (out: Self)
        ensures
            out@ == self@,
    {
        match self {
            ProductDiff::Title(old, new) => ProductDiff::Title(old.clone(), new.clone()),
            ProductDiff::Description(old, new) => ProductDiff::Description(
                old.clone(),
                new.clone(),
            ),
            ProductDiff::Price(old, new) => ProductDiff::Price(*old, *new),
            ProductDiff::RegionalPricing(old, new) => ProductDiff::RegionalPricing(*old, *new),
            ProductDiff::Active(old, new) => ProductDiff::Active(*old, *new),
        }
    }
}

impl Clone for DiffChange {
    fn clone(&self) -> (out: Self)
        ensures
            out@ == self@,
    {
        match self {
            DiffChange::Unchanged(d) => DiffChange::Unchanged(d.clone()),
            DiffChange::Changed(d) => DiffChange::Changed(d.clone()),
            DiffChange::Created(d) => DiffChange::Created(d.clone()),
        }
    }
}

impl Clone for ProductDiffs {
    fn clone(&self) -> (out: Self)
        ensures
            out@ == self@,
    {
        let mut diffs: Vec<DiffChange> = Vec::new();
        let mut i: usize = 0;
        while i < self.diffs.len()
            invariant
                i <= self.diffs.len(),
                diffs@.map_values(|c: DiffChange| c@) == self.diffs@.take(i as int).map_values(
                    |c: DiffChange| c@,
                ),
            decreases self.diffs.len() - i,
        {
            let change = self.diffs[i].clone();
            proof {
                let v = |c: DiffChange| c@;
                assert(diffs@.push(change).map_values(v) =~= diffs@.map_values(v).push(change@));
                assert(self.diffs@.take(i + 1).map_values(v) =~= self.diffs@.take(
                    i as int,
                ).map_values(v).push(self.diffs@[i as int]@));
            }
            diffs.push(change);
            i += 1;
        }
        proof {
            assert(self.diffs@.take(self.diffs@.len() as int) =~= self.diffs@);
        }
        ProductDiffs { name: self.name.clone(), id: self.id, diffs }
    }
}

impl ProductDiff {
    /// Whether the two values of the field are the same.
    pub fn same(&self) -> (b: bool)
        ensures
            b == self@.same(),
    {
        match self {
            ProductDiff::Title(old, new) => *old == *new,
            ProductDiff::Description(old, new) => *old == *new,
            ProductDiff::Price(old, new) => *old == *new,
            ProductDiff::RegionalPricing(old, new) => *old == *new,
            ProductDiff::Active(old, new) => *old == *new,
        }
    }

    /// The comparison tagged with its outcome.
    pub fn tagged(self) -> (out: DiffChange)
        ensures
            out@ == self@.tagged(),
    {
        if self.same() {
            DiffChange::Unchanged(self)
        } else {
            DiffChange::Changed(self)
        }
    }
}

} // verus!
