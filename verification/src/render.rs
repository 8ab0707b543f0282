//! The text that the viewers show, line by line. Drawing it is left to the
//! caller.

use crate::diff::{DiffChange, DiffChangeView, ProductDiff, ProductDiffView, ProductDiffs};
use crate::diff_viewer::{is_confirmed, DiffViewer};
use crate::model::bool_text;
use crate::number::{decimal_of, push_decimal};
use crate::product::ProductType;
use crate::text::{push_str, string_of};
use crate::upload::KindDiff;
use vstd::prelude::*;

verus! {

/// How a line is coloured.
#[derive(Clone, Copy, Debug, PartialEq, Eq, Structural)]
pub enum Tone {
    Plain,
    Removed,
    Added,
}

/// One line of an open difference.
#[derive(Debug, PartialEq, Eq)]
pub struct DiffLine {
    pub text: String,
    pub tone: Tone,
}

impl View for DiffLine {
    type V = (Seq<char>, Tone);

    open spec fn view(&self) -> (Seq<char>, Tone) {
        (self.text@, self.tone)
    }
}

/// One line of the list of differences.
#[derive(Debug, PartialEq, Eq)]
pub struct ListLine {
    pub text: String,
    pub confirmed: bool,
}

impl View for ListLine {
    type V = (Seq<char>, bool);

    open spec fn view(&self) -> (Seq<char>, bool) {
        (self.text@, self.confirmed)
    }
}

/// The name of a field, as it is shown.
pub open spec fn field_label(d: ProductDiffView) -> Seq<char> {
    match d {
        ProductDiffView::Title(_, _) => "Title"@,
        ProductDiffView::Description(_, _) => "Description"@,
        ProductDiffView::Price(_, _) => "Price"@,
        ProductDiffView::RegionalPricing(_, _) => "Regional Pricing"@,
        ProductDiffView::Active(_, _) => "Active"@,
    }
}

/// The remote value of a field, as it is shown.
pub open spec fn remote_text(d: ProductDiffView) -> Seq<char> {
    match d {
        ProductDiffView::Title(old, _) => old,
        ProductDiffView::Description(old, _) => old,
        ProductDiffView::Price(old, _) => decimal_of(old as nat),
        ProductDiffView::RegionalPricing(old, _) => bool_text(old),
        ProductDiffView::Active(old, _) => bool_text(old),
    }
}

/// The local value of a field, as it is shown.
pub open spec fn local_text(d: ProductDiffView) -> Seq<char> {
    match d {
        ProductDiffView::Title(_, new) => new,
        ProductDiffView::Description(_, new) => new,
        ProductDiffView::Price(_, new) => decimal_of(new as nat),
        ProductDiffView::RegionalPricing(_, new) => bool_text(new),
        ProductDiffView::Active(_, new) => bool_text(new),
    }
}

/// A line: a mark of two characters, the name of the field, a colon and a
/// space, and the value.
pub open spec fn line_text(mark: Seq<char>, d: ProductDiffView, value: Seq<char>) -> Seq<char> {
    mark + field_label(d) + ": "@ + value
}

/// The line that a comparison adds to the left column, which shows the
/// remote record: the remote value, marked with `-` where it changes. A
/// created field adds none.
pub open spec fn left_line(c: DiffChangeView) -> Option<(Seq<char>, Tone)> {
    match c {
        DiffChangeView::Unchanged(d) => Some((line_text("  "@, d, remote_text(d)), Tone::Plain)),
        DiffChangeView::Changed(d) => Some((line_text("- "@, d, remote_text(d)), Tone::Removed)),
        DiffChangeView::Created(_) => None,
    }
}

/// The line that a comparison adds to the right column, which shows the
/// changes: the local value, marked with `+` where it changes or is
/// created.
pub open spec fn right_line(c: DiffChangeView) -> (Seq<char>, Tone) {
    match c {
        DiffChangeView::Unchanged(d) => (line_text("  "@, d, local_text(d)), Tone::Plain),
        DiffChangeView::Changed(d) => (line_text("+ "@, d, local_text(d)), Tone::Added),
        DiffChangeView::Created(d) => (line_text("+ "@, d, local_text(d)), Tone::Added),
    }
}

/// The left column for a list of comparisons.
pub open spec fn left_lines(diffs: Seq<DiffChangeView>) -> Seq<(Seq<char>, Tone)>
    decreases diffs.len(),
{
    if diffs.len() == 0 {
        Seq::empty()
    } else {
        match left_line(diffs.last()) {
            Some(line) => left_lines(diffs.drop_last()).push(line),
            None => left_lines(diffs.drop_last()),
        }
    }
}

/// The right column for a list of comparisons.
pub open spec fn right_lines(diffs: Seq<DiffChangeView>) -> Seq<(Seq<char>, Tone)> {
    diffs.map_values(|c: DiffChangeView| right_line(c))
}

/// The name of a kind, as it is shown.
pub open spec fn kind_text(kind: ProductType) -> Seq<char> {
    match kind {
        ProductType::GamePass => "GamePass"@,
        ProductType::DevProduct => "DevProduct"@,
    }
}

/// The line of the list for one difference: a star where it is not
/// confirmed, then the kind, the name and the id of the product.
pub open spec fn list_line(d: KindDiff, confirmed: bool) -> Seq<char> {
    (if confirmed {
        ""@
    } else {
        "*"@
    }) + " "@ + kind_text(d.0) + ": "@ + d.1.name + " (ID: "@ + decimal_of(d.1.id as nat) + ")"@
}

/// The lines of the list for these differences, each with whether it is
/// confirmed.
pub open spec fn list_lines_of(diffs: Seq<KindDiff>, confs: Seq<(ProductType, u64)>) -> Seq<
    (Seq<char>, bool),
> {
    diffs.map_values(
        |d: KindDiff|
            (list_line(d, confs.contains((d.0, d.1.id))), confs.contains((d.0, d.1.id))),
    )
}

fn push_bool(out: &mut Vec<char>, b: bool)
    ensures
        final(out)@ == old(out)@ + bool_text(b),
{
    if b {
        push_str(out, "true");
    } else {
        push_str(out, "false");
    }
}

fn field_line(mark: &str, field: &ProductDiff, local: bool, tone: Tone) -> (out: DiffLine)
    ensures
        out@ == (
            line_text(
                mark@,
                field@,
                if local {
                    local_text(field@)
                } else {
                    remote_text(field@)
                },
            ),
            tone,
        ),
{
    let mut chars: Vec<char> = Vec::new();
    push_str(&mut chars, mark);
    match field {
        ProductDiff::Title(old, new) => {
            push_str(&mut chars, "Title");
            push_str(&mut chars, ": ");
            push_str(
                &mut chars,
                if local {
                    new.as_str()
                } else {
                    old.as_str()
                },
            );
        },
        ProductDiff::Description(old, new) => {
            push_str(&mut chars, "Description");
            push_str(&mut chars, ": ");
            push_str(
                &mut chars,
                if local {
                    new.as_str()
                } else {
                    old.as_str()
                },
            );
        },
        ProductDiff::Price(old, new) => {
            push_str(&mut chars, "Price");
            push_str(&mut chars, ": ");
            push_decimal(
                &mut chars,
                if local {
                    *new
                } else {
                    *old
                },
            );
        },
        ProductDiff::RegionalPricing(old, new) => {
            push_str(&mut chars, "Regional Pricing");
            push_str(&mut chars, ": ");
            push_bool(
                &mut chars,
                if local {
                    *new
                } else {
                    *old
                },
            );
        },
        ProductDiff::Active(old, new) => {
            push_str(&mut chars, "Active");
            push_str(&mut chars, ": ");
            push_bool(
                &mut chars,
                if local {
                    *new
                } else {
                    *old
                },
            );
        },
    }
    proof {
        let value = if local {
            local_text(field@)
        } else {
            remote_text(field@)
        };
        assert(chars@ =~= line_text(mark@, field@, value));
    }
    DiffLine { text: string_of(&chars), tone }
}

/// The two columns of an open difference: the remote record on the left,
/// the changes on the right.
pub fn diff_lines(diff: &ProductDiffs) -> (out: (Vec<DiffLine>, Vec<DiffLine>))
    ensures
        out.0@.map_values(|l: DiffLine| l@) == left_lines(diff@.diffs),
        out.1@.map_values(|l: DiffLine| l@) == right_lines(diff@.diffs),
{
    let ghost view = |l: DiffLine| l@;
    let ghost all = diff@.diffs;
    let mut left: Vec<DiffLine> = Vec::new();
    let mut right: Vec<DiffLine> = Vec::new();
    let mut i: usize = 0;
    proof {
        assert(all.take(0) =~= Seq::<DiffChangeView>::empty());
        assert(left@.map_values(view) =~= left_lines(all.take(0)));
        assert(right@.map_values(view) =~= right_lines(all.take(0)));
    }
    while i < diff.diffs.len()
        invariant
            i <= diff.diffs.len(),
            view == |l: DiffLine| l@,
            all == diff@.diffs,
            all.len() == diff.diffs.len(),
            left@.map_values(view) == left_lines(all.take(i as int)),
            right@.map_values(view) == right_lines(all.take(i as int)),
        decreases diff.diffs.len() - i,
    {
        let change = &diff.diffs[i];
        let ghost l0 = left@.map_values(view);
        let ghost r0 = right@.map_values(view);
        proof {
            assert(all[i as int] == change@);
            assert(all.take(i + 1).drop_last() =~= all.take(i as int));
            assert(all.take(i + 1).last() == change@);
        }
        match change {
            DiffChange::Unchanged(field) => {
                left.push(field_line("  ", field, false, Tone::Plain));
                right.push(field_line("  ", field, true, Tone::Plain));
            },
            DiffChange::Changed(field) => {
                left.push(field_line("- ", field, false, Tone::Removed));
                right.push(field_line("+ ", field, true, Tone::Added));
            },
            DiffChange::Created(field) => {
                right.push(field_line("+ ", field, true, Tone::Added));
            },
        }
        proof {
            assert(right@.map_values(view) =~= r0.push(right_line(change@)));
            assert(right_lines(all.take(i + 1)) =~= right_lines(all.take(i as int)).push(
                right_line(change@),
            ));
            match left_line(change@) {
                Some(line) => {
                    assert(left@.map_values(view) =~= l0.push(line));
                },
                None => {
                    assert(left@.map_values(view) =~= l0);
                },
            }
        }
        i += 1;
    }
    proof {
        assert(all.take(all.len() as int) =~= all);
    }
    (left, right)
}

impl DiffViewer {
    /// The lines of the list, one for each difference on show.
    pub fn list_lines(&self) -> (out: Vec<ListLine>)
        ensures
            out@.map_values(|l: ListLine| l@) == list_lines_of(self@.diffs, self@.confs),
    {
        let ghost view = |l: ListLine| l@;
        let ghost all = list_lines_of(self@.diffs, self@.confs);
        let mut out: Vec<ListLine> = Vec::new();
        let mut i: usize = 0;
        proof {
            assert(out@.map_values(view) =~= all.take(0));
        }
        while i < self.diffs.len()
            invariant
                i <= self.diffs.len(),
                view == |l: ListLine| l@,
                all == list_lines_of(self@.diffs, self@.confs),
                all.len() == self.diffs.len(),
                out@.map_values(view) == all.take(i as int),
            decreases self.diffs.len() - i,
        {
            let kind = self.diffs[i].0;
            let diff = &self.diffs[i].1;
            let confirmed = is_confirmed(&self.confs, kind, diff.id);
            let mut chars: Vec<char> = Vec::new();
            if !confirmed {
                push_str(&mut chars, "*");
            }
            push_str(&mut chars, " ");
            match kind {
                ProductType::GamePass => push_str(&mut chars, "GamePass"),
                ProductType::DevProduct => push_str(&mut chars, "DevProduct"),
            }
            push_str(&mut chars, ": ");
            push_str(&mut chars, diff.name.as_str());
            push_str(&mut chars, " (ID: ");
            push_decimal(&mut chars, diff.id);
            push_str(&mut chars, ")");
            let line = ListLine { text: string_of(&chars), confirmed };
            proof {
                let d = self@.diffs[i as int];
                assert(d == (kind, diff@));
                reveal_strlit("");
                assert(chars@ =~= list_line(d, confirmed));
                assert(all[i as int] == line@);
                assert(out@.push(line).map_values(view) =~= out@.map_values(view).push(line@));
                assert(all.take(i + 1) =~= all.take(i as int).push(line@));
            }
            out.push(line);
            i += 1;
        }
        proof {
            assert(all.take(all.len() as int) =~= all);
        }
        out
    }
}

/// The place of the prompt on a screen: as wide as the screen up to 60
/// columns but no narrower than 24, as high as the screen up to 7 rows, and
/// in the middle of it. Given and returned as left, top, width, height.
pub open spec fn modal_of(x: u16, y: u16, width: u16, height: u16) -> (int, int, int, int) {
    let w = if width < 24 {
        24
    } else if width > 60 {
        60
    } else {
        width as int
    };
    let h = if height < 7 {
        height as int
    } else {
        7
    };
    (
        x + (if width > w {
            width - w
        } else {
            0
        }) / 2,
        y + (if height > h {
            height - h
        } else {
            0
        }) / 2,
        w,
        h,
    )
}

/// The place of the prompt on a screen that starts at `x`, `y`.
pub fn modal_area(x: u16, y: u16, width: u16, height: u16) -> (out: (u16, u16, u16, u16))
    requires
        x + width <= u16::MAX,
        y + height <= u16::MAX,
    ensures
        (out.0 as int, out.1 as int, out.2 as int, out.3 as int) == modal_of(x, y, width, height),
{
    let w: u16 = if width < 24 {
        24
    } else if width > 60 {
        60
    } else {
        width
    };
    let h: u16 = if height < 7 {
        height
    } else {
        7
    };
    let dx: u16 = if width > w {
        (width - w) / 2
    } else {
        0
    };
    let dy: u16 = if height > h {
        (height - h) / 2
    } else {
        0
    };
    (x + dx, y + dy, w, h)
}

} // verus!
