//! The list in which the operator confirms differences, as a state machine
//! over key strokes.
//!
//! `c` confirms the selected difference or takes its confirmation back, `C`
//! confirms all or, where all are confirmed, none; the arrows move the
//! selection round the list; Enter opens the selected difference; `q` closes
//! an open difference or, with none open or with shift, ends the list.

use crate::diff::ProductDiffs;
use crate::input::{Key, KeyEvent};
use crate::product::ProductType;
use crate::upload::{diffs_of, KindDiff};
use vstd::prelude::*;

verus! {

/// The differences on show, those confirmed so far, and what the operator
/// is looking at.
#[derive(Debug)]
pub struct DiffViewer {
    pub view: Option<(ProductType, ProductDiffs)>,
    pub diffs: Vec<(ProductType, ProductDiffs)>,
    pub confs: Vec<(ProductType, u64)>,
    pub selected: usize,
    pub scroll: u16,
    pub should_quit: bool,
}

/// The mathematical value of a [`DiffViewer`].
#[verifier::ext_equal]
pub struct DiffViewerView {
    pub view: Option<KindDiff>,
    pub diffs: Seq<KindDiff>,
    pub confs: Seq<(ProductType, u64)>,
    pub selected: usize,
    pub scroll: u16,
    pub should_quit: bool,
}

impl View for DiffViewer {
    type V = DiffViewerView;

    open spec fn view(&self) -> DiffViewerView {
        DiffViewerView {
            view: match self.view {
                Some(d) => Some((d.0, d.1@)),
                None => None,
            },
            diffs: diffs_of(self.diffs@),
            confs: self.confs@,
            selected: self.selected,
            scroll: self.scroll,
            should_quit: self.should_quit,
        }
    }
}

/// The kind and id of every difference, in order.
pub open spec fn all_confirmed(diffs: Seq<KindDiff>) -> Seq<(ProductType, u64)> {
    diffs.map_values(|d: KindDiff| (d.0, d.1.id))
}

/// `confs` without every occurrence of `pair`.
pub open spec fn without(confs: Seq<(ProductType, u64)>, pair: (ProductType, u64)) -> Seq<
    (ProductType, u64),
>
    decreases confs.len(),
{
    if confs.len() == 0 {
        confs
    } else if confs.last() == pair {
        without(confs.drop_last(), pair)
    } else {
        without(confs.drop_last(), pair).push(confs.last())
    }
}

/// `confs` with `pair` taken out where it was in, put in where it was not.
pub open spec fn toggled(confs: Seq<(ProductType, u64)>, pair: (ProductType, u64)) -> Seq<
    (ProductType, u64),
> {
    if confs.contains(pair) {
        without(confs, pair)
    } else {
        confs.push(pair)
    }
}

impl DiffViewerView {
    /// The viewer after a key event.
    pub open spec fn after(self, event: KeyEvent) -> DiffViewerView {
        if !event.pressed {
            self
        } else {
            match event.key {
                Key::Char(c) => if c == 'q' || c == 'Q' {
                    if !event.shift && self.view is Some {
                        DiffViewerView { view: None, scroll: 0, ..self }
                    } else {
                        DiffViewerView { should_quit: true, ..self }
                    }
                } else if c == 'C' {
                    if self.confs.len() == self.diffs.len() {
                        DiffViewerView { confs: Seq::empty(), ..self }
                    } else {
                        DiffViewerView { confs: all_confirmed(self.diffs), ..self }
                    }
                } else if c == 'c' {
                    if self.selected < self.diffs.len() {
                        let d = self.diffs[self.selected as int];
                        DiffViewerView {
                            confs: toggled(self.confs, (d.0, d.1.id)),
                            view: None,
                            ..self
                        }
                    } else {
                        self
                    }
                } else {
                    self
                },
                Key::Up => if self.selected > 0 {
                    DiffViewerView { selected: (self.selected - 1) as usize, ..self }
                } else if self.diffs.len() > 0 {
                    DiffViewerView { selected: (self.diffs.len() - 1) as usize, ..self }
                } else {
                    self
                },
                Key::Down => if self.selected + 1 < self.diffs.len() {
                    DiffViewerView { selected: (self.selected + 1) as usize, ..self }
                } else if self.selected + 1 == self.diffs.len() {
                    DiffViewerView { selected: 0, ..self }
                } else {
                    self
                },
                Key::Enter => if self.selected < self.diffs.len() {
                    DiffViewerView { view: Some(self.diffs[self.selected as int]), ..self }
                } else {
                    self
                },
                Key::Other => self,
            }
        }
    }
}

/// Whether `pair` is among `confs`.
pub fn is_confirmed(confs: &Vec<(ProductType, u64)>, kind: ProductType, id: u64) -> (b: bool)
    ensures
        b == confs@.contains((kind, id)),
{
    let mut i: usize = 0;
    while i < confs.len()
        invariant
            i <= confs.len(),
            forall|j: int| 0 <= j < i ==> confs@[j] != (kind, id),
        decreases confs.len() - i,
    {
        if confs[i].0 == kind && confs[i].1 == id {
            proof {
                assert(confs@[i as int] == (kind, id));
            }
            return true;
        }
        i += 1;
    }
    false
}

fn remove_confirmation(confs: &Vec<(ProductType, u64)>, kind: ProductType, id: u64) -> (out: Vec<
    (ProductType, u64),
>)
    ensures
        out@ == without(confs@, (kind, id)),
{
    let mut out: Vec<(ProductType, u64)> = Vec::new();
    let mut i: usize = 0;
    while i < confs.len()
        invariant
            i <= confs.len(),
            out@ == without(confs@.take(i as int), (kind, id)),
        decreases confs.len() - i,
    {
        proof {
            assert(confs@.take(i + 1).drop_last() =~= confs@.take(i as int));
            assert(confs@.take(i + 1).last() == confs@[i as int]);
        }
        if !(confs[i].0 == kind && confs[i].1 == id) {
            out.push(confs[i]);
        }
        i += 1;
    }
    proof {
        assert(confs@.take(confs@.len() as int) =~= confs@);
    }
    out
}

impl DiffViewer {
    /// A viewer with nothing to show.
    pub fn new() -> (out: Self)
        ensures
            out@ == (DiffViewerView {
                view: None,
                diffs: Seq::empty(),
                confs: Seq::empty(),
                selected: 0,
                scroll: 0,
                should_quit: false,
            }),
    {
        let out = DiffViewer {
            should_quit: false,
            selected: 0,
            scroll: 0,
            view: None,
            diffs: Vec::new(),
            confs: Vec::new(),
        };
        proof {
            assert(diffs_of(out.diffs@) =~= Seq::empty());
        }
        out
    }

    /// The confirmed differences, in the order in which they were
    /// confirmed.
    pub fn get_confs(&self) -> (out: &Vec<(ProductType, u64)>)
        ensures
            out@ == self@.confs,
    {
        &self.confs
    }

    /// The viewer with `diffs` on show and none of them open.
    pub fn with_diffs(self, diffs: Vec<(ProductType, ProductDiffs)>) -> (out: Self)
        ensures
            out@ == (DiffViewerView { diffs: diffs_of(diffs@), view: None, ..self@ }),
    {
        let mut out = self;
        out.diffs = diffs;
        out.view = None;
        out
    }

    /// Whether the operator has ended the list.
    pub fn should_quit(&self) -> (b: bool)
        ensures
            b == self@.should_quit,
    {
        self.should_quit
    }

    /// Takes a key event. With an empty list the arrows leave the selection
    /// where it is.
    pub fn handle_event(&mut self, event: &KeyEvent)
        ensures
            final(self)@ == old(self)@.after(*event),
    {
        if !event.pressed {
            return ;
        }
        proof {
            assert(self@.diffs.len() == self.diffs@.len());
        }
        match event.key {
            Key::Char(c) => {
                if c == 'q' || c == 'Q' {
                    if !event.shift && self.view.is_some() {
                        self.view = None;
                        self.scroll = 0;
                    } else {
                        self.should_quit = true;
                    }
                } else if c == 'C' {
                    if self.confs.len() == self.diffs.len() {
                        self.confs = Vec::new();
                    } else {
                        self.confs = crate::upload::confirm_all(&self.diffs);
                    }
                } else if c == 'c' {
                    if self.selected < self.diffs.len() {
                        let kind = self.diffs[self.selected].0;
                        let id = self.diffs[self.selected].1.id;
                        proof {
                            let d = self@.diffs[self.selected as int];
                            assert(d == (kind, self.diffs@[self.selected as int].1@));
                        }
                        if is_confirmed(&self.confs, kind, id) {
                            self.confs = remove_confirmation(&self.confs, kind, id);
                        } else {
                            self.confs.push((kind, id));
                        }
                        self.view = None;
                    }
                }
            },
            Key::Up => {
                if self.selected > 0 {
                    self.selected -= 1;
                } else if self.diffs.len() > 0 {
                    self.selected = self.diffs.len() - 1;
                }
            },
            Key::Down => {
                if self.selected < self.diffs.len() {
                    if self.selected + 1 < self.diffs.len() {
                        self.selected += 1;
                    } else {
                        self.selected = 0;
                    }
                }
            },
            Key::Enter => {
                if self.selected < self.diffs.len() {
                    let kind = self.diffs[self.selected].0;
                    let diff = self.diffs[self.selected].1.clone();
                    proof {
                        let d = self@.diffs[self.selected as int];
                        assert(d == (kind, diff@));
                    }
                    self.view = Some((kind, diff));
                }
            },
            Key::Other => {},
        }
        proof {
            assert(self@ =~= old(self)@.after(*event));
        }
    }
}

} // verus!
