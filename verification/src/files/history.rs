//! Back and forward through the files that were looked at.

use vstd::prelude::*;

verus! {

broadcast use vstd::string::group_string_axioms;

/// The most files that are remembered.
pub const MAX_HISTORY: usize = 50;

/// The files to go back to, and those to go forward to, the next one last.
#[derive(Clone, Debug, PartialEq, Eq)]
pub struct NavigationHistory {
    pub back_stack: Vec<String>,
    pub forward_stack: Vec<String>,
}

/// A [`NavigationHistory`] with its paths as sequences.
pub struct HistoryModel {
    pub back: Seq<Seq<char>>,
    pub forward: Seq<Seq<char>>,
}

impl DeepView for NavigationHistory {
    type V = HistoryModel;

    open spec fn deep_view(&self) -> HistoryModel {
        HistoryModel { back: self.back_stack.deep_view(), forward: self.forward_stack.deep_view() }
    }
}

/// `stack` with `path` on top, unless there is no path.
pub open spec fn with_path(stack: Seq<Seq<char>>, path: Seq<char>) -> Seq<Seq<char>> {
    if path.len() > 0 {
        stack.push(path)
    } else {
        stack
    }
}

impl HistoryModel {
    /// No more is remembered than allowed, both ways together, and every file
    /// has a path.
    pub open spec fn wf(self) -> bool {
        &&& self.back.len() + self.forward.len() <= MAX_HISTORY
        &&& forall|i: int| 0 <= i < self.back.len() ==> (#[trigger] self.back[i]).len() > 0
        &&& forall|i: int| 0 <= i < self.forward.len() ==> (#[trigger] self.forward[i]).len() > 0
    }

    /// After a move from `current` to another file: what was ahead is
    /// forgotten, and the oldest file where there are too many.
    pub open spec fn pushed(self, current: Seq<char>) -> HistoryModel {
        if current.len() == 0 {
            self
        } else {
            let back = self.back.push(current);
            HistoryModel {
                back: if back.len() > MAX_HISTORY {
                    back.skip(1)
                } else {
                    back
                },
                forward: Seq::empty(),
            }
        }
    }

    /// After going back from `current`.
    pub open spec fn gone_back(self, current: Seq<char>) -> HistoryModel {
        if self.back.len() == 0 {
            self
        } else {
            HistoryModel {
                back: self.back.drop_last(),
                forward: with_path(self.forward, current),
            }
        }
    }

    /// After going forward from `current`.
    pub open spec fn gone_forward(self, current: Seq<char>) -> HistoryModel {
        if self.forward.len() == 0 {
            self
        } else {
            HistoryModel {
                back: with_path(self.back, current),
                forward: self.forward.drop_last(),
            }
        }
    }
}

/// The top of a stack.
pub open spec fn top(stack: Seq<Seq<char>>) -> Option<Seq<char>> {
    if stack.len() == 0 {
        None
    } else {
        Some(stack.last())
    }
}

fn push_path(stack: &mut Vec<String>, path: &str)
    ensures
        final(stack).deep_view() == with_path(old(stack).deep_view(), path@),
{
    let ghost before = stack.deep_view();
    if !path.is_empty() {
        stack.push(path.to_owned());
        assert(stack.deep_view() == before.push(path@));
    }
}

fn pop_path(stack: &mut Vec<String>) -> (r: Option<String>)
    ensures
        r.deep_view() == top(old(stack).deep_view()),
        final(stack).deep_view() == (if old(stack).deep_view().len() == 0 {
            old(stack).deep_view()
        } else {
            old(stack).deep_view().drop_last()
        }),
{
    let ghost before = stack.deep_view();
    match stack.pop() {
        Some(path) => {
            assert(path@ == before.last());
            assert(stack.deep_view() == before.drop_last());
            Some(path)
        },
        None => None,
    }
}

impl NavigationHistory {
    /// An empty history.
    pub fn new() -> (r: NavigationHistory)
        ensures
            r.deep_view() == (HistoryModel { back: Seq::empty(), forward: Seq::empty() }),
            r.deep_view().wf(),
    {
        let r: NavigationHistory = NavigationHistory {
            back_stack: Vec::new(),
            forward_stack: Vec::new(),
        };
        assert(r.deep_view().back == Seq::<Seq<char>>::empty());
        assert(r.deep_view().forward == Seq::<Seq<char>>::empty());
        r
    }

    /// Records a move from `current` to another file.
    pub fn push(&mut self, current: &str)
        requires
            old(self).deep_view().wf(),
        ensures
            final(self).deep_view() == old(self).deep_view().pushed(current@),
            final(self).deep_view().wf(),
    {
        if current.is_empty() {
            return;
        }
        let ghost before = self.deep_view();
        push_path(&mut self.back_stack, current);
        self.forward_stack = Vec::new();
        assert(self.deep_view().forward == Seq::<Seq<char>>::empty());
        let ghost back = self.deep_view().back;
        if self.back_stack.len() > MAX_HISTORY {
            self.back_stack.remove(0);
            assert(self.deep_view().back == back.skip(1));
        }
    }

    /// Goes back from `current`, and says where to.
    pub fn go_back(&mut self, current: &str) -> (r: Option<String>)
        requires
            old(self).deep_view().wf(),
        ensures
            r.deep_view() == top(old(self).deep_view().back),
            final(self).deep_view() == old(self).deep_view().gone_back(current@),
            final(self).deep_view().wf(),
    {
        match pop_path(&mut self.back_stack) {
            Some(path) => {
                push_path(&mut self.forward_stack, current);
                Some(path)
            },
            None => None,
        }
    }

    /// Goes forward from `current`, and says where to.
    pub fn go_forward(&mut self, current: &str) -> (r: Option<String>)
        requires
            old(self).deep_view().wf(),
        ensures
            r.deep_view() == top(old(self).deep_view().forward),
            final(self).deep_view() == old(self).deep_view().gone_forward(current@),
            final(self).deep_view().wf(),
    {
        match pop_path(&mut self.forward_stack) {
            Some(path) => {
                push_path(&mut self.back_stack, current);
                Some(path)
            },
            None => None,
        }
    }

    /// Whether there is a file to go back to.
    pub fn can_go_back(&self) -> (r: bool)
        ensures
            r == (self.deep_view().back.len() > 0),
    {
        self.back_stack.len() > 0
    }

    /// Whether there is a file to go forward to.
    pub fn can_go_forward(&self) -> (r: bool)
        ensures
            r == (self.deep_view().forward.len() > 0),
    {
        self.forward_stack.len() > 0
    }
}

/// Going forward undoes going back: from `current` back to a file and forward
/// from there leads to `current` again, with the history as it was.
pub proof fn forward_undoes_back(history: HistoryModel, current: Seq<char>)
    requires
        history.wf(),
        history.back.len() > 0,
        current.len() > 0,
    ensures
        top(history.gone_back(current).forward) == Some(current),
        history.gone_back(current).gone_forward(history.back.last()) == history,
{
    let there = history.gone_back(current);
    let again = there.gone_forward(history.back.last());
    assert(again.back == history.back);
    assert(again.forward == history.forward);
}

/// A move to another file is what going back undoes first, and nothing is left
/// to go forward to.
pub proof fn back_undoes_push(history: HistoryModel, current: Seq<char>)
    requires
        history.wf(),
        current.len() > 0,
    ensures
        top(history.pushed(current).back) == Some(current),
        history.pushed(current).forward.len() == 0,
        history.pushed(current).wf(),
{
}

} // verus!
