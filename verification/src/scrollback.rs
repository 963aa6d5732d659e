//! Scrollback buffer for terminal history.
//!
//! A bounded queue of lines that stores terminal history when lines scroll
//! off the top of the screen: once full, each new line pushes out the
//! oldest one.

use std::collections::VecDeque;
use vstd::prelude::*;

use crate::line::{Line, LineModel};
use crate::views::{group_views, views};

verus! {

broadcast use group_views;

/// The number of lines a default scrollback keeps.
pub const DEFAULT_SCROLLBACK_LINES: usize = 10000;

/// How many lines a scrollback with limit `max` can hold: a zero limit
/// still keeps the line just pushed.
pub open spec fn capacity(max: nat) -> nat {
    if max == 0 {
        1
    } else {
        max
    }
}

/// The history after pushing `l`: when it already holds `max` lines (or
/// more), the oldest one is dropped first.
pub open spec fn pushed(lines: Seq<LineModel>, max: nat, l: LineModel) -> Seq<LineModel> {
    if lines.len() >= max && lines.len() > 0 {
        lines.drop_first().push(l)
    } else {
        lines.push(l)
    }
}

/// The newest `max` lines of `lines`.
pub open spec fn newest(lines: Seq<LineModel>, max: nat) -> Seq<LineModel> {
    if lines.len() > max {
        lines.subrange(lines.len() - max, lines.len() as int)
    } else {
        lines
    }
}

#[derive(Debug)]
pub struct Scrollback {
    lines: VecDeque<Line>,
    max_lines: usize,
}

impl View for Scrollback {
    type V = Seq<LineModel>;

    /// The stored lines, oldest first.
    closed spec fn view(&self) -> Seq<LineModel> {
        views(self.lines@)
    }
}

impl Scrollback {
    /// The limit on the number of stored lines.
    pub closed spec fn spec_max_lines(&self) -> nat {
        self.max_lines as nat
    }

    /// The buffer never holds more lines than its capacity.
    pub open spec fn wf(&self) -> bool {
        self@.len() <= capacity(self.spec_max_lines())
    }

    pub fn new(max_lines: usize) -> (res: Self)
        ensures
            res.wf(),
            res@ == Seq::<LineModel>::empty(),
            res.spec_max_lines() == max_lines,
    {
        let res = Scrollback { lines: VecDeque::new(), max_lines };
        proof {
            assert(res@ =~= Seq::<LineModel>::empty());
        }
        res
    }

    /// Push a line, dropping the oldest one when the buffer is full.
    pub fn push(&mut self, line: Line)
        requires
            old(self).wf(),
        ensures
            final(self).wf(),
            final(self)@ == pushed(old(self)@, old(self).spec_max_lines(), line@),
            final(self).spec_max_lines() == old(self).spec_max_lines(),
    {
        let ghost pre = self.lines@;
        let ghost l = line@;
        if self.lines.len() >= self.max_lines {
            let _ = self.lines.pop_front();
        }
        self.lines.push_back(line);
        proof {
            if pre.len() >= self.max_lines && pre.len() > 0 {
                assert(views(pre.subrange(1, pre.len() as int)) =~= views(pre).drop_first());
            }
        }
    }

    /// Push several lines in order.
    pub fn push_lines(&mut self, lines: Vec<Line>)
        requires
            old(self).wf(),
        ensures
            final(self).wf(),
            final(self).spec_max_lines() == old(self).spec_max_lines(),
            final(self)@ == pushed_all(old(self)@, old(self).spec_max_lines(), views(lines@)),
    {
        let mut lines = lines;
        let ghost all = views(lines@);
        let ghost start = self@;
        let ghost mut done: Seq<LineModel> = Seq::empty();
        while lines.len() > 0
            invariant
                self.wf(),
                self.spec_max_lines() == old(self).spec_max_lines(),
                done + views(lines@) == all,
                self@ == pushed_all(start, self.spec_max_lines(), done),
                start == old(self)@,
            decreases lines.len(),
        {
            let ghost before = lines@;
            let l = lines.remove(0);
            proof {
                assert(views(before) == seq![l@] + views(lines@)) by {
                    assert(before =~= seq![l] + lines@);
                }
                lemma_pushed_all_push(start, self.spec_max_lines(), done, l@);
                done = done.push(l@);
                assert(done + views(lines@) =~= all);
            }
            self.push(l);
        }
        proof {
            assert(done =~= all);
        }
    }

    /// Remove and return the newest line.
    pub fn pop(&mut self) -> (res: Option<Line>)
        requires
            old(self).wf(),
        ensures
            final(self).wf(),
            final(self).spec_max_lines() == old(self).spec_max_lines(),
            old(self)@.len() == 0 ==> res is None && final(self)@ == old(self)@,
            old(self)@.len() > 0 ==> res is Some && res.unwrap()@ == old(self)@.last() && final(self)@
                == old(self)@.drop_last(),
    {
        let ghost pre = self.lines@;
        let res = self.lines.pop_back();
        proof {
            if pre.len() > 0 {
                assert(views(pre.subrange(0, pre.len() - 1)) =~= views(pre).drop_last());
            }
        }
        res
    }

    pub fn len(&self) -> (res: usize)
        ensures
            res == self@.len(),
    {
        self.lines.len()
    }

    pub fn is_empty(&self) -> (res: bool)
        ensures
            res == (self@.len() == 0),
    {
        self.lines.len() == 0
    }

    pub fn max_lines(&self) -> (res: usize)
        ensures
            res == self.spec_max_lines(),
    {
        self.max_lines
    }

    /// Change the limit, dropping the oldest lines that no longer fit.
    pub fn set_max_lines(&mut self, max_lines: usize)
        ensures
            final(self).wf(),
            final(self).spec_max_lines() == max_lines,
            final(self)@ == newest(old(self)@, max_lines as nat),
    {
        let ghost pre = self.lines@;
        self.max_lines = max_lines;
        while self.lines.len() > max_lines
            invariant
                self.max_lines == max_lines,
                self.lines@.len() <= pre.len(),
                self.lines@ == pre.subrange(pre.len() - self.lines@.len(), pre.len() as int),
                pre.len() > max_lines ==> self.lines@.len() >= max_lines,
                pre.len() <= max_lines ==> self.lines@.len() == pre.len(),
            decreases self.lines.len(),
        {
            let _ = self.lines.pop_front();
        }
        proof {
            if pre.len() > max_lines {
                assert(views(pre.subrange(pre.len() - max_lines, pre.len() as int)) =~= views(pre).subrange(
                    pre.len() - max_lines,
                    pre.len() as int,
                ));
            } else {
                assert(pre.subrange(0, pre.len() as int) =~= pre);
            }
        }
    }

    /// The line at `index`, counting from the oldest.
    pub fn get(&self, index: usize) -> (res: Option<&Line>)
        ensures
            index < self@.len() ==> res is Some && res.unwrap()@ == self@[index as int],
            index >= self@.len() ==> res is None,
    {
        if index < self.lines.len() {
            Some(&self.lines[index])
        } else {
            None
        }
    }

    pub fn clear(&mut self)
        ensures
            final(self).wf(),
            final(self)@ == Seq::<LineModel>::empty(),
            final(self).spec_max_lines() == old(self).spec_max_lines(),
    {
        self.lines.clear();
        proof {
            assert(self@ =~= Seq::<LineModel>::empty());
        }
    }

    /// The line `offset` places before the newest one.
    pub fn get_from_end(&self, offset: usize) -> (res: Option<&Line>)
        ensures
            offset < self@.len() ==> res is Some && res.unwrap()@ == self@[self@.len() - 1 - offset],
            offset >= self@.len() ==> res is None,
    {
        if offset >= self.lines.len() {
            None
        } else {
            Some(&self.lines[self.lines.len() - 1 - offset])
        }
    }
}

/// The history after pushing each of `ls` in order.
pub open spec fn pushed_all(lines: Seq<LineModel>, max: nat, ls: Seq<LineModel>) -> Seq<LineModel>
    decreases ls.len(),
{
    if ls.len() == 0 {
        lines
    } else {
        pushed(pushed_all(lines, max, ls.drop_last()), max, ls.last())
    }
}

proof fn lemma_pushed_all_push(lines: Seq<LineModel>, max: nat, ls: Seq<LineModel>, l: LineModel)
    ensures
        pushed_all(lines, max, ls.push(l)) == pushed(pushed_all(lines, max, ls), max, l),
{
    assert(ls.push(l).drop_last() =~= ls);
}

/// Pushing never lets the buffer grow past its capacity, and the pushed
/// line is always the newest one kept.
pub proof fn lemma_push_bounded(lines: Seq<LineModel>, max: nat, l: LineModel)
    requires
        lines.len() <= capacity(max),
    ensures
        pushed(lines, max, l).len() <= capacity(max),
        pushed(lines, max, l).last() == l,
        pushed(lines, max, l).drop_last() == newest(lines, (capacity(max) - 1) as nat),
{
    if lines.len() >= max && lines.len() > 0 {
        assert(pushed(lines, max, l).drop_last() =~= lines.drop_first());
        assert(lines.drop_first() =~= lines.subrange(lines.len() - (capacity(max) - 1), lines.len() as int));
    } else {
        assert(pushed(lines, max, l).drop_last() =~= lines);
    }
}

impl Default for Scrollback {
    fn default() -> (res: Self)
        ensures
            res.wf(),
            res@ == Seq::<LineModel>::empty(),
            res.spec_max_lines() == DEFAULT_SCROLLBACK_LINES,
    {
        Scrollback::new(DEFAULT_SCROLLBACK_LINES)
    }
}

} // verus!
