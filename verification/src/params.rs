//! Parameters of CSI and DCS sequences.
//!
//! Parameters are separated by semicolons; each may be empty (read as 0)
//! and may carry colon-separated subparameters (for SGR extended colors).
//! At most `MAX_PARAMS` parameters with `MAX_SUBPARAMS` subparameters each
//! are kept; the rest are dropped.

use vstd::prelude::*;

verus! {

pub const MAX_PARAMS: usize = 32;

pub const MAX_SUBPARAMS: usize = 16;

/// The abstract value of one parameter.
pub struct ParamView {
    pub value: u16,
    pub subs: Seq<u16>,
}

/// A fresh parameter with value `value` and no subparameters.
pub open spec fn plain(value: u16) -> ParamView {
    ParamView { value, subs: Seq::empty() }
}

/// The parameters after pushing `value` (dropped once `MAX_PARAMS` are held).
pub open spec fn params_pushed(p: Seq<ParamView>, value: u16) -> Seq<ParamView> {
    if p.len() < MAX_PARAMS {
        p.push(plain(value))
    } else {
        p
    }
}

/// The parameters after pushing the subparameter `value` onto the last
/// parameter (a parameter 0 is created first when there is none).
pub open spec fn params_sub_pushed(p: Seq<ParamView>, value: u16) -> Seq<ParamView> {
    let q = if p.len() == 0 {
        params_pushed(p, 0)
    } else {
        p
    };
    let last = q.last();
    if last.subs.len() < MAX_SUBPARAMS {
        q.update(q.len() - 1, ParamView { subs: last.subs.push(value), ..last })
    } else {
        q
    }
}

/// A copy of `v`.
pub fn copy_of<T: Copy>(v: &[T]) -> (res: Vec<T>)
    ensures
        res@ == v@,
{
    let mut out: Vec<T> = Vec::new();
    let mut i: usize = 0;
    while i < v.len()
        invariant
            i <= v@.len(),
            out@ == v@.subrange(0, i as int),
        decreases v.len() - i,
    {
        out.push(v[i]);
        proof {
            assert(v@.subrange(0, i + 1) =~= v@.subrange(0, i as int).push(v@[i as int]));
        }
        i = i + 1;
    }
    proof {
        assert(v@.subrange(0, v@.len() as int) =~= v@);
    }
    out
}

#[derive(Debug)]
struct Param {
    value: u16,
    subs: Vec<u16>,
}

impl View for Param {
    type V = ParamView;

    closed spec fn view(&self) -> ParamView {
        ParamView { value: self.value, subs: self.subs@ }
    }
}

#[derive(Debug)]
pub struct Params {
    entries: Vec<Param>,
}

impl View for Params {
    type V = Seq<ParamView>;

    closed spec fn view(&self) -> Seq<ParamView> {
        Seq::new(self.entries@.len(), |i: int| self.entries@[i]@)
    }
}

impl Params {
    /// At most `MAX_PARAMS` parameters, each with at most `MAX_SUBPARAMS`
    /// subparameters.
    pub open spec fn wf(&self) -> bool {
        &&& self@.len() <= MAX_PARAMS
        &&& forall|i: int| 0 <= i < self@.len() ==> #[trigger] self@[i].subs.len() <= MAX_SUBPARAMS
    }

    pub fn new() -> (res: Self)
        ensures
            res.wf(),
            res@ == Seq::<ParamView>::empty(),
    {
        let res = Params { entries: Vec::new() };
        proof {
            assert(res@ =~= Seq::<ParamView>::empty());
        }
        res
    }

    /// Add a parameter (dropped when `MAX_PARAMS` are held already).
    pub fn push(&mut self, value: u16)
        requires
            old(self).wf(),
        ensures
            final(self).wf(),
            final(self)@ == params_pushed(old(self)@, value),
    {
        if self.entries.len() < MAX_PARAMS {
            self.entries.push(Param { value, subs: Vec::new() });
            proof {
                assert(self@ =~= old(self)@.push(plain(value)));
            }
        }
    }

    /// Add a subparameter to the last parameter.
    pub fn push_subparam(&mut self, value: u16)
        requires
            old(self).wf(),
        ensures
            final(self).wf(),
            final(self)@ == params_sub_pushed(old(self)@, value),
    {
        if self.entries.len() == 0 {
            self.push(0);
        }
        let ghost q = self@;
        let mut last = self.entries.pop().unwrap();
        assert(last@ == q.last());
        if last.subs.len() < MAX_SUBPARAMS {
            last.subs.push(value);
        }
        self.entries.push(last);
        proof {
            if q.last().subs.len() < MAX_SUBPARAMS {
                assert(self@ =~= q.update(q.len() - 1, ParamView { subs: q.last().subs.push(value), ..q.last() }));
            } else {
                assert(self@ =~= q);
            }
        }
    }

    pub fn len(&self) -> (res: usize)
        ensures
            res == self@.len(),
    {
        self.entries.len()
    }

    pub fn is_empty(&self) -> (res: bool)
        ensures
            res == (self@.len() == 0),
    {
        self.entries.len() == 0
    }

    /// The value of parameter `index`.
    pub fn get(&self, index: usize) -> (res: Option<u16>)
        ensures
            index < self@.len() ==> res == Some(self@[index as int].value),
            index >= self@.len() ==> res is None,
    {
        if index < self.entries.len() {
            Some(self.entries[index].value)
        } else {
            None
        }
    }

    /// The value of parameter `index`, or `default` when there is none.
    pub fn get_or(&self, index: usize, default: u16) -> (res: u16)
        ensures
            res == (if index < self@.len() { self@[index as int].value } else { default }),
    {
        match self.get(index) {
            Some(v) => v,
            None => default,
        }
    }

    /// The value of parameter `index`, or `default` when there is none or
    /// it is 0.
    pub fn get_nonzero_or(&self, index: usize, default: u16) -> (res: u16)
        ensures
            res == (if index < self@.len() && self@[index as int].value != 0 {
                self@[index as int].value
            } else {
                default
            }),
    {
        match self.get(index) {
            Some(v) => if v == 0 {
                default
            } else {
                v
            },
            None => default,
        }
    }

    /// The subparameters of parameter `index`, when it has any.
    pub fn get_subparams(&self, index: usize) -> (res: Option<&[u16]>)
        ensures
            index < self@.len() && self@[index as int].subs.len() > 0 ==> res is Some && res.unwrap()@
                == self@[index as int].subs,
            !(index < self@.len() && self@[index as int].subs.len() > 0) ==> res is None,
    {
        if index < self.entries.len() {
            if self.entries[index].subs.len() > 0 {
                Some(self.entries[index].subs.as_slice())
            } else {
                None
            }
        } else {
            None
        }
    }

    /// The parameter values in order.
    pub fn iter(&self) -> (res: Vec<u16>)
        ensures
            res@ == Seq::new(self@.len(), |i: int| self@[i].value),
    {
        let mut out: Vec<u16> = Vec::new();
        let mut i: usize = 0;
        while i < self.entries.len()
            invariant
                i <= self@.len(),
                out@ == Seq::new(i as nat, |k: int| self@[k].value),
            decreases self.entries.len() - i,
        {
            out.push(self.entries[i].value);
            proof {
                assert(out@ =~= Seq::new((i + 1) as nat, |k: int| self@[k].value));
            }
            i = i + 1;
        }
        out
    }

    /// Remove every parameter.
    pub fn clear(&mut self)
        ensures
            final(self).wf(),
            final(self)@ == Seq::<ParamView>::empty(),
    {
        self.entries.clear();
        proof {
            assert(self@ =~= Seq::<ParamView>::empty());
        }
    }

    /// A copy of these parameters.
    pub fn duplicate(&self) -> (res: Self)
        ensures
            res@ == self@,
    {
        let mut entries: Vec<Param> = Vec::new();
        let mut i: usize = 0;
        while i < self.entries.len()
            invariant
                i <= self.entries@.len(),
                entries@.len() == i,
                forall|k: int| 0 <= k < i ==> #[trigger] entries@[k]@ == self.entries@[k]@,
            decreases self.entries.len() - i,
        {
            let e = &self.entries[i];
            entries.push(Param { value: e.value, subs: copy_of(e.subs.as_slice()) });
            i = i + 1;
        }
        let res = Params { entries };
        proof {
            assert(res@ =~= self@);
        }
        res
    }
}

impl Default for Params {
    fn default() -> (res: Self)
        ensures
            res.wf(),
            res@ == Seq::<ParamView>::empty(),
    {
        Self::new()
    }
}

impl Clone for Params {
    fn clone(&self) -> (res: Self)
        ensures
            res@ == self@,
    {
        self.duplicate()
    }
}

} // verus!
