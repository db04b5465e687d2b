//! The process-wide state of interception: the active configuration, the
//! handlers that were installed before ours, and what a handler does with a
//! delivered signal.
//!
//! The handler descriptor `H` is whatever the platform uses to reinstall a
//! disposition; this module only keeps, finds and hands it back.

use vstd::prelude::*;

use crate::policy::{configured, NativeAirBagConfig, SignalModel};

verus! {

/// `entries` holds a record for `signal`.
pub open spec fn has_signal<H>(entries: Seq<(i32, H)>, signal: i32) -> bool {
    exists|i: int| 0 <= i < entries.len() && (#[trigger] entries[i]).0 == signal
}

/// No signal has two records.
pub open spec fn unique_signals<H>(entries: Seq<(i32, H)>) -> bool {
    forall|i: int, j: int|
        0 <= i < entries.len() && 0 <= j < entries.len() && i != j ==> (#[trigger] entries[i]).0
            != (#[trigger] entries[j]).0
}

/// The records after the handler `previous` was displaced from `signal`: a
/// signal that already has a record keeps it, since that one is the true
/// original.
pub open spec fn recorded<H>(entries: Seq<(i32, H)>, signal: i32, previous: H) -> Seq<(i32, H)> {
    if has_signal(entries, signal) {
        entries
    } else {
        entries.push((signal, previous))
    }
}

/// The records that a new configuration keeps: those of its signals.
pub open spec fn retained<H>(entries: Seq<(i32, H)>, config: Seq<SignalModel>) -> Seq<(i32, H)> {
    entries.filter(|e: (i32, H)| configured(config, e.0))
}

/// The records that a new configuration gives up: their handlers are to be
/// reinstalled.
pub open spec fn released<H>(entries: Seq<(i32, H)>, config: Seq<SignalModel>) -> Seq<(i32, H)> {
    entries.filter(|e: (i32, H)| !configured(config, e.0))
}

/// The handlers that were active before interception, one per intercepted
/// signal.
pub struct HandlerTable<H> {
    entries: Vec<(i32, H)>,
}

impl<H> View for HandlerTable<H> {
    type V = Seq<(i32, H)>;

    closed spec fn view(&self) -> Seq<(i32, H)> {
        self.entries@
    }
}

impl<H> HandlerTable<H> {
    /// No signal has two records.
    pub open spec fn wf(&self) -> bool {
        unique_signals(self@)
    }

    /// An empty table.
    pub fn new() -> (r: HandlerTable<H>)
        ensures
            r@ == Seq::<(i32, H)>::empty(),
            r.wf(),
    {
        HandlerTable { entries: Vec::new() }
    }

    /// The number of records.
    pub fn len(&self) -> (r: usize)
        ensures
            r == self@.len(),
    {
        self.entries.len()
    }

    /// Where the record of `signal` stands, if there is one.
    pub fn find(&self, signal: i32) -> (r: Option<usize>)
        ensures
            match r {
                Some(i) => i < self@.len() && self@[i as int].0 == signal,
                None => !has_signal(self@, signal),
            },
    {
        let mut i: usize = 0;
        while i < self.entries.len()
            invariant
                i <= self@.len(),
                forall|k: int| 0 <= k < i ==> (#[trigger] self@[k]).0 != signal,
            decreases self@.len() - i,
        {
            if self.entries[i].0 == signal {
                return Some(i);
            }
            i = i + 1;
        }
        None
    }

    /// The signal of record `i`.
    pub fn signal_at(&self, i: usize) -> (r: i32)
        requires
            i < self@.len(),
        ensures
            r == self@[i as int].0,
    {
        self.entries[i].0
    }

    /// The handler of record `i`.
    pub fn handler_at(&self, i: usize) -> (r: &H)
        requires
            i < self@.len(),
        ensures
            *r == self@[i as int].1,
    {
        &self.entries[i].1
    }

    /// Records `previous` as the original handler of `signal`, unless the
    /// signal already has one. Returns whether it was recorded.
    pub fn record(&mut self, signal: i32, previous: H) -> (r: bool)
        requires
            old(self).wf(),
        ensures
            final(self).wf(),
            final(self)@ == recorded(old(self)@, signal, previous),
            r == !has_signal(old(self)@, signal),
    {
        match self.find(signal) {
            Some(_) => false,
            None => {
                self.entries.push((signal, previous));
                true
            },
        }
    }

    /// Keeps the records of the signals of `config` and hands back the
    /// others, in their order.
    pub fn release_unconfigured(&mut self, config: &NativeAirBagConfig) -> (r: Vec<(i32, H)>)
        requires
            old(self).wf(),
        ensures
            final(self).wf(),
            final(self)@ == retained(old(self)@, config@),
            r@ == released(old(self)@, config@),
    {
        let ghost start = self@;
        let mut rest: Vec<(i32, H)> = Vec::new();
        std::mem::swap(&mut rest, &mut self.entries);
        let n = rest.len();
        let mut kept: Vec<(i32, H)> = Vec::new();
        let mut gone: Vec<(i32, H)> = Vec::new();
        let mut i: usize = 0;
        // Take from the front by reversing once, so that each step pops.
        let mut pending = reversed(rest);
        proof {
            reveal(Seq::filter);
            assert(start.subrange(0, 0) =~= Seq::<(i32, H)>::empty());
        }
        while pending.len() > 0
            invariant
                unique_signals(start),
                n == start.len(),
                i + pending@.len() == start.len(),
                forall|k: int| 0 <= k < pending@.len() ==> pending@[k] == start[start.len() - 1 - k],
                kept@ == retained(start.subrange(0, i as int), config@),
                gone@ == released(start.subrange(0, i as int), config@),
                forall|k: int| 0 <= k < kept@.len() ==> exists|m: int| 0 <= m < i && #[trigger] kept@[k] == start[m],
                unique_signals(kept@),
            decreases pending@.len(),
        {
            let e = pending.pop().unwrap();
            assert(e == start[i as int]);
            let ghost upto = start.subrange(0, i + 1);
            assert(upto.drop_last() =~= start.subrange(0, i as int));
            assert(upto.last() == e);
            let here = config.is_configured(e.0);
            proof {
                reveal(Seq::filter);
                if here {
                    assert(retained(upto, config@) == kept@.push(e));
                    assert(released(upto, config@) == gone@);
                } else {
                    assert(retained(upto, config@) == kept@);
                    assert(released(upto, config@) == gone@.push(e));
                }
            }
            if here {
                proof {
                    assert forall|k: int| 0 <= k < kept@.len() implies (#[trigger] kept@[k]).0 != e.0 by {
                        let m = choose|m: int| 0 <= m < i && #[trigger] kept@[k] == start[m];
                        assert(start[m].0 != start[i as int].0);
                    }
                }
                kept.push(e);
                proof {
                    assert forall|k: int| 0 <= k < kept@.len() implies exists|m: int| 0 <= m < i + 1 && #[trigger] kept@[k] == start[m] by {
                        if k == kept@.len() - 1 {
                            assert(kept@[k] == start[i as int]);
                        } else {
                            let m = choose|m: int| 0 <= m < i && #[trigger] kept@[k] == start[m];
                            assert(kept@[k] == start[m]);
                        }
                    }
                }
            } else {
                gone.push(e);
            }
            i = i + 1;
        }
        assert(start.subrange(0, i as int) =~= start);
        self.entries = kept;
        gone
    }

    /// Hands back every record and leaves the table empty.
    pub fn clear(&mut self) -> (r: Vec<(i32, H)>)
        ensures
            r@ == old(self)@,
            final(self)@ == Seq::<(i32, H)>::empty(),
            final(self).wf(),
    {
        let mut r: Vec<(i32, H)> = Vec::new();
        std::mem::swap(&mut r, &mut self.entries);
        r
    }
}

/// `v` in reverse order.
fn reversed<T>(v: Vec<T>) -> (r: Vec<T>)
    ensures
        r@.len() == v@.len(),
        forall|k: int| 0 <= k < v@.len() ==> r@[k] == v@[v@.len() - 1 - k],
{
    let mut v = v;
    let ghost start = v@;
    let mut r: Vec<T> = Vec::new();
    while v.len() > 0
        invariant
            v@ == start.subrange(0, v@.len() as int),
            r@.len() + v@.len() == start.len(),
            forall|k: int| 0 <= k < r@.len() ==> r@[k] == start[start.len() - 1 - k],
        decreases v@.len(),
    {
        let x = v.pop().unwrap();
        r.push(x);
    }
    r
}

} // verus!
