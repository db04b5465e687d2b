//! The engine's process-wide state and the decisions taken on it: what a
//! registration installs and restores, what the handler does with a
//! delivered signal, and how a registration attempt is reported.

use vstd::prelude::*;

use crate::policy::{configured, evaluate, suppresses, NativeAirBagConfig, SignalModel, Verdict};
use crate::registry::{has_signal, recorded, released, retained, HandlerTable};

verus! {

/// What the signal handler does with a delivered signal.
#[derive(Clone, Copy, Debug, PartialEq, Eq, Structural)]
pub enum HandlerAction {
    /// Return from the handler: the crash is expected.
    Suppress,
    /// Reinstall the original handler recorded at this index of the table,
    /// then raise the signal again.
    RestoreOriginal(usize),
    /// No original handler is recorded: reinstall the default disposition,
    /// then raise the signal again.
    RestoreDefault,
}

/// Why a registration did not complete.
#[derive(Clone, Debug)]
pub enum AirbagError {
    /// The configuration payload could not be read.
    ConfigurationMalformed,
    /// The alternate signal stack could not be set up; nothing was installed.
    ResourceExhausted,
    /// The handler could not be installed for these signals.
    InstallationFailed(Vec<i32>),
}

/// The signals whose installation failed, in attempt order.
pub open spec fn failed_signals(results: Seq<(i32, bool)>) -> Seq<i32>
    decreases results.len(),
{
    if results.len() == 0 {
        Seq::empty()
    } else if results.last().1 {
        failed_signals(results.drop_last())
    } else {
        failed_signals(results.drop_last()).push(results.last().0)
    }
}

/// The report of a registration attempt: whether the alternate stack was set
/// up, and for each signal whether its handler went in.
pub fn registration_outcome(stack_ready: bool, installs: &Vec<(i32, bool)>) -> (r: Result<
    (),
    AirbagError,
>)
    ensures
        !stack_ready ==> r matches Err(AirbagError::ResourceExhausted),
        stack_ready && failed_signals(installs@).len() == 0 ==> r is Ok,
        stack_ready && failed_signals(installs@).len() > 0 ==> (r matches Err(
            AirbagError::InstallationFailed(v),
        ) && v@ == failed_signals(installs@)),
{
    if !stack_ready {
        return Err(AirbagError::ResourceExhausted);
    }
    let mut failed: Vec<i32> = Vec::new();
    let mut i: usize = 0;
    while i < installs.len()
        invariant
            i <= installs@.len(),
            failed@ == failed_signals(installs@.subrange(0, i as int)),
        decreases installs@.len() - i,
    {
        assert(installs@.subrange(0, i + 1).drop_last() =~= installs@.subrange(0, i as int));
        if !installs[i].1 {
            failed.push(installs[i].0);
        }
        i = i + 1;
    }
    assert(installs@.subrange(0, i as int) =~= installs@);
    if failed.len() == 0 {
        Ok(())
    } else {
        Err(AirbagError::InstallationFailed(failed))
    }
}

/// The action for a signal delivered with rendered trace `trace`, given the
/// active configuration (if any) and the table of original handlers.
pub open spec fn action_fits<H>(
    config: Option<Seq<SignalModel>>,
    originals: Seq<(i32, H)>,
    signal: i32,
    trace: Seq<char>,
    action: HandlerAction,
) -> bool {
    let suppressed = config is Some && suppresses(config->0, signal, trace);
    match action {
        HandlerAction::Suppress => suppressed,
        HandlerAction::RestoreOriginal(i) => !suppressed && i < originals.len() && originals[i
            as int].0 == signal,
        HandlerAction::RestoreDefault => !suppressed && !has_signal(originals, signal),
    }
}

/// The active configuration and the handlers that were installed before
/// ours.
pub struct AirbagState<H> {
    config: Option<NativeAirBagConfig>,
    originals: HandlerTable<H>,
}

impl<H> AirbagState<H> {
    /// The active configuration, if one is registered.
    pub closed spec fn config(&self) -> Option<Seq<SignalModel>> {
        match self.config {
            Some(c) => Some(c@),
            None => None,
        }
    }

    /// The recorded original handlers.
    pub closed spec fn originals(&self) -> Seq<(i32, H)> {
        self.originals@
    }

    /// At most one original handler per signal.
    pub closed spec fn wf(&self) -> bool {
        self.originals.wf()
    }

    /// Nothing registered, nothing recorded.
    pub fn new() -> (r: AirbagState<H>)
        ensures
            r.wf(),
            r.config() is None,
            r.originals() == Seq::<(i32, H)>::empty(),
    {
        AirbagState { config: None, originals: HandlerTable::new() }
    }

    /// Makes `config` the active configuration. The originals of signals that
    /// it no longer holds are handed back, to be reinstalled; those of the
    /// signals it keeps stay, so that the first original is never lost.
    pub fn configure(&mut self, config: NativeAirBagConfig) -> (r: Vec<(i32, H)>)
        requires
            old(self).wf(),
        ensures
            final(self).wf(),
            final(self).config() == Some(config@),
            final(self).originals() == retained(old(self).originals(), config@),
            r@ == released(old(self).originals(), config@),
    {
        let r = self.originals.release_unconfigured(&config);
        self.config = Some(config);
        r
    }

    /// The signals that the active configuration asks to intercept, in entry
    /// order; none without a configuration.
    pub fn signals_to_install(&self) -> (r: Vec<i32>)
        ensures
            self.config() is None ==> r@.len() == 0,
            self.config() is Some ==> r@.len() == self.config()->0.len() && forall|i: int|
                0 <= i < r@.len() ==> r@[i] == #[trigger] self.config()->0[i].0,
    {
        match &self.config {
            Some(c) => c.signals(),
            None => Vec::new(),
        }
    }

    /// Records `previous`, the handler displaced by ours on `signal`, unless
    /// the signal already has an original. Returns whether it was recorded.
    pub fn record_original(&mut self, signal: i32, previous: H) -> (r: bool)
        requires
            old(self).wf(),
        ensures
            final(self).wf(),
            final(self).config() == old(self).config(),
            final(self).originals() == recorded(old(self).originals(), signal, previous),
            r == !has_signal(old(self).originals(), signal),
    {
        self.originals.record(signal, previous)
    }

    /// The number of recorded originals.
    pub fn original_count(&self) -> (r: usize)
        ensures
            r == self.originals().len(),
    {
        self.originals.len()
    }

    /// The signal of recorded original `i`.
    pub fn original_signal(&self, i: usize) -> (r: i32)
        requires
            i < self.originals().len(),
        ensures
            r == self.originals()[i as int].0,
    {
        self.originals.signal_at(i)
    }

    /// The handler of recorded original `i`.
    pub fn original_handler(&self, i: usize) -> (r: &H)
        requires
            i < self.originals().len(),
        ensures
            *r == self.originals()[i as int].1,
    {
        self.originals.handler_at(i)
    }

    /// Decides what the handler does with `signal`, delivered with the
    /// rendered trace `trace`: suppress it when the active configuration
    /// matches, else hand it to the recorded original, or to the default
    /// disposition when none is recorded.
    pub fn handler_action(&self, signal: i32, trace: &str) -> (r: HandlerAction)
        ensures
            action_fits(self.config(), self.originals(), signal, trace@, r),
    {
        if let Some(c) = &self.config {
            if evaluate(signal, trace, c) == Verdict::Suppress {
                return HandlerAction::Suppress;
            }
        }
        match self.originals.find(signal) {
            Some(i) => HandlerAction::RestoreOriginal(i),
            None => HandlerAction::RestoreDefault,
        }
    }

    /// Clears the state when the engine is unloaded, handing back every
    /// recorded original so that it can be reinstalled.
    pub fn teardown(&mut self) -> (r: Vec<(i32, H)>)
        ensures
            r@ == old(self).originals(),
            final(self).wf(),
            final(self).config() is None,
            final(self).originals() == Seq::<(i32, H)>::empty(),
    {
        self.config = None;
        self.originals.clear()
    }
}

/// A registration, then a re-registration with another configuration: the
/// second configuration governs every later fault. A signal that it keeps is
/// delegated to the handler that was in place before the first registration,
/// not to ours, which the second installation displaced; a signal that it
/// drops gets that first handler back and leaves the table.
pub proof fn reregistration_keeps_first_original<H>(
    entries: Seq<(i32, H)>,
    signal: i32,
    first: H,
    second: Seq<SignalModel>,
    ours: H,
    trace: Seq<char>,
    action: HandlerAction,
)
    requires
        !has_signal(entries, signal),
    ensures
        ({
            let registered = recorded(entries, signal, first);
            let table = recorded(retained(registered, second), signal, ours);
            configured(second, signal) ==> {
                &&& has_signal(table, signal)
                &&& forall|i: int|
                    0 <= i < table.len() && (#[trigger] table[i]).0 == signal ==> table[i].1
                        == first
                &&& (action_fits(Some(second), table, signal, trace, action) && action
                    is RestoreOriginal ==> table[action->RestoreOriginal_0 as int].1 == first)
                &&& (action_fits(Some(second), table, signal, trace, action) ==> (action
                    is Suppress <==> suppresses(second, signal, trace)))
            }
        }),
        ({
            let registered = recorded(entries, signal, first);
            !configured(second, signal) ==> {
                &&& released(registered, second).contains((signal, first))
                &&& !has_signal(retained(registered, second), signal)
            }
        }),
{
    let registered = recorded(entries, signal, first);
    assert(registered == entries.push((signal, first)));
    let keep = |e: (i32, H)| configured(second, e.0);
    let drop = |e: (i32, H)| !configured(second, e.0);
    entries.lemma_filter_push((signal, first), keep);
    entries.lemma_filter_push((signal, first), drop);
    let kept = entries.filter(keep);
    assert(!has_signal(kept, signal)) by {
        if has_signal(kept, signal) {
            let i = choose|i: int| 0 <= i < kept.len() && (#[trigger] kept[i]).0 == signal;
            assert(kept.contains(kept[i]));
            entries.lemma_filter_contains_rev(keep, kept[i]);
            let j = choose|j: int| 0 <= j < entries.len() && entries[j] == kept[i];
            assert(entries[j].0 == signal);
        }
    }
    if configured(second, signal) {
        let retained_table = kept.push((signal, first));
        assert(retained(registered, second) == retained_table);
        assert(retained_table[kept.len() as int].0 == signal);
        assert(has_signal(retained_table, signal));
        let table = recorded(retained_table, signal, ours);
        assert(table == retained_table);
        assert forall|i: int|
            0 <= i < table.len() && (#[trigger] table[i]).0 == signal implies table[i].1 == first by {
            if i < kept.len() {
                assert(table[i] == kept[i]);
            }
        }
    } else {
        let gone = entries.filter(drop).push((signal, first));
        assert(released(registered, second) == gone);
        assert(gone[gone.len() - 1] == (signal, first));
        assert(retained(registered, second) == kept);
    }
}

} // verus!
