//! The suppression policy: which signals are watched, and for each of them
//! which module names and keywords mark a crash as expected.

use vstd::prelude::*;

use crate::text::{chars_of, contains_chars, occurs};

verus! {

/// A module filter as a mathematical value: the module name to look for, and
/// the keywords of which at least one must also occur (none: the module alone
/// is enough).
pub type ModuleModel = (Seq<char>, Seq<Seq<char>>);

/// A signal's entry: the signal number and its module filters.
pub type SignalModel = (i32, Seq<ModuleModel>);

/// The outcome of evaluating a trace against the configuration.
#[derive(Clone, Copy, Debug, PartialEq, Eq, Structural)]
pub enum Verdict {
    /// The crash is expected: the handler returns.
    Suppress,
    /// The crash goes on to the handler that was active before.
    Delegate,
}

/// Some keyword of `keywords` occurs in `trace`.
pub open spec fn keyword_hit(keywords: Seq<Seq<char>>, trace: Seq<char>) -> bool {
    exists|k: int| 0 <= k < keywords.len() && occurs(#[trigger] keywords[k], trace)
}

/// A module filter matches `trace`: its name is not empty and occurs in the
/// trace, and either it has no keywords or one of them occurs too.
pub open spec fn module_hit(module: ModuleModel, trace: Seq<char>) -> bool {
    &&& module.0.len() > 0
    &&& occurs(module.0, trace)
    &&& (module.1.len() == 0 || keyword_hit(module.1, trace))
}

/// Some filter of `modules` matches `trace`.
pub open spec fn filter_hit(modules: Seq<ModuleModel>, trace: Seq<char>) -> bool {
    exists|j: int| 0 <= j < modules.len() && module_hit(#[trigger] modules[j], trace)
}

/// `signal` has an entry in `config`.
pub open spec fn configured(config: Seq<SignalModel>, signal: i32) -> bool {
    exists|i: int| 0 <= i < config.len() && (#[trigger] config[i]).0 == signal
}

/// A crash on `signal` whose rendered trace is `trace` is suppressed under
/// `config`: an entry for the signal holds a module filter that matches.
pub open spec fn suppresses(config: Seq<SignalModel>, signal: i32, trace: Seq<char>) -> bool {
    exists|i: int|
        0 <= i < config.len() && (#[trigger] config[i]).0 == signal && filter_hit(
            config[i].1,
            trace,
        )
}

/// The verdict that `config` gives for `signal` and `trace`.
pub open spec fn verdict_of(config: Seq<SignalModel>, signal: i32, trace: Seq<char>) -> Verdict {
    if suppresses(config, signal, trace) {
        Verdict::Suppress
    } else {
        Verdict::Delegate
    }
}

/// The signal configuration: for each signal number, module names mapped to
/// keyword sets.
#[derive(Clone)]
pub struct NativeAirBagConfig {
    signal_configs: Vec<(i32, Vec<(String, Vec<String>)>)>,
}

impl View for NativeAirBagConfig {
    type V = Seq<SignalModel>;

    closed spec fn view(&self) -> Seq<SignalModel> {
        self.signal_configs.deep_view()
    }
}

/// Makes a configuration from its entries: signal number, then each module
/// name with its keywords.
#[allow(non_snake_case)]
pub fn setConfig(signalConfig: Vec<(i32, Vec<(String, Vec<String>)>)>) -> (r: NativeAirBagConfig)
    ensures
        r@ == signalConfig.deep_view(),
{
    NativeAirBagConfig { signal_configs: signalConfig }
}

impl NativeAirBagConfig {
    /// The signal numbers that have an entry, in entry order.
    pub fn signals(&self) -> (r: Vec<i32>)
        ensures
            r@.len() == self@.len(),
            forall|i: int| 0 <= i < r@.len() ==> r@[i] == #[trigger] self@[i].0,
    {
        let mut r: Vec<i32> = Vec::new();
        let mut i: usize = 0;
        while i < self.signal_configs.len()
            invariant
                i <= self.signal_configs@.len(),
                r@.len() == i,
                forall|k: int| 0 <= k < i ==> r@[k] == #[trigger] self@[k].0,
            decreases self.signal_configs@.len() - i,
        {
            r.push(self.signal_configs[i].0);
            i = i + 1;
        }
        r
    }

    /// Whether `signal` has an entry.
    pub fn is_configured(&self, signal: i32) -> (r: bool)
        ensures
            r == configured(self@, signal),
    {
        let mut i: usize = 0;
        while i < self.signal_configs.len()
            invariant
                i <= self.signal_configs@.len(),
                forall|k: int| 0 <= k < i ==> (#[trigger] self@[k]).0 != signal,
            decreases self.signal_configs@.len() - i,
        {
            if self.signal_configs[i].0 == signal {
                assert(self@[i as int].0 == signal);
                return true;
            }
            i = i + 1;
        }
        false
    }
}

/// Whether one module filter matches the trace `t`.
fn module_hits(t: &Vec<char>, module: &(String, Vec<String>)) -> (r: bool)
    ensures
        r == module_hit(module.deep_view(), t@),
{
    let name = chars_of(module.0.as_str());
    if name.len() == 0 {
        return false;
    }
    if !contains_chars(t, &name) {
        return false;
    }
    let keywords = &module.1;
    if keywords.len() == 0 {
        return true;
    }
    let ghost kws = module.deep_view().1;
    let mut k: usize = 0;
    while k < keywords.len()
        invariant
            kws == keywords.deep_view(),
            keywords == module.1,
            name@ == module.0@,
            name@.len() > 0,
            occurs(name@, t@),
            k <= keywords@.len(),
            forall|p: int| 0 <= p < k ==> !occurs(#[trigger] kws[p], t@),
        decreases keywords@.len() - k,
    {
        let kw = chars_of(keywords[k].as_str());
        if contains_chars(t, &kw) {
            assert(occurs(kws[k as int], t@));
            assert(keyword_hit(kws, t@));
            assert(module.deep_view().0 == name@);
            return true;
        }
        k = k + 1;
    }
    false
}

/// Whether some module filter of `modules` matches the trace `t`.
fn filter_hits(t: &Vec<char>, modules: &Vec<(String, Vec<String>)>) -> (r: bool)
    ensures
        r == filter_hit(modules.deep_view(), t@),
{
    let ghost ms = modules.deep_view();
    let mut j: usize = 0;
    while j < modules.len()
        invariant
            ms == modules.deep_view(),
            j <= modules@.len(),
            forall|p: int| 0 <= p < j ==> !module_hit(#[trigger] ms[p], t@),
        decreases modules@.len() - j,
    {
        if module_hits(t, &modules[j]) {
            assert(module_hit(ms[j as int], t@));
            return true;
        }
        j = j + 1;
    }
    false
}

/// Decides whether a crash on `signal` whose rendered trace is `trace` is
/// suppressed under `config`.
pub fn evaluate(signal: i32, trace: &str, config: &NativeAirBagConfig) -> (r: Verdict)
    ensures
        r == verdict_of(config@, signal, trace@),
{
    let t = chars_of(trace);
    let entries = &config.signal_configs;
    let ghost cs = config@;
    let mut i: usize = 0;
    while i < entries.len()
        invariant
            cs == entries.deep_view(),
            cs == config@,
            t@ == trace@,
            i <= entries@.len(),
            forall|p: int|
                0 <= p < i ==> !((#[trigger] cs[p]).0 == signal && filter_hit(cs[p].1, t@)),
        decreases entries@.len() - i,
    {
        if entries[i].0 == signal && filter_hits(&t, &entries[i].1) {
            assert(cs[i as int].0 == signal && filter_hit(cs[i as int].1, t@));
            assert(suppresses(cs, signal, trace@));
            return Verdict::Suppress;
        }
        i = i + 1;
    }
    Verdict::Delegate
}

/// A signal without an entry in the configuration is always delegated,
/// whatever the trace holds.
pub proof fn unconfigured_signal_is_delegated(
    config: Seq<SignalModel>,
    signal: i32,
    trace: Seq<char>,
)
    requires
        !configured(config, signal),
    ensures
        verdict_of(config, signal, trace) == Verdict::Delegate,
{
    if suppresses(config, signal, trace) {
        let i = choose|i: int|
            0 <= i < config.len() && (#[trigger] config[i]).0 == signal && filter_hit(
                config[i].1,
                trace,
            );
        assert(configured(config, signal));
    }
}

/// A module filter without keywords suppresses every crash on its signal
/// whose trace holds the (non-empty) module name, whatever else the trace holds.
pub proof fn module_without_keywords_suppresses(
    config: Seq<SignalModel>,
    i: int,
    j: int,
    trace: Seq<char>,
)
    requires
        0 <= i < config.len(),
        0 <= j < config[i].1.len(),
        config[i].1[j].0.len() > 0,
        config[i].1[j].1.len() == 0,
        occurs(config[i].1[j].0, trace),
    ensures
        verdict_of(config, config[i].0, trace) == Verdict::Suppress,
{
    assert(module_hit(config[i].1[j], trace));
    assert(filter_hit(config[i].1, trace));
}

/// Under a configuration of one signal with one module filter that has
/// keywords, a crash on that signal is suppressed exactly when the module
/// name occurs in the trace and so does at least one keyword.
pub proof fn module_with_keywords_needs_both(
    signal: i32,
    module: Seq<char>,
    keywords: Seq<Seq<char>>,
    trace: Seq<char>,
)
    requires
        keywords.len() > 0,
    ensures
        verdict_of(seq![(signal, seq![(module, keywords)])], signal, trace) == (if module.len()
            > 0 && occurs(module, trace) && keyword_hit(keywords, trace) {
            Verdict::Suppress
        } else {
            Verdict::Delegate
        }),
{
    let config: Seq<SignalModel> = seq![(signal, seq![(module, keywords)])];
    let modules: Seq<ModuleModel> = seq![(module, keywords)];
    assert(config[0] == (signal, modules));
    assert(modules[0] == (module, keywords));
    if module.len() > 0 && occurs(module, trace) && keyword_hit(keywords, trace) {
        assert(module_hit(modules[0], trace));
        assert(filter_hit(config[0].1, trace));
    }
}

/// A module filter with an empty name never matches, so adding one to any
/// configuration changes no verdict.
pub proof fn empty_module_name_never_matches(
    config: Seq<SignalModel>,
    entry_signal: i32,
    keywords: Seq<Seq<char>>,
    signal: i32,
    trace: Seq<char>,
)
    ensures
        !module_hit((Seq::<char>::empty(), keywords), trace),
        verdict_of(config.push((entry_signal, seq![(Seq::<char>::empty(), keywords)])), signal, trace)
            == verdict_of(config, signal, trace),
{
    let extra: SignalModel = (entry_signal, seq![(Seq::<char>::empty(), keywords)]);
    let grown = config.push(extra);
    assert(!filter_hit(extra.1, trace)) by {
        if filter_hit(extra.1, trace) {
            let j = choose|j: int| 0 <= j < extra.1.len() && module_hit(#[trigger] extra.1[j], trace);
            assert(extra.1[j] == (Seq::<char>::empty(), keywords));
        }
    }
    if suppresses(grown, signal, trace) {
        let i = choose|i: int|
            0 <= i < grown.len() && (#[trigger] grown[i]).0 == signal && filter_hit(grown[i].1, trace);
        assert(i < config.len());
        assert(grown[i] == config[i]);
        assert(suppresses(config, signal, trace));
    }
    if suppresses(config, signal, trace) {
        let i = choose|i: int|
            0 <= i < config.len() && (#[trigger] config[i]).0 == signal && filter_hit(config[i].1, trace);
        assert(grown[i] == config[i]);
        assert(suppresses(grown, signal, trace));
    }
}

} // verus!
