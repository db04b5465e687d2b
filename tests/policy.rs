use airbag::policy::{evaluate, setConfig, Verdict};
use airbag::text::contains_text;

fn entry(signal: i32, modules: Vec<(&str, Vec<&str>)>) -> (i32, Vec<(String, Vec<String>)>) {
    let modules = modules
        .into_iter()
        .map(|(m, ks)| (m.to_string(), ks.into_iter().map(|k| k.to_string()).collect()))
        .collect();
    (signal, modules)
}

const TRACE: &str = "  #0 at /data/app/lib/arm64/libfoo.so: 0x0000007f12345678  foo_crash\n  #1 at /system/lib64/libc.so: 0x0000007f00001234  abort\n";

#[test]
fn substring_search() {
    assert!(contains_text("abcdef", "cde"));
    assert!(contains_text("abcdef", ""));
    assert!(contains_text("", ""));
    assert!(!contains_text("abc", "abcd"));
    assert!(!contains_text("abcdef", "ce"));
    assert!(contains_text("aaab", "aab"));
}

#[test]
fn unconfigured_signal_delegates() {
    let config = setConfig(vec![entry(11, vec![("libfoo.so", vec![])])]);
    assert_eq!(evaluate(6, TRACE, &config), Verdict::Delegate);
    assert_eq!(evaluate(11, TRACE, &config), Verdict::Suppress);
    let empty = setConfig(vec![]);
    assert_eq!(evaluate(11, TRACE, &empty), Verdict::Delegate);
}

#[test]
fn module_without_keywords_suppresses() {
    let config = setConfig(vec![entry(11, vec![("libfoo.so", vec![])])]);
    assert_eq!(evaluate(11, TRACE, &config), Verdict::Suppress);
    assert_eq!(evaluate(11, "  #0 at /x/libbar.so: 0x0  f\n", &config), Verdict::Delegate);
}

#[test]
fn module_with_keywords_needs_both() {
    let config = setConfig(vec![entry(11, vec![("libfoo.so", vec!["Benign", "abort"])])]);
    assert_eq!(evaluate(11, TRACE, &config), Verdict::Suppress);
    let config = setConfig(vec![entry(11, vec![("libfoo.so", vec!["Benign", "Other"])])]);
    assert_eq!(evaluate(11, TRACE, &config), Verdict::Delegate);
    let config = setConfig(vec![entry(11, vec![("libzzz.so", vec!["abort"])])]);
    assert_eq!(evaluate(11, TRACE, &config), Verdict::Delegate);
}

#[test]
fn empty_module_name_never_matches() {
    let config = setConfig(vec![entry(6, vec![("", vec![])]), entry(11, vec![("", vec!["abort"])])]);
    assert_eq!(evaluate(6, TRACE, &config), Verdict::Delegate);
    assert_eq!(evaluate(11, TRACE, &config), Verdict::Delegate);
    assert_eq!(evaluate(11, "", &config), Verdict::Delegate);
}

#[test]
fn scenario_libfoo_with_and_without_keyword() {
    let trace_without = "  #0 at /data/libfoo.so: 0x0000000000001000  do_work\n";
    let trace_with = "  #0 at /data/libfoo.so: 0x0000000000001000  Benign_assert\n";
    let plain = setConfig(vec![entry(11, vec![("libfoo.so", vec![])])]);
    assert_eq!(evaluate(11, trace_without, &plain), Verdict::Suppress);
    let keyed = setConfig(vec![entry(11, vec![("libfoo.so", vec!["Benign"])])]);
    assert_eq!(evaluate(11, trace_without, &keyed), Verdict::Delegate);
    assert_eq!(evaluate(11, trace_with, &keyed), Verdict::Suppress);
}

#[test]
fn several_modules_any_may_match() {
    let config = setConfig(vec![entry(
        11,
        vec![("edsion1.so", vec!["A", "B"]), ("libc.so", vec!["abort"]), ("test.so", vec!["AA"])],
    )]);
    assert_eq!(evaluate(11, TRACE, &config), Verdict::Suppress);
    let signals = config.signals();
    assert_eq!(signals, vec![11]);
    assert!(config.is_configured(11));
    assert!(!config.is_configured(6));
}
