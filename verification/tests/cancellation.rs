use autothesis::cancellation::CancellationRegistry;
use std::sync::atomic::Ordering;

#[test]
fn register_cancel_and_clear() {
    let mut reg = CancellationRegistry::new();
    let flag = reg.register("run-1");
    assert!(!flag.load(Ordering::Relaxed));
    assert!(!reg.is_cancelled("run-1"));

    assert!(reg.cancel("run-1"));
    assert!(flag.load(Ordering::Relaxed));
    assert!(reg.is_cancelled("run-1"));

    reg.clear("run-1");
    assert!(!reg.is_cancelled("run-1"));
    assert!(!reg.cancel("run-1"));
}

#[test]
fn unknown_runs_are_not_cancelled() {
    let mut reg = CancellationRegistry::new();
    assert!(!reg.is_cancelled("missing"));
    assert!(!reg.cancel("missing"));
}

#[test]
fn runs_are_independent() {
    let mut reg = CancellationRegistry::new();
    let a = reg.register("a");
    let b = reg.register("b");
    assert!(reg.cancel("a"));
    assert!(reg.is_cancelled("a"));
    assert!(!reg.is_cancelled("b"));
    assert!(a.load(Ordering::Relaxed));
    assert!(!b.load(Ordering::Relaxed));
    reg.clear("a");
    assert!(!reg.is_cancelled("a"));
    assert!(!reg.is_cancelled("b"));
    assert!(reg.cancel("b"));
    assert!(reg.is_cancelled("b"));
}

#[test]
fn cancel_is_idempotent_and_register_resets() {
    let mut reg = CancellationRegistry::new();
    reg.register("r");
    assert!(reg.cancel("r"));
    assert!(reg.cancel("r"));
    assert!(reg.is_cancelled("r"));
    let fresh = reg.register("r");
    assert!(!fresh.load(Ordering::Relaxed));
    assert!(!reg.is_cancelled("r"));
}
