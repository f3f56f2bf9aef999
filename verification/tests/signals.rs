use mtld3d_diag::signal::{
    classify_signal, host_signals, install_plan, signal_name, Signal, SignalTable,
};

#[test]
fn host_numbers_are_those_of_libc() {
    let table = host_signals();
    assert_eq!(table.segv, libc::SIGSEGV);
    assert_eq!(table.bus, libc::SIGBUS);
    assert_eq!(table.abrt, libc::SIGABRT);
}

#[test]
fn numbers_are_classified() {
    assert_eq!(classify_signal(libc::SIGSEGV), Signal::Segv);
    assert_eq!(classify_signal(libc::SIGBUS), Signal::Bus);
    assert_eq!(classify_signal(libc::SIGABRT), Signal::Abrt);
    assert_eq!(classify_signal(libc::SIGTERM), Signal::Other);
    assert_eq!(classify_signal(0), Signal::Other);
    assert_eq!(classify_signal(-1), Signal::Other);
    let table = SignalTable { segv: 1, bus: 2, abrt: 3 };
    assert_eq!(table.classify(2), Signal::Bus);
    assert_eq!(table.classify(4), Signal::Other);
}

#[test]
fn signals_are_named() {
    assert_eq!(signal_name(libc::SIGSEGV), b"SIGSEGV");
    assert_eq!(signal_name(libc::SIGBUS), b"SIGBUS");
    assert_eq!(signal_name(libc::SIGABRT), b"SIGABRT");
    assert_eq!(signal_name(libc::SIGTERM), b"SIG?");
    let all = [Signal::Segv, Signal::Bus, Signal::Abrt, Signal::Other];
    for a in all {
        for b in all {
            assert_eq!(a.name() == b.name(), a == b);
        }
    }
}

#[test]
fn only_faults_have_fault_info() {
    assert!(Signal::Segv.has_fault_info());
    assert!(Signal::Bus.has_fault_info());
    assert!(!Signal::Abrt.has_fault_info());
    assert!(!Signal::Other.has_fault_info());
}

#[test]
fn plan_follows_the_environment() {
    let table = host_signals();
    let plan = install_plan(&table, false, false);
    assert_eq!(plan.backtrace, Some("1"));
    assert_eq!(plan.signals, vec![libc::SIGSEGV, libc::SIGBUS, libc::SIGABRT]);
    let plan = install_plan(&table, true, true);
    assert_eq!(plan.backtrace, None);
    assert_eq!(plan.signals, vec![libc::SIGABRT]);
}

#[test]
fn planned_signals_have_names() {
    let table = host_signals();
    for disabled in [false, true] {
        let plan = install_plan(&table, false, disabled);
        assert!(plan.signals.contains(&libc::SIGABRT));
        for signo in plan.signals {
            assert_ne!(signal_name(signo), b"SIG?");
        }
    }
}
