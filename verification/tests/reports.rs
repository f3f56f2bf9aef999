use mtld3d_diag::context::Arch;
use mtld3d_diag::handler::Report;
use mtld3d_diag::line::Line;
use mtld3d_diag::scan::{in_guest_code, may_be_address, ScanPos};
use mtld3d_diag::signal::Signal;
use mtld3d_diag::step::{Action, Event};
use mtld3d_diag::text::FaultInfo;

struct Process {
    info: Option<FaultInfo>,
    registers: Vec<(u64, u64)>,
    frames: i32,
    word: fn(u64) -> u64,
    half: fn(u64) -> u32,
    ours: fn(u64) -> bool,
}

fn shown(line: &Line) -> String {
    String::from_utf8(line.buf[..line.len].to_vec()).unwrap()
}

fn carry_out(p: &Process, signal: Signal, arch: Arch) -> Vec<String> {
    let mut log: Vec<String> = Vec::new();
    let (mut report, mut action) = Report::open(false, signal, arch);
    loop {
        let event: Event<[u8; 64]>;
        match &action {
            Action::ReadFaultInfo => {
                log.push("info".to_string());
                event = Event::FaultInfo(p.info);
            }
            Action::ReadThreadName => {
                log.push("name".to_string());
                let mut name = [0u8; 64];
                name[..3].copy_from_slice(b"api");
                event = Event::ThreadName(name);
            }
            Action::ReadRegister(offset) => {
                log.push(format!("register {}", offset));
                let found = p.registers.iter().find(|r| r.0 == *offset);
                event = Event::Register(found.map_or(0, |r| r.1));
            }
            Action::ReadWord(addr) => {
                log.push(format!("word {:#x}", addr));
                event = Event::Word((p.word)(*addr));
            }
            Action::ReadHalfWord(addr) => {
                log.push(format!("half {:#x}", addr));
                event = Event::HalfWord((p.half)(*addr));
            }
            Action::Resolve(addr) => {
                log.push(format!("resolve {:#x}", addr));
                event = Event::Ours((p.ours)(*addr));
            }
            Action::Symbolize(addr) => {
                log.push(format!("symbol {:#x}", addr));
                event = Event::Done;
            }
            Action::DumpCrumbs(n) => {
                log.push(format!("crumbs {}", n));
                event = Event::Done;
            }
            Action::Backtrace(n) => {
                log.push(format!("backtrace {}", n));
                event = Event::Frames(p.frames);
            }
            Action::SymbolizeFrames(n) => {
                log.push(format!("frames {}", n));
                event = Event::Done;
            }
            Action::Write(line) => {
                let text = shown(line);
                assert!(text.ends_with('\n'));
                log.push(text);
                event = Event::Done;
            }
            Action::Exit(status) => {
                log.push(format!("exit {}", status));
                return log;
            }
        }
        action = report.next(event);
    }
}

fn quiet() -> Process {
    Process {
        info: None,
        registers: Vec::new(),
        frames: 0,
        word: |_| 0,
        half: |_| 0,
        ours: |_| false,
    }
}

#[test]
fn an_abort_on_an_unknown_machine() {
    assert_eq!(
        carry_out(&quiet(), Signal::Abrt, Arch::Other),
        vec![
            "[mtld3d::unix] FATAL: SIGABRT\n",
            "name",
            "[mtld3d::unix] thread=api\n",
            "crumbs 32",
            "backtrace 64",
            "exit 1",
        ]
    );
}

#[test]
fn unreadable_registers_skip_their_sections() {
    assert_eq!(
        carry_out(&quiet(), Signal::Segv, Arch::X86_64),
        vec![
            "info",
            "[mtld3d::unix] FATAL: SIGSEGV\n",
            "name",
            "[mtld3d::unix] thread=api\n",
            "register 144",
            "register 72",
            "register 32",
            "register 16",
            "[mtld3d::unix] rcx(this)=0x0000000000000000 rax(vtbl)=0x0000000000000000 rsp=0x0000000000000000\n",
            "crumbs 32",
            "backtrace 64",
            "register 72",
            "register 72",
            "exit 1",
        ]
    );
}

#[test]
fn a_fault_with_everything() {
    let p = Process {
        info: Some(FaultInfo { addr: 8, code: 1 }),
        registers: vec![(144, 0x5000), (72, 0x7000), (32, 0x11), (16, 0x22)],
        frames: 3,
        word: |addr| if addr == 0x7000 { 0x6000 } else if addr == 0x7008 { 0x999 } else { 0 },
        half: |addr| if addr == 0x7004 { 0x0040_0001 } else { 0 },
        ours: |addr| addr == 0x6000,
    };
    let log = carry_out(&p, Signal::Segv, Arch::X86_64);
    assert_eq!(
        log[..24],
        [
            "info",
            "[mtld3d::unix] FATAL: SIGSEGV fault=0x0000000000000008 si_code=0x0000000000000001\n",
            "name",
            "[mtld3d::unix] thread=api\n",
            "register 144",
            "[mtld3d::unix] fault_pc=0x0000000000005000\n",
            "symbol 0x5000",
            "register 72",
            "register 32",
            "register 16",
            "[mtld3d::unix] rcx(this)=0x0000000000000011 rax(vtbl)=0x0000000000000022 rsp=0x0000000000007000\n",
            "word 0x7000",
            "[mtld3d::unix] caller(ret@rsp)=0x0000000000006000\n",
            "symbol 0x6000",
            "crumbs 32",
            "backtrace 64",
            "[mtld3d::unix] native backtrace:\n",
            "frames 3",
            "register 72",
            "[mtld3d::unix] mtld3d.so return addrs on stack:\n",
            "word 0x7000",
            "resolve 0x6000",
            "symbol 0x6000",
            "word 0x7004",
        ]
    );
    assert_eq!(log.iter().filter(|a| a.starts_with("word")).count(), 1 + 4096);
    assert_eq!(log.iter().filter(|a| a.starts_with("half")).count(), 4096);
    assert_eq!(log.iter().filter(|a| a.starts_with("resolve")).count(), 1);
    assert_eq!(
        log.iter().filter(|a| a.starts_with("  g=")).collect::<Vec<_>>(),
        vec!["  g=0x0000000000400001\n"]
    );
    assert_eq!(log.iter().filter(|a| a.starts_with("exit")).count(), 1);
    assert_eq!(log.last().unwrap(), "exit 1");
    assert!(log.len() <= 20508);
}

#[test]
fn aarch64_has_no_guest_sections() {
    let p = Process {
        registers: vec![(272, 0x5000), (264, 0x7000)],
        half: |_| 0x0040_0001,
        ..quiet()
    };
    let log = carry_out(&p, Signal::Bus, Arch::Aarch64);
    assert_eq!(log[4], "register 272");
    assert_eq!(log[6], "symbol 0x5000");
    assert_eq!(log[7], "crumbs 32");
    assert_eq!(log[9], "register 264");
    assert!(!log.iter().any(|a| a.starts_with("half") || a.contains("guest")));
    assert_eq!(log.len(), 11 + 4096 + 1);
}

#[test]
fn printing_is_capped() {
    let p = Process {
        registers: vec![(72, 0x7000)],
        word: |addr| addr,
        half: |_| 0x7A00_0000,
        ours: |addr| addr % 8 == 0,
        ..quiet()
    };
    let log = carry_out(&p, Signal::Segv, Arch::X86_64);
    let start = log.iter().position(|a| a.contains("return addrs")).unwrap();
    let symbols: Vec<&String> = log[start..].iter().filter(|a| a.starts_with("symbol")).collect();
    assert_eq!(symbols.len(), 48);
    assert_eq!(symbols[0], "symbol 0x7000");
    assert_eq!(symbols[1], "symbol 0x7008");
    assert_eq!(symbols[47], "symbol 0x7178");
    assert_eq!(log.iter().filter(|a| a.starts_with("  g=")).count(), 64);
    assert_eq!(log.iter().filter(|a| a.starts_with("half")).count(), 64);
}

#[test]
fn scans_come_after_crumbs_and_backtrace() {
    let p = Process { registers: vec![(72, 0x7000)], frames: 2, word: |a| a, ..quiet() };
    let log = carry_out(&p, Signal::Segv, Arch::X86_64);
    let crumbs = log.iter().position(|a| a == "crumbs 32").unwrap();
    let frames = log.iter().position(|a| a == "frames 2").unwrap();
    let resolve = log.iter().position(|a| a.starts_with("resolve")).unwrap();
    let half = log.iter().position(|a| a.starts_with("half")).unwrap();
    assert!(crumbs < frames && frames < resolve && resolve < half);
    assert_eq!(log[..crumbs].iter().filter(|a| a.starts_with("word")).count(), 1);
}

#[test]
fn a_fault_in_the_handler_ends_the_process() {
    let (mut report, action) = Report::open(true, Signal::Segv, Arch::X86_64);
    assert!(matches!(action, Action::Exit(1)));
    assert!(matches!(report.next(Event::Done), Action::Exit(1)));
}

#[test]
fn an_event_out_of_turn_ends_the_process() {
    let (mut report, action) = Report::open(false, Signal::Segv, Arch::X86_64);
    assert!(matches!(action, Action::ReadFaultInfo));
    assert!(matches!(report.next(Event::Frames(1)), Action::Exit(1)));
}

#[test]
fn stack_words_are_told_apart() {
    assert!(!may_be_address(0xfff));
    assert!(may_be_address(0x1000));
    assert!(!in_guest_code(0x79ff_ffff));
    assert!(in_guest_code(0x7A00_0000));
    assert!(in_guest_code(0x7bff_ffff));
    assert!(!in_guest_code(0x7C00_0000));
    assert!(!in_guest_code(0x003f_ffff));
    assert!(in_guest_code(0x0040_0000));
    assert!(in_guest_code(0x007f_ffff));
    assert!(!in_guest_code(0x0080_0000));
}

#[test]
fn scan_positions() {
    let pos = ScanPos::start(0x7000, 2);
    assert_eq!(pos.addr(), 0x7000);
    let next = pos.advance(true).unwrap();
    assert_eq!((next.addr(), next.printed), (0x7004, 1));
    assert_eq!(next.advance(true), None);
    assert_eq!(next.advance(false).unwrap().index, 2);
    let last = ScanPos { base: u64::MAX - 3, index: 4095, printed: 0, cap: 2 };
    assert_eq!(last.addr(), 4095 * 4 - 4);
    assert_eq!(last.advance(false), None);
}
