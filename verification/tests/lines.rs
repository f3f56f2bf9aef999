use mtld3d_diag::line::{push, push_hex, Line, LINE_CAP};
use mtld3d_diag::signal::Signal;
use mtld3d_diag::text::{
    backtrace_header, banner, caller_line, fault_pc_line, guest_header, guest_word_line,
    registers_line, stack_header, thread_line, FaultInfo,
};

fn shown(line: &Line) -> String {
    String::from_utf8(line.buf[..line.len].to_vec()).unwrap()
}

#[test]
fn push_appends_and_truncates() {
    let mut buf = [0u8; LINE_CAP];
    let mut pos = 0usize;
    push(&mut buf, &mut pos, b"abc");
    push(&mut buf, &mut pos, b"");
    push(&mut buf, &mut pos, b"de");
    assert_eq!(pos, 5);
    assert_eq!(&buf[..6], b"abcde\0");
    pos = 190;
    push(&mut buf, &mut pos, b"wxyz");
    assert_eq!(pos, 192);
    assert_eq!(&buf[189..], b"\0wx");
    push(&mut buf, &mut pos, b"more");
    assert_eq!(pos, 192);
    assert_eq!(&buf[189..], b"\0wx");
    assert_eq!(&buf[..5], b"abcde");
}

#[test]
fn push_hex_writes_all_sixteen_digits() {
    let mut buf = [b'.'; LINE_CAP];
    let mut pos = 1usize;
    push_hex(&mut buf, &mut pos, 0xDEAD_BEEF_0123_4567);
    assert_eq!(pos, 19);
    assert_eq!(&buf[..20], b".0xdeadbeef01234567.");
    push_hex(&mut buf, &mut pos, 0);
    assert_eq!(&buf[19..37], b"0x0000000000000000");
    push_hex(&mut buf, &mut pos, u64::MAX);
    assert_eq!(&buf[37..55], b"0xffffffffffffffff");
}

#[test]
fn push_hex_writes_nothing_where_it_does_not_fit() {
    let mut buf = [b'.'; LINE_CAP];
    let mut pos = 175usize;
    push_hex(&mut buf, &mut pos, 0x12);
    assert_eq!(pos, 175);
    assert_eq!(buf, [b'.'; LINE_CAP]);
    pos = 174;
    push_hex(&mut buf, &mut pos, 0x12);
    assert_eq!(pos, 192);
    assert_eq!(&buf[173..], b".0x0000000000000012");
    pos = 1000;
    push_hex(&mut buf, &mut pos, 0x12);
    assert_eq!(pos, 1000);
}

#[test]
fn hex_words_read_back() {
    for v in [0u64, 1, 0xf, 0x10, 0x0123_4567_89ab_cdef, 0x8000_0000_0000_0000, u64::MAX] {
        let mut buf = [0u8; LINE_CAP];
        let mut pos = 0usize;
        push_hex(&mut buf, &mut pos, v);
        let text = std::str::from_utf8(&buf[2..pos]).unwrap();
        assert_eq!(u64::from_str_radix(text, 16).unwrap(), v);
    }
}

#[test]
fn line_pushes_stop_at_the_buffer() {
    let mut line = Line::new();
    assert_eq!(line.len, 0);
    line.push_bytes(&[b'a'; 190]);
    line.push_bytes(b"bcd");
    assert_eq!(line.len, 192);
    assert_eq!(&line.buf[188..], b"aabc");
    let mut line = Line::new();
    line.push_text("w=");
    line.push_word(7);
    assert_eq!(shown(&line), "w=0x0000000000000007");
}

#[test]
fn banner_of_a_fault() {
    let info = FaultInfo { addr: 0xdead_beef, code: 1 };
    assert_eq!(
        shown(&banner(Signal::Segv, Some(info))),
        "[mtld3d::unix] FATAL: SIGSEGV fault=0x00000000deadbeef si_code=0x0000000000000001\n"
    );
    assert_eq!(
        shown(&banner(Signal::Bus, Some(FaultInfo { addr: 0, code: -6 }))),
        "[mtld3d::unix] FATAL: SIGBUS fault=0x0000000000000000 si_code=0x00000000fffffffa\n"
    );
}

#[test]
fn banner_without_a_fault() {
    let info = FaultInfo { addr: 0xdead_beef, code: 1 };
    assert_eq!(shown(&banner(Signal::Segv, None)), "[mtld3d::unix] FATAL: SIGSEGV\n");
    assert_eq!(shown(&banner(Signal::Abrt, Some(info))), "[mtld3d::unix] FATAL: SIGABRT\n");
    assert_eq!(shown(&banner(Signal::Other, Some(info))), "[mtld3d::unix] FATAL: SIG?\n");
}

#[test]
fn thread_names_end_at_the_nul() {
    let mut name = [0u8; 64];
    name[..14].copy_from_slice(b"mtld3d-encoder");
    name[20] = b'x';
    assert_eq!(shown(&thread_line(&name)), "[mtld3d::unix] thread=mtld3d-encoder\n");
    assert_eq!(shown(&thread_line(&[0u8; 64])), "[mtld3d::unix] thread=\n");
    let full = shown(&thread_line(&[b'n'; 64]));
    assert_eq!(full, format!("[mtld3d::unix] thread={}\n", "n".repeat(64)));
}

#[test]
fn lines_with_words() {
    assert_eq!(shown(&fault_pc_line(0x1234)), "[mtld3d::unix] fault_pc=0x0000000000001234\n");
    assert_eq!(
        shown(&registers_line(1, 2, 3)),
        "[mtld3d::unix] rcx(this)=0x0000000000000001 rax(vtbl)=0x0000000000000002 rsp=0x0000000000000003\n"
    );
    assert_eq!(
        shown(&caller_line(0xabc)),
        "[mtld3d::unix] caller(ret@rsp)=0x0000000000000abc\n"
    );
    assert_eq!(shown(&guest_word_line(0x7B00_0000)), "  g=0x000000007b000000\n");
}

#[test]
fn fixed_lines() {
    assert_eq!(shown(&backtrace_header()), "[mtld3d::unix] native backtrace:\n");
    assert_eq!(shown(&stack_header()), "[mtld3d::unix] mtld3d.so return addrs on stack:\n");
    assert_eq!(shown(&guest_header()), "[mtld3d::unix] guest (PE) stack words:\n");
}
