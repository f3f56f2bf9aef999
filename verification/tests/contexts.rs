use mtld3d_diag::context::{address_at, mcontext_resume, mcontext_u64, Arch, Lookup};

fn look_up(ctx: u64, offset: u64, memory: &[(u64, u64)]) -> u64 {
    let mut lookup = mcontext_u64(ctx, offset);
    loop {
        match lookup {
            Lookup::Value(v) => return v,
            Lookup::Read { addr, pending } => {
                let word = memory.iter().find(|cell| cell.0 == addr).unwrap().1;
                lookup = mcontext_resume(pending, word);
            }
        }
    }
}

#[test]
fn registers_are_found_through_the_machine_state() {
    let memory = [(0x1030, 0x8000), (0x8000 + 144, 0x55), (0x8000 + 72, 0x66)];
    assert_eq!(look_up(0x1000, 144, &memory), 0x55);
    assert_eq!(look_up(0x1000, 72, &memory), 0x66);
}

#[test]
fn null_pointers_read_as_zero() {
    assert_eq!(look_up(0, 144, &[]), 0);
    assert_eq!(look_up(0x1000, 144, &[(0x1030, 0)]), 0);
}

#[test]
fn offsets_by_architecture() {
    assert_eq!(Arch::X86_64.pc_offset(), Some(144));
    assert_eq!(Arch::Aarch64.pc_offset(), Some(272));
    assert_eq!(Arch::Other.pc_offset(), None);
    assert_eq!(Arch::X86_64.sp_offset(), Some(72));
    assert_eq!(Arch::Aarch64.sp_offset(), Some(264));
    assert_eq!(Arch::Other.sp_offset(), None);
}

#[test]
fn addresses_wrap() {
    assert_eq!(address_at(0x1000, 0x30), 0x1030);
    assert_eq!(address_at(u64::MAX, 4), 3);
}
