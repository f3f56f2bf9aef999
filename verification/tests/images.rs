use mtld3d_diag::image::{c_str_len, dladdr_is_ours};

fn ours(path: &[u8]) -> bool {
    dladdr_is_ours(1, Some(path))
}

#[test]
fn c_strings_end_at_the_nul() {
    assert_eq!(c_str_len(b"abc\0def"), 3);
    assert_eq!(c_str_len(b"abc"), 3);
    assert_eq!(c_str_len(b"\0abc"), 0);
    assert_eq!(c_str_len(b""), 0);
}

#[test]
fn our_own_images() {
    assert!(ours(b"/opt/wine/lib/mtld3d.so"));
    assert!(ours(b"mtld3d"));
    assert!(ours(b"mmtld3d"));
    assert!(ours(b"mtldmtld3d"));
    assert!(ours(b"mtld3mtld3d"));
    assert!(ours(b"mtmtlmtld3mtld3d"));
}

#[test]
fn other_images() {
    assert!(!ours(b""));
    assert!(!ours(b"/usr/lib/libsystem.dylib"));
    assert!(!ours(b"mtld3"));
    assert!(!ours(b"mtld3x"));
    assert!(!ours(b"MTLD3D"));
    assert!(!ours(b"mtl\0d3d"));
    assert!(!ours(b"lib\0mtld3d"));
}

#[test]
fn unresolved_addresses_are_not_ours() {
    assert!(!dladdr_is_ours(0, Some(b"mtld3d")));
    assert!(!dladdr_is_ours(1, None));
    assert!(!dladdr_is_ours(0, None));
    assert!(dladdr_is_ours(-1, Some(b"mtld3d")));
}

#[test]
fn long_paths_are_searched_to_their_end() {
    let mut path = vec![b'a'; 4096];
    path.extend_from_slice(b"mtld3d");
    assert!(ours(&path));
    path.pop();
    assert!(!ours(&path));
    let mut path = vec![b'/'; 100_000];
    path.extend_from_slice(b"mtld3d.so");
    assert!(ours(&path));
    path[99_999] = 0;
    assert!(!ours(&path));
}
