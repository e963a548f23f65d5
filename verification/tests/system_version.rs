use autobricks_worm::fuse::system_version::{fskit_mount_supported, macos_major_version};

fn reference(output: &[u8]) -> u32 {
    String::from_utf8_lossy(output)
        .split('.')
        .next()
        .unwrap_or("")
        .trim()
        .parse()
        .unwrap_or(0)
}

#[test]
fn major_version_is_read_before_the_first_dot() {
    assert_eq!(macos_major_version(b"26.0.1\n"), 26);
    assert_eq!(macos_major_version(b"15.7.2\n"), 15);
    assert_eq!(macos_major_version(b"26"), 26);
    assert_eq!(macos_major_version(b" \t27 \n.1"), 27);
    assert_eq!(macos_major_version(b"+26.0"), 26);
    assert_eq!(macos_major_version(b""), 0);
    assert_eq!(macos_major_version(b"x.26"), 0);
    assert_eq!(macos_major_version(b"4294967296.0"), 0);
    assert_eq!(macos_major_version("\u{3000}26\u{a0}.0".as_bytes()), 26);
    assert!(fskit_mount_supported(b"26.0\n"));
    assert!(!fskit_mount_supported(b"25.9\n"));
    assert!(!fskit_mount_supported(b"garbage"));
}

#[test]
fn major_version_matches_lossy_text_reading() {
    let samples: Vec<Vec<u8>> = vec![
        b"26.0.1\n".to_vec(),
        b"\n\n26\n".to_vec(),
        b"2 6.0".to_vec(),
        b"-26.0".to_vec(),
        b"++26".to_vec(),
        b"+".to_vec(),
        b".26".to_vec(),
        b"\xff26.0".to_vec(),
        b"26\xff.0".to_vec(),
        b"\xe2\x80\x8026\xe2\x80\x8a".to_vec(),
        b"\xf0\xe2\x80\x8026".to_vec(),
        b"26\xc2\x85".to_vec(),
        b"26\xc2".to_vec(),
        b"\xe1\x9a\x8026\xe3\x80\x80.1".to_vec(),
        b"\xe2\x81\x9f 4294967295 \xe2\x80\xaf".to_vec(),
        b"\x0b\x0c\r26\x09".to_vec(),
        b"\xe2\x80\x8b26".to_vec(),
    ];
    for sample in samples {
        assert_eq!(macos_major_version(&sample), reference(&sample), "{sample:?}");
    }
}
