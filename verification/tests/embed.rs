use asset_embed::{
    build_index, get_path_from_args, relative_key, round_pow_2, ArgToken, BuildError,
    CapacityMode, FileEntry,
};

fn entry(relative_path: &str, canonical_path: &str, bytes: &[u8]) -> FileEntry {
    FileEntry {
        relative_path: relative_path.to_owned(),
        canonical_path: canonical_path.to_owned(),
        bytes: bytes.to_vec(),
    }
}

fn sample_entries() -> Vec<FileEntry> {
    vec![
        entry("index.html", "/srv/assets/index.html", b"<html><body>hi</body></html>"),
        entry("img/logo.png", "/srv/assets/img/logo.png", b"\x89PNG\r\n\x1a\nrest"),
        entry("data/config.json", "/srv/assets/data/config.json", b"{\"port\": 80}"),
        entry("app.js", "/srv/assets/app.js", b"console.log(1);"),
    ]
}

#[test]
fn round_pow_2_exact_values() {
    assert_eq!(round_pow_2(1), 1);
    assert_eq!(round_pow_2(2), 2);
    assert_eq!(round_pow_2(3), 4);
    assert_eq!(round_pow_2(4), 4);
    assert_eq!(round_pow_2(5), 8);
    assert_eq!(round_pow_2(8), 8);
    assert_eq!(round_pow_2(9), 16);
    assert_eq!(round_pow_2(1000), 1024);
    assert_eq!(round_pow_2(1024), 1024);
}

#[test]
fn args_single_string_literal_accepted() {
    let args = vec![ArgToken::StrLiteral("static/assets".to_owned())];
    assert_eq!(get_path_from_args(args), Ok("static/assets".to_owned()));
}

#[test]
fn args_empty_rejected() {
    assert_eq!(get_path_from_args(Vec::new()), Err(BuildError::EmptyArgument));
}

#[test]
fn args_non_literal_rejected() {
    let args = vec![ArgToken::Other];
    assert_eq!(get_path_from_args(args), Err(BuildError::NotStringLiteral));
}

#[test]
fn args_multiple_tokens_rejected() {
    let args = vec![
        ArgToken::StrLiteral("a".to_owned()),
        ArgToken::StrLiteral("b".to_owned()),
    ];
    assert_eq!(get_path_from_args(args), Err(BuildError::MultipleArguments));
}

#[test]
fn relative_key_strips_root() {
    assert_eq!(
        relative_key("assets", "assets/img/a.png"),
        Ok("img/a.png".to_owned())
    );
    assert_eq!(
        relative_key("assets/", "assets/img/a.png"),
        Ok("img/a.png".to_owned())
    );
    assert_eq!(relative_key("", "/a.png"), Ok("a.png".to_owned()));
}

#[test]
fn relative_key_rejects_paths_outside_root() {
    assert_eq!(
        relative_key("assets", "other/a.png"),
        Err(BuildError::NotUnderRoot)
    );
    assert_eq!(
        relative_key("assets", "assetsextra/a.png"),
        Err(BuildError::NotUnderRoot)
    );
    assert_eq!(relative_key("assets", "assets"), Err(BuildError::NotUnderRoot));
    assert_eq!(relative_key("assets", "asse"), Err(BuildError::NotUnderRoot));
}

#[test]
fn empty_file_set_rejected_in_both_modes() {
    match build_index(Vec::new(), CapacityMode::Dynamic) {
        Err(BuildError::EmptyFileSet) => {}
        _ => panic!("an empty embed must be rejected"),
    }
    match build_index(Vec::new(), CapacityMode::FixedPow2) {
        Err(BuildError::EmptyFileSet) => {}
        _ => panic!("an empty embed must be rejected before capacity computation"),
    }
}

#[test]
fn embedded_bytes_identical_to_originals() {
    let index = build_index(sample_entries(), CapacityMode::Dynamic).unwrap();
    assert_eq!(
        index.get_raw("index.html"),
        Some(&b"<html><body>hi</body></html>"[..])
    );
    assert_eq!(index.get_raw("img/logo.png"), Some(&b"\x89PNG\r\n\x1a\nrest"[..]));
    assert_eq!(index.get_raw("data/config.json"), Some(&b"{\"port\": 80}"[..]));
    assert_eq!(index.get_raw("app.js"), Some(&b"console.log(1);"[..]));
}

#[test]
fn missing_key_is_absence_not_error() {
    let index = build_index(sample_entries(), CapacityMode::Dynamic).unwrap();
    assert_eq!(index.get_raw("missing.txt"), None);
    assert_eq!(index.get_raw(""), None);
    assert_eq!(index.get_raw("img/logo"), None);
}

#[test]
fn fixed_pow2_capacity_is_next_power_of_two() {
    let index = build_index(sample_entries(), CapacityMode::FixedPow2).unwrap();
    assert_eq!(index.len(), 4);
    assert_eq!(index.capacity(), Some(4));

    let mut five = sample_entries();
    five.push(entry("extra.gif", "/srv/assets/extra.gif", b"GIF89a"));
    let index = build_index(five, CapacityMode::FixedPow2).unwrap();
    assert_eq!(index.len(), 5);
    assert_eq!(index.capacity(), Some(8));

    let one = vec![entry("a.js", "/srv/a.js", b"1")];
    let index = build_index(one, CapacityMode::FixedPow2).unwrap();
    assert_eq!(index.len(), 1);
    assert_eq!(index.capacity(), Some(1));
}

#[test]
fn dynamic_mode_has_no_fixed_capacity() {
    let index = build_index(sample_entries(), CapacityMode::Dynamic).unwrap();
    assert_eq!(index.capacity(), None);
    assert_eq!(index.len(), 4);
}

#[test]
fn key_set_ignores_traversal_order() {
    let forward = build_index(sample_entries(), CapacityMode::Dynamic).unwrap();
    let mut reordered = sample_entries();
    reordered.reverse();
    let backward = build_index(reordered, CapacityMode::Dynamic).unwrap();

    assert_eq!(forward.len(), backward.len());
    for key in ["index.html", "img/logo.png", "data/config.json", "app.js"] {
        assert_eq!(forward.get_raw(key), backward.get_raw(key));
        assert!(forward.get_raw(key).is_some());
    }
}
