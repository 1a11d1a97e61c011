use runh_core::paths::{join_path, resolve_in_rootfs, split_path};

fn comps(parts: &[&str]) -> Vec<Vec<u8>> {
    parts.iter().map(|p| p.as_bytes().to_vec()).collect()
}

#[test]
fn split_drops_empty_components() {
    assert_eq!(split_path(b"//a///b/"), comps(&["a", "b"]));
    assert_eq!(split_path(b""), comps(&[]));
    assert_eq!(split_path(b"///"), comps(&[]));
    assert_eq!(split_path(b"a"), comps(&["a"]));
}

#[test]
fn join_prefixes_each_component_with_a_separator() {
    assert_eq!(join_path(&comps(&["a", "b"])), b"/a/b".to_vec());
    assert_eq!(join_path(&comps(&[])), b"".to_vec());
    assert_eq!(join_path(&comps(&["x"])), b"/x".to_vec());
}

#[test]
fn nonexistent_components_pass_through_unresolved() {
    // Nothing under this root exists, so the joined path must come back
    // exactly as joined, with the destination's components unchanged.
    let root = comps(&["definitely-absent-root-dir-a7c2"]);
    let out = resolve_in_rootfs(b"etc//conf.d/app.conf", &root).0.unwrap();
    assert_eq!(
        out,
        comps(&["definitely-absent-root-dir-a7c2", "etc", "conf.d", "app.conf"])
    );
}

#[test]
fn leading_separators_of_the_destination_are_trimmed() {
    let root = comps(&["definitely-absent-root-dir-a7c2"]);
    let out = resolve_in_rootfs(b"///etc/passwd", &root).0.unwrap();
    assert_eq!(
        out,
        comps(&["definitely-absent-root-dir-a7c2", "etc", "passwd"])
    );
}

#[test]
fn existing_prefixes_are_canonicalized_in_place() {
    // `/tmp` exists; the absent tail must be appended to its canonical form
    // unchanged.
    let root = comps(&["tmp"]);
    let out = resolve_in_rootfs(b"absent-sub-dir-x9y8/leaf", &root).0.unwrap();
    let canon: Vec<Vec<u8>> = split_path(b"/tmp");
    let mut expected = canon;
    expected.push(b"absent-sub-dir-x9y8".to_vec());
    expected.push(b"leaf".to_vec());
    assert_eq!(out, expected);
}
