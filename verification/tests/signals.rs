use runh_core::signals::resolve_signal;

#[test]
fn numeric_name_and_prefixed_name_agree() {
    let a = resolve_signal(b"9").unwrap();
    let b = resolve_signal(b"KILL").unwrap();
    let c = resolve_signal(b"SIGKILL").unwrap();
    assert_eq!(a, 9);
    assert_eq!(b, 9);
    assert_eq!(c, 9);
}

#[test]
fn unknown_name_is_a_parse_error() {
    let r = resolve_signal(b"notasignal");
    assert!(r.is_err());
    assert_eq!(r.unwrap_err().spec, b"notasignal".to_vec());
}

#[test]
fn all_platform_signals_match_the_platform_table() {
    for n in 1..=31i32 {
        let signal = nix::sys::signal::Signal::try_from(n)
            .expect("the platform has signals 1 through 31");
        let full = signal.as_str();
        assert_eq!(resolve_signal(full.as_bytes()).unwrap(), n, "name {}", full);
        let bare = &full[3..];
        assert_eq!(resolve_signal(bare.as_bytes()).unwrap(), n, "name {}", bare);
        let numeral = format!("{}", n);
        assert_eq!(resolve_signal(numeral.as_bytes()).unwrap(), n, "numeral {}", numeral);
    }
}

#[test]
fn out_of_range_numbers_are_parse_errors() {
    assert!(resolve_signal(b"0").is_err());
    assert!(resolve_signal(b"32").is_err());
    assert!(resolve_signal(b"-9").is_err());
    assert!(resolve_signal(b"2147483648").is_err());
    assert!(resolve_signal(b"99999999999999999999").is_err());
}

#[test]
fn explicit_plus_sign_parses_as_a_numeral() {
    assert_eq!(resolve_signal(b"+15").unwrap(), 15);
}

#[test]
fn empty_and_prefix_only_specs_fail() {
    assert!(resolve_signal(b"").is_err());
    assert!(resolve_signal(b"SIG").is_err());
    assert!(resolve_signal(b"-").is_err());
}

#[test]
fn lower_case_names_do_not_resolve() {
    assert!(resolve_signal(b"kill").is_err());
    assert!(resolve_signal(b"sigkill").is_err());
}
