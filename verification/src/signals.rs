use vstd::prelude::*;
use crate::errors::SignalParseError;

verus! {

/// A decimal digit byte.
pub open spec fn is_digit(c: u8) -> bool {
    48 <= c <= 57
}

/// Every byte of `s` is a decimal digit.
pub open spec fn all_digits(s: Seq<u8>) -> bool {
    forall|i: int| 0 <= i < s.len() ==> is_digit(#[trigger] s[i])
}

/// The value of a digit string, most significant digit first.
pub open spec fn dec_value(s: Seq<u8>) -> int
    decreases s.len(),
{
    if s.len() == 0 {
        0
    } else {
        dec_value(s.drop_last()) * 10 + (s.last() - 48)
    }
}

/// Whether `s` carries a leading minus sign.
pub open spec fn has_minus(s: Seq<u8>) -> bool {
    s.len() > 0 && s[0] == 45
}

/// Whether `s` carries a leading sign byte, `+` or `-`.
pub open spec fn has_sign(s: Seq<u8>) -> bool {
    s.len() > 0 && (s[0] == 43 || s[0] == 45)
}

/// The digit part of `s`: everything after an optional leading sign.
pub open spec fn digits_part(s: Seq<u8>) -> Seq<u8> {
    if has_sign(s) {
        s.skip(1)
    } else {
        s
    }
}

/// What `s` denotes as a signed 32-bit decimal numeral: an optional sign,
/// then one or more digits, and a value within the 32-bit range; anything
/// else denotes nothing.
pub open spec fn spec_parse_i32(s: Seq<u8>) -> Option<int> {
    let ds = digits_part(s);
    if ds.len() > 0 && all_digits(ds) {
        let v: int = if has_minus(s) {
            -dec_value(ds)
        } else {
            dec_value(ds)
        };
        if -0x8000_0000 <= v <= 0x7fff_ffff {
            Some(v)
        } else {
            None
        }
    } else {
        None
    }
}

/// A digit string has a non-negative value.
proof fn lemma_dec_value_nonneg(s: Seq<u8>)
    requires
        all_digits(s),
    ensures
        dec_value(s) >= 0,
    decreases s.len(),
{
    if s.len() > 0 {
        assert(all_digits(s.drop_last())) by {
            assert(forall|i: int|
                0 <= i < s.drop_last().len() ==> #[trigger] s.drop_last()[i] == s[i]);
        }
        lemma_dec_value_nonneg(s.drop_last());
        assert(is_digit(s.last()));
    }
}

/// Parses a signed 32-bit decimal numeral from bytes, exactly as
/// `spec_parse_i32` describes.
pub fn parse_i32_bytes(s: &[u8]) -> (r: Option<i32>)
    ensures
        r matches Some(n) ==> spec_parse_i32(s@) == Some(n as int),
        r is None ==> spec_parse_i32(s@) is None,
{
    let len = s.len();
    let negative: bool;
    let start: usize;
    if len > 0 && (s[0] == 43 || s[0] == 45) {
        negative = s[0] == 45;
        start = 1;
    } else {
        negative = false;
        start = 0;
    }
    proof {
        assert(negative == has_minus(s@));
        assert(digits_part(s@) =~= s@.skip(start as int));
    }
    if start >= len {
        proof {
            assert(digits_part(s@).len() == 0);
        }
        return None;
    }
    let ghost ds = digits_part(s@);
    let cap: u64 = 3_000_000_000;
    let mut acc: u64 = 0;
    let mut j: usize = start;
    while j < len
        invariant
            start <= j <= len,
            len == s@.len(),
            ds == s@.skip(start as int),
            ds == digits_part(s@),
            negative == has_minus(s@),
            cap == 3_000_000_000u64,
            all_digits(ds.take(j - start)),
            acc <= cap,
            dec_value(ds.take(j - start)) < cap ==> acc == dec_value(ds.take(j - start)),
            dec_value(ds.take(j - start)) >= cap ==> acc == cap,
        decreases len - j,
    {
        let c = s[j];
        proof {
            assert(ds[j - start] == s@[j as int]);
        }
        if c < 48 || c > 57 {
            proof {
                assert(!is_digit(ds[j - start]));
                assert(!all_digits(ds));
            }
            return None;
        }
        let ghost pref = ds.take(j - start);
        let ghost pref2 = ds.take(j + 1 - start);
        proof {
            assert(pref2.drop_last() =~= pref);
            assert(pref2.last() == ds[j - start]);
            assert(dec_value(pref2) == dec_value(pref) * 10 + (c - 48));
            lemma_dec_value_nonneg(pref);
            assert(forall|i: int| 0 <= i < pref2.len() ==> #[trigger] pref2[i] == ds[i]);
        }
        let t: u64 = 10 * acc + ((c - 48) as u64);
        if t >= cap {
            acc = cap;
        } else {
            acc = t;
        }
        j += 1;
    }
    proof {
        assert(ds.take(j - start) =~= ds);
        lemma_dec_value_nonneg(ds);
    }
    if negative {
        if acc <= 2_147_483_648 {
            let v: i64 = -(acc as i64);
            proof {
                assert(-0x8000_0000 <= v as int <= 0x7fff_ffff);
            }
            Some(v as i32)
        } else {
            None
        }
    } else {
        if acc <= 2_147_483_647 {
            Some(acc as i32)
        } else {
            None
        }
    }
}

fn key_eq2(k: &[u8], a: u8, b: u8) -> (r: bool)
    ensures
        r == (k@ == seq![a, b]),
{
    if k.len() == 2 && k[0] == a && k[1] == b {
        proof {
            assert(k@ =~= seq![a, b]);
        }
        true
    } else {
        proof {
            if k@ == seq![a, b] {
                assert(k@.len() == 2 && k@[0] == a && k@[1] == b);
            }
        }
        false
    }
}

fn key_eq3(k: &[u8], a: u8, b: u8, c: u8) -> (r: bool)
    ensures
        r == (k@ == seq![a, b, c]),
{
    if k.len() == 3 && k[0] == a && k[1] == b && k[2] == c {
        proof {
            assert(k@ =~= seq![a, b, c]);
        }
        true
    } else {
        proof {
            if k@ == seq![a, b, c] {
                assert(k@.len() == 3 && k@[0] == a && k@[1] == b && k@[2] == c);
            }
        }
        false
    }
}

fn key_eq4(k: &[u8], a: u8, b: u8, c: u8, d: u8) -> (r: bool)
    ensures
        r == (k@ == seq![a, b, c, d]),
{
    if k.len() == 4 && k[0] == a && k[1] == b && k[2] == c && k[3] == d {
        proof {
            assert(k@ =~= seq![a, b, c, d]);
        }
        true
    } else {
        proof {
            if k@ == seq![a, b, c, d] {
                assert(k@.len() == 4 && k@[0] == a && k@[1] == b && k@[2] == c && k@[3] == d);
            }
        }
        false
    }
}

fn key_eq5(k: &[u8], a: u8, b: u8, c: u8, d: u8, e: u8) -> (r: bool)
    ensures
        r == (k@ == seq![a, b, c, d, e]),
{
    if k.len() == 5 && k[0] == a && k[1] == b && k[2] == c && k[3] == d && k[4] == e {
        proof {
            assert(k@ =~= seq![a, b, c, d, e]);
        }
        true
    } else {
        proof {
            if k@ == seq![a, b, c, d, e] {
                assert(k@.len() == 5 && k@[0] == a && k@[1] == b && k@[2] == c && k@[3] == d && k@[4] == e);
            }
        }
        false
    }
}

fn key_eq6(k: &[u8], a: u8, b: u8, c: u8, d: u8, e: u8, f: u8) -> (r: bool)
    ensures
        r == (k@ == seq![a, b, c, d, e, f]),
{
    if k.len() == 6 && k[0] == a && k[1] == b && k[2] == c && k[3] == d && k[4] == e && k[5] == f {
        proof {
            assert(k@ =~= seq![a, b, c, d, e, f]);
        }
        true
    } else {
        proof {
            if k@ == seq![a, b, c, d, e, f] {
                assert(k@.len() == 6 && k@[0] == a && k@[1] == b && k@[2] == c && k@[3] == d && k@[4] == e && k@[5] == f);
            }
        }
        false
    }
}

/// The signal name table: the number of each known signal, keyed by its name
/// without the `SIG` prefix, as the platform defines them.
pub open spec fn signal_key_num(k: Seq<u8>) -> Option<i32> {
    if k == seq![72u8, 85u8, 80u8] {
        Some(1i32)
    } else if k == seq![73u8, 78u8, 84u8] {
        Some(2i32)
    } else if k == seq![81u8, 85u8, 73u8, 84u8] {
        Some(3i32)
    } else if k == seq![73u8, 76u8, 76u8] {
        Some(4i32)
    } else if k == seq![84u8, 82u8, 65u8, 80u8] {
        Some(5i32)
    } else if k == seq![65u8, 66u8, 82u8, 84u8] {
        Some(6i32)
    } else if k == seq![66u8, 85u8, 83u8] {
        Some(7i32)
    } else if k == seq![70u8, 80u8, 69u8] {
        Some(8i32)
    } else if k == seq![75u8, 73u8, 76u8, 76u8] {
        Some(9i32)
    } else if k == seq![85u8, 83u8, 82u8, 49u8] {
        Some(10i32)
    } else if k == seq![83u8, 69u8, 71u8, 86u8] {
        Some(11i32)
    } else if k == seq![85u8, 83u8, 82u8, 50u8] {
        Some(12i32)
    } else if k == seq![80u8, 73u8, 80u8, 69u8] {
        Some(13i32)
    } else if k == seq![65u8, 76u8, 82u8, 77u8] {
        Some(14i32)
    } else if k == seq![84u8, 69u8, 82u8, 77u8] {
        Some(15i32)
    } else if k == seq![83u8, 84u8, 75u8, 70u8, 76u8, 84u8] {
        Some(16i32)
    } else if k == seq![67u8, 72u8, 76u8, 68u8] {
        Some(17i32)
    } else if k == seq![67u8, 79u8, 78u8, 84u8] {
        Some(18i32)
    } else if k == seq![83u8, 84u8, 79u8, 80u8] {
        Some(19i32)
    } else if k == seq![84u8, 83u8, 84u8, 80u8] {
        Some(20i32)
    } else if k == seq![84u8, 84u8, 73u8, 78u8] {
        Some(21i32)
    } else if k == seq![84u8, 84u8, 79u8, 85u8] {
        Some(22i32)
    } else if k == seq![85u8, 82u8, 71u8] {
        Some(23i32)
    } else if k == seq![88u8, 67u8, 80u8, 85u8] {
        Some(24i32)
    } else if k == seq![88u8, 70u8, 83u8, 90u8] {
        Some(25i32)
    } else if k == seq![86u8, 84u8, 65u8, 76u8, 82u8, 77u8] {
        Some(26i32)
    } else if k == seq![80u8, 82u8, 79u8, 70u8] {
        Some(27i32)
    } else if k == seq![87u8, 73u8, 78u8, 67u8, 72u8] {
        Some(28i32)
    } else if k == seq![73u8, 79u8] {
        Some(29i32)
    } else if k == seq![80u8, 87u8, 82u8] {
        Some(30i32)
    } else if k == seq![83u8, 89u8, 83u8] {
        Some(31i32)
    } else {
        None
    }
}

/// Looks a signal name (without the `SIG` prefix) up in the name table.
pub fn signal_number_for_key(k: &[u8]) -> (r: Option<i32>)
    ensures
        r == signal_key_num(k@),
{
    if key_eq3(k, 72u8, 85u8, 80u8) {
        Some(1i32)
    } else if key_eq3(k, 73u8, 78u8, 84u8) {
        Some(2i32)
    } else if key_eq4(k, 81u8, 85u8, 73u8, 84u8) {
        Some(3i32)
    } else if key_eq3(k, 73u8, 76u8, 76u8) {
        Some(4i32)
    } else if key_eq4(k, 84u8, 82u8, 65u8, 80u8) {
        Some(5i32)
    } else if key_eq4(k, 65u8, 66u8, 82u8, 84u8) {
        Some(6i32)
    } else if key_eq3(k, 66u8, 85u8, 83u8) {
        Some(7i32)
    } else if key_eq3(k, 70u8, 80u8, 69u8) {
        Some(8i32)
    } else if key_eq4(k, 75u8, 73u8, 76u8, 76u8) {
        Some(9i32)
    } else if key_eq4(k, 85u8, 83u8, 82u8, 49u8) {
        Some(10i32)
    } else if key_eq4(k, 83u8, 69u8, 71u8, 86u8) {
        Some(11i32)
    } else if key_eq4(k, 85u8, 83u8, 82u8, 50u8) {
        Some(12i32)
    } else if key_eq4(k, 80u8, 73u8, 80u8, 69u8) {
        Some(13i32)
    } else if key_eq4(k, 65u8, 76u8, 82u8, 77u8) {
        Some(14i32)
    } else if key_eq4(k, 84u8, 69u8, 82u8, 77u8) {
        Some(15i32)
    } else if key_eq6(k, 83u8, 84u8, 75u8, 70u8, 76u8, 84u8) {
        Some(16i32)
    } else if key_eq4(k, 67u8, 72u8, 76u8, 68u8) {
        Some(17i32)
    } else if key_eq4(k, 67u8, 79u8, 78u8, 84u8) {
        Some(18i32)
    } else if key_eq4(k, 83u8, 84u8, 79u8, 80u8) {
        Some(19i32)
    } else if key_eq4(k, 84u8, 83u8, 84u8, 80u8) {
        Some(20i32)
    } else if key_eq4(k, 84u8, 84u8, 73u8, 78u8) {
        Some(21i32)
    } else if key_eq4(k, 84u8, 84u8, 79u8, 85u8) {
        Some(22i32)
    } else if key_eq3(k, 85u8, 82u8, 71u8) {
        Some(23i32)
    } else if key_eq4(k, 88u8, 67u8, 80u8, 85u8) {
        Some(24i32)
    } else if key_eq4(k, 88u8, 70u8, 83u8, 90u8) {
        Some(25i32)
    } else if key_eq6(k, 86u8, 84u8, 65u8, 76u8, 82u8, 77u8) {
        Some(26i32)
    } else if key_eq4(k, 80u8, 82u8, 79u8, 70u8) {
        Some(27i32)
    } else if key_eq5(k, 87u8, 73u8, 78u8, 67u8, 72u8) {
        Some(28i32)
    } else if key_eq2(k, 73u8, 79u8) {
        Some(29i32)
    } else if key_eq3(k, 80u8, 87u8, 82u8) {
        Some(30i32)
    } else if key_eq3(k, 83u8, 89u8, 83u8) {
        Some(31i32)
    } else {
        None
    }
}

/// The conventional signal name prefix, `SIG`.
pub open spec fn sig_prefix() -> Seq<u8> {
    seq![83u8, 73u8, 71u8]
}

/// Whether a specification already begins with the `SIG` prefix.
pub open spec fn has_sig_prefix(s: Seq<u8>) -> bool {
    s.len() >= 3 && s[0] == 83u8 && s[1] == 73u8 && s[2] == 71u8
}

/// The table key a symbolic specification denotes: the `SIG` prefix is
/// prepended when missing, so the key is the name with the prefix removed.
pub open spec fn symbolic_key(s: Seq<u8>) -> Seq<u8> {
    if has_sig_prefix(s) {
        s.skip(3)
    } else {
        s
    }
}

/// Which signal numbers exist on the platform.
pub open spec fn valid_signal_number(n: int) -> bool {
    1 <= n <= 31
}

/// What a signal specification resolves to: a numeral resolves to the signal
/// of that number if it exists; anything else is a symbolic name, looked up
/// with the `SIG` prefix made optional; all else denotes no signal.
pub open spec fn spec_resolve_signal(s: Seq<u8>) -> Option<i32> {
    match spec_parse_i32(s) {
        Some(n) => if valid_signal_number(n) {
            Some(n as i32)
        } else {
            None
        },
        None => signal_key_num(symbolic_key(s)),
    }
}

/// Parses a signal specification, numeric or symbolic, into the number of
/// exactly one platform signal, exactly as `spec_resolve_signal` describes.
pub fn resolve_signal(sig: &[u8]) -> (r: Result<i32, SignalParseError>)
    ensures
        r matches Ok(n) ==> spec_resolve_signal(sig@) == Some(n) && valid_signal_number(n as int),
        r matches Err(e) ==> spec_resolve_signal(sig@) is None && e.spec@ == sig@,
{
    match parse_i32_bytes(sig) {
        Some(n) => {
            if 1 <= n && n <= 31 {
                Ok(n)
            } else {
                Err(SignalParseError { spec: vstd::slice::slice_to_vec(sig) })
            }
        },
        None => {
            let key: &[u8] = if sig.len() >= 3 && sig[0] == 83u8 && sig[1] == 73u8 && sig[2]
                == 71u8 {
                &sig[3..sig.len()]
            } else {
                sig
            };
            proof {
                assert(key@ =~= symbolic_key(sig@));
            }
            match signal_number_for_key(key) {
                Some(n) => Ok(n),
                None => Err(SignalParseError { spec: vstd::slice::slice_to_vec(sig) }),
            }
        },
    }
}

/// Law: every signal the name table knows is a signal the platform has, so
/// the numeral of its number resolves to the same signal as its names.
pub proof fn lemma_named_signal_valid(k: Seq<u8>, n: i32)
    requires
        signal_key_num(k) == Some(n),
    ensures
        valid_signal_number(n as int),
{
}

/// Law: for a symbolic specification (one that is not a numeral), the form
/// with the conventional `SIG` prefix and the bare form resolve identically.
pub proof fn lemma_prefixed_form_agrees(name: Seq<u8>)
    requires
        !has_sig_prefix(name),
        spec_parse_i32(name) is None,
    ensures
        spec_resolve_signal(sig_prefix() + name) == spec_resolve_signal(name),
{
    let p = sig_prefix() + name;
    assert(p[0] == 83u8 && p[1] == 73u8 && p[2] == 71u8);
    assert(!has_sign(p));
    assert(digits_part(p) == p);
    assert(!is_digit(p[0]));
    assert(spec_parse_i32(p) is None);
    assert(has_sig_prefix(p));
    assert(p.skip(3) =~= name);
}

} // verus!
