//! IPv4 addresses as plain dotted-quad components, with parsing and
//! rendering. Parsing accepts exactly the canonical dotted-quad texts:
//! four decimal octets separated by dots, each at most 255, with no
//! leading zeros.
use vstd::prelude::*;

use crate::numfmt::{
    dec_str, dec_val, digit_val, digit_val_char, is_digit, is_digit_char, lemma_canonical_digits,
    lemma_dec_str_props, u64_to_string,
};

verus! {

/// An IPv4 address, held as its four dotted-quad components.
#[derive(Clone, Copy, Debug, PartialEq, Eq, Structural, Hash)]
pub struct IpAddr {
    pub a: u8,
    pub b: u8,
    pub c: u8,
    pub d: u8,
}

/// The canonical dotted-quad text of an address.
pub open spec fn ip_text(ip: IpAddr) -> Seq<char> {
    dec_str(ip.a as nat) + seq!['.'] + dec_str(ip.b as nat) + seq!['.'] + dec_str(ip.c as nat)
        + seq!['.'] + dec_str(ip.d as nat)
}

/// Renders an address as its dotted-quad text.
pub fn ip_to_string(ip: &IpAddr) -> (r: String)
    ensures
        r@ == ip_text(*ip),
{
    proof {
        reveal_strlit(".");
    }
    let mut r = u64_to_string(ip.a as u64);
    r.append(".");
    let b = u64_to_string(ip.b as u64);
    r.append(b.as_str());
    r.append(".");
    let c = u64_to_string(ip.c as u64);
    r.append(c.as_str());
    r.append(".");
    let d = u64_to_string(ip.d as u64);
    r.append(d.as_str());
    assert(r@ =~= ip_text(*ip));
    r
}

/// The length of the run of digit characters starting at `p`.
pub open spec fn digit_run_len(s: Seq<char>, p: int) -> int
    decreases s.len() - p,
{
    if p < s.len() && is_digit(s[p]) {
        1 + digit_run_len(s, p + 1)
    } else {
        0
    }
}

/// A run of `k` digits starting at `p` is a well-formed octet text if it
/// has one to three digits, no leading zero, and a value of at most 255.
pub open spec fn octet_ok(s: Seq<char>, p: int, k: int) -> bool {
    &&& 1 <= k <= 3
    &&& (k > 1 ==> s[p] != '0')
    &&& dec_val(s.subrange(p, p + k)) <= 255
}

/// Reads one octet starting at `p`: the maximal digit run there, if it
/// is a well-formed octet text, together with the position behind it.
pub open spec fn spec_parse_octet(s: Seq<char>, p: int) -> Option<(u8, int)> {
    let k = digit_run_len(s, p);
    if octet_ok(s, p, k) {
        Some((dec_val(s.subrange(p, p + k)) as u8, p + k))
    } else {
        None
    }
}

/// Reads a whole dotted-quad address: four octets separated by `'.'`,
/// consuming the entire text.
pub open spec fn spec_parse_ip(s: Seq<char>) -> Option<IpAddr> {
    match spec_parse_octet(s, 0) {
        None => None,
        Some((a, p1)) => if p1 < s.len() && s[p1] == '.' {
            match spec_parse_octet(s, p1 + 1) {
                None => None,
                Some((b, p2)) => if p2 < s.len() && s[p2] == '.' {
                    match spec_parse_octet(s, p2 + 1) {
                        None => None,
                        Some((c, p3)) => if p3 < s.len() && s[p3] == '.' {
                            match spec_parse_octet(s, p3 + 1) {
                                None => None,
                                Some((d, p4)) => if p4 == s.len() {
                                    Some(IpAddr { a, b, c, d })
                                } else {
                                    None
                                },
                            }
                        } else {
                            None
                        },
                    }
                } else {
                    None
                },
            }
        } else {
            None
        },
    }
}

/// The digit run starting at `p` ends exactly at the first position that
/// is out of range or holds a non-digit.
proof fn lemma_digit_run_len(s: Seq<char>, p: int, q: int)
    requires
        0 <= p <= q <= s.len(),
        forall|i: int| p <= i < q ==> is_digit(#[trigger] s[i]),
        q == s.len() || !is_digit(s[q]),
    ensures
        digit_run_len(s, p) == q - p,
    decreases q - p,
{
    if p < q {
        lemma_digit_run_len(s, p + 1, q);
    }
}

/// A successful parse means the text is the canonical rendering.
proof fn lemma_parse_octet_sound(s: Seq<char>, p: int)
    requires
        0 <= p <= s.len(),
        spec_parse_octet(s, p) is Some,
    ensures
        ({
            let (v, q) = spec_parse_octet(s, p)->Some_0;
            &&& p < q <= s.len()
            &&& s.subrange(p, q) =~= dec_str(v as nat)
            &&& q == s.len() || !is_digit(s[q])
        }),
{
    let k = digit_run_len(s, p);
    lemma_digit_run_len_bounds(s, p);
    let t = s.subrange(p, p + k);
    lemma_canonical_digits(t);
}

/// Bounds and content of the maximal digit run starting at `p`.
proof fn lemma_digit_run_len_bounds(s: Seq<char>, p: int)
    requires
        0 <= p <= s.len(),
    ensures
        0 <= digit_run_len(s, p),
        p + digit_run_len(s, p) <= s.len(),
        forall|i: int|
            p <= i < p + digit_run_len(s, p) ==> is_digit(#[trigger] s[i]),
        p + digit_run_len(s, p) == s.len() || !is_digit(s[p + digit_run_len(s, p)]),
    decreases s.len() - p,
{
    if p < s.len() && is_digit(s[p]) {
        lemma_digit_run_len_bounds(s, p + 1);
    }
}

/// Parsing the canonical rendering of one octet, followed either by the
/// end of the text or by a non-digit, yields the octet back.
proof fn lemma_parse_octet_complete(s: Seq<char>, p: int, v: u8)
    requires
        0 <= p <= s.len(),
        p + dec_str(v as nat).len() <= s.len(),
        s.subrange(p, p + dec_str(v as nat).len() as int) =~= dec_str(v as nat),
        p + dec_str(v as nat).len() == s.len() || !is_digit(
            s[p + dec_str(v as nat).len() as int],
        ),
    ensures
        spec_parse_octet(s, p) == Some((v, p + dec_str(v as nat).len() as int)),
{
    let t = dec_str(v as nat);
    lemma_dec_str_props(v as nat);
    let q = p + t.len();
    assert forall|i: int| p <= i < q implies is_digit(#[trigger] s[i]) by {
        assert(s[i] == t[i - p]);
    }
    lemma_digit_run_len(s, p, q);
    let k = digit_run_len(s, p);
    assert(k == t.len());
    assert(s.subrange(p, p + k) =~= t);
    assert(dec_val(t) == v);
    assert(t.len() > 1 ==> v >= 10);
    assert(t.len() > 1 ==> s[p] == t[0] && t[0] != '0');
    assert(octet_ok(s, p, k));
}

/// A parsed address reads back as its canonical text.
#[verifier::rlimit(60)]
#[verifier::spinoff_prover]
pub proof fn lemma_parse_ip_sound(s: Seq<char>)
    requires
        spec_parse_ip(s) is Some,
    ensures
        s =~= ip_text(spec_parse_ip(s)->Some_0),
{
    let ip = spec_parse_ip(s)->Some_0;
    let (a, p1) = spec_parse_octet(s, 0)->Some_0;
    lemma_parse_octet_sound(s, 0);
    let (b, p2) = spec_parse_octet(s, p1 + 1)->Some_0;
    lemma_parse_octet_sound(s, p1 + 1);
    let (c, p3) = spec_parse_octet(s, p2 + 1)->Some_0;
    lemma_parse_octet_sound(s, p2 + 1);
    let (d, p4) = spec_parse_octet(s, p3 + 1)->Some_0;
    lemma_parse_octet_sound(s, p3 + 1);
    assert(s =~= s.subrange(0, p1) + seq![s[p1]] + s.subrange(p1 + 1, p2) + seq![s[p2]]
        + s.subrange(p2 + 1, p3) + seq![s[p3]] + s.subrange(p3 + 1, p4));
}

/// The canonical text of every address parses back to that address.
pub proof fn lemma_parse_ip_complete(ip: IpAddr)
    ensures
        spec_parse_ip(ip_text(ip)) == Some(ip),
{
    let s = ip_text(ip);
    let ta = dec_str(ip.a as nat);
    let tb = dec_str(ip.b as nat);
    let tc = dec_str(ip.c as nat);
    let td = dec_str(ip.d as nat);
    lemma_dec_str_props(ip.a as nat);
    lemma_dec_str_props(ip.b as nat);
    lemma_dec_str_props(ip.c as nat);
    lemma_dec_str_props(ip.d as nat);
    let p1 = ta.len() as int;
    let p2 = p1 + 1 + tb.len();
    let p3 = p2 + 1 + tc.len();
    let p4 = p3 + 1 + td.len();
    assert(s.subrange(0, p1) =~= ta);
    assert(s[p1] == '.');
    assert(s.subrange(p1 + 1, p2) =~= tb);
    assert(s[p2] == '.');
    assert(s.subrange(p2 + 1, p3) =~= tc);
    assert(s[p3] == '.');
    assert(s.subrange(p3 + 1, p4) =~= td);
    assert(p4 == s.len());
    lemma_parse_octet_complete(s, 0, ip.a);
    lemma_parse_octet_complete(s, p1 + 1, ip.b);
    lemma_parse_octet_complete(s, p2 + 1, ip.c);
    lemma_parse_octet_complete(s, p3 + 1, ip.d);
}

/// Reads one octet of `s` starting at `p`.
fn parse_octet(s: &str, p: usize) -> (r: Option<(u8, usize)>)
    requires
        p <= s@.len(),
    ensures
        match r {
            Some((v, q)) => spec_parse_octet(s@, p as int) == Some((v, q as int)) && p < q
                <= s@.len(),
            None => spec_parse_octet(s@, p as int) is None,
        },
{
    let n = s.unicode_len();
    let mut q = p;
    while q < n && is_digit_char(s.get_char(q))
        invariant
            p <= q <= n,
            n == s@.len(),
            forall|i: int| p <= i < q ==> is_digit(#[trigger] s@[i]),
        decreases n - q,
    {
        q = q + 1;
    }
    proof {
        lemma_digit_run_len(s@, p as int, q as int);
    }
    let k = q - p;
    if k < 1 || k > 3 {
        return None;
    }
    if k > 1 && s.get_char(p) == '0' {
        return None;
    }
    let mut val: u16 = 0;
    let mut i = p;
    while i < q
        invariant
            p <= i <= q <= n,
            n == s@.len(),
            q - p <= 3,
            forall|j: int| p <= j < q ==> is_digit(#[trigger] s@[j]),
            val == dec_val(s@.subrange(p as int, i as int)),
            val < 1000,
        decreases q - i,
    {
        let c = s.get_char(i);
        proof {
            assert(s@.subrange(p as int, i + 1).drop_last() =~= s@.subrange(p as int, i as int));
            assert(s@.subrange(p as int, i + 1).last() == s@[i as int]);
        }
        val = val * 10 + (digit_val_char(c) as u16);
        i = i + 1;
        proof {
            let t = s@.subrange(p as int, i as int);
            assert(val == dec_val(t));
            assert(val < 1000) by {
                lemma_canonical_digits_value_bound(s@, p as int, i as int);
            }
        }
    }
    if val > 255 {
        return None;
    }
    Some((val as u8, q))
}

/// The value of at most three digits is below 1000.
proof fn lemma_canonical_digits_value_bound(s: Seq<char>, p: int, q: int)
    requires
        0 <= p <= q <= s.len(),
        q - p <= 3,
        forall|i: int| p <= i < q ==> is_digit(#[trigger] s[i]),
    ensures
        0 <= dec_val(s.subrange(p, q)) < 1000,
    decreases q - p,
{
    let t = s.subrange(p, q);
    if q == p {
        assert(dec_val(t) == 0);
    } else {
        lemma_canonical_digits_value_bound(s, p, q - 1);
        assert(t.drop_last() =~= s.subrange(p, q - 1));
        assert(dec_val(t) == dec_val(t.drop_last()) * 10 + digit_val(t.last()));
        assert(0 <= digit_val(t.last()) <= 9);
        assert(q - 1 - p <= 2);
        lemma_small_digit_value_bound(s, p, q - 1);
    }
}

/// The value of at most two digits is below 100.
proof fn lemma_small_digit_value_bound(s: Seq<char>, p: int, q: int)
    requires
        0 <= p <= q <= s.len(),
        q - p <= 2,
        forall|i: int| p <= i < q ==> is_digit(#[trigger] s[i]),
    ensures
        0 <= dec_val(s.subrange(p, q)) < 100,
    decreases q - p,
{
    let t = s.subrange(p, q);
    if q == p {
        assert(dec_val(t) == 0);
    } else {
        lemma_small_digit_value_bound(s, p, q - 1);
        assert(t.drop_last() =~= s.subrange(p, q - 1));
        assert(dec_val(t) == dec_val(t.drop_last()) * 10 + digit_val(t.last()));
        assert(0 <= digit_val(t.last()) <= 9);
        if q - 1 == p {
            assert(dec_val(s.subrange(p, q - 1)) == 0);
        } else {
            lemma_single_digit_value_bound(s, p, q - 1);
        }
    }
}

/// The value of at most one digit is below 10.
proof fn lemma_single_digit_value_bound(s: Seq<char>, p: int, q: int)
    requires
        0 <= p <= q <= s.len(),
        q - p <= 1,
        forall|i: int| p <= i < q ==> is_digit(#[trigger] s[i]),
    ensures
        0 <= dec_val(s.subrange(p, q)) < 10,
{
    let t = s.subrange(p, q);
    if q == p {
        assert(dec_val(t) == 0);
    } else {
        assert(t.drop_last() =~= s.subrange(p, p));
        assert(dec_val(s.subrange(p, p)) == 0);
        assert(dec_val(t) == dec_val(t.drop_last()) * 10 + digit_val(t.last()));
        assert(0 <= digit_val(t.last()) <= 9);
    }
}

/// Parses a dotted-quad IPv4 address. Succeeds exactly on the canonical
/// rendering of an address, and returns that address.
pub fn parse_ip(s: &str) -> (r: Option<IpAddr>)
    ensures
        r == spec_parse_ip(s@),
        r matches Some(ip) ==> s@ == ip_text(ip),
        r is None ==> forall|ip: IpAddr| s@ != ip_text(ip),
{
    let n = s.unicode_len();
    let r = parse_ip_inner(s, n);
    proof {
        if r is Some {
            lemma_parse_ip_sound(s@);
        } else {
            assert forall|ip: IpAddr| s@ != ip_text(ip) by {
                if s@ == ip_text(ip) {
                    lemma_parse_ip_complete(ip);
                }
            }
        }
    }
    r
}

fn parse_ip_inner(s: &str, n: usize) -> (r: Option<IpAddr>)
    requires
        n == s@.len(),
    ensures
        r == spec_parse_ip(s@),
{
    let Some((a, p1)) = parse_octet(s, 0) else { return None };
    if !(p1 < n && s.get_char(p1) == '.') {
        return None;
    }
    let Some((b, p2)) = parse_octet(s, p1 + 1) else { return None };
    if !(p2 < n && s.get_char(p2) == '.') {
        return None;
    }
    let Some((c, p3)) = parse_octet(s, p2 + 1) else { return None };
    if !(p3 < n && s.get_char(p3) == '.') {
        return None;
    }
    let Some((d, p4)) = parse_octet(s, p3 + 1) else { return None };
    if p4 != n {
        return None;
    }
    Some(IpAddr { a, b, c, d })
}

} // verus!
