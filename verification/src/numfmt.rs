//! Decimal rendering of unsigned integers, used for IP address text,
//! duration text and form field values.
use vstd::prelude::*;

verus! {

/// The character for a single decimal digit value.
pub open spec fn digit_char(d: int) -> char {
    if d == 0 {
        '0'
    } else if d == 1 {
        '1'
    } else if d == 2 {
        '2'
    } else if d == 3 {
        '3'
    } else if d == 4 {
        '4'
    } else if d == 5 {
        '5'
    } else if d == 6 {
        '6'
    } else if d == 7 {
        '7'
    } else if d == 8 {
        '8'
    } else {
        '9'
    }
}

/// Whether `c` is a decimal digit.
pub open spec fn is_digit(c: char) -> bool {
    c == '0' || c == '1' || c == '2' || c == '3' || c == '4' || c == '5' || c == '6' || c == '7'
        || c == '8' || c == '9'
}

/// The value of a decimal digit character.
pub open spec fn digit_val(c: char) -> int {
    if c == '0' {
        0
    } else if c == '1' {
        1
    } else if c == '2' {
        2
    } else if c == '3' {
        3
    } else if c == '4' {
        4
    } else if c == '5' {
        5
    } else if c == '6' {
        6
    } else if c == '7' {
        7
    } else if c == '8' {
        8
    } else {
        9
    }
}

/// The number denoted by a sequence of decimal digit characters,
/// most significant first.
pub open spec fn dec_val(s: Seq<char>) -> int
    decreases s.len(),
{
    if s.len() == 0 {
        0
    } else {
        dec_val(s.drop_last()) * 10 + digit_val(s.last())
    }
}

/// The usual decimal rendering of `n`: no sign, no leading zeros
/// (a single `'0'` for zero itself).
pub open spec fn dec_str(n: nat) -> Seq<char>
    decreases n,
{
    if n < 10 {
        seq![digit_char(n as int)]
    } else {
        dec_str(n / 10).push(digit_char((n % 10) as int))
    }
}

/// Powers of ten.
pub open spec fn pow10(n: nat) -> nat
    decreases n,
{
    if n == 0 {
        1
    } else {
        10 * pow10((n - 1) as nat)
    }
}

/// The value of `k` digits is below the `k`-th power of ten.
pub proof fn lemma_dec_val_bound(s: Seq<char>, p: int, q: int)
    requires
        0 <= p <= q <= s.len(),
        forall|i: int| p <= i < q ==> is_digit(#[trigger] s[i]),
    ensures
        0 <= dec_val(s.subrange(p, q)) < pow10((q - p) as nat),
    decreases q - p,
{
    let t = s.subrange(p, q);
    if q == p {
        assert(dec_val(t) == 0);
    } else {
        lemma_dec_val_bound(s, p, q - 1);
        assert(t.drop_last() =~= s.subrange(p, q - 1));
        assert(dec_val(t) == dec_val(t.drop_last()) * 10 + digit_val(t.last()));
        assert(0 <= digit_val(t.last()) <= 9);
        assert(pow10((q - p) as nat) == 10 * pow10((q - 1 - p) as nat));
    }
}

/// Reads the decimal number written on `s` between `from` and `to`.
pub fn read_dec(s: &str, from: usize, to: usize) -> (r: u16)
    requires
        from <= to <= s@.len(),
        to - from <= 4,
        forall|i: int| from <= i < to ==> is_digit(#[trigger] s@[i]),
    ensures
        r == dec_val(s@.subrange(from as int, to as int)),
        r < 10000,
{
    proof {
        lemma_dec_val_bound(s@, from as int, to as int);
        lemma_pow10_4();
    }
    let mut val: u16 = 0;
    let mut i = from;
    while i < to
        invariant
            from <= i <= to <= s@.len(),
            to - from <= 4,
            forall|j: int| from <= j < to ==> is_digit(#[trigger] s@[j]),
            val == dec_val(s@.subrange(from as int, i as int)),
            val < 10000,
        decreases to - i,
    {
        let c = s.get_char(i);
        proof {
            assert(s@.subrange(from as int, i + 1).drop_last() =~= s@.subrange(
                from as int,
                i as int,
            ));
            assert(s@.subrange(from as int, i + 1).last() == s@[i as int]);
            lemma_dec_val_bound(s@, from as int, i + 1);
            assert(pow10((i + 1 - from) as nat) <= pow10(4)) by {
                lemma_pow10_le((i + 1 - from) as nat, 4);
            }
            lemma_pow10_4();
        }
        val = val * 10 + (digit_val_char(c) as u16);
        i = i + 1;
    }
    val
}

/// The fourth power of ten, written out.
pub proof fn lemma_pow10_4()
    ensures
        pow10(4) == 10000,
{
    assert(pow10(0) == 1);
    assert(pow10(1) == 10);
    assert(pow10(2) == 100);
    assert(pow10(3) == 1000);
    assert(pow10(4) == 10000);
}

/// Powers of ten grow with the exponent.
pub proof fn lemma_pow10_le(m: nat, n: nat)
    requires
        m <= n,
    ensures
        pow10(m) <= pow10(n),
    decreases n,
{
    if m < n {
        lemma_pow10_le(m, (n - 1) as nat);
        assert(pow10(n) == 10 * pow10((n - 1) as nat));
        assert(pow10((n - 1) as nat) >= 1) by {
            lemma_pow10_pos((n - 1) as nat);
        }
    }
}

/// Powers of ten are positive.
pub proof fn lemma_pow10_pos(n: nat)
    ensures
        pow10(n) >= 1,
    decreases n,
{
    if n > 0 {
        lemma_pow10_pos((n - 1) as nat);
    }
}

/// The rendering of a number consists of digits, has no leading zero
/// unless the number is zero itself, denotes the number it was made
/// from, and is as long as the number has digits.
pub proof fn lemma_dec_str_props(n: nat)
    ensures
        dec_str(n).len() >= 1,
        forall|i: int| 0 <= i < dec_str(n).len() ==> is_digit(#[trigger] dec_str(n)[i]),
        dec_val(dec_str(n)) == n,
        n > 0 ==> dec_str(n)[0] != '0',
        n < 10 ==> dec_str(n).len() == 1,
        10 <= n < 100 ==> dec_str(n).len() == 2,
        100 <= n < 1000 ==> dec_str(n).len() == 3,
        n >= 10 ==> dec_str(n).len() >= 2,
        n >= 100 ==> dec_str(n).len() >= 3,
    decreases n,
{
    if n < 10 {
        assert(dec_val(dec_str(n)) == n) by {
            let s = dec_str(n);
            assert(s =~= seq![digit_char(n as int)]);
            assert(s.drop_last() =~= Seq::<char>::empty());
            assert(dec_val(Seq::<char>::empty()) == 0);
            assert(s.last() == digit_char(n as int));
            assert(dec_val(s) == dec_val(s.drop_last()) * 10 + digit_val(s.last()));
            assert(digit_val(digit_char(n as int)) == n);
        }
    } else {
        lemma_dec_str_props(n / 10);
        let prefix = dec_str(n / 10);
        let d = digit_char((n % 10) as int);
        assert(dec_str(n) =~= prefix.push(d));
        assert(dec_str(n).drop_last() =~= prefix);
        assert(dec_val(dec_str(n)) == dec_val(prefix) * 10 + digit_val(d));
        assert(digit_val(d) == n % 10);
        assert(dec_val(dec_str(n)) == n);
    }
}

/// A digit string of up to three digits without a leading zero is the
/// decimal rendering of its value.
pub proof fn lemma_canonical_digits(t: Seq<char>)
    requires
        1 <= t.len() <= 3,
        forall|i: int| 0 <= i < t.len() ==> is_digit(#[trigger] t[i]),
        t.len() > 1 ==> t[0] != '0',
    ensures
        0 <= dec_val(t) < 1000,
        t =~= dec_str(dec_val(t) as nat),
{
    if t.len() == 1 {
        let v = dec_val(t);
        assert(t.drop_last() =~= Seq::<char>::empty());
        assert(dec_val(Seq::<char>::empty()) == 0);
        assert(v == dec_val(t.drop_last()) * 10 + digit_val(t.last()));
        assert(v == digit_val(t[0]));
        assert(digit_char(v) == t[0]);
        assert(dec_str(v as nat) =~= seq![digit_char(v)]);
    } else if t.len() == 2 {
        let x = digit_val(t[0]);
        let y = digit_val(t[1]);
        assert(t.drop_last() =~= seq![t[0]]);
        assert(seq![t[0]].drop_last() =~= Seq::<char>::empty());
        let v = dec_val(t);
        assert(dec_val(Seq::<char>::empty()) == 0);
        assert(dec_val(seq![t[0]]) == dec_val(seq![t[0]].drop_last()) * 10 + digit_val(
            seq![t[0]].last(),
        ));
        assert(v == dec_val(t.drop_last()) * 10 + digit_val(t.last()));
        assert(v == x * 10 + y);
        assert(1 <= x <= 9 && 0 <= y <= 9);
        assert(10 <= v < 100);
        assert(v / 10 == x && v % 10 == y) by (nonlinear_arith)
            requires
                v == x * 10 + y,
                1 <= x <= 9,
                0 <= y <= 9,
        ;
        assert(dec_str(v as nat) =~= dec_str((v / 10) as nat).push(digit_char(v % 10)));
        assert(dec_str(x as nat) =~= seq![digit_char(x)]);
        assert(digit_char(x) == t[0] && digit_char(y) == t[1]);
        assert(dec_str(v as nat) =~= t);
    } else {
        let x = digit_val(t[0]);
        let y = digit_val(t[1]);
        let z = digit_val(t[2]);
        assert(t.drop_last() =~= seq![t[0], t[1]]);
        assert(seq![t[0], t[1]].drop_last() =~= seq![t[0]]);
        assert(seq![t[0]].drop_last() =~= Seq::<char>::empty());
        let v = dec_val(t);
        assert(dec_val(Seq::<char>::empty()) == 0);
        assert(dec_val(seq![t[0]]) == dec_val(seq![t[0]].drop_last()) * 10 + digit_val(
            seq![t[0]].last(),
        ));
        assert(dec_val(seq![t[0], t[1]]) == dec_val(seq![t[0], t[1]].drop_last()) * 10 + digit_val(
            seq![t[0], t[1]].last(),
        ));
        assert(v == dec_val(t.drop_last()) * 10 + digit_val(t.last()));
        assert(v == (x * 10 + y) * 10 + z);
        assert(1 <= x <= 9 && 0 <= y <= 9 && 0 <= z <= 9);
        assert(100 <= v < 1000);
        assert(v / 10 == x * 10 + y && v % 10 == z) by (nonlinear_arith)
            requires
                v == (x * 10 + y) * 10 + z,
                1 <= x <= 9,
                0 <= y <= 9,
                0 <= z <= 9,
        ;
        let w = x * 10 + y;
        assert(w / 10 == x && w % 10 == y) by (nonlinear_arith)
            requires
                w == x * 10 + y,
                1 <= x <= 9,
                0 <= y <= 9,
        ;
        assert(dec_str(v as nat) =~= dec_str((v / 10) as nat).push(digit_char(v % 10)));
        assert(dec_str(w as nat) =~= dec_str((w / 10) as nat).push(digit_char(w % 10)));
        assert(dec_str(x as nat) =~= seq![digit_char(x)]);
        assert(digit_char(x) == t[0] && digit_char(y) == t[1] && digit_char(z) == t[2]);
        assert(dec_str(v as nat) =~= t);
    }
}

/// Whether `c` is a decimal digit.
pub fn is_digit_char(c: char) -> (b: bool)
    ensures
        b == is_digit(c),
{
    c == '0' || c == '1' || c == '2' || c == '3' || c == '4' || c == '5' || c == '6' || c == '7'
        || c == '8' || c == '9'
}

/// The value of a decimal digit character.
pub fn digit_val_char(c: char) -> (v: u8)
    requires
        is_digit(c),
    ensures
        v == digit_val(c),
{
    if c == '0' {
        0
    } else if c == '1' {
        1
    } else if c == '2' {
        2
    } else if c == '3' {
        3
    } else if c == '4' {
        4
    } else if c == '5' {
        5
    } else if c == '6' {
        6
    } else if c == '7' {
        7
    } else if c == '8' {
        8
    } else {
        9
    }
}

fn digit_str(d: u8) -> (r: &'static str)
    requires
        d < 10,
    ensures
        r@ =~= seq![digit_char(d as int)],
{
    proof {
        reveal_strlit("0");
        reveal_strlit("1");
        reveal_strlit("2");
        reveal_strlit("3");
        reveal_strlit("4");
        reveal_strlit("5");
        reveal_strlit("6");
        reveal_strlit("7");
        reveal_strlit("8");
        reveal_strlit("9");
    }
    match d {
        0 => "0",
        1 => "1",
        2 => "2",
        3 => "3",
        4 => "4",
        5 => "5",
        6 => "6",
        7 => "7",
        8 => "8",
        _ => "9",
    }
}

/// Renders `n` in decimal.
pub fn u64_to_string(n: u64) -> (r: String)
    ensures
        r@ == dec_str(n as nat),
    decreases n,
{
    if n < 10 {
        let r = String::from_str(digit_str(n as u8));
        assert(r@ =~= dec_str(n as nat));
        r
    } else {
        let mut r = u64_to_string(n / 10);
        r.append(digit_str((n % 10) as u8));
        assert(r@ =~= dec_str(n as nat));
        r
    }
}

} // verus!
