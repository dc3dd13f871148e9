//! Character-level building blocks for the wire format: decimal rendering
//! and parsing of unsigned integers, hexadecimal digits, and conversions
//! between strings and character vectors.

use vstd::prelude::*;
use vstd::std_specs::iter::IteratorSpec;

verus! {

/// `c` is a decimal digit.
pub open spec fn is_digit(c: char) -> bool {
    48 <= c as u32 <= 57
}

/// Numeric value of a decimal digit.
pub open spec fn digit_val(c: char) -> nat {
    (c as u32 - 48) as nat
}

/// The decimal digit with value `d` (for `d < 10`).
pub open spec fn digit_char(d: nat) -> char {
    ((48 + d) as u8) as char
}

/// The lowercase hexadecimal digit with value `d` (for `d < 16`).
pub open spec fn hex_char(d: nat) -> char {
    if d < 10 {
        digit_char(d)
    } else {
        ((87 + d) as u8) as char
    }
}

/// `c` is a lowercase hexadecimal digit.
pub open spec fn is_hex_lower(c: char) -> bool {
    is_digit(c) || 97 <= c as u32 <= 102
}

/// Numeric value of a lowercase hexadecimal digit.
pub open spec fn hex_val(c: char) -> nat {
    if is_digit(c) {
        digit_val(c)
    } else {
        (c as u32 - 87) as nat
    }
}

/// Canonical decimal rendering of `n`: no sign, no leading zeros.
pub open spec fn dec_nat(n: nat) -> Seq<char>
    decreases n,
{
    if n < 10 {
        seq![digit_char(n)]
    } else {
        dec_nat(n / 10) + seq![digit_char(n % 10)]
    }
}

/// The rendering of a number is made of digits and never starts with a
/// superfluous zero.
pub proof fn lemma_dec_nat_shape(n: nat)
    ensures
        dec_nat(n).len() >= 1,
        forall|i: int| 0 <= i < dec_nat(n).len() ==> is_digit(#[trigger] dec_nat(n)[i]),
        n >= 1 ==> dec_nat(n)[0] != '0',
        n >= 10 <==> dec_nat(n).len() >= 2,
    decreases n,
{
    if n < 10 {
        assert(dec_nat(n) == seq![digit_char(n)]);
        assert(is_digit(digit_char(n)));
        assert(n >= 1 ==> digit_char(n) != '0');
    } else {
        lemma_dec_nat_shape(n / 10);
        assert(dec_nat(n) == dec_nat(n / 10) + seq![digit_char(n % 10)]);
        assert(is_digit(digit_char(n % 10)));
        assert(dec_nat(n)[0] == dec_nat(n / 10)[0]);
        assert(n / 10 >= 1);
    }
}

/// Value of a digit string, most significant digit first.
pub open spec fn val_of_digits(ds: Seq<char>) -> nat
    decreases ds.len(),
{
    if ds.len() == 0 {
        0
    } else {
        val_of_digits(ds.drop_last()) * 10 + digit_val(ds.last())
    }
}

/// Rendering then reading a number gives the number back.
pub proof fn lemma_val_of_dec_nat(n: nat)
    ensures
        val_of_digits(dec_nat(n)) == n,
    decreases n,
{
    if n < 10 {
        let ds = dec_nat(n);
        assert(ds == seq![digit_char(n)]);
        assert(ds.last() == digit_char(n));
        assert(ds.drop_last() =~= Seq::<char>::empty());
        assert(val_of_digits(ds) == val_of_digits(ds.drop_last()) * 10 + digit_val(ds.last()));
        assert(val_of_digits(Seq::<char>::empty()) == 0);
        lemma_digit_char_val(n);
    } else {
        lemma_val_of_dec_nat(n / 10);
        let ds = dec_nat(n);
        assert(ds == dec_nat(n / 10) + seq![digit_char(n % 10)]);
        assert(ds.drop_last() =~= dec_nat(n / 10));
        assert(ds.last() == digit_char(n % 10));
        assert(digit_val(digit_char(n % 10)) == n % 10) by {
            lemma_digit_char_val(n % 10);
        }
        vstd::arithmetic::div_mod::lemma_fundamental_div_mod(n as int, 10);
    }
}

/// A digit character round-trips through its value (for `d < 10`).
pub proof fn lemma_digit_char_val(d: nat)
    requires
        d < 10,
    ensures
        is_digit(digit_char(d)),
        digit_val(digit_char(d)) == d,
{
    assert(is_digit(digit_char(d)) && digit_val(digit_char(d)) == d);
}

/// How many leading characters of `s` are decimal digits.
pub open spec fn digits_prefix_len(s: Seq<char>) -> int
    decreases s.len(),
{
    if s.len() == 0 || !is_digit(s[0]) {
        0
    } else {
        1 + digits_prefix_len(s.skip(1))
    }
}

pub proof fn lemma_digits_prefix_len_bounds(s: Seq<char>)
    ensures
        0 <= digits_prefix_len(s) <= s.len(),
        forall|i: int| 0 <= i < digits_prefix_len(s) ==> is_digit(#[trigger] s[i]),
        digits_prefix_len(s) < s.len() ==> !is_digit(s[digits_prefix_len(s)]),
    decreases s.len(),
{
    if s.len() == 0 || !is_digit(s[0]) {
    } else {
        lemma_digits_prefix_len_bounds(s.skip(1));
        assert(forall|i: int| 1 <= i < digits_prefix_len(s) ==> #[trigger] s[i] == s.skip(1)[i - 1]);
    }
}

/// The count of leading digits is determined by any witness cut `k`.
pub proof fn lemma_digits_prefix_len_determined(s: Seq<char>, k: int)
    requires
        0 <= k <= s.len(),
        forall|i: int| 0 <= i < k ==> is_digit(#[trigger] s[i]),
        k == s.len() || !is_digit(s[k]),
    ensures
        digits_prefix_len(s) == k,
    decreases k,
{
    if k == 0 {
    } else {
        assert(is_digit(s[0]));
        let t = s.skip(1);
        assert(forall|i: int| 0 <= i < k - 1 ==> #[trigger] t[i] == s[i + 1]);
        lemma_digits_prefix_len_determined(t, k - 1);
    }
}

/// Reads a canonical decimal number from the front of `s`: at least one
/// digit, no leading zero, value at most `bound`. Returns the value and the
/// unread remainder, or nothing if the front of `s` is not such a number.
pub open spec fn parse_dec(s: Seq<char>, bound: nat) -> Option<(nat, Seq<char>)> {
    let k = digits_prefix_len(s);
    if k == 0 {
        None
    } else if k > 1 && s[0] == '0' {
        None
    } else if val_of_digits(s.take(k)) > bound {
        None
    } else {
        Some((val_of_digits(s.take(k)), s.skip(k)))
    }
}

/// A rendered number followed by a non-digit parses back to itself.
pub proof fn lemma_parse_dec_complete(n: nat, rest: Seq<char>, bound: nat)
    requires
        n <= bound,
        rest.len() == 0 || !is_digit(rest[0]),
    ensures
        parse_dec(dec_nat(n) + rest, bound) == Some((n, rest)),
{
    let ds = dec_nat(n);
    lemma_dec_nat_shape(n);
    let s = ds + rest;
    lemma_digits_prefix_len_determined(s, ds.len() as int);
    assert(s.take(ds.len() as int) =~= ds);
    assert(s.skip(ds.len() as int) =~= rest);
    lemma_val_of_dec_nat(n);
    if ds.len() > 1 {
        assert(n >= 10);
        assert(s[0] == ds[0]);
    }
}

/// A digit string with no leading zero has a positive value.
pub proof fn lemma_val_pos(ds: Seq<char>)
    requires
        ds.len() >= 1,
        forall|i: int| 0 <= i < ds.len() ==> is_digit(#[trigger] ds[i]),
        ds[0] != '0',
    ensures
        val_of_digits(ds) >= 1,
    decreases ds.len(),
{
    if ds.len() == 1 {
        assert(ds.last() == ds[0]);
        assert(digit_val(ds[0]) >= 1) by {
            vstd::utf8::char_u32_cast(ds[0], ds[0] as u32);
        }
    } else {
        let front = ds.drop_last();
        assert(front[0] == ds[0]);
        assert(forall|i: int| 0 <= i < front.len() ==> #[trigger] front[i] == ds[i]);
        lemma_val_pos(front);
        assert(val_of_digits(front) * 10 >= 10) by (nonlinear_arith)
            requires
                val_of_digits(front) >= 1,
        ;
    }
}

/// A digit character is recovered from its value.
pub proof fn lemma_digit_val_char(c: char)
    requires
        is_digit(c),
    ensures
        digit_char(digit_val(c)) == c,
{
}

/// Reading a canonical digit string then rendering the value gives the
/// string back.
pub proof fn lemma_dec_of_val(ds: Seq<char>)
    requires
        ds.len() >= 1,
        forall|i: int| 0 <= i < ds.len() ==> is_digit(#[trigger] ds[i]),
        ds.len() == 1 || ds[0] != '0',
    ensures
        dec_nat(val_of_digits(ds)) == ds,
    decreases ds.len(),
{
    let v = val_of_digits(ds);
    if ds.len() == 1 {
        assert(ds.drop_last() =~= Seq::<char>::empty());
        assert(val_of_digits(Seq::<char>::empty()) == 0);
        assert(v == digit_val(ds.last()));
        assert(v < 10);
        lemma_digit_val_char(ds.last());
        assert(dec_nat(v) =~= ds);
    } else {
        let front = ds.drop_last();
        assert(front[0] == ds[0]);
        assert(forall|i: int| 0 <= i < front.len() ==> #[trigger] front[i] == ds[i]);
        lemma_dec_of_val(front);
        lemma_val_pos(front);
        let vf = val_of_digits(front);
        let d = digit_val(ds.last());
        assert(v == vf * 10 + d);
        assert(d < 10);
        assert(vf * 10 >= 10) by (nonlinear_arith)
            requires
                vf >= 1,
        ;
        vstd::arithmetic::div_mod::lemma_fundamental_div_mod_converse(
            v as int,
            10,
            vf as int,
            d as int,
        );
        assert(dec_nat(v) == dec_nat(vf) + seq![digit_char(d)]);
        lemma_digit_val_char(ds.last());
        assert(dec_nat(v) =~= ds);
    }
}

/// What a successful `parse_dec` pins down: the input is exactly the
/// canonical rendering of the value followed by the remainder.
pub proof fn lemma_parse_dec_sound(s: Seq<char>, bound: nat)
    requires
        parse_dec(s, bound) is Some,
    ensures
        ({
            let (n, rest) = parse_dec(s, bound)->Some_0;
            &&& s == dec_nat(n) + rest
            &&& n <= bound
            &&& rest.len() == 0 || !is_digit(rest[0])
        }),
{
    let k = digits_prefix_len(s);
    lemma_digits_prefix_len_bounds(s);
    let ds = s.take(k);
    assert(forall|i: int| 0 <= i < k ==> #[trigger] ds[i] == s[i]);
    lemma_dec_of_val(ds);
    let rest = s.skip(k);
    assert(s =~= ds + rest);
    if rest.len() > 0 {
        assert(rest[0] == s[k]);
    }
}

/// `c` is a decimal digit.
pub fn is_digit_char(c: char) -> (b: bool)
    ensures
        b == is_digit(c),
{
    let u = c as u32;
    48 <= u && u <= 57
}

/// Appends the canonical decimal rendering of `n` to `out`.
pub fn push_dec_u64(out: &mut Vec<char>, n: u64)
    ensures
        final(out)@ == old(out)@ + dec_nat(n as nat),
    decreases n,
{
    if n < 10 {
        out.push((48 + n as u8) as char);
        assert(out@ =~= old(out)@ + dec_nat(n as nat));
    } else {
        push_dec_u64(out, n / 10);
        out.push((48 + (n % 10) as u8) as char);
        assert(out@ =~= old(out)@ + dec_nat(n as nat));
    }
}

/// Reads a canonical decimal number of value at most `bound` from `v`
/// starting at `start`; returns the value and the position just past it.
/// Agrees exactly with `parse_dec` on the remaining input.
pub fn scan_dec_u64(v: &Vec<char>, start: usize, bound: u64) -> (r: Option<(u64, usize)>)
    requires
        start <= v@.len(),
    ensures
        match parse_dec(v@.skip(start as int), bound as nat) {
            Some(p) => {
                &&& r is Some
                &&& r->Some_0.0 as nat == p.0
                &&& start <= r->Some_0.1 <= v@.len()
                &&& v@.skip(r->Some_0.1 as int) == p.1
            },
            None => r is None,
        },
{
    let ghost s = v@.skip(start as int);
    proof {
        assert(forall|i: int| 0 <= i < s.len() ==> #[trigger] s[i] == v@[start + i]);
    }
    let len = v.len();
    let mut j = start;
    while j < len && is_digit_char(v[j])
        invariant
            start <= j <= len,
            len == v@.len(),
            forall|m: int| start <= m < j ==> is_digit(#[trigger] v@[m]),
        decreases len - j,
    {
        j += 1;
    }
    proof {
        lemma_digits_prefix_len_determined(s, j - start);
    }
    let ghost k = j - start;
    if j == start {
        return None;
    }
    if j - start > 1 && v[start] == '0' {
        assert(s[0] == '0');
        return None;
    }
    let ghost ds = s.take(k);
    let mut value: u64 = 0;
    let mut too_big = false;
    let mut i = start;
    while i < j
        invariant
            start <= i <= j <= v@.len(),
            s == v@.skip(start as int),
            forall|m: int| start <= m < j ==> is_digit(#[trigger] v@[m]),
            forall|m: int| 0 <= m < s.len() ==> #[trigger] s[m] == v@[start + m],
            !too_big ==> value as nat == val_of_digits(s.take(i - start)) && value <= bound,
            too_big ==> val_of_digits(s.take(i - start)) > bound,
        decreases j - i,
    {
        let d = (v[i] as u32 - 48) as u64;
        let ghost prev = s.take(i - start);
        let ghost cur = s.take(i + 1 - start);
        proof {
            assert(cur.drop_last() =~= prev);
            assert(cur.last() == s[i - start]);
            assert(val_of_digits(cur) == val_of_digits(prev) * 10 + digit_val(s[i - start]));
            assert(d as nat == digit_val(s[i - start]));
        }
        if too_big || value > bound / 10 || (value == bound / 10 && d > bound % 10) {
            proof {
                let vp = val_of_digits(prev) as int;
                let b = bound as int;
                if too_big {
                    assert(vp * 10 >= vp) by (nonlinear_arith)
                        requires
                            vp >= 0,
                    ;
                } else {
                    vstd::arithmetic::div_mod::lemma_fundamental_div_mod(b, 10);
                    if value > bound / 10 {
                        assert(vp * 10 >= (b / 10 + 1) * 10) by (nonlinear_arith)
                            requires
                                vp >= b / 10 + 1,
                        ;
                    } else {
                        assert(vp * 10 == (b / 10) * 10);
                    }
                }
            }
            too_big = true;
        } else {
            proof {
                let vp = value as int;
                let b = bound as int;
                vstd::arithmetic::div_mod::lemma_fundamental_div_mod(b, 10);
                assert(vp * 10 <= (b / 10) * 10) by (nonlinear_arith)
                    requires
                        vp <= b / 10,
                ;
                if vp < b / 10 {
                    assert(vp * 10 + 10 <= (b / 10) * 10) by (nonlinear_arith)
                        requires
                            vp + 1 <= b / 10,
                    ;
                }
            }
            value = value * 10 + d;
        }
        i += 1;
    }
    assert(s.take(i - start) =~= ds);
    if too_big {
        return None;
    }
    proof {
        assert(v@.skip(j as int) =~= s.skip(k));
    }
    Some((value, j))
}

/// The characters of `s`, in order.
pub fn str_chars(s: &str) -> (v: Vec<char>)
    ensures
        v@ == s@,
{
    broadcast use vstd::string::group_string_axioms;

    let mut v: Vec<char> = Vec::new();
    let mut it = s.chars();
    loop
        invariant
            v@ + it.remaining() == s@,
            it.decrease() is Some,
        ensures
            v@ == s@,
        decreases it.decrease()->0,
    {
        match it.next() {
            Some(c) => {
                v.push(c);
                assert(v@ + it.remaining() =~= s@);
            },
            None => {
                assert(v@ =~= s@);
                break ;
            },
        }
    }
    v
}

/// The canonical decimal rendering of `n`, as a string.
pub fn dec_u64_string(n: u64) -> (s: String)
    ensures
        s@ == dec_nat(n as nat),
{
    let mut v: Vec<char> = Vec::new();
    push_dec_u64(&mut v, n);
    chars_to_string(&v)
}

/// The string holding exactly the characters of `v`, in order.
///
/// Relies on `String: FromIterator<char>` (`Iterator::collect`): collecting
/// characters builds the string of those characters in order.
#[verifier::external_body]
pub fn chars_to_string(v: &Vec<char>) -> (s: String)
    ensures
        s@ == v@,
{
    v.iter().collect()
}

} // verus!
