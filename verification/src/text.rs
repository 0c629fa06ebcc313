//! Character-level helpers shared by the command-line vocabulary parsers:
//! ASCII lower-casing, literal comparison, unsigned decimal parsing and
//! decimal / hexadecimal rendering.

use vstd::prelude::*;

verus! {

/// ASCII lower-casing of one character; every other character is unchanged.
pub open spec fn lower_char(c: char) -> char {
    if 'A' <= c && c <= 'Z' {
        ((c as u32) + 32) as char
    } else {
        c
    }
}

/// ASCII lower-casing of a whole string, character by character.
pub open spec fn ascii_lower(s: Seq<char>) -> Seq<char> {
    Seq::new(s.len(), |i: int| lower_char(s[i]))
}

pub open spec fn is_digit(c: char) -> bool {
    '0' <= c && c <= '9'
}

pub open spec fn digit_value(c: char) -> nat {
    ((c as u32) - ('0' as u32)) as nat
}

pub open spec fn digit_char(d: nat) -> char
    recommends
        d < 10,
{
    ((d + ('0' as u32)) as u32) as char
}

pub open spec fn all_digits(s: Seq<char>) -> bool {
    forall|i: int| 0 <= i < s.len() ==> is_digit(#[trigger] s[i])
}

/// The value of a string of decimal digits, most significant first.
pub open spec fn decimal_value(s: Seq<char>) -> nat
    decreases s.len(),
{
    if s.len() == 0 {
        0
    } else {
        decimal_value(s.drop_last()) * 10 + digit_value(s.last())
    }
}

/// What `str::parse` gives for an unsigned integer type whose maximum is `max`:
/// an optional leading `+`, then at least one decimal digit, and a value that fits.
pub open spec fn parse_uint_spec(s: Seq<char>, max: nat) -> Option<nat> {
    let body = if s.len() > 0 && s[0] == '+' {
        s.drop_first()
    } else {
        s
    };
    if body.len() > 0 && all_digits(body) && decimal_value(body) <= max {
        Some(decimal_value(body))
    } else {
        None
    }
}

/// Decimal rendering of a natural number, as `Display` writes it.
pub open spec fn decimal_str(n: nat) -> Seq<char>
    decreases n,
{
    if n < 10 {
        seq![digit_char(n)]
    } else {
        decimal_str(n / 10) + seq![digit_char(n % 10)]
    }
}

pub open spec fn hex_digit_char(d: nat) -> char
    recommends
        d < 16,
{
    if d < 10 {
        digit_char(d)
    } else {
        ((d - 10 + ('a' as u32)) as u32) as char
    }
}

/// Lower-case hexadecimal digits of a natural number, without prefix.
pub open spec fn hex_digits(n: nat) -> Seq<char>
    decreases n,
{
    if n < 16 {
        seq![hex_digit_char(n)]
    } else {
        hex_digits(n / 16) + seq![hex_digit_char(n % 16)]
    }
}

/// The `{:#x}` rendering of a number: `0x` followed by its hexadecimal digits.
pub open spec fn alt_hex_str(n: nat) -> Seq<char> {
    seq!['0', 'x'] + hex_digits(n)
}

pub fn lower_ascii_char(c: char) -> (r: char)
    ensures
        r == lower_char(c),
{
    if 'A' <= c && c <= 'Z' {
        ((c as u8) + 32) as char
    } else {
        c
    }
}

/// The characters of `s` with ASCII letters lower-cased.
pub fn ascii_lowercase_chars(s: &str) -> (r: Vec<char>)
    ensures
        r@ == ascii_lower(s@),
{
    let n = s.unicode_len();
    let mut out: Vec<char> = Vec::new();
    let mut i: usize = 0;
    while i < n
        invariant
            n == s@.len(),
            i <= n,
            out@ == ascii_lower(s@).subrange(0, i as int),
        decreases n - i,
    {
        let c = s.get_char(i);
        out.push(lower_ascii_char(c));
        i = i + 1;
        assert(out@ =~= ascii_lower(s@).subrange(0, i as int));
    }
    assert(out@ =~= ascii_lower(s@));
    out
}

/// The characters of `s`.
pub fn str_chars(s: &str) -> (r: Vec<char>)
    ensures
        r@ == s@,
{
    let n = s.unicode_len();
    let mut out: Vec<char> = Vec::new();
    let mut i: usize = 0;
    while i < n
        invariant
            n == s@.len(),
            i <= n,
            out@ == s@.subrange(0, i as int),
        decreases n - i,
    {
        out.push(s.get_char(i));
        i = i + 1;
        assert(out@ =~= s@.subrange(0, i as int));
    }
    assert(out@ =~= s@);
    out
}

/// Whether the characters in `v` from `start` on equal `lit`.
pub fn chars_eq_from(v: &Vec<char>, start: usize, lit: &str) -> (r: bool)
    requires
        start <= v@.len(),
    ensures
        r == (v@.subrange(start as int, v@.len() as int) == lit@),
{
    let n = lit.unicode_len();
    if v.len() - start != n {
        proof {
            assert(v@.subrange(start as int, v@.len() as int).len() != lit@.len());
        }
        return false;
    }
    let len = v.len();
    let mut i: usize = 0;
    while i < n
        invariant
            n == lit@.len(),
            len == v@.len(),
            start + n == len,
            i <= n,
            forall|j: int| 0 <= j < i ==> v@[start + j] == lit@[j],
        decreases n - i,
    {
        if v[start + i] != lit.get_char(i) {
            proof {
                assert(v@.subrange(start as int, v@.len() as int)[i as int] != lit@[i as int]);
            }
            return false;
        }
        i = i + 1;
    }
    assert(v@.subrange(start as int, v@.len() as int) =~= lit@);
    true
}

/// Whether `v` equals `lit`.
pub fn chars_eq(v: &Vec<char>, lit: &str) -> (r: bool)
    ensures
        r == (v@ == lit@),
{
    let r = chars_eq_from(v, 0, lit);
    assert(v@.subrange(0, v@.len() as int) =~= v@);
    r
}

/// Whether `v` begins with `lit`.
pub fn chars_start_with(v: &Vec<char>, lit: &str) -> (r: bool)
    ensures
        r == (lit@.len() <= v@.len() && v@.subrange(0, lit@.len() as int) == lit@),
{
    let n = lit.unicode_len();
    if n > v.len() {
        return false;
    }
    let mut i: usize = 0;
    while i < n
        invariant
            n == lit@.len(),
            n <= v@.len(),
            i <= n,
            forall|j: int| 0 <= j < i ==> v@[j] == lit@[j],
        decreases n - i,
    {
        if v[i] != lit.get_char(i) {
            proof {
                assert(v@.subrange(0, n as int)[i as int] != lit@[i as int]);
            }
            return false;
        }
        i = i + 1;
    }
    assert(v@.subrange(0, n as int) =~= lit@);
    true
}

proof fn lemma_decimal_value_push(s: Seq<char>, c: char)
    ensures
        decimal_value(s.push(c)) == decimal_value(s) * 10 + digit_value(c),
{
    assert(s.push(c).drop_last() =~= s);
}

/// Parses `v[start..]` as an unsigned integer no larger than `max`, as `str::parse` does.
pub fn parse_uint_from(v: &Vec<char>, start: usize, max: u32) -> (r: Option<u32>)
    requires
        start <= v@.len(),
    ensures
        r matches Some(n) ==> parse_uint_spec(v@.subrange(start as int, v@.len() as int), max as nat)
            == Some(n as nat),
        r is None ==> parse_uint_spec(v@.subrange(start as int, v@.len() as int), max as nat)
            is None,
{
    let ghost s = v@.subrange(start as int, v@.len() as int);
    let mut i = start;
    if i < v.len() && v[i] == '+' {
        i = i + 1;
    }
    let ghost body = v@.subrange(i as int, v@.len() as int);
    assert(body =~= (if s.len() > 0 && s[0] == '+' { s.drop_first() } else { s }));
    if i >= v.len() {
        return None;
    }
    let body_start = i;
    let mut acc: u32 = 0;
    while i < v.len()
        invariant
            body_start <= i <= v@.len(),
            body_start < v@.len(),
            body == v@.subrange(body_start as int, v@.len() as int),
            s == v@.subrange(start as int, v@.len() as int),
            parse_uint_spec(s, max as nat) == (if body.len() > 0 && all_digits(body)
                && decimal_value(body) <= max { Some(decimal_value(body)) } else { None }),
            all_digits(v@.subrange(body_start as int, i as int)),
            acc as nat == decimal_value(v@.subrange(body_start as int, i as int)),
            acc <= max,
        decreases v@.len() - i,
    {
        let c = v[i];
        if !('0' <= c && c <= '9') {
            proof {
                assert(body[(i - body_start) as int] == c);
            }
            return None;
        }
        let d: u32 = (c as u32) - ('0' as u32);
        proof {
            lemma_decimal_value_push(v@.subrange(body_start as int, i as int), c);
            assert(v@.subrange(body_start as int, i as int).push(c) =~= v@.subrange(
                body_start as int,
                i + 1,
            ));
        }
        if d > max || acc > (max - d) / 10 {
            proof {
                assert(acc * 10 + d > max) by (nonlinear_arith)
                    requires
                        d > max || acc > (max - d) / 10,
                ;
                assert(all_digits(v@.subrange(body_start as int, i + 1)));
                assert(body.subrange(0, (i + 1 - body_start) as int) =~= v@.subrange(
                    body_start as int,
                    i + 1,
                ));
                if all_digits(body) {
                    lemma_prefix_value_bound(body, (i + 1 - body_start) as nat);
                }
            }
            return None;
        }
        proof {
            assert(acc * 10 + d <= max) by (nonlinear_arith)
                requires
                    acc <= (max - d) / 10,
                    d <= 9,
            ;
        }
        acc = acc * 10 + d;
        i = i + 1;
    }
    assert(v@.subrange(body_start as int, i as int) =~= body);
    Some(acc)
}

/// A prefix of a digit string never has a larger value than the whole string.
proof fn lemma_prefix_value_bound(s: Seq<char>, k: nat)
    requires
        k <= s.len(),
        all_digits(s),
    ensures
        decimal_value(s.subrange(0, k as int)) <= decimal_value(s),
    decreases s.len(),
{
    if k < s.len() {
        let t = s.drop_last();
        assert(all_digits(t));
        lemma_prefix_value_bound(t, k);
        assert(t.subrange(0, k as int) =~= s.subrange(0, k as int));
        assert(decimal_value(t) <= decimal_value(s)) by (nonlinear_arith)
            requires
                decimal_value(s) == decimal_value(t) * 10 + digit_value(s.last()),
        ;
    } else {
        assert(s.subrange(0, k as int) =~= s);
    }
}

pub fn digit_str(d: u32) -> (r: &'static str)
    requires
        d < 10,
    ensures
        r@ == seq![digit_char(d as nat)],
{
    if d == 0 {
        proof { reveal_strlit("0"); }
        "0"
    } else if d == 1 {
        proof { reveal_strlit("1"); }
        "1"
    } else if d == 2 {
        proof { reveal_strlit("2"); }
        "2"
    } else if d == 3 {
        proof { reveal_strlit("3"); }
        "3"
    } else if d == 4 {
        proof { reveal_strlit("4"); }
        "4"
    } else if d == 5 {
        proof { reveal_strlit("5"); }
        "5"
    } else if d == 6 {
        proof { reveal_strlit("6"); }
        "6"
    } else if d == 7 {
        proof { reveal_strlit("7"); }
        "7"
    } else if d == 8 {
        proof { reveal_strlit("8"); }
        "8"
    } else {
        proof { reveal_strlit("9"); }
        "9"
    }
}

pub fn hex_digit_str(d: u32) -> (r: &'static str)
    requires
        d < 16,
    ensures
        r@ == seq![hex_digit_char(d as nat)],
{
    if d < 10 {
        digit_str(d)
    } else if d == 10 {
        proof { reveal_strlit("a"); }
        "a"
    } else if d == 11 {
        proof { reveal_strlit("b"); }
        "b"
    } else if d == 12 {
        proof { reveal_strlit("c"); }
        "c"
    } else if d == 13 {
        proof { reveal_strlit("d"); }
        "d"
    } else if d == 14 {
        proof { reveal_strlit("e"); }
        "e"
    } else {
        proof { reveal_strlit("f"); }
        "f"
    }
}

/// Appends the decimal rendering of `n`.
pub fn push_decimal(out: &mut String, n: u32)
    ensures
        final(out)@ == old(out)@ + decimal_str(n as nat),
    decreases n,
{
    if n >= 10 {
        push_decimal(out, n / 10);
    }
    out.append(digit_str(n % 10));
    proof {
        if n >= 10 {
            assert(old(out)@ + decimal_str((n / 10) as nat) + seq![digit_char((n % 10) as nat)]
                =~= old(out)@ + decimal_str(n as nat));
        } else {
            assert(decimal_str(n as nat) == seq![digit_char(n as nat)]);
        }
    }
}

fn push_hex_digits(out: &mut String, n: u32)
    ensures
        final(out)@ == old(out)@ + hex_digits(n as nat),
    decreases n,
{
    if n >= 16 {
        push_hex_digits(out, n / 16);
    }
    out.append(hex_digit_str(n % 16));
    proof {
        if n >= 16 {
            assert(old(out)@ + hex_digits((n / 16) as nat) + seq![hex_digit_char((n % 16) as nat)]
                =~= old(out)@ + hex_digits(n as nat));
        }
    }
}

/// Appends the `{:#x}` rendering of `n`.
pub fn push_alt_hex(out: &mut String, n: u32)
    ensures
        final(out)@ == old(out)@ + alt_hex_str(n as nat),
{
    out.append("0x");
    proof { reveal_strlit("0x"); }
    push_hex_digits(out, n);
    assert(old(out)@ + "0x"@ + hex_digits(n as nat) =~= old(out)@ + alt_hex_str(n as nat));
}

proof fn lemma_digit_char_value(d: nat)
    requires
        d < 10,
    ensures
        is_digit(digit_char(d)),
        digit_value(digit_char(d)) == d,
        digit_char(d) != '+',
{
    let c = digit_char(d);
    assert((c as u32) == d + 48);
}

/// A decimal rendering consists of digits, does not begin with `+`, and has its value.
pub proof fn lemma_decimal_str_parses(n: nat)
    ensures
        decimal_str(n).len() > 0,
        all_digits(decimal_str(n)),
        decimal_value(decimal_str(n)) == n,
        decimal_str(n)[0] != '+',
    decreases n,
{
    lemma_digit_char_value((n % 10) as nat);
    if n < 10 {
        let s = decimal_str(n);
        assert(s.drop_last() =~= Seq::<char>::empty());
        assert(decimal_value(Seq::<char>::empty()) == 0);
        assert(decimal_value(s) == decimal_value(s.drop_last()) * 10 + digit_value(s.last()));
    } else {
        lemma_decimal_str_parses(n / 10);
        let s = decimal_str(n);
        let p = decimal_str(n / 10);
        assert(s.drop_last() =~= p);
        assert(s[0] == p[0]);
        assert(decimal_value(s) == decimal_value(p) * 10 + digit_value(s.last()));
        assert(n == (n / 10) * 10 + n % 10);
    }
}

/// Parsing the decimal rendering of a value that fits gives the value back.
pub proof fn lemma_parse_decimal_roundtrip(n: nat, max: nat)
    requires
        n <= max,
    ensures
        parse_uint_spec(decimal_str(n), max) == Some(n),
{
    lemma_decimal_str_parses(n);
}

/// Appends the decimal rendering of a `usize`.
pub fn push_decimal_usize(out: &mut String, n: usize)
    ensures
        final(out)@ == old(out)@ + decimal_str(n as nat),
    decreases n,
{
    if n >= 10 {
        push_decimal_usize(out, n / 10);
    }
    push_decimal_digit(out, (n % 10) as u32);
    proof {
        if n >= 10 {
            assert(old(out)@ + decimal_str((n / 10) as nat) + decimal_str((n % 10) as nat)
                =~= old(out)@ + decimal_str(n as nat));
        }
    }
}

fn push_decimal_digit(out: &mut String, d: u32)
    requires
        d < 10,
    ensures
        final(out)@ == old(out)@ + decimal_str(d as nat),
{
    push_decimal(out, d);
}

} // verus!
