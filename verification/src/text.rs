use vstd::prelude::*;
use vstd::string::*;

verus! {

/// Index of the first newline in `s`, or `s.len()` when none occurs.
pub open spec fn spec_line_end(s: Seq<char>) -> int
    decreases s.len(),
{
    if s.len() == 0 {
        0
    } else if s[0] == '\n' {
        0
    } else {
        1 + spec_line_end(s.drop_first())
    }
}

/// The first line of `s`: every character before the first newline, or all
/// of `s` when it holds no newline.
pub open spec fn spec_first_line(s: Seq<char>) -> Seq<char> {
    s.take(spec_line_end(s))
}

/// `spec_line_end` points at the first newline: everything before it is not
/// a newline, and it is a newline unless the line runs to the end.
pub proof fn lemma_line_end(s: Seq<char>)
    ensures
        0 <= spec_line_end(s) <= s.len(),
        forall|i: int| 0 <= i < spec_line_end(s) ==> s[i] != '\n',
        spec_line_end(s) < s.len() ==> s[spec_line_end(s)] == '\n',
    decreases s.len(),
{
    if s.len() == 0 {
    } else if s[0] == '\n' {
    } else {
        lemma_line_end(s.drop_first());
        assert forall|i: int| 0 <= i < spec_line_end(s) implies s[i] != '\n' by {
            if i > 0 {
                assert(s.drop_first()[i - 1] == s[i]);
            }
        }
    }
}

/// What follows the first line of `s` and its terminating newline; empty
/// when the first line runs to the end of `s`.
pub open spec fn spec_line_rest(s: Seq<char>) -> Seq<char> {
    if spec_line_end(s) < s.len() {
        s.skip(spec_line_end(s) + 1)
    } else {
        Seq::empty()
    }
}

/// `s` split at newlines, the way a line iterator sees it: a newline ends a
/// line, and a trailing newline does not open a final empty line.
pub open spec fn spec_lines(s: Seq<char>) -> Seq<Seq<char>>
    decreases s.len(),
    via spec_lines_decreases
{
    if s.len() == 0 {
        Seq::empty()
    } else {
        seq![spec_first_line(s)] + spec_lines(spec_line_rest(s))
    }
}

#[via_fn]
proof fn spec_lines_decreases(s: Seq<char>) {
    lemma_line_end(s);
}

/// Splitting off one newline-free line and its terminator prepends exactly
/// that line to the line split of the remainder.
pub proof fn lemma_lines_prepend(a: Seq<char>, rest: Seq<char>)
    requires
        forall|i: int| 0 <= i < a.len() ==> a[i] != '\n',
    ensures
        spec_lines(a + seq!['\n'] + rest) == seq![a] + spec_lines(rest),
{
    let s = a + seq!['\n'] + rest;
    lemma_line_end_at(s, a.len() as int);
    assert(spec_first_line(s) =~= a);
    assert(spec_line_rest(s) =~= rest);
}

/// A non-empty newline-free string is a single line.
pub proof fn lemma_lines_single(a: Seq<char>)
    requires
        a.len() > 0,
        forall|i: int| 0 <= i < a.len() ==> a[i] != '\n',
    ensures
        spec_lines(a) == seq![a],
{
    lemma_line_end_at(a, a.len() as int);
    assert(spec_first_line(a) =~= a);
    assert(spec_line_rest(a) =~= Seq::<char>::empty());
    assert(spec_lines(Seq::<char>::empty()) == Seq::<Seq<char>>::empty());
    assert(spec_lines(a) =~= seq![a]);
}

/// True when `c` is an ASCII decimal digit.
pub open spec fn spec_is_digit(c: char) -> bool {
    48 <= c as u32 <= 57
}

/// Numeric value of an ASCII decimal digit.
pub open spec fn spec_digit_val(c: char) -> nat
    recommends
        spec_is_digit(c),
{
    (c as u32 - 48) as nat
}

/// The ASCII digit character for a value below ten.
pub open spec fn spec_digit_char(d: nat) -> char
    recommends
        d < 10,
{
    if d == 0 {
        '0'
    } else if d == 1 {
        '1'
    } else if d == 2 {
        '2'
    } else if d == 3 {
        '3'
    } else if d == 4 {
        '4'
    } else if d == 5 {
        '5'
    } else if d == 6 {
        '6'
    } else if d == 7 {
        '7'
    } else if d == 8 {
        '8'
    } else {
        '9'
    }
}

/// True when every character of `s` is an ASCII decimal digit.
pub open spec fn spec_all_digits(s: Seq<char>) -> bool {
    forall|i: int| 0 <= i < s.len() ==> spec_is_digit(s[i])
}

/// Value of a string of decimal digits, most significant first.
pub open spec fn spec_digits_val(s: Seq<char>) -> nat
    decreases s.len(),
{
    if s.len() == 0 {
        0
    } else {
        spec_digits_val(s.drop_last()) * 10 + spec_digit_val(s.last())
    }
}

/// Decimal parse of an unsigned 16-bit number, with the same acceptance as
/// Rust's `u16` string parse: an optional leading plus sign, then one or
/// more ASCII digits, denoting a value of at most `u16::MAX`.
pub open spec fn spec_parse_u16(s: Seq<char>) -> Option<u16> {
    let t = if s.len() > 0 && s[0] == '+' {
        s.drop_first()
    } else {
        s
    };
    if t.len() > 0 && spec_all_digits(t) && spec_digits_val(t) <= u16::MAX {
        Some(spec_digits_val(t) as u16)
    } else {
        None
    }
}

/// The decimal digit string of `n`, without sign or leading zeros (a lone
/// zero for `n == 0`).
pub open spec fn spec_u16_digits(n: nat) -> Seq<char>
    decreases n,
{
    if n < 10 {
        seq![spec_digit_char(n)]
    } else {
        spec_u16_digits(n / 10).push(spec_digit_char(n % 10))
    }
}

/// Extending a digit string by one character multiplies its value by ten
/// and adds the new digit.
proof fn lemma_digits_val_step(s: Seq<char>, j: int)
    requires
        0 <= j < s.len(),
    ensures
        spec_digits_val(s.take(j + 1)) == spec_digits_val(s.take(j)) * 10 + spec_digit_val(s[j]),
{
    assert(s.take(j + 1).drop_last() =~= s.take(j));
    assert(s.take(j + 1).last() == s[j]);
}

/// The value of a prefix never exceeds the value of the whole digit
/// string.
proof fn lemma_digits_val_prefix_mono(s: Seq<char>, j: int)
    requires
        0 <= j <= s.len(),
    ensures
        spec_digits_val(s.take(j)) <= spec_digits_val(s),
    decreases s.len() - j,
{
    if j == s.len() {
        assert(s.take(j) =~= s);
    } else {
        lemma_digits_val_step(s, j);
        lemma_digits_val_prefix_mono(s, j + 1);
    }
}

/// True exactly when `prefix` is a prefix of `s`.
pub fn str_starts_with(s: &str, prefix: &str) -> (b: bool)
    ensures
        b == prefix@.is_prefix_of(s@),
{
    let n = prefix.unicode_len();
    let m = s.unicode_len();
    if m < n {
        return false;
    }
    let mut i: usize = 0;
    while i < n
        invariant
            i <= n,
            n == prefix@.len(),
            n <= s@.len(),
            forall|j: int| 0 <= j < i ==> s@[j] == prefix@[j],
        decreases n - i,
    {
        if s.get_char(i) != prefix.get_char(i) {
            proof {
                assert(!prefix@.is_prefix_of(s@)) by {
                    if prefix@.is_prefix_of(s@) {
                        assert(prefix@[i as int] == s@.subrange(0, n as int)[i as int]);
                    }
                }
            }
            return false;
        }
        i += 1;
    }
    proof {
        assert(prefix@ =~= s@.subrange(0, n as int));
    }
    true
}

/// Splits off the first line: `None` for the empty string, otherwise the
/// text before the first newline together with everything after that
/// newline (the empty string when the line runs to the end of `s`).
pub fn split_first_line<'a>(s: &'a str) -> (r: Option<(&'a str, &'a str)>)
    ensures
        r is Some <==> s@.len() > 0,
        r is Some ==> {
            let e = spec_line_end(s@);
            &&& (r->0).0@ == spec_first_line(s@)
            &&& (r->0).1@ == (if e < s@.len() {
                s@.skip(e + 1)
            } else {
                Seq::<char>::empty()
            })
        },
{
    let len = s.unicode_len();
    if len == 0 {
        return None;
    }
    let mut i: usize = 0;
    while i < len && s.get_char(i) != '\n'
        invariant
            i <= len,
            len == s@.len(),
            forall|j: int| 0 <= j < i ==> s@[j] != '\n',
        decreases len - i,
    {
        i += 1;
    }
    proof {
        lemma_line_end_at(s@, i as int);
    }
    let line = s.substring_char(0, i);
    let rest = if i < len {
        s.substring_char(i + 1, len)
    } else {
        s.substring_char(len, len)
    };
    proof {
        assert(rest@ =~= (if spec_line_end(s@) < s@.len() {
            s@.skip(spec_line_end(s@) + 1)
        } else {
            Seq::<char>::empty()
        }));
    }
    Some((line, rest))
}

/// An index before which no newline occurs, and which either sits on a
/// newline or at the end, is exactly `spec_line_end`.
pub proof fn lemma_line_end_at(s: Seq<char>, i: int)
    requires
        0 <= i <= s.len(),
        forall|j: int| 0 <= j < i ==> s[j] != '\n',
        i < s.len() ==> s[i] == '\n',
    ensures
        spec_line_end(s) == i,
    decreases s.len(),
{
    if s.len() == 0 {
    } else if s[0] == '\n' {
    } else {
        assert forall|j: int| 0 <= j < i - 1 implies s.drop_first()[j] != '\n' by {
            assert(s.drop_first()[j] == s[j + 1]);
        }
        lemma_line_end_at(s.drop_first(), i - 1);
    }
}

/// Parses a decimal unsigned 16-bit number, accepting exactly what
/// `spec_parse_u16` describes.
pub fn parse_u16(s: &str) -> (r: Option<u16>)
    ensures
        r == spec_parse_u16(s@),
{
    let len = s.unicode_len();
    let start: usize = if len > 0 && s.get_char(0) == '+' {
        1
    } else {
        0
    };
    let ghost t = if s@.len() > 0 && s@[0] == '+' {
        s@.drop_first()
    } else {
        s@
    };
    proof {
        assert(t =~= s@.skip(start as int));
    }
    if start >= len {
        return None;
    }
    let mut i: usize = start;
    let mut val: u32 = 0;
    while i < len
        invariant
            start <= i <= len,
            len == s@.len(),
            start <= 1,
            t == s@.skip(start as int),
            t == (if s@.len() > 0 && s@[0] == '+' {
                s@.drop_first()
            } else {
                s@
            }),
            forall|j: int| 0 <= j < i - start ==> spec_is_digit(t[j]),
            val == spec_digits_val(t.take(i - start)),
            val <= u16::MAX,
        decreases len - i,
    {
        let c = s.get_char(i);
        proof {
            assert(t[i - start] == s@[i as int]);
        }
        let u = c as u32;
        if u < 48 || u > 57 {
            proof {
                assert(!spec_all_digits(t)) by {
                    if spec_all_digits(t) {
                        assert(spec_is_digit(t[i - start]));
                    }
                }
            }
            return None;
        }
        proof {
            lemma_digits_val_step(t, i - start);
        }
        val = val * 10 + (u - 48);
        i += 1;
        if val > 65535 {
            proof {
                lemma_digits_val_prefix_mono(t, i - start);
            }
            return None;
        }
    }
    proof {
        assert(t.take(i - start) =~= t);
    }
    Some(val as u16)
}

/// The single-character string for a decimal digit.
fn digit_to_str(d: u16) -> (r: &'static str)
    requires
        d < 10,
    ensures
        r@ == seq![spec_digit_char(d as nat)],
{
    if d == 0 {
        let r = "0";
        proof {
            reveal_strlit("0");
            assert(r@ =~= seq![spec_digit_char(d as nat)]);
        }
        r
    } else if d == 1 {
        let r = "1";
        proof {
            reveal_strlit("1");
            assert(r@ =~= seq![spec_digit_char(d as nat)]);
        }
        r
    } else if d == 2 {
        let r = "2";
        proof {
            reveal_strlit("2");
            assert(r@ =~= seq![spec_digit_char(d as nat)]);
        }
        r
    } else if d == 3 {
        let r = "3";
        proof {
            reveal_strlit("3");
            assert(r@ =~= seq![spec_digit_char(d as nat)]);
        }
        r
    } else if d == 4 {
        let r = "4";
        proof {
            reveal_strlit("4");
            assert(r@ =~= seq![spec_digit_char(d as nat)]);
        }
        r
    } else if d == 5 {
        let r = "5";
        proof {
            reveal_strlit("5");
            assert(r@ =~= seq![spec_digit_char(d as nat)]);
        }
        r
    } else if d == 6 {
        let r = "6";
        proof {
            reveal_strlit("6");
            assert(r@ =~= seq![spec_digit_char(d as nat)]);
        }
        r
    } else if d == 7 {
        let r = "7";
        proof {
            reveal_strlit("7");
            assert(r@ =~= seq![spec_digit_char(d as nat)]);
        }
        r
    } else if d == 8 {
        let r = "8";
        proof {
            reveal_strlit("8");
            assert(r@ =~= seq![spec_digit_char(d as nat)]);
        }
        r
    } else {
        let r = "9";
        proof {
            reveal_strlit("9");
            assert(r@ =~= seq![spec_digit_char(d as nat)]);
        }
        r
    }
}

/// Renders `n` as its decimal digit string.
pub fn u16_to_string(n: u16) -> (r: String)
    ensures
        r@ == spec_u16_digits(n as nat),
    decreases n,
{
    if n < 10 {
        digit_to_str(n).to_owned()
    } else {
        let rest = u16_to_string(n / 10);
        let r = rest.concat(digit_to_str(n % 10));
        proof {
            assert(r@ =~= spec_u16_digits(n as nat));
        }
        r
    }
}

/// The digit string of a number consists of digits, is never empty, and
/// denotes the number itself.
pub proof fn lemma_u16_digits_props(n: nat)
    ensures
        spec_u16_digits(n).len() >= 1,
        spec_all_digits(spec_u16_digits(n)),
        spec_digits_val(spec_u16_digits(n)) == n,
    decreases n,
{
    if n < 10 {
        let s = spec_u16_digits(n);
        assert(s.drop_last() =~= Seq::<char>::empty());
        assert(spec_digits_val(s.drop_last()) == 0);
        assert(spec_digits_val(s) == spec_digit_val(spec_digit_char(n)));
    } else {
        lemma_u16_digits_props(n / 10);
        let p = spec_u16_digits(n / 10);
        let s = spec_u16_digits(n);
        assert(s.drop_last() =~= p);
        assert(spec_digits_val(s) == spec_digits_val(p) * 10 + spec_digit_val(
            spec_digit_char(n % 10),
        ));
        assert forall|i: int| 0 <= i < s.len() implies spec_is_digit(s[i]) by {
            if i < p.len() {
                assert(s[i] == p[i]);
            }
        }
    }
}

/// Parsing the rendered digit string of a 16-bit number gives the number
/// back: rendering and parsing round-trip.
pub proof fn lemma_parse_u16_roundtrip(n: u16)
    ensures
        spec_parse_u16(spec_u16_digits(n as nat)) == Some(n),
{
    lemma_u16_digits_props(n as nat);
    let s = spec_u16_digits(n as nat);
    assert(spec_is_digit(s[0]));
    assert(s[0] != '+');
}

} // verus!
