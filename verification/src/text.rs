//! Conversions between bytes and text that the wire protocol needs.

use vstd::prelude::*;
use vstd::utf8::*;

verus! {

/// Calls `String::from_utf8`: the bytes become a `String` exactly when they
/// are valid UTF-8, and then its characters are the ones they encode.
#[verifier::external_body]
pub(crate) fn string_from_utf8(bytes: Vec<u8>) -> (res: Option<String>)
    ensures
        res is Some <==> valid_utf8(bytes@),
        res matches Some(s) ==> s@ == decode_utf8(bytes@),
{
    String::from_utf8(bytes).ok()
}

/// The UTF-8 bytes of a string, as a vector.
pub fn utf8_bytes(s: &str) -> (res: Vec<u8>)
    ensures
        res@ == encode_utf8(s@),
{
    vstd::slice::slice_to_vec(s.as_bytes())
}

/// Whether `c` is one of the ASCII digits `0` to `9`.
pub open spec fn is_ascii_digit(c: char) -> bool {
    '0' <= c && c <= '9'
}

/// The value of a string of decimal digits.
pub open spec fn digits_value(s: Seq<char>) -> int
    decreases s.len(),
{
    if s.len() == 0 {
        0
    } else {
        digits_value(s.drop_last()) * 10 + (s.last() as int - '0' as int)
    }
}

/// How `str::parse::<i32>` reads a text: a signed decimal number that fits
/// an `i32`.
pub open spec fn parse_i32_spec(s: Seq<char>) -> Option<i32> {
    match signed_decimal_value(s) {
        Some(v) => if i32::MIN <= v <= i32::MAX {
            Some(v as i32)
        } else {
            None
        },
        None => None,
    }
}

/// The number a text spells as an `i32`, as `str::parse::<i32>` reads it,
/// or `None` where that reports an error.
pub fn parse_i32(s: &str) -> (res: Option<i32>)
    ensures
        res == parse_i32_spec(s@),
{
    match parse_i64(s) {
        Some(v) => {
            if i32::MIN as i64 <= v && v <= i32::MAX as i64 {
                Some(v as i32)
            } else {
                None
            }
        },
        None => None,
    }
}

/// Whether every character of `s` is an ASCII digit.
pub open spec fn all_digits(s: Seq<char>) -> bool {
    forall|i: int| 0 <= i < s.len() ==> is_ascii_digit(#[trigger] s[i])
}

/// The text after an optional leading sign.
pub open spec fn unsigned_part(s: Seq<char>) -> Seq<char> {
    if s.len() > 0 && (s[0] == '-' || s[0] == '+') {
        s.drop_first()
    } else {
        s
    }
}

/// The value a text spells as an optional `+` or `-` followed by at least
/// one decimal digit and nothing else, or `None` for any other text.
pub open spec fn signed_decimal_value(s: Seq<char>) -> Option<int> {
    let digits = unsigned_part(s);
    if digits.len() > 0 && all_digits(digits) {
        if s[0] == '-' {
            Some(-digits_value(digits))
        } else {
            Some(digits_value(digits))
        }
    } else {
        None
    }
}

/// How `str::parse::<i64>` reads a text: a signed decimal number that fits
/// an `i64`.
pub open spec fn parse_i64_spec(s: Seq<char>) -> Option<i64> {
    match signed_decimal_value(s) {
        Some(v) => if i64::MIN <= v <= i64::MAX {
            Some(v as i64)
        } else {
            None
        },
        None => None,
    }
}

/// The magnitude just past the largest an `i64` can hold, `2^63`.
pub const I64_MAGNITUDE: u64 = 0x8000_0000_0000_0000;

proof fn lemma_digits_value_nonnegative(t: Seq<char>)
    requires
        all_digits(t),
    ensures
        digits_value(t) >= 0,
    decreases t.len(),
{
    if t.len() > 0 {
        assert(all_digits(t.drop_last())) by {
            assert forall|i: int| 0 <= i < t.drop_last().len() implies is_ascii_digit(
                #[trigger] t.drop_last()[i],
            ) by {
                assert(t.drop_last()[i] == t[i]);
            }
        }
        lemma_digits_value_nonnegative(t.drop_last());
        assert(is_ascii_digit(t[t.len() - 1]));
    }
}

/// Appending digits never makes a number smaller.
proof fn lemma_digits_value_grows(t: Seq<char>, k: int)
    requires
        all_digits(t),
        0 <= k <= t.len(),
    ensures
        digits_value(t) >= digits_value(t.subrange(0, k)),
    decreases t.len() - k,
{
    if k < t.len() {
        let u = t.subrange(0, k + 1);
        assert(all_digits(u)) by {
            assert forall|i: int| 0 <= i < u.len() implies is_ascii_digit(#[trigger] u[i]) by {
                assert(u[i] == t[i]);
            }
        }
        lemma_digits_value_nonnegative(t.subrange(0, k));
        assert(u.drop_last() =~= t.subrange(0, k));
        assert(is_ascii_digit(u.last()));
        lemma_digits_value_grows(t, k + 1);
    } else {
        assert(t.subrange(0, k) =~= t);
    }
}

/// The number a text spells as an `i64`, as `str::parse::<i64>` reads it:
/// an optional sign and at least one decimal digit, in range; `None` where
/// that reports an error.
pub fn parse_i64(s: &str) -> (res: Option<i64>)
    ensures
        res == parse_i64_spec(s@),
{
    let n = s.unicode_len();
    let mut start: usize = 0;
    let mut neg = false;
    if n > 0 {
        let c = s.get_char(0);
        if c == '-' {
            neg = true;
            start = 1;
        } else if c == '+' {
            start = 1;
        }
    }
    let ghost digits = unsigned_part(s@);
    assert(digits =~= s@.subrange(start as int, n as int));
    if start >= n {
        return None;
    }
    let mut v: u64 = 0;
    let mut i: usize = start;
    assert(s@.subrange(start as int, start as int) =~= Seq::<char>::empty());
    while i < n
        invariant
            n == s@.len(),
            start <= i <= n,
            digits == unsigned_part(s@),
            digits == s@.subrange(start as int, n as int),
            v as int == digits_value(s@.subrange(start as int, i as int)),
            all_digits(s@.subrange(start as int, i as int)),
            v <= I64_MAGNITUDE,
        decreases n - i,
    {
        let c = s.get_char(i);
        let ghost before = s@.subrange(start as int, i as int);
        let ghost after = s@.subrange(start as int, i + 1);
        assert(after.drop_last() =~= before);
        assert(after.last() == c);
        assert(after[(i - start) as int] == c);
        if !('0' <= c && c <= '9') {
            assert(digits[(i - start) as int] == c);
            assert(!all_digits(digits));
            return None;
        }
        let d: u64 = (c as u32 - '0' as u32) as u64;
        let next: u128 = v as u128 * 10 + d as u128;
        assert(all_digits(after)) by {
            assert forall|j: int| 0 <= j < after.len() implies is_ascii_digit(#[trigger] after[j]) by {
                if j < before.len() {
                    assert(after[j] == before[j]);
                }
            }
        }
        assert(next == digits_value(after));
        if next > I64_MAGNITUDE as u128 {
            proof {
                if all_digits(digits) {
                    assert(after =~= digits.subrange(0, (i + 1 - start) as int));
                    lemma_digits_value_grows(digits, (i + 1 - start) as int);
                }
            }
            return None;
        }
        v = next as u64;
        i = i + 1;
    }
    assert(s@.subrange(start as int, n as int) =~= digits);
    if neg {
        assert(s@[0] == '-');
        if v == I64_MAGNITUDE {
            Some(i64::MIN)
        } else {
            Some(0 - (v as i64))
        }
    } else {
        if v > i64::MAX as u64 {
            None
        } else {
            Some(v as i64)
        }
    }
}

/// Whether `c` is white space in the sense of `char::is_whitespace`: it has
/// the Unicode property White_Space.
pub open spec fn is_white_space(c: char) -> bool {
    ||| '\t' <= c <= '\r'
    ||| c == ' '
    ||| c == '\u{85}'
    ||| c == '\u{a0}'
    ||| c == '\u{1680}'
    ||| '\u{2000}' <= c <= '\u{200a}'
    ||| c == '\u{2028}'
    ||| c == '\u{2029}'
    ||| c == '\u{202f}'
    ||| c == '\u{205f}'
    ||| c == '\u{3000}'
}

/// The words of `s`, read from the left after the partial word `current`:
/// the maximal runs of characters that are not white space, in order.
pub open spec fn split_words(s: Seq<char>, current: Seq<char>) -> Seq<Seq<char>>
    decreases s.len(),
{
    let done: Seq<Seq<char>> = if current.len() > 0 {
        seq![current]
    } else {
        Seq::empty()
    };
    if s.len() == 0 {
        done
    } else if is_white_space(s[0]) {
        done + split_words(s.drop_first(), Seq::empty())
    } else {
        split_words(s.drop_first(), current.push(s[0]))
    }
}

/// The words `str::split_whitespace` yields for a text, in order.
pub open spec fn whitespace_words(s: Seq<char>) -> Seq<Seq<char>> {
    split_words(s, Seq::empty())
}

/// Whether `c` is white space, as `char::is_whitespace` tells.
pub fn is_whitespace_char(c: char) -> (res: bool)
    ensures
        res == is_white_space(c),
{
    ('\t' <= c && c <= '\r') || c == ' ' || c == '\u{85}' || c == '\u{a0}' || c == '\u{1680}'
        || ('\u{2000}' <= c && c <= '\u{200a}') || c == '\u{2028}' || c == '\u{2029}' || c
        == '\u{202f}' || c == '\u{205f}' || c == '\u{3000}'
}

/// The words of a text, as `str::split_whitespace` yields them: the maximal
/// runs of characters that are not white space, in order.
pub fn split_whitespace(s: &str) -> (res: Vec<String>)
    ensures
        res@.map_values(|w: String| w@) == whitespace_words(s@),
{
    let n = s.unicode_len();
    let mut out: Vec<String> = Vec::new();
    let mut start: usize = 0;
    let mut in_word = false;
    let mut i: usize = 0;
    assert(s@.subrange(0, n as int) =~= s@);
    assert(s@.subrange(0, 0) =~= Seq::<char>::empty());
    assert(out@.map_values(|w: String| w@) + whitespace_words(s@) =~= whitespace_words(s@));
    while i < n
        invariant
            n == s@.len(),
            i <= n,
            start <= i,
            !in_word ==> start == i,
            in_word ==> start < i,
            out@.map_values(|w: String| w@) + split_words(
                s@.subrange(i as int, n as int),
                s@.subrange(start as int, i as int),
            ) == whitespace_words(s@),
        decreases n - i,
    {
        let c = s.get_char(i);
        let ghost rest = s@.subrange(i as int, n as int);
        let ghost cur = s@.subrange(start as int, i as int);
        let ghost done = out@.map_values(|w: String| w@);
        assert(rest[0] == c);
        assert(rest.drop_first() =~= s@.subrange(i + 1, n as int));
        if is_whitespace_char(c) {
            let ghost after = split_words(rest.drop_first(), Seq::empty());
            if in_word {
                assert(cur.len() > 0);
                assert(split_words(rest, cur) == seq![cur] + after);
                let w = String::from_str(s.substring_char(start, i));
                out.push(w);
                assert(out@.map_values(|w: String| w@) =~= done + seq![cur]);
                assert(done + (seq![cur] + after) =~= (done + seq![cur]) + after);
            } else {
                assert(cur =~= Seq::<char>::empty());
                assert(split_words(rest, cur) == Seq::<Seq<char>>::empty() + after);
                assert(Seq::<Seq<char>>::empty() + after =~= after);
            }
            in_word = false;
            start = i + 1;
            assert(s@.subrange(start as int, i + 1) =~= Seq::<char>::empty());
        } else {
            if !in_word {
                start = i;
                in_word = true;
                assert(cur =~= Seq::<char>::empty());
            }
            assert(split_words(rest, cur) == split_words(rest.drop_first(), cur.push(c)));
            assert(cur.push(c) =~= s@.subrange(start as int, i + 1));
        }
        i = i + 1;
    }
    let ghost cur = s@.subrange(start as int, n as int);
    let ghost done = out@.map_values(|w: String| w@);
    assert(s@.subrange(n as int, n as int) =~= Seq::<char>::empty());
    if in_word {
        assert(split_words(Seq::<char>::empty(), cur) == seq![cur]);
        let w = String::from_str(s.substring_char(start, n));
        out.push(w);
        assert(out@.map_values(|w: String| w@) =~= done + seq![cur]);
    } else {
        assert(cur =~= Seq::<char>::empty());
        assert(split_words(Seq::<char>::empty(), cur) == Seq::<Seq<char>>::empty());
        assert(done + Seq::<Seq<char>>::empty() =~= done);
    }
    out
}

/// The digit character for `d`, which is below 10.
pub open spec fn digit_char(d: int) -> char
    recommends
        0 <= d < 10,
{
    ('0' as int + d) as char
}

/// The decimal digits of `n`, most significant first, without leading zeros.
pub open spec fn digits_of(n: nat) -> Seq<char>
    decreases n,
{
    if n < 10 {
        seq![digit_char(n as int)]
    } else {
        digits_of(n / 10).push(digit_char((n % 10) as int))
    }
}

/// How `i64`'s `Display` writes `n`: a minus sign for a negative number,
/// then the decimal digits of its magnitude.
pub open spec fn decimal_of(n: int) -> Seq<char> {
    if n < 0 {
        seq!['-'] + digits_of((-n) as nat)
    } else {
        digits_of(n as nat)
    }
}

/// The one-character text of the digit `d`.
fn digit_str(d: u64) -> (res: &'static str)
    requires
        d < 10,
    ensures
        res@ == seq![digit_char(d as int)],
{
    proof {
        reveal_strlit("0");
        reveal_strlit("1");
        reveal_strlit("2");
        reveal_strlit("3");
        reveal_strlit("4");
        reveal_strlit("5");
        reveal_strlit("6");
        reveal_strlit("7");
        reveal_strlit("8");
        reveal_strlit("9");
    }
    let res = if d == 0 {
        "0"
    } else if d == 1 {
        "1"
    } else if d == 2 {
        "2"
    } else if d == 3 {
        "3"
    } else if d == 4 {
        "4"
    } else if d == 5 {
        "5"
    } else if d == 6 {
        "6"
    } else if d == 7 {
        "7"
    } else if d == 8 {
        "8"
    } else {
        "9"
    };
    assert(res@ =~= seq![digit_char(d as int)]);
    res
}

/// Appends the decimal digits of `n` to `out`.
fn append_digits(out: &mut String, n: u64)
    ensures
        final(out)@ == old(out)@ + digits_of(n as nat),
    decreases n,
{
    if n >= 10 {
        append_digits(out, n / 10);
    }
    out.append(digit_str(n % 10));
    proof {
        if n >= 10 {
            assert(digits_of(n as nat) == digits_of((n / 10) as nat).push(digit_char((n % 10) as int)));
        }
        assert(old(out)@ + digits_of(n as nat) =~= final(out)@) by {
            if n >= 10 {
                assert(seq![digit_char((n % 10) as int)] =~= seq![digit_char((n % 10) as int)]);
            }
        }
    }
}

/// The decimal text of `n`, as `i64::to_string` writes it.
pub fn decimal_text(n: i64) -> (res: String)
    ensures
        res@ == decimal_of(n as int),
{
    let mut out = String::new();
    if n < 0 {
        proof {
            reveal_strlit("-");
        }
        out.append("-");
        let magnitude: u64 = (0i128 - n as i128) as u64;
        append_digits(&mut out, magnitude);
    } else {
        append_digits(&mut out, n as u64);
    }
    out
}

proof fn lemma_digits_of(n: nat)
    ensures
        digits_of(n).len() > 0,
        forall|i: int| 0 <= i < digits_of(n).len() ==> is_ascii_digit(#[trigger] digits_of(n)[i]),
        digits_value(digits_of(n)) == n,
    decreases n,
{
    let k = (n % 10) as int;
    assert(digit_char(k) as int == '0' as int + k);
    if n < 10 {
        let one = seq![digit_char(n as int)];
        assert(one.drop_last() =~= Seq::<char>::empty());
        assert(digits_value(Seq::<char>::empty()) == 0);
        assert(one.last() == digit_char(n as int));
        assert(digits_value(one) == digits_value(one.drop_last()) * 10 + (one.last() as int
            - '0' as int));
    } else {
        lemma_digits_of(n / 10);
        let d = digits_of(n / 10);
        assert(digits_of(n).drop_last() =~= d);
        assert(digits_of(n).last() == digit_char(k));
        assert(digits_value(digits_of(n)) == digits_value(d) * 10 + k);
        assert((n / 10) * 10 + k == n);
        assert forall|i: int| 0 <= i < digits_of(n).len() implies is_ascii_digit(
            #[trigger] digits_of(n)[i],
        ) by {
            if i < d.len() {
                assert(digits_of(n)[i] == d[i]);
            }
        }
    }
}

/// Reading back the decimal text of a number gives the number: what
/// `decimal_text` writes, `str::parse::<i64>` reads as the same value.
pub proof fn lemma_decimal_roundtrip(n: i64)
    ensures
        parse_i64_spec(decimal_of(n as int)) == Some(n),
{
    let s = decimal_of(n as int);
    if n < 0 {
        let m = (-n) as nat;
        lemma_digits_of(m);
        assert(s.drop_first() =~= digits_of(m));
        assert(s[0] == '-');
    } else {
        lemma_digits_of(n as nat);
        assert(is_ascii_digit(s[0]));
    }
}

/// Reading a text whose start has no white space carries that start over
/// into the word being read.
pub proof fn lemma_split_words_run(w: Seq<char>, rest: Seq<char>, current: Seq<char>)
    requires
        forall|i: int| 0 <= i < w.len() ==> !is_white_space(#[trigger] w[i]),
    ensures
        split_words(w + rest, current) == split_words(rest, current + w),
    decreases w.len(),
{
    if w.len() == 0 {
        assert(w + rest =~= rest);
        assert(current + w =~= current);
    } else {
        assert((w + rest)[0] == w[0]);
        assert((w + rest).drop_first() =~= w.drop_first() + rest);
        lemma_split_words_run(w.drop_first(), rest, current.push(w[0]));
        assert(current.push(w[0]) + w.drop_first() =~= current + w);
    }
}

/// The decimal text of a number followed by one space is one word, and is
/// not itself a number.
pub proof fn lemma_decimal_word(n: i64)
    ensures
        whitespace_words(decimal_of(n as int) + seq![' ']) == seq![decimal_of(n as int)],
        parse_i64_spec(decimal_of(n as int) + seq![' ']) is None,
{
    let d = decimal_of(n as int);
    let m: nat = if n < 0 {
        (-n) as nat
    } else {
        n as nat
    };
    lemma_digits_of(m);
    assert forall|i: int| 0 <= i < d.len() implies !is_white_space(#[trigger] d[i]) by {
        if n < 0 {
            if i > 0 {
                assert(d[i] == digits_of(m)[i - 1]);
            }
        } else {
            assert(is_ascii_digit(digits_of(m)[i]));
        }
    }
    lemma_split_words_run(d, seq![' '], Seq::empty());
    assert(Seq::<char>::empty() + d =~= d);
    assert(seq![' '].drop_first() =~= Seq::<char>::empty());
    assert(d.len() > 0);
    assert(split_words(seq![' '], d) == seq![d] + split_words(Seq::<char>::empty(), Seq::empty()));
    assert(seq![d] + Seq::<Seq<char>>::empty() =~= seq![d]);
    let t = d + seq![' '];
    let digits = unsigned_part(t);
    assert(digits[digits.len() - 1] == ' ');
    assert(!is_ascii_digit(digits[digits.len() - 1]));
    assert(!all_digits(digits));
}

} // verus!
