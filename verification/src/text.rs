//! Character-level building blocks shared by the message and table code:
//! decimal rendering of integers, padding and repetition.
use vstd::prelude::*;
use vstd::std_specs::iter::IteratorSpec;

verus! {

/// The decimal digit `d` (for `d < 10`) as a character.
pub open spec fn digit_char(d: nat) -> char {
    if d == 0 {
        '0'
    } else if d == 1 {
        '1'
    } else if d == 2 {
        '2'
    } else if d == 3 {
        '3'
    } else if d == 4 {
        '4'
    } else if d == 5 {
        '5'
    } else if d == 6 {
        '6'
    } else if d == 7 {
        '7'
    } else if d == 8 {
        '8'
    } else {
        '9'
    }
}

/// The decimal representation of a natural number, without leading zeros.
pub open spec fn decimal(n: nat) -> Seq<char>
    decreases n,
{
    if n < 10 {
        seq![digit_char(n)]
    } else {
        decimal(n / 10).push(digit_char(n % 10))
    }
}

/// The decimal representation of an integer: a minus sign before the digits
/// of a negative number, as `Display` writes it.
pub open spec fn signed_decimal(n: int) -> Seq<char> {
    if n < 0 {
        seq!['-'] + decimal((-n) as nat)
    } else {
        decimal(n as nat)
    }
}

/// Ten to the power `k`.
pub open spec fn pow10(k: nat) -> nat
    decreases k,
{
    if k == 0 {
        1
    } else {
        10 * pow10((k - 1) as nat)
    }
}

/// A number below `10^k` has at most `k` digits.
pub proof fn lemma_decimal_len(n: nat, k: nat)
    requires
        1 <= k,
        n < pow10(k),
    ensures
        decimal(n).len() <= k,
    decreases k,
{
    if n >= 10 {
        assert(k >= 2) by {
            if k == 1 {
                assert(pow10(1) == 10 * pow10(0));
            }
        }
        assert(n / 10 < pow10((k - 1) as nat));
        lemma_decimal_len(n / 10, (k - 1) as nat);
    }
}

/// The decimal form of an `i64` has at most twenty characters.
pub proof fn lemma_signed_decimal_len(n: i64)
    ensures
        signed_decimal(n as int).len() <= 20,
{
    reveal_with_fuel(pow10, 20);
    assert(pow10(19) == 10000000000000000000);
    if n < 0 {
        lemma_decimal_len((-(n as int)) as nat, 19);
    } else {
        lemma_decimal_len(n as nat, 19);
    }
}

/// `n` copies of the character `c`.
pub open spec fn repeat_char(c: char, n: nat) -> Seq<char> {
    Seq::new(n, |_i: int| c)
}

/// `n` spaces.
pub open spec fn spaces(n: nat) -> Seq<char> {
    repeat_char(' ', n)
}

/// `s` centred in a field of `width` characters, with spaces on either
/// side; where the padding is odd the extra space goes to the right, and a
/// value at least as wide as the field is left as it is.
pub open spec fn centered(s: Seq<char>, width: nat) -> Seq<char> {
    let pad: nat = if width > s.len() {
        (width - s.len()) as nat
    } else {
        0
    };
    spaces(pad / 2) + s + spaces((pad - pad / 2) as nat)
}

/// The text in title case as the `titlecase` crate writes it (John
/// Gruber's style: small words kept lower case, words with inner capitals
/// and paths left alone, first and last words capitalised).
pub uninterp spec fn titlecase_of(s: Seq<char>) -> Seq<char>;

/// Title-cases a text.
///
/// Trusted: `titlecase::titlecase`, a function of its input alone (fixed
/// regular expressions and word lists, no locale); its result is named
/// `titlecase_of` and nothing more is claimed of it.
#[verifier::external_body]
pub(crate) fn title_case(s: &str) -> (t: String)
    ensures
        t@ == titlecase_of(s@),
{
    titlecase::titlecase(s)
}

/// Appends one character to a string.
///
/// Trusted: `String::push`, documented to append the given `char` to the
/// end of the string.
#[verifier::external_body]
pub(crate) fn push_char(out: &mut String, c: char)
    ensures
        final(out)@ == old(out)@.push(c),
{
    out.push(c);
}

/// The characters of a string, in order.
pub fn chars_of(s: &str) -> (v: Vec<char>)
    ensures
        v@ == s@,
{
    broadcast use vstd::string::group_string_axioms;

    let n = s.unicode_len();
    let mut it = s.chars();
    let mut v: Vec<char> = Vec::new();
    while v.len() < n
        invariant
            n == s@.len(),
            v@.len() <= n,
            it.obeys_prophetic_iter_laws(),
            it.remaining() == s@.skip(v@.len() as int),
            v@ == s@.take(v@.len() as int),
        decreases n - v@.len(),
    {
        let next = it.next();
        match next {
            Some(c) => {
                assert(s@.skip(v@.len() as int)[0] == s@[v@.len() as int]);
                assert(s@.skip(v@.len() as int).drop_first() =~= s@.skip(v@.len() as int + 1));
                v.push(c);
                assert(v@ =~= s@.take(v@.len() as int));
            },
            None => {
                assert(false);
            },
        }
    }
    assert(v@ =~= s@);
    v
}

/// True for the characters `0` to `9`.
pub open spec fn is_ascii_digit(c: char) -> bool {
    48 <= c as int <= 57
}

/// True when every character is one of `0` to `9`.
pub open spec fn all_digits(ds: Seq<char>) -> bool {
    forall|i: int| 0 <= i < ds.len() ==> is_ascii_digit(#[trigger] ds[i])
}

/// The number that a string of decimal digits denotes.
pub open spec fn digits_value(ds: Seq<char>) -> nat
    decreases ds.len(),
{
    if ds.len() == 0 {
        0
    } else {
        digits_value(ds.drop_last()) * 10 + (ds.last() as int - 48) as nat
    }
}

/// What parsing a string as an `i64` gives: an optional `+` or `-` sign
/// followed by one or more decimal digits and nothing else, whose value
/// lies in the range of `i64`; anything else is refused (`None`).
pub open spec fn parse_decimal_i64(s: Seq<char>) -> Option<i64> {
    let signed = s.len() > 0 && (s[0] == '-' || s[0] == '+');
    let negative = s.len() > 0 && s[0] == '-';
    let ds = if signed {
        s.drop_first()
    } else {
        s
    };
    let v: int = if negative {
        -(digits_value(ds) as int)
    } else {
        digits_value(ds) as int
    };
    if ds.len() > 0 && all_digits(ds) && i64::MIN <= v <= i64::MAX {
        Some(v as i64)
    } else {
        None
    }
}

/// The decimal form of a number is made of digits, starts with a digit,
/// and denotes the number.
pub proof fn lemma_decimal_digits(n: nat)
    ensures
        decimal(n).len() >= 1,
        all_digits(decimal(n)),
        digits_value(decimal(n)) == n,
    decreases n,
{
    let d = n % 10;
    assert(is_ascii_digit(digit_char(d)) && digit_char(d) as int - 48 == d);
    if n >= 10 {
        lemma_decimal_digits(n / 10);
        let s = decimal(n);
        assert(s.drop_last() =~= decimal(n / 10));
        assert forall|i: int| 0 <= i < s.len() implies is_ascii_digit(#[trigger] s[i]) by {
            if i < s.len() - 1 {
                assert(s[i] == decimal(n / 10)[i]);
            }
        }
        assert(s.last() == digit_char(d));
        assert(digits_value(s) == digits_value(decimal(n / 10)) * 10 + d);
        assert((n / 10) * 10 + d == n);
    } else {
        let s = decimal(n);
        assert(s.drop_last() =~= Seq::<char>::empty());
        assert(digits_value(s.drop_last()) == 0);
        assert(s.last() == digit_char(d));
        assert(d == n);
    }
}

/// Law: reading back the decimal form of an `i64` gives the same number.
pub proof fn law_parse_reads_back_decimal(n: i64)
    ensures
        parse_decimal_i64(signed_decimal(n as int)) == Some(n),
{
    let s = signed_decimal(n as int);
    if n < 0 {
        let m = (-(n as int)) as nat;
        lemma_decimal_digits(m);
        assert(s.drop_first() =~= decimal(m));
    } else {
        lemma_decimal_digits(n as nat);
        assert(is_ascii_digit(s[0]));
    }
}

/// Dropping digits from the end of a string of digits never makes its value larger.
pub proof fn lemma_digits_value_prefix(ds: Seq<char>, k: int)
    requires
        all_digits(ds),
        0 <= k <= ds.len(),
    ensures
        digits_value(ds.take(k)) <= digits_value(ds),
    decreases ds.len(),
{
    if k < ds.len() {
        let prev = ds.drop_last();
        assert(all_digits(prev)) by {
            assert forall|i: int| 0 <= i < prev.len() implies is_ascii_digit(#[trigger] prev[i]) by {
                assert(prev[i] == ds[i]);
            }
        }
        lemma_digits_value_prefix(prev, k);
        assert(prev.take(k) =~= ds.take(k));
        assert(is_ascii_digit(ds[ds.len() - 1]));
    } else {
        assert(ds.take(k) =~= ds);
    }
}

/// Parses a string as a decimal `i64`, as `str::parse::<i64>` does.
pub fn parse_i64(s: &str) -> (r: Option<i64>)
    ensures
        r == parse_decimal_i64(s@),
{
    let cs = chars_of(s);
    let n = cs.len();
    let ghost sq = s@;
    let signed = n > 0 && (cs[0] == '-' || cs[0] == '+');
    let negative = n > 0 && cs[0] == '-';
    let start: usize = if signed {
        1
    } else {
        0
    };
    let ghost ds = if signed {
        sq.drop_first()
    } else {
        sq
    };
    assert(ds =~= sq.skip(start as int));
    if start == n {
        return None;
    }
    let limit: u64 = 9223372036854775808u64;
    let mut acc: u64 = 0;
    let mut i: usize = start;
    while i < n
        invariant
            cs@ == sq,
            sq == s@,
            n == sq.len(),
            ds == (if sq.len() > 0 && (sq[0] == '-' || sq[0] == '+') {
                sq.drop_first()
            } else {
                sq
            }),
            start <= i <= n,
            ds == sq.skip(start as int),
            acc as nat == digits_value(ds.take(i - start)),
            acc <= limit,
            limit == 9223372036854775808u64,
            all_digits(ds.take(i - start)),
        decreases n - i,
    {
        let c = cs[i];
        assert(ds.take(i + 1 - start).drop_last() =~= ds.take(i - start));
        assert(ds.take(i + 1 - start).last() == c);
        if !(c >= '0' && c <= '9') {
            assert(!is_ascii_digit(ds[i - start]));
            return None;
        }
        let d: u64 = (c as u32 - 48) as u64;
        if acc > (limit - d) / 10 {
            proof {
                assert(digits_value(ds.take(i + 1 - start)) > limit);
                if all_digits(ds) {
                    lemma_digits_value_prefix(ds, i + 1 - start);
                }
            }
            return None;
        }
        acc = acc * 10 + d;
        i = i + 1;
        assert(all_digits(ds.take(i - start))) by {
            assert forall|j: int| 0 <= j < ds.take(i - start).len() implies is_ascii_digit(
                #[trigger] ds.take(i - start)[j],
            ) by {
                if j < i - 1 - start {
                    assert(ds.take(i - start)[j] == ds.take(i - 1 - start)[j]);
                }
            }
        }
    }
    assert(ds.take(n - start) =~= ds);
    if negative {
        if acc == limit {
            Some(i64::MIN)
        } else {
            Some(-(acc as i64))
        }
    } else if acc < limit {
        Some(acc as i64)
    } else {
        None
    }
}

/// The digit character for `d < 10`.
pub fn digit_to_char(d: u64) -> (c: char)
    requires
        d < 10,
    ensures
        c == digit_char(d as nat),
{
    if d == 0 {
        '0'
    } else if d == 1 {
        '1'
    } else if d == 2 {
        '2'
    } else if d == 3 {
        '3'
    } else if d == 4 {
        '4'
    } else if d == 5 {
        '5'
    } else if d == 6 {
        '6'
    } else if d == 7 {
        '7'
    } else if d == 8 {
        '8'
    } else {
        '9'
    }
}

/// Appends the decimal digits of `n` to `out`.
pub fn push_decimal(out: &mut String, n: u64)
    ensures
        final(out)@ == old(out)@ + decimal(n as nat),
    decreases n,
{
    if n < 10 {
        push_char(out, digit_to_char(n));
        assert(old(out)@.push(digit_char(n as nat)) =~= old(out)@ + decimal(n as nat));
    } else {
        push_decimal(out, n / 10);
        push_char(out, digit_to_char(n % 10));
        assert(decimal(n as nat) == decimal((n / 10) as nat).push(digit_char((n % 10) as nat)));
        assert(final(out)@ =~= old(out)@ + decimal(n as nat));
    }
}

/// Appends the decimal representation of a signed integer to `out`.
pub fn push_signed_decimal(out: &mut String, n: i64)
    ensures
        final(out)@ == old(out)@ + signed_decimal(n as int),
{
    if n < 0 {
        push_char(out, '-');
        let magnitude: u64 = if n == i64::MIN {
            9223372036854775808u64
        } else {
            (-n) as u64
        };
        push_decimal(out, magnitude);
        assert(final(out)@ =~= old(out)@ + signed_decimal(n as int));
    } else {
        push_decimal(out, n as u64);
    }
}

/// The decimal representation of an unsigned integer as a new string.
pub fn u64_to_decimal(n: u64) -> (s: String)
    ensures
        s@ == decimal(n as nat),
{
    let mut s = String::new();
    push_decimal(&mut s, n);
    assert(s@ =~= decimal(n as nat));
    s
}

/// The decimal representation of a signed integer as a new string.
pub fn i64_to_decimal(n: i64) -> (s: String)
    ensures
        s@ == signed_decimal(n as int),
{
    let mut s = String::new();
    push_signed_decimal(&mut s, n);
    assert(s@ =~= signed_decimal(n as int));
    s
}

/// Appends `n` copies of `c` to `out`.
pub fn push_repeated(out: &mut String, c: char, n: usize)
    ensures
        final(out)@ == old(out)@ + repeat_char(c, n as nat),
{
    let mut i: usize = 0;
    while i < n
        invariant
            i <= n,
            out@ == old(out)@ + repeat_char(c, i as nat),
        decreases n - i,
    {
        push_char(out, c);
        i = i + 1;
        assert(out@ =~= old(out)@ + repeat_char(c, i as nat));
    }
}

/// Appends `s` centred in a field of `width` characters.
pub fn push_centered(out: &mut String, s: &str, width: usize)
    ensures
        final(out)@ == old(out)@ + centered(s@, width as nat),
{
    let len = s.unicode_len();
    let pad: usize = if width > len {
        width - len
    } else {
        0
    };
    push_repeated(out, ' ', pad / 2);
    out.append(s);
    push_repeated(out, ' ', pad - pad / 2);
    assert(final(out)@ =~= old(out)@ + centered(s@, width as nat));
}

} // verus!
