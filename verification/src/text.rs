//! Decimal text: rendering unsigned numbers, reading them back from bytes,
//! and splitting a byte string into fields at a separator.

use vstd::prelude::*;
use vstd::string::StringExecFns;

verus! {

/// The character for a decimal digit.
pub open spec fn digit_char(d: int) -> char {
    if d == 0 {
        '0'
    } else if d == 1 {
        '1'
    } else if d == 2 {
        '2'
    } else if d == 3 {
        '3'
    } else if d == 4 {
        '4'
    } else if d == 5 {
        '5'
    } else if d == 6 {
        '6'
    } else if d == 7 {
        '7'
    } else if d == 8 {
        '8'
    } else {
        '9'
    }
}

/// Whether a character is one of `0` to `9`.
pub open spec fn is_digit_char(c: char) -> bool {
    c == '0' || c == '1' || c == '2' || c == '3' || c == '4' || c == '5' || c == '6' || c == '7'
        || c == '8' || c == '9'
}

/// Whether every character of `s` is a decimal digit.
pub open spec fn all_digit_chars(s: Seq<char>) -> bool {
    forall|i: int| 0 <= i < s.len() ==> is_digit_char(#[trigger] s[i])
}

/// The decimal numeral of `n`: no sign, no padding, most significant digit first.
pub open spec fn decimal(n: nat) -> Seq<char>
    decreases n,
{
    if n < 10 {
        seq![digit_char(n as int)]
    } else {
        decimal(n / 10).push(digit_char((n % 10) as int))
    }
}

/// Whether a byte is an ASCII digit.
pub open spec fn is_digit(b: u8) -> bool {
    48 <= b <= 57
}

/// Whether every byte of `s` is an ASCII digit.
pub open spec fn all_digits(s: Seq<u8>) -> bool {
    forall|i: int| 0 <= i < s.len() ==> is_digit(#[trigger] s[i])
}

/// The number a digit byte stands for; zero for any other byte.
pub open spec fn digit_value(b: u8) -> nat {
    if is_digit(b) {
        (b - 48) as nat
    } else {
        0
    }
}

/// The number that a string of digit bytes denotes in base ten.
pub open spec fn digits_value(s: Seq<u8>) -> nat
    decreases s.len(),
{
    if s.len() == 0 {
        0
    } else {
        digits_value(s.drop_last()) * 10 + digit_value(s.last())
    }
}

/// The fields of `s` between occurrences of `sep`, in order. A string with
/// `k` separators has `k + 1` fields; fields may be empty.
pub open spec fn split(s: Seq<u8>, sep: u8) -> Seq<Seq<u8>>
    decreases s.len(),
{
    if s.len() == 0 {
        seq![Seq::<u8>::empty()]
    } else {
        let before = split(s.drop_last(), sep);
        if s.last() == sep {
            before.push(Seq::<u8>::empty())
        } else {
            before.drop_last().push(before.last().push(s.last()))
        }
    }
}

/// The byte strings held by a vector of fields.
pub open spec fn field_views(fields: Seq<Vec<u8>>) -> Seq<Seq<u8>> {
    Seq::new(fields.len(), |i: int| fields[i]@)
}

/// A decimal numeral is one or more digits and nothing else.
pub proof fn lemma_decimal_digits(n: nat)
    ensures
        decimal(n).len() >= 1,
        n >= 10 ==> decimal(n).len() >= 2,
        all_digit_chars(decimal(n)),
    decreases n,
{
    if n >= 10 {
        lemma_decimal_digits(n / 10);
        let front = decimal(n / 10);
        let last = digit_char((n % 10) as int);
        assert forall|i: int| 0 <= i < decimal(n).len() implies is_digit_char(
            #[trigger] decimal(n)[i],
        ) by {
            if i < front.len() {
                assert(decimal(n)[i] == front[i]);
            } else {
                assert(decimal(n)[i] == last);
            }
        }
    }
}

/// Different numbers have different decimal numerals.
pub proof fn lemma_decimal_injective(n: nat, m: nat)
    requires
        decimal(n) == decimal(m),
    ensures
        n == m,
    decreases n,
{
    lemma_decimal_digits(n);
    lemma_decimal_digits(m);
    if n < 10 && m < 10 {
        assert(decimal(n)[0] == digit_char(n as int));
        assert(decimal(m)[0] == digit_char(m as int));
        assert(n == m);
    } else if n >= 10 && m >= 10 {
        let a = decimal(n / 10);
        let b = decimal(m / 10);
        let x = digit_char((n % 10) as int);
        let y = digit_char((m % 10) as int);
        assert(decimal(n) == a.push(x));
        assert(decimal(m) == b.push(y));
        assert(a.push(x).drop_last() =~= a);
        assert(b.push(y).drop_last() =~= b);
        assert(a.push(x).last() == x);
        assert(b.push(y).last() == y);
        assert(a == b);
        assert(x == y);
        lemma_decimal_injective(n / 10, m / 10);
        assert(n % 10 == m % 10);
        assert(n == 10 * (n / 10) + n % 10);
        assert(m == 10 * (m / 10) + m % 10);
        assert(n == m);
    } else if n < 10 {
        assert(decimal(n).len() == 1);
    } else {
        assert(decimal(m).len() == 1);
    }
}

/// Whether `sep` occurs nowhere in `text`.
pub open spec fn free_of(text: Seq<char>, sep: char) -> bool {
    forall|i: int| 0 <= i < text.len() ==> #[trigger] text[i] != sep
}

/// A text of digits holds no character that is not a digit.
pub proof fn lemma_digits_free_of(text: Seq<char>, sep: char)
    requires
        all_digit_chars(text),
        !is_digit_char(sep),
    ensures
        free_of(text, sep),
{
    assert forall|i: int| 0 <= i < text.len() implies #[trigger] text[i] != sep by {
        assert(is_digit_char(text[i]));
    }
}

/// A text that is cut at the first occurrence of a separator is cut in
/// one way only: if neither `x1` nor `x2` holds `sep`, and the two texts
/// `x1 sep r1` and `x2 sep r2` are the same, then so are their parts.
pub proof fn lemma_cut_unique(
    x1: Seq<char>,
    r1: Seq<char>,
    x2: Seq<char>,
    r2: Seq<char>,
    sep: char,
)
    requires
        x1 + seq![sep] + r1 == x2 + seq![sep] + r2,
        free_of(x1, sep),
        free_of(x2, sep),
    ensures
        x1 == x2,
        r1 == r2,
{
    let t1 = x1 + seq![sep] + r1;
    let t2 = x2 + seq![sep] + r2;
    assert(t1.len() == x1.len() + 1 + r1.len());
    assert(t2.len() == x2.len() + 1 + r2.len());
    assert(t1[x1.len() as int] == sep);
    assert(t2[x2.len() as int] == sep);
    if x1.len() < x2.len() {
        assert(t2[x1.len() as int] == x2[x1.len() as int]);
        assert(false);
    }
    if x2.len() < x1.len() {
        assert(t1[x2.len() as int] == x1[x2.len() as int]);
        assert(false);
    }
    assert(x1.len() == x2.len());
    assert(r1.len() == r2.len());
    assert forall|i: int| 0 <= i < x1.len() implies x1[i] == x2[i] by {
        assert(t1[i] == x1[i]);
        assert(t2[i] == x2[i]);
    }
    assert(x1 =~= x2);
    assert forall|i: int| 0 <= i < r1.len() implies r1[i] == r2[i] by {
        assert(t1[x1.len() + 1 + i] == r1[i]);
        assert(t2[x2.len() + 1 + i] == r2[i]);
    }
    assert(r1 =~= r2);
}

/// The bytes of a text whose characters are all ASCII.
pub open spec fn ascii_bytes(text: Seq<char>) -> Seq<u8> {
    Seq::new(text.len(), |i: int| text[i] as u8)
}

/// Whether the byte `sep` occurs nowhere in `s`.
pub open spec fn bytes_free_of(s: Seq<u8>, sep: u8) -> bool {
    forall|i: int| 0 <= i < s.len() ==> #[trigger] s[i] != sep
}

/// The bytes of a joined text are the joined bytes of its parts.
pub proof fn lemma_ascii_bytes_concat(x: Seq<char>, y: Seq<char>)
    ensures
        ascii_bytes(x + y) == ascii_bytes(x) + ascii_bytes(y),
{
    assert(ascii_bytes(x + y) =~= ascii_bytes(x) + ascii_bytes(y));
}

/// The bytes of a decimal numeral read back as the number: they are
/// digits, at most `k` of them for a number below the `k`-th power of ten
/// up to the fifth, and the first is no zero unless the number is a single
/// digit.
pub proof fn lemma_decimal_bytes(n: nat)
    ensures
        ascii_bytes(decimal(n)).len() >= 1,
        all_digits(ascii_bytes(decimal(n))),
        digits_value(ascii_bytes(decimal(n))) == n,
        n >= 1 ==> ascii_bytes(decimal(n))[0] != 48,
        n < 10 ==> ascii_bytes(decimal(n)).len() == 1,
        n < 100 ==> ascii_bytes(decimal(n)).len() <= 2,
        n < 1000 ==> ascii_bytes(decimal(n)).len() <= 3,
        n < 10000 ==> ascii_bytes(decimal(n)).len() <= 4,
        n < 100000 ==> ascii_bytes(decimal(n)).len() <= 5,
    decreases n,
{
    let b = ascii_bytes(decimal(n));
    if n < 10 {
        assert(b =~= seq![digit_char(n as int) as u8]);
        assert(b[0] == 48 + n);
        assert(b.drop_last() =~= Seq::<u8>::empty());
        assert(digits_value(b.drop_last()) == 0);
        assert(b.last() == b[0]);
    } else {
        lemma_decimal_bytes(n / 10);
        let front = ascii_bytes(decimal(n / 10));
        let d = (n % 10) as int;
        assert(b =~= front.push(digit_char(d) as u8));
        assert(digit_char(d) as u8 == 48 + d);
        assert(b.drop_last() =~= front);
        assert(b.last() == 48 + d);
        assert(b[0] == front[0]);
        assert forall|i: int| 0 <= i < b.len() implies is_digit(#[trigger] b[i]) by {
            if i < front.len() {
                assert(b[i] == front[i]);
            }
        }
    }
}

/// A byte string without the separator is a single field.
pub proof fn lemma_split_single(s: Seq<u8>, sep: u8)
    requires
        bytes_free_of(s, sep),
    ensures
        split(s, sep) == seq![s],
    decreases s.len(),
{
    if s.len() == 0 {
        assert(s =~= Seq::<u8>::empty());
    } else {
        assert(bytes_free_of(s.drop_last(), sep)) by {
            assert forall|i: int| 0 <= i < s.drop_last().len() implies #[trigger] s.drop_last()[i]
                != sep by {
                assert(s.drop_last()[i] == s[i]);
            }
        }
        lemma_split_single(s.drop_last(), sep);
        assert(s.last() == s[s.len() - 1]);
        assert(s.drop_last().push(s.last()) =~= s);
        assert(seq![s.drop_last()].drop_last().push(s.drop_last().push(s.last())) =~= seq![s]);
    }
}

/// A separator followed by a text without one adds that text as the
/// last field.
pub proof fn lemma_split_push(s: Seq<u8>, t: Seq<u8>, sep: u8)
    requires
        bytes_free_of(t, sep),
    ensures
        split(s + seq![sep] + t, sep) == split(s, sep).push(t),
    decreases t.len(),
{
    let whole = s + seq![sep] + t;
    if t.len() == 0 {
        assert(whole.drop_last() =~= s);
        assert(whole.last() == sep);
        assert(t =~= Seq::<u8>::empty());
    } else {
        let shorter = t.drop_last();
        assert(bytes_free_of(shorter, sep)) by {
            assert forall|i: int| 0 <= i < shorter.len() implies #[trigger] shorter[i] != sep by {
                assert(shorter[i] == t[i]);
            }
        }
        lemma_split_push(s, shorter, sep);
        assert(whole.drop_last() =~= s + seq![sep] + shorter);
        assert(whole.last() == t.last());
        assert(t.last() == t[t.len() - 1]);
        let before = split(s, sep).push(shorter);
        assert(before.drop_last() =~= split(s, sep));
        assert(before.last() == shorter);
        assert(shorter.push(t.last()) =~= t);
    }
}

/// A prefix of a digit string never denotes more than the whole string.
pub proof fn lemma_digits_value_prefix(s: Seq<u8>, k: int)
    requires
        0 <= k <= s.len(),
    ensures
        digits_value(s.take(k)) <= digits_value(s),
    decreases s.len() - k,
{
    if k == s.len() {
        assert(s.take(k) =~= s);
    } else {
        lemma_digits_value_prefix(s.drop_last(), k);
        assert(s.drop_last().take(k) =~= s.take(k));
    }
}

/// The one-character string for a decimal digit.
fn digit_str(d: u8) -> (s: &'static str)
    requires
        d < 10,
    ensures
        s@ == seq![digit_char(d as int)],
{
    proof {
        reveal_strlit("0");
        reveal_strlit("1");
        reveal_strlit("2");
        reveal_strlit("3");
        reveal_strlit("4");
        reveal_strlit("5");
        reveal_strlit("6");
        reveal_strlit("7");
        reveal_strlit("8");
        reveal_strlit("9");
    }
    let s = if d == 0 {
        "0"
    } else if d == 1 {
        "1"
    } else if d == 2 {
        "2"
    } else if d == 3 {
        "3"
    } else if d == 4 {
        "4"
    } else if d == 5 {
        "5"
    } else if d == 6 {
        "6"
    } else if d == 7 {
        "7"
    } else if d == 8 {
        "8"
    } else {
        "9"
    };
    assert(s@ =~= seq![digit_char(d as int)]);
    s
}

/// Append the decimal numeral of `n` to `out`.
pub fn append_decimal(out: &mut String, n: u16)
    ensures
        final(out)@ == old(out)@ + decimal(n as nat),
    decreases n,
{
    if n >= 10 {
        append_decimal(out, n / 10);
    }
    let d: u8 = (n % 10) as u8;
    out.append(digit_str(d));
    assert(final(out)@ =~= old(out)@ + decimal(n as nat));
}

/// Read an unsigned decimal number of at most `limit` from `s`: one or more
/// digit bytes and nothing else. Leading zeros are accepted.
pub fn parse_digits(s: &[u8], limit: u32) -> (r: Option<u32>)
    ensures
        r == if s@.len() > 0 && all_digits(s@) && digits_value(s@) <= limit {
            Some(digits_value(s@) as u32)
        } else {
            None
        },
{
    if s.len() == 0 {
        return None;
    }
    let mut acc: u64 = 0;
    let mut i: usize = 0;
    while i < s.len()
        invariant
            0 <= i <= s.len(),
            all_digits(s@.take(i as int)),
            acc == digits_value(s@.take(i as int)),
            acc <= limit,
        decreases s.len() - i,
    {
        let b: u8 = s[i];
        if b < 48 || b > 57 {
            assert(!is_digit(s@[i as int]));
            return None;
        }
        let d: u64 = (b - 48) as u64;
        let next: u64 = acc * 10 + d;
        proof {
            assert(s@.take(i + 1).drop_last() =~= s@.take(i as int));
            assert(s@.take(i + 1).last() == b);
            assert(next == digits_value(s@.take(i + 1)));
        }
        if next > limit as u64 {
            proof {
                lemma_digits_value_prefix(s@, i + 1);
            }
            return None;
        }
        acc = next;
        i = i + 1;
    }
    assert(s@.take(i as int) =~= s@);
    Some(acc as u32)
}

/// Split `s` into its fields at every occurrence of `sep`.
pub fn split_fields(s: &[u8], sep: u8) -> (fields: Vec<Vec<u8>>)
    ensures
        field_views(fields@) == split(s@, sep),
{
    let mut done: Vec<Vec<u8>> = Vec::new();
    let mut current: Vec<u8> = Vec::new();
    let mut i: usize = 0;
    assert(s@.take(0) =~= Seq::<u8>::empty());
    assert(field_views(done@).push(current@) =~= split(s@.take(0), sep));
    while i < s.len()
        invariant
            0 <= i <= s.len(),
            field_views(done@).push(current@) == split(s@.take(i as int), sep),
        decreases s.len() - i,
    {
        let b: u8 = s[i];
        proof {
            assert(s@.take(i + 1).drop_last() =~= s@.take(i as int));
            assert(s@.take(i + 1).last() == b);
        }
        let ghost before = field_views(done@).push(current@);
        if b == sep {
            done.push(current);
            current = Vec::new();
            proof {
                assert(field_views(done@) =~= before);
                assert(field_views(done@).push(current@) =~= split(s@.take(i + 1), sep));
            }
        } else {
            current.push(b);
            proof {
                assert(before.drop_last() =~= field_views(done@));
                assert(field_views(done@).push(current@) =~= split(s@.take(i + 1), sep));
            }
        }
        i = i + 1;
    }
    assert(s@.take(i as int) =~= s@);
    let ghost before = field_views(done@).push(current@);
    done.push(current);
    assert(field_views(done@) =~= before);
    done
}

} // verus!
