//! Character-level helpers shared by the protocol and the server logic:
//! decimal rendering of numbers, splitting at a delimiter, and building
//! strings from characters.

use vstd::prelude::*;
use vstd::utf8::{char_is_scalar, encode_scalar, encode_utf8};

verus! {

/// The character of a decimal digit `d < 10`.
pub open spec fn digit_char(d: nat) -> char {
    (48 + d) as char
}

/// Decimal rendering of `n`, without leading zeros (`0` is rendered `"0"`).
pub open spec fn decimal(n: nat) -> Seq<char>
    decreases n,
{
    if n < 10 {
        seq![digit_char(n)]
    } else {
        decimal(n / 10).push(digit_char(n % 10))
    }
}

/// Appends `c` to `s` by `String::push`; what is claimed of it: the string
/// afterwards is the string before with `c` added at its end.
#[verifier::external_body]
pub(crate) fn push_char(s: &mut String, c: char)
    ensures
        final(s)@ == old(s)@.push(c),
{
    s.push(c)
}

/// Appends the decimal rendering of `n` to `s`.
pub fn push_decimal(s: &mut String, n: u64)
    ensures
        final(s)@ == old(s)@ + decimal(n as nat),
    decreases n,
{
    if n >= 10 {
        push_decimal(s, n / 10);
    }
    let d: u8 = (n % 10) as u8;
    let c: char = (48u8 + d) as char;
    assert(c == digit_char((n % 10) as nat));
    push_char(s, c);
}

/// The decimal rendering of `n`, as `n.to_string()` gives it.
pub fn u64_to_decimal(n: u64) -> (s: String)
    ensures
        s@ == decimal(n as nat),
{
    let mut s = String::new();
    push_decimal(&mut s, n);
    assert(s@ =~= decimal(n as nat));
    s
}


/// A character is a decimal digit.
pub open spec fn is_digit_char(c: char) -> bool {
    48 <= (c as u32) <= 57
}

/// Every character of a decimal rendering is a digit, and there is at least one.
pub proof fn lemma_decimal_digits(n: nat)
    ensures
        decimal(n).len() >= 1,
        forall|i: int| 0 <= i < decimal(n).len() ==> is_digit_char(#[trigger] decimal(n)[i]),
    decreases n,
{
    if n >= 10 {
        lemma_decimal_digits(n / 10);
    }
}

/// A number below ten has a one-character rendering; larger numbers have more.
pub proof fn lemma_decimal_len(n: nat)
    ensures
        (decimal(n).len() == 1) <==> n < 10,
    decreases n,
{
    if n >= 10 {
        lemma_decimal_digits(n / 10);
    }
}

/// Distinct numbers have distinct decimal renderings.
pub proof fn lemma_decimal_injective(a: nat, b: nat)
    requires
        decimal(a) == decimal(b),
    ensures
        a == b,
    decreases a,
{
    lemma_decimal_len(a);
    lemma_decimal_len(b);
    if a < 10 {
        assert(decimal(a)[0] == digit_char(a));
        assert(decimal(b)[0] == digit_char(b));
    } else {
        let sa = decimal(a);
        let sb = decimal(b);
        assert(sa.last() == digit_char(a % 10));
        assert(sb.last() == digit_char(b % 10));
        assert(sa.drop_last() =~= decimal(a / 10));
        assert(sb.drop_last() =~= decimal(b / 10));
        lemma_decimal_injective(a / 10, b / 10);
    }
}

/// The part of `s` before its first `c`, or all of `s` when `c` does not occur.
pub open spec fn prefix_before(s: Seq<char>, c: char) -> Seq<char>
    decreases s.len(),
{
    if s.len() == 0 {
        s
    } else if s[0] == c {
        Seq::empty()
    } else {
        seq![s[0]] + prefix_before(s.drop_first(), c)
    }
}

/// When `s` is `a`, then `c`, then anything, and `a` holds no `c`,
/// the part of `s` before its first `c` is `a`.
pub proof fn lemma_prefix_before_split(a: Seq<char>, c: char, b: Seq<char>)
    requires
        !a.contains(c),
    ensures
        prefix_before(a + seq![c] + b, c) == a,
    decreases a.len(),
{
    let s = a + seq![c] + b;
    if a.len() == 0 {
        assert(s[0] == c);
    } else {
        assert(a[0] != c) by {
            assert(a.contains(a[0]));
        }
        assert(!a.drop_first().contains(c)) by {
            if a.drop_first().contains(c) {
                let i = choose|i: int| 0 <= i < a.drop_first().len() && a.drop_first()[i] == c;
                assert(a[i + 1] == c);
            }
        }
        lemma_prefix_before_split(a.drop_first(), c, b);
        assert(s.drop_first() =~= a.drop_first() + seq![c] + b);
        assert(seq![a[0]] + a.drop_first() =~= a);
    }
}

/// When `c` does not occur in `s`, the part before its first `c` is all of `s`.
pub proof fn lemma_prefix_before_absent(s: Seq<char>, c: char)
    requires
        !s.contains(c),
    ensures
        prefix_before(s, c) == s,
    decreases s.len(),
{
    if s.len() > 0 {
        assert(s[0] != c) by {
            assert(s.contains(s[0]));
        }
        assert(!s.drop_first().contains(c)) by {
            if s.drop_first().contains(c) {
                let i = choose|i: int| 0 <= i < s.drop_first().len() && s.drop_first()[i] == c;
                assert(s[i + 1] == c);
            }
        }
        lemma_prefix_before_absent(s.drop_first(), c);
        assert(seq![s[0]] + s.drop_first() =~= s);
    }
}

/// The part of `s` before its first `c`.
pub fn prefix_before_char(s: &str, c: char) -> (r: &str)
    ensures
        r@ == prefix_before(s@, c),
{
    let chars = chars_of(s);
    let mut i: usize = 0;
    while i < chars.len()
        invariant
            i <= chars@.len(),
            chars@ == s@,
            forall|j: int| 0 <= j < i ==> chars@[j] != c,
        decreases chars@.len() - i,
    {
        if chars[i] == c {
            proof {
                let before = s@.subrange(0, i as int);
                let after = s@.subrange(i + 1, s@.len() as int);
                assert(!before.contains(c)) by {
                    if before.contains(c) {
                        let k = choose|k: int| 0 <= k < before.len() && before[k] == c;
                        assert(chars@[k] == c);
                    }
                }
                assert(s@ =~= before + seq![c] + after);
                lemma_prefix_before_split(before, c, after);
            }
            return s.substring_char(0, i);
        }
        i = i + 1;
    }
    proof {
        assert(!s@.contains(c)) by {
            if s@.contains(c) {
                let k = choose|k: int| 0 <= k < s@.len() && s@[k] == c;
                assert(chars@[k] == c);
            }
        }
        lemma_prefix_before_absent(s@, c);
    }
    s
}

/// The characters of `s`, in order.
pub fn chars_of(s: &str) -> (v: Vec<char>)
    ensures
        v@ == s@,
{
    let mut v: Vec<char> = Vec::new();
    for c in it: s.chars()
        invariant
            v@ == it.seq().take(it.index() as int),
    {
        v.push(c);
    }
    assert(v@ =~= s@);
    v
}


/// The number of bytes of the UTF-8 encoding of `c`.
pub open spec fn char_utf8_len(c: char) -> nat {
    if (c as u32) < 0x80 {
        1
    } else if (c as u32) < 0x800 {
        2
    } else if (c as u32) < 0x10000 {
        3
    } else {
        4
    }
}

/// The number of bytes of the UTF-8 encoding of `s`.
pub open spec fn utf8_len(s: Seq<char>) -> nat
    decreases s.len(),
{
    if s.len() == 0 {
        0
    } else {
        char_utf8_len(s[0]) + utf8_len(s.drop_first())
    }
}

/// The byte length of a concatenation is the sum of the byte lengths.
pub proof fn lemma_utf8_len_concat(a: Seq<char>, b: Seq<char>)
    ensures
        utf8_len(a + b) == utf8_len(a) + utf8_len(b),
    decreases a.len(),
{
    if a.len() > 0 {
        assert((a + b).drop_first() =~= a.drop_first() + b);
        lemma_utf8_len_concat(a.drop_first(), b);
    } else {
        assert(a + b =~= b);
    }
}

/// One more character adds its width to the byte offset.
pub proof fn lemma_utf8_len_take_step(s: Seq<char>, k: int)
    requires
        0 <= k < s.len(),
    ensures
        utf8_len(s.take(k + 1)) == utf8_len(s.take(k)) + char_utf8_len(s[k]),
{
    assert(s.take(k + 1) =~= s.take(k) + seq![s[k]]);
    lemma_utf8_len_concat(s.take(k), seq![s[k]]);
    let one = seq![s[k]];
    assert(one.drop_first() =~= Seq::<char>::empty());
    assert(utf8_len(one.drop_first()) == 0);
    assert(utf8_len(one) == char_utf8_len(one[0]) + utf8_len(one.drop_first()));
}

/// A part of a text is no longer, in bytes, than the text.
pub proof fn lemma_utf8_len_subrange(s: Seq<char>, a: int, b: int)
    requires
        0 <= a <= b <= s.len(),
    ensures
        utf8_len(s.subrange(a, b)) <= utf8_len(s),
        utf8_len(s.take(b)) <= utf8_len(s),
{
    assert(s =~= s.take(a) + s.subrange(a, b) + s.skip(b));
    lemma_utf8_len_concat(s.take(a) + s.subrange(a, b), s.skip(b));
    lemma_utf8_len_concat(s.take(a), s.subrange(a, b));
    assert(s =~= s.take(b) + s.skip(b));
    lemma_utf8_len_concat(s.take(b), s.skip(b));
}

/// `utf8_len` counts the bytes of the encoding that `str` holds.
pub proof fn lemma_utf8_len_encoding(s: Seq<char>)
    ensures
        utf8_len(s) == encode_utf8(s).len(),
    decreases s.len(),
{
    if s.len() > 0 {
        lemma_utf8_len_encoding(s.drop_first());
        char_is_scalar(s[0]);
        assert(encode_scalar(s[0] as u32).len() == char_utf8_len(s[0]));
    }
}

/// The width in bytes of `c` encoded as UTF-8 (`char::len_utf8`).
pub fn char_len_utf8(c: char) -> (n: usize)
    ensures
        n == char_utf8_len(c),
{
    let v: u32 = c as u32;
    if v < 0x80 {
        1
    } else if v < 0x800 {
        2
    } else if v < 0x10000 {
        3
    } else {
        4
    }
}

/// The number of characters of `s` before its first line feed.
pub open spec fn line_len(s: Seq<char>) -> nat
    decreases s.len(),
{
    if s.len() == 0 {
        0
    } else if s[0] == '\n' {
        0
    } else {
        1 + line_len(s.drop_first())
    }
}

pub proof fn lemma_line_len_bound(s: Seq<char>)
    ensures
        line_len(s) <= s.len(),
        line_len(s) < s.len() ==> s[line_len(s) as int] == '\n',
        forall|j: int| 0 <= j < line_len(s) ==> s[j] != '\n',
    decreases s.len(),
{
    if s.len() > 0 && s[0] != '\n' {
        lemma_line_len_bound(s.drop_first());
        assert forall|j: int| 0 <= j < line_len(s) implies s[j] != '\n' by {
            if j > 0 {
                assert(s[j] == s.drop_first()[j - 1]);
            }
        }
    }
}

/// A line without its carriage return, when it ends with one.
pub open spec fn strip_cr(line: Seq<char>) -> Seq<char> {
    if line.len() > 0 && line.last() == '\r' {
        line.drop_last()
    } else {
        line
    }
}

/// The lines of a text, as `str::lines` gives them: split at each line feed,
/// each line without a carriage return that ends it before that line feed;
/// a final line feed does not begin another line.
pub open spec fn lines_of(s: Seq<char>) -> Seq<Seq<char>>
    decreases s.len(),
{
    if s.len() == 0 {
        Seq::empty()
    } else {
        let k = line_len(s);
        if k >= s.len() {
            seq![s]
        } else {
            seq![strip_cr(s.take(k as int))] + lines_of(s.skip(k + 1 as int))
        }
    }
}

/// The bounds of the `n`th line (from zero) of `s`: that line is
/// `s[start..end]`; `None` when `s` has no more than `n` lines.
pub fn nth_line_bounds(s: &Vec<char>, n: usize) -> (r: Option<(usize, usize)>)
    ensures
        match r {
            None => lines_of(s@).len() <= n,
            Some((start, end)) => {
                &&& n < lines_of(s@).len()
                &&& start <= end <= s@.len()
                &&& lines_of(s@)[n as int] == s@.subrange(start as int, end as int)
            },
        },
{
    let mut start: usize = 0;
    let mut remaining: usize = n;
    let ghost mut done: Seq<Seq<char>> = Seq::empty();
    assert(s@.skip(0) =~= s@);
    loop
        invariant
            start <= s@.len(),
            remaining <= n,
            done.len() == n - remaining,
            lines_of(s@) =~= done + lines_of(s@.skip(start as int)),
        decreases s@.len() - start,
    {
        let ghost t = s@.skip(start as int);
        if start == s.len() {
            assert(t.len() == 0);
            return None;
        }
        let mut j: usize = start;
        while j < s.len() && s[j] != '\n'
            invariant
                start <= j <= s@.len(),
                forall|m: int| start <= m < j ==> s@[m] != '\n',
            decreases s@.len() - j,
        {
            j = j + 1;
        }
        proof {
            lemma_line_len_bound(t);
            let k = line_len(t);
            if k < j - start {
                assert(t[k as int] == s@[start + k]);
            }
            if (k as int) > j - start {
                assert(t[j - start] == s@[j as int]);
            }
            assert(k == j - start);
        }
        let ghost k: int = j - start;
        if remaining == 0 {
            let mut end: usize = j;
            if j < s.len() && j > start && s[j - 1] == '\r' {
                end = j - 1;
            }
            proof {
                assert(lines_of(s@)[n as int] == lines_of(t)[0]);
                if k >= t.len() {
                    assert(t =~= s@.subrange(start as int, end as int));
                } else {
                    assert(t.take(k) =~= s@.subrange(start as int, j as int));
                    assert(strip_cr(t.take(k)) =~= s@.subrange(start as int, end as int));
                }
            }
            return Some((start, end));
        }
        if j == s.len() {
            proof {
                assert(lines_of(t) =~= seq![t]);
            }
            return None;
        }
        proof {
            assert(t.skip(k + 1) =~= s@.skip(j + 1));
            done = done.push(strip_cr(t.take(k)));
            assert(lines_of(t) =~= seq![strip_cr(t.take(k))] + lines_of(t.skip(k + 1)));
        }
        start = j + 1;
        remaining = remaining - 1;
    }
}

} // verus!
