//! Text handling for input lines: white space, trimming, decimal numbers.

use vstd::prelude::*;

verus! {

/// Whether `c` is a white-space character: the code points that Unicode
/// gives the property `White_Space`.
pub open spec fn is_space(c: char) -> bool {
    let n = c as u32;
    ||| 0x09 <= n <= 0x0D
    ||| n == 0x20
    ||| n == 0x85
    ||| n == 0xA0
    ||| n == 0x1680
    ||| 0x2000 <= n <= 0x200A
    ||| n == 0x2028
    ||| n == 0x2029
    ||| n == 0x202F
    ||| n == 0x205F
    ||| n == 0x3000
}

/// Tells whether `c` is a white-space character.
pub fn char_is_space(c: char) -> (b: bool)
    ensures
        b == is_space(c),
{
    let n: u32 = c as u32;
    (0x09 <= n && n <= 0x0D) || n == 0x20 || n == 0x85 || n == 0xA0 || n == 0x1680 || (0x2000 <= n
        && n <= 0x200A) || n == 0x2028 || n == 0x2029 || n == 0x202F || n == 0x205F || n == 0x3000
}

/// `s` without the white space at its start.
pub open spec fn trim_start(s: Seq<char>) -> Seq<char>
    decreases s.len(),
{
    if s.len() > 0 && is_space(s[0]) {
        trim_start(s.drop_first())
    } else {
        s
    }
}

/// `s` without the white space at its end.
pub open spec fn trim_end(s: Seq<char>) -> Seq<char>
    decreases s.len(),
{
    if s.len() > 0 && is_space(s.last()) {
        trim_end(s.drop_last())
    } else {
        s
    }
}

/// `s` without the white space at its two ends.
pub open spec fn trimmed(s: Seq<char>) -> Seq<char> {
    trim_end(trim_start(s))
}

/// Every character of `s` is white space.
pub open spec fn all_spaces(s: Seq<char>) -> bool {
    forall|i: int| 0 <= i < s.len() ==> is_space(#[trigger] s[i])
}

/// Where the first `a` characters of `s` are white space and the next one
/// is not, `trim_start` drops exactly those `a`.
pub proof fn lemma_trim_start_at(s: Seq<char>, a: int)
    requires
        0 <= a <= s.len(),
        all_spaces(s.take(a)),
        a < s.len() ==> !is_space(s[a]),
    ensures
        trim_start(s) == s.skip(a),
    decreases a,
{
    if a == 0 {
        assert(s.skip(0) =~= s);
    } else {
        assert(s.take(a)[0] == s[0]);
        let rest = s.drop_first();
        assert forall|i: int| 0 <= i < a - 1 implies is_space(#[trigger] rest.take(a - 1)[i]) by {
            assert(s.take(a)[i + 1] == rest.take(a - 1)[i]);
        }
        lemma_trim_start_at(rest, a - 1);
        assert(rest.skip(a - 1) =~= s.skip(a));
    }
}

/// Where the characters of `s` from `b` on are white space and the one
/// before `b` is not, `trim_end` keeps exactly the first `b`.
pub proof fn lemma_trim_end_at(s: Seq<char>, b: int)
    requires
        0 <= b <= s.len(),
        all_spaces(s.skip(b)),
        b > 0 ==> !is_space(s[b - 1]),
    ensures
        trim_end(s) == s.take(b),
    decreases s.len() - b,
{
    if b == s.len() {
        assert(s.take(b) =~= s);
    } else {
        assert(s.skip(b)[s.len() - b - 1] == s.last());
        let rest = s.drop_last();
        assert forall|i: int| 0 <= i < rest.len() - b implies is_space(
            #[trigger] rest.skip(b)[i],
        ) by {
            assert(s.skip(b)[i] == rest.skip(b)[i]);
        }
        lemma_trim_end_at(rest, b);
        assert(rest.take(b) =~= s.take(b));
    }
}

/// The text of `s` without the white space at its two ends.
pub fn trim(s: &str) -> (t: &str)
    ensures
        t@ == trimmed(s@),
{
    let n: usize = s.unicode_len();
    let mut start: usize = 0;
    let mut end: usize = 0;
    let mut i: usize = 0;
    for c in it: s.chars()
        invariant
            n == s@.len(),
            it.seq() == s@,
            i == it.index(),
            start <= end <= i <= n,
            all_spaces(s@.take(start as int)),
            all_spaces(s@.subrange(end as int, i as int)),
            end == 0 ==> start == 0 && all_spaces(s@.take(i as int)),
            end > 0 ==> !is_space(s@[start as int]) && !is_space(s@[end - 1]),
    {
        if !char_is_space(c) {
            if end == 0 {
                start = i;
            }
            end = i + 1;
        }
        i = i + 1;
    }
    proof {
        let full = s@;
        if end == 0 {
            assert(full.take(n as int) =~= full);
            lemma_trim_start_at(full, n as int);
            assert(full.skip(n as int) =~= Seq::<char>::empty());
            assert(full.subrange(0, 0) =~= Seq::<char>::empty());
        } else {
            lemma_trim_start_at(full, start as int);
            let rest = full.skip(start as int);
            assert(rest.skip(end - start) =~= full.subrange(end as int, n as int));
            lemma_trim_end_at(rest, end - start);
            assert(rest.take(end - start) =~= full.subrange(start as int, end as int));
        }
    }
    s.substring_char(start, end)
}

/// Whether `c` is one of the ten decimal digits.
pub open spec fn is_digit(c: char) -> bool {
    0x30 <= c as u32 <= 0x39
}

/// The number that the digit `c` stands for.
pub open spec fn digit_value(c: char) -> nat {
    (c as u32 - 0x30) as nat
}

/// Every character of `s` is a decimal digit.
pub open spec fn all_digits(s: Seq<char>) -> bool {
    forall|i: int| 0 <= i < s.len() ==> is_digit(#[trigger] s[i])
}

/// The number that the digits `s` write in base ten; 0 for no digits.
pub open spec fn decimal_value(s: Seq<char>) -> nat
    decreases s.len(),
{
    if s.len() == 0 {
        0
    } else {
        decimal_value(s.drop_last()) * 10 + digit_value(s.last())
    }
}

/// `s` without one plus sign at its start.
pub open spec fn without_sign(s: Seq<char>) -> Seq<char> {
    if s.len() > 0 && s[0] == '+' {
        s.drop_first()
    } else {
        s
    }
}

/// The identifier that `s` writes, if it writes one: an optional plus
/// sign, then one or more decimal digits and nothing else, for a number
/// that a `usize` holds.
pub open spec fn parsed_id(s: Seq<char>) -> Option<nat> {
    let digits = without_sign(s);
    if digits.len() > 0 && all_digits(digits) && decimal_value(digits) <= usize::MAX {
        Some(decimal_value(digits))
    } else {
        None
    }
}

/// The digits of a number's start write no more than the whole number.
pub proof fn lemma_decimal_value_prefix(s: Seq<char>, k: int)
    requires
        0 <= k <= s.len(),
    ensures
        decimal_value(s.take(k)) <= decimal_value(s),
    decreases s.len() - k,
{
    if k == s.len() {
        assert(s.take(k) =~= s);
    } else {
        lemma_decimal_value_prefix(s.drop_last(), k);
        assert(s.drop_last().take(k) =~= s.take(k));
    }
}

/// Reads an identifier out of `s`.
pub fn parse_id(s: &str) -> (r: Option<usize>)
    ensures
        match r {
            Some(v) => parsed_id(s@) == Some(v as nat),
            None => parsed_id(s@) is None,
        },
{
    let mut value: usize = 0;
    let mut first: bool = true;
    let mut empty: bool = true;
    let ghost digits = without_sign(s@);
    let ghost mut count: int = 0;
    for c in it: s.chars()
        invariant
            it.seq() == s@,
            digits == without_sign(s@),
            first <==> it.index() == 0,
            empty <==> count == 0,
            0 <= count <= digits.len(),
            first ==> count == 0,
            !first ==> count == it.index() - (s@.len() - digits.len()),
            all_digits(digits.take(count)),
            value == decimal_value(digits.take(count)),
    {
        assert(c == s@[it.index()]);
        let code: u32 = c as u32;
        if first && c == '+' {
            assert(digits == s@.drop_first());
        } else {
            assert(c == digits[count]);
            if code < 0x30 || code > 0x39 {
                assert(!is_digit(digits[count]));
                return None;
            }
            let digit: usize = (code - 0x30) as usize;
            proof {
                let next = digits.take(count + 1);
                assert(next.drop_last() =~= digits.take(count));
                assert(next.last() == c);
                assert(decimal_value(next) == value * 10 + digit);
                lemma_decimal_value_prefix(digits, count + 1);
                count = count + 1;
            }
            let scaled = match value.checked_mul(10) {
                Some(v) => v,
                None => { return None; },
            };
            value = match scaled.checked_add(digit) {
                Some(v) => v,
                None => { return None; },
            };
            empty = false;
        }
        first = false;
    }
    proof {
        assert(digits.take(count) =~= digits);
    }
    if empty {
        None
    } else {
        Some(value)
    }
}

/// The character that writes the digit `d`.
pub open spec fn digit_char(d: nat) -> char {
    (0x30 + d) as char
}

/// `n` written in base ten, without leading zeros.
pub open spec fn decimal(n: nat) -> Seq<char>
    decreases n,
{
    if n < 10 {
        seq![digit_char(n)]
    } else {
        decimal(n / 10).push(digit_char(n % 10))
    }
}

/// A number written in base ten reads back as itself: what `decimal` writes
/// for a number that a `usize` holds, `parsed_id` reads as that number, and
/// trimming takes nothing from it.
pub proof fn lemma_decimal_reads_back(n: nat)
    requires
        n <= usize::MAX,
    ensures
        parsed_id(decimal(n)) == Some(n),
        trimmed(decimal(n)) == decimal(n),
{
    lemma_decimal_digits(n);
    let s = decimal(n);
    assert(!is_space(s[0]));
    assert(!is_space(s.last()));
}

/// What `decimal` writes is one or more digits whose value is the number.
pub proof fn lemma_decimal_digits(n: nat)
    ensures
        decimal(n).len() > 0,
        all_digits(decimal(n)),
        decimal_value(decimal(n)) == n,
    decreases n,
{
    if n < 10 {
        let s = seq![digit_char(n)];
        assert(s.drop_last() =~= Seq::<char>::empty());
        assert(decimal_value(s.drop_last()) == 0);
    } else {
        lemma_decimal_digits(n / 10);
        let s = decimal(n);
        assert(s.drop_last() =~= decimal(n / 10));
    }
}

/// The text of the one digit `d`.
fn digit_text(d: usize) -> (t: &'static str)
    requires
        d < 10,
    ensures
        t@ == seq![digit_char(d as nat)],
{
    let digits = "0123456789";
    proof {
        reveal_strlit("0123456789");
    }
    let t = digits.substring_char(d, d + 1);
    assert(t@ =~= seq![digit_char(d as nat)]);
    t
}

/// Writes `n` in base ten.
pub fn decimal_text(n: usize) -> (t: String)
    ensures
        t@ == decimal(n as nat),
    decreases n,
{
    let last = digit_text(n % 10);
    if n < 10 {
        last.to_owned()
    } else {
        let mut t = decimal_text(n / 10);
        t.append(last);
        assert(t@ =~= decimal((n / 10) as nat).push(digit_char((n % 10) as nat)));
        t
    }
}

/// The one character that `s` consists of, if it is one character long.
pub open spec fn sole_char(s: Seq<char>) -> Option<char> {
    if s.len() == 1 {
        Some(s[0])
    } else {
        None
    }
}

/// Gives the character of a text that is one character long.
pub fn single_char(s: &str) -> (r: Option<char>)
    ensures
        r == sole_char(s@),
{
    let mut it = s.chars();
    match it.next() {
        None => None,
        Some(c) => match it.next() {
            None => Some(c),
            Some(_) => None,
        },
    }
}

} // verus!
