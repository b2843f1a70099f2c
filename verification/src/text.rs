//! Reading unsigned decimal numbers out of text.

use vstd::prelude::*;
use vstd::string::*;
use vstd::utf8::is_ascii_chars;

verus! {

/// An ASCII decimal digit.
pub open spec fn is_digit(c: char) -> bool {
    '0' <= c <= '9'
}

/// Every character of `s` is an ASCII decimal digit.
pub open spec fn all_digits(s: Seq<char>) -> bool {
    forall|i: int| 0 <= i < s.len() ==> is_digit(#[trigger] s[i])
}

/// The number that one decimal digit stands for.
pub open spec fn digit_value(c: char) -> int {
    c as int - '0' as int
}

/// The number that a run of decimal digits stands for; the empty run is 0.
pub open spec fn digits_value(s: Seq<char>) -> int
    decreases s.len(),
{
    if s.len() == 0 {
        0
    } else {
        digits_value(s.drop_last()) * 10 + digit_value(s.last())
    }
}

/// A run of digits never stands for a negative number.
pub proof fn lemma_digits_value_nonnegative(s: Seq<char>)
    requires
        all_digits(s),
    ensures
        digits_value(s) >= 0,
    decreases s.len(),
{
    if s.len() > 0 {
        lemma_digits_value_nonnegative(s.drop_last());
    }
}

/// A longer run of digits stands for at least as much as each of its prefixes.
pub proof fn lemma_digits_value_prefix(s: Seq<char>, k: int)
    requires
        all_digits(s),
        0 <= k <= s.len(),
    ensures
        digits_value(s.take(k)) <= digits_value(s),
    decreases s.len() - k,
{
    if k == s.len() {
        assert(s.take(k) =~= s);
    } else {
        lemma_digits_value_prefix(s, k + 1);
        let longer = s.take(k + 1);
        assert(longer.drop_last() =~= s.take(k));
        lemma_digits_value_nonnegative(s.take(k));
    }
}

/// Reads `text` as an unsigned decimal number: one or more ASCII digits and
/// nothing else. Gives `None` for any other text and for a number that does
/// not fit in 64 bits.
pub fn parse_number(text: &str) -> (r: Option<u64>)
    ensures
        r is Some <==> text@.len() > 0 && all_digits(text@) && digits_value(text@) <= u64::MAX,
        r matches Some(v) ==> v == digits_value(text@),
{
    if !text.is_ascii() {
        return None;
    }
    let bytes = text.as_bytes();
    proof {
        is_ascii_spec_bytes(text);
    }
    let n: usize = bytes.len();
    if n == 0 {
        return None;
    }
    let mut value: u64 = 0;
    let mut i: usize = 0;
    while i < n
        invariant
            0 <= i <= n,
            n == text@.len(),
            n == bytes@.len(),
            is_ascii_chars(text@),
            forall|j: int| 0 <= j < n ==> bytes@[j] == (#[trigger] text@[j]) as u8,
            all_digits(text@.take(i as int)),
            value == digits_value(text@.take(i as int)),
        decreases n - i,
    {
        let b: u8 = bytes[i];
        let ghost prefix = text@.take(i as int);
        let ghost longer = text@.take(i as int + 1);
        proof {
            assert(longer.drop_last() =~= prefix);
            assert(longer.last() == text@[i as int]);
        }
        if b < 48 || b > 57 {
            proof {
                assert(!is_digit(text@[i as int]));
            }
            return None;
        }
        let digit: u64 = (b - 48) as u64;
        proof {
            assert(is_digit(text@[i as int]));
            assert(digit == digit_value(text@[i as int]));
            assert(all_digits(longer)) by {
                assert forall|j: int| 0 <= j < longer.len() implies is_digit(
                    #[trigger] longer[j],
                ) by {
                    if j < i {
                        assert(longer[j] == prefix[j]);
                    }
                }
            }
        }
        let scaled: Option<u64> = value.checked_mul(10);
        let next: Option<u64> = match scaled {
            Some(s) => s.checked_add(digit),
            None => None,
        };
        match next {
            Some(v) => {
                value = v;
            },
            None => {
                proof {
                    assert(digits_value(longer) > u64::MAX);
                    assert(text@.take(n as int) =~= text@);
                    if all_digits(text@) {
                        lemma_digits_value_prefix(text@, i as int + 1);
                    }
                }
                return None;
            },
        }
        i = i + 1;
    }
    proof {
        assert(text@.take(n as int) =~= text@);
    }
    Some(value)
}

/// The characters of a text.
pub fn to_chars(text: &str) -> (chars: Vec<char>)
    ensures
        chars@ == text@,
{
    let n: usize = text.unicode_len();
    let mut chars: Vec<char> = Vec::new();
    let mut i: usize = 0;
    while i < n
        invariant
            0 <= i <= n,
            n == text@.len(),
            chars@ == text@.take(i as int),
        decreases n - i,
    {
        chars.push(text.get_char(i));
        proof {
            assert(chars@ =~= text@.take(i as int + 1));
        }
        i = i + 1;
    }
    proof {
        assert(text@.take(n as int) =~= text@);
    }
    chars
}

/// The characters from `from` up to `to`.
pub fn slice_of(chars: &Vec<char>, from: usize, to: usize) -> (part: Vec<char>)
    requires
        from <= to <= chars@.len(),
    ensures
        part@ == chars@.subrange(from as int, to as int),
{
    let mut part: Vec<char> = Vec::new();
    let mut i: usize = from;
    while i < to
        invariant
            from <= i <= to <= chars@.len(),
            part@ == chars@.subrange(from as int, i as int),
        decreases to - i,
    {
        part.push(chars[i]);
        proof {
            assert(part@ =~= chars@.subrange(from as int, i as int + 1));
        }
        i = i + 1;
    }
    part
}

/// The text without every occurrence of `c`.
pub open spec fn without(s: Seq<char>, c: char) -> Seq<char>
    decreases s.len(),
{
    if s.len() == 0 {
        Seq::empty()
    } else if s.last() == c {
        without(s.drop_last(), c)
    } else {
        without(s.drop_last(), c).push(s.last())
    }
}

/// Drops every occurrence of `c`.
pub fn strip_char(chars: &Vec<char>, c: char) -> (kept: Vec<char>)
    ensures
        kept@ == without(chars@, c),
{
    let mut kept: Vec<char> = Vec::new();
    let mut i: usize = 0;
    while i < chars.len()
        invariant
            0 <= i <= chars@.len(),
            kept@ == without(chars@.take(i as int), c),
        decreases chars@.len() - i,
    {
        proof {
            assert(chars@.take(i as int + 1).drop_last() =~= chars@.take(i as int));
        }
        if chars[i] != c {
            kept.push(chars[i]);
        }
        i = i + 1;
    }
    proof {
        assert(chars@.take(chars@.len() as int) =~= chars@);
    }
    kept
}

/// The largest whole part that an amount may have.
pub const MAX_WHOLE: i64 = 10_000_000_000_000_000;

/// Reads a run of digits as a number up to `MAX_WHOLE`. The empty run is 0.
pub fn digits_of(chars: &Vec<char>) -> (r: Option<i64>)
    ensures
        r is Some <==> all_digits(chars@) && digits_value(chars@) <= MAX_WHOLE,
        r matches Some(v) ==> v == digits_value(chars@) && 0 <= v <= MAX_WHOLE,
{
    let mut value: i64 = 0;
    let mut i: usize = 0;
    while i < chars.len()
        invariant
            0 <= i <= chars@.len(),
            all_digits(chars@.take(i as int)),
            value == digits_value(chars@.take(i as int)),
            0 <= value <= MAX_WHOLE,
        decreases chars@.len() - i,
    {
        let c: char = chars[i];
        let ghost prefix = chars@.take(i as int);
        let ghost longer = chars@.take(i as int + 1);
        proof {
            assert(longer.drop_last() =~= prefix);
            assert(longer.last() == c);
            assert(chars@.take(chars@.len() as int) =~= chars@);
        }
        if c < '0' || c > '9' {
            proof {
                assert(!is_digit(chars@[i as int]));
            }
            return None;
        }
        let digit: i64 = (c as u32 - '0' as u32) as i64;
        proof {
            assert(all_digits(longer)) by {
                assert forall|j: int| 0 <= j < longer.len() implies is_digit(
                    #[trigger] longer[j],
                ) by {
                    if j < i {
                        assert(longer[j] == prefix[j]);
                    }
                }
            }
        }
        let next: i64 = value * 10 + digit;
        if next > MAX_WHOLE {
            proof {
                if all_digits(chars@) {
                    lemma_digits_value_prefix(chars@, i as int + 1);
                }
            }
            return None;
        }
        value = next;
        i = i + 1;
    }
    proof {
        assert(chars@.take(chars@.len() as int) =~= chars@);
    }
    Some(value)
}

/// The place of the first `.` of a text, or its length if it has none.
pub open spec fn first_dot(s: Seq<char>) -> int
    decreases s.len(),
{
    if s.len() == 0 {
        0
    } else {
        let p = first_dot(s.drop_last());
        if p < s.len() - 1 {
            p
        } else if s.last() == '.' {
            s.len() - 1
        } else {
            s.len() as int
        }
    }
}

/// `p` is the place of the first `.`.
pub open spec fn is_first_dot(s: Seq<char>, p: int) -> bool {
    &&& 0 <= p <= s.len()
    &&& forall|i: int| 0 <= i < p ==> s[i] != '.'
    &&& p < s.len() ==> s[p] == '.'
}

pub proof fn lemma_first_dot(s: Seq<char>, p: int)
    requires
        is_first_dot(s, p),
    ensures
        first_dot(s) == p,
    decreases s.len(),
{
    if s.len() > 0 {
        let rest = s.drop_last();
        if p < s.len() - 1 {
            assert(is_first_dot(rest, p));
            lemma_first_dot(rest, p);
        } else {
            assert(is_first_dot(rest, rest.len() as int));
            lemma_first_dot(rest, rest.len() as int);
        }
    }
}

/// The cents that the digits behind the point stand for: the first two
/// digits, and one cent more if the third is five or above.
pub open spec fn fraction_cents(frac: Seq<char>) -> int {
    (if frac.len() > 0 {
        digit_value(frac[0]) * 10
    } else {
        0
    }) + (if frac.len() > 1 {
        digit_value(frac[1])
    } else {
        0
    }) + (if frac.len() > 2 && digit_value(frac[2]) >= 5 {
        1int
    } else {
        0int
    })
}

/// The cents that an unsigned amount stands for: digits, a point, digits,
/// where either run of digits may be missing but not both, and the point may
/// be missing if no digits follow.
pub open spec fn unsigned_cents(body: Seq<char>) -> Option<int> {
    let p = first_dot(body);
    let whole = body.take(p);
    let frac = if p < body.len() {
        body.skip(p + 1)
    } else {
        Seq::empty()
    };
    if all_digits(whole) && all_digits(frac) && whole.len() + frac.len() > 0 && digits_value(whole)
        <= MAX_WHOLE {
        Some(digits_value(whole) * 100 + fraction_cents(frac))
    } else {
        None
    }
}

/// The cents that an amount stands for, rounded to the nearest cent with
/// halves going away from zero. An amount is an unsigned amount with an
/// optional `+` or `-` before it.
pub open spec fn decimal_cents(s: Seq<char>) -> Option<int> {
    if s.len() > 0 && s[0] == '-' {
        match unsigned_cents(s.skip(1)) {
            Some(v) => Some(-v),
            None => None,
        }
    } else if s.len() > 0 && s[0] == '+' {
        unsigned_cents(s.skip(1))
    } else {
        unsigned_cents(s)
    }
}

#[verifier::loop_isolation(false)]
fn read_unsigned_cents(body: &Vec<char>) -> (r: Option<i64>)
    ensures
        r is Some <==> unsigned_cents(body@) is Some,
        r matches Some(v) ==> Some(v as int) == unsigned_cents(body@) && 0 <= v
            <= 1_000_000_000_000_000_100,
{
    let n: usize = body.len();
    let mut p: usize = 0;
    while p < n && body[p] != '.'
        invariant
            0 <= p <= n,
            n == body@.len(),
            forall|i: int| 0 <= i < p ==> body@[i] != '.',
        decreases n - p,
    {
        p = p + 1;
    }
    proof {
        lemma_first_dot(body@, p as int);
    }
    let whole: Vec<char> = slice_of(body, 0, p);
    let frac: Vec<char> = if p < n {
        slice_of(body, p + 1, n)
    } else {
        Vec::new()
    };
    proof {
        assert(whole@ =~= body@.take(p as int));
        if p < n {
            assert(frac@ =~= body@.skip(p as int + 1));
        } else {
            assert(frac@ =~= Seq::<char>::empty());
        }
    }
    if whole.len() + frac.len() == 0 {
        return None;
    }
    let whole_value: i64 = match digits_of(&whole) {
        Some(v) => v,
        None => {
            return None;
        },
    };
    let mut cents: i64 = 0;
    let mut i: usize = 0;
    while i < frac.len()
        invariant
            0 <= i <= frac@.len(),
            all_digits(frac@.take(i as int)),
            cents == fraction_cents(frac@.take(if i < 3 {
                i as int
            } else {
                3
            })),
            0 <= cents <= 100,
        decreases frac@.len() - i,
    {
        let c: char = frac[i];
        if c < '0' || c > '9' {
            proof {
                assert(!is_digit(frac@[i as int]));
            }
            return None;
        }
        let digit: i64 = (c as u32 - '0' as u32) as i64;
        proof {
            let longer = frac@.take(i as int + 1);
            assert forall|j: int| 0 <= j < longer.len() implies is_digit(#[trigger] longer[j]) by {
                if j < i {
                    assert(longer[j] == frac@.take(i as int)[j]);
                }
            }
        }
        if i == 0 {
            cents = digit * 10;
        } else if i == 1 {
            proof {
                assert(is_digit(frac@.take(1)[0]));
            }
            cents = cents + digit;
        } else if i == 2 {
            proof {
                assert(is_digit(frac@.take(2)[0]));
                assert(is_digit(frac@.take(2)[1]));
            }
            if digit >= 5 {
                cents = cents + 1;
            }
        }
        i = i + 1;
    }
    proof {
        assert(frac@.take(frac@.len() as int) =~= frac@);
        if frac@.len() > 3 {
            assert(fraction_cents(frac@.take(3)) == fraction_cents(frac@));
        }
    }
    Some(whole_value * 100 + cents)
}

/// Reads an amount of money written in decimal notation, such as `12.5`,
/// `-0.15` or `.05`, and gives it in cents, rounded to the nearest cent with
/// halves going away from zero. No exponent, no grouping and no surrounding
/// blanks are accepted, and the whole part may not exceed `MAX_WHOLE`.
pub fn parse_cents(text: &str) -> (r: Option<i64>)
    ensures
        r is Some <==> decimal_cents(text@) is Some,
        r matches Some(v) ==> Some(v as int) == decimal_cents(text@),
{
    let chars: Vec<char> = to_chars(text);
    read_cents(&chars)
}

/// Reads an amount from its characters.
pub fn read_cents(chars: &Vec<char>) -> (r: Option<i64>)
    ensures
        r is Some <==> decimal_cents(chars@) is Some,
        r matches Some(v) ==> Some(v as int) == decimal_cents(chars@),
{
    let n: usize = chars.len();
    if n > 0 && (chars[0] == '-' || chars[0] == '+') {
        let body: Vec<char> = slice_of(chars, 1, n);
        proof {
            assert(body@ =~= chars@.skip(1));
        }
        match read_unsigned_cents(&body) {
            Some(v) => if chars[0] == '-' {
                Some(-v)
            } else {
                Some(v)
            },
            None => None,
        }
    } else {
        read_unsigned_cents(chars)
    }
}

/// The number that a text with an optional sign before its digits stands
/// for.
pub open spec fn signed_value(s: Seq<char>) -> Option<int> {
    let body = if s.len() > 0 && (s[0] == '-' || s[0] == '+') {
        s.skip(1)
    } else {
        s
    };
    if body.len() > 0 && all_digits(body) && digits_value(body) <= MAX_WHOLE {
        if s[0] == '-' {
            Some(-digits_value(body))
        } else {
            Some(digits_value(body))
        }
    } else {
        None
    }
}

/// Reads a whole number: an optional `+` or `-` and one or more digits that
/// stand for at most `MAX_WHOLE`.
pub fn parse_whole(text: &str) -> (r: Option<i64>)
    ensures
        r is Some <==> signed_value(text@) is Some,
        r matches Some(v) ==> Some(v as int) == signed_value(text@),
{
    let chars: Vec<char> = to_chars(text);
    let n: usize = chars.len();
    let signed: bool = n > 0 && (chars[0] == '-' || chars[0] == '+');
    let body: Vec<char> = if signed {
        slice_of(&chars, 1, n)
    } else {
        slice_of(&chars, 0, n)
    };
    proof {
        if signed {
            assert(body@ =~= chars@.skip(1));
        } else {
            assert(body@ =~= chars@);
        }
    }
    if body.len() == 0 {
        return None;
    }
    match digits_of(&body) {
        Some(v) => if chars[0] == '-' {
            Some(-v)
        } else {
            Some(v)
        },
        None => None,
    }
}

/// The place of the first `c` at or after `from`, or the length of the text
/// if there is none.
pub open spec fn next_of(s: Seq<char>, c: char, from: int) -> int
    decreases s.len() - from,
{
    if from < 0 || from >= s.len() {
        s.len() as int
    } else if s[from] == c {
        from
    } else {
        next_of(s, c, from + 1)
    }
}

/// Finds the first `c` at or after `from`.
pub fn find_next(text: &str, c: char, from: usize) -> (p: usize)
    requires
        from <= text@.len(),
    ensures
        p == next_of(text@, c, from as int),
        from <= p <= text@.len(),
{
    let n: usize = text.unicode_len();
    let mut p: usize = from;
    while p < n && text.get_char(p) != c
        invariant
            from <= p <= n,
            n == text@.len(),
            next_of(text@, c, from as int) == next_of(text@, c, p as int),
        decreases n - p,
    {
        p = p + 1;
    }
    p
}

} // verus!
