//! Writing numbers, strikes and order legs as text.

use crate::orders::{OrderBody, OrderLeg};
use vstd::prelude::*;
use vstd::string::*;

verus! {

/// The character of a decimal digit.
pub open spec fn digit_char(d: int) -> char {
    if d == 0 {
        '0'
    } else if d == 1 {
        '1'
    } else if d == 2 {
        '2'
    } else if d == 3 {
        '3'
    } else if d == 4 {
        '4'
    } else if d == 5 {
        '5'
    } else if d == 6 {
        '6'
    } else if d == 7 {
        '7'
    } else if d == 8 {
        '8'
    } else {
        '9'
    }
}

/// A number in decimal notation, without leading zeros.
pub open spec fn decimal_text(n: nat) -> Seq<char>
    decreases n,
{
    if n < 10 {
        seq![digit_char(n as int)]
    } else {
        decimal_text(n / 10).push(digit_char((n % 10) as int))
    }
}

/// Reading what was written gives the number back.
pub proof fn lemma_decimal_text_reads_back(n: nat)
    ensures
        crate::text::all_digits(decimal_text(n)),
        crate::text::digits_value(decimal_text(n)) == n,
        decimal_text(n).len() > 0,
    decreases n,
{
    let text = decimal_text(n);
    if n < 10 {
        assert(text.drop_last() =~= Seq::<char>::empty());
        assert(crate::text::digits_value(text.drop_last()) == 0);
        assert(text.last() == digit_char(n as int));
    } else {
        lemma_decimal_text_reads_back(n / 10);
        assert(text.drop_last() =~= decimal_text(n / 10));
        assert forall|i: int| 0 <= i < text.len() implies crate::text::is_digit(
            #[trigger] text[i],
        ) by {
            if i < text.len() - 1 {
                assert(text[i] == decimal_text(n / 10)[i]);
            }
        }
    }
}

/// The digits of `v`, last first.
pub open spec fn digits_backwards(v: Seq<u8>) -> Seq<char>
    decreases v.len(),
{
    if v.len() == 0 {
        Seq::empty()
    } else {
        seq![digit_char(v.last() as int)] + digits_backwards(v.drop_last())
    }
}

fn digit_text(d: u8) -> (r: &'static str)
    requires
        d < 10,
    ensures
        r@ == seq![digit_char(d as int)],
{
    proof {
        reveal_strlit("0");
        reveal_strlit("1");
        reveal_strlit("2");
        reveal_strlit("3");
        reveal_strlit("4");
        reveal_strlit("5");
        reveal_strlit("6");
        reveal_strlit("7");
        reveal_strlit("8");
        reveal_strlit("9");
    }
    let r: &'static str = if d == 0 {
        "0"
    } else if d == 1 {
        "1"
    } else if d == 2 {
        "2"
    } else if d == 3 {
        "3"
    } else if d == 4 {
        "4"
    } else if d == 5 {
        "5"
    } else if d == 6 {
        "6"
    } else if d == 7 {
        "7"
    } else if d == 8 {
        "8"
    } else {
        "9"
    };
    proof {
        assert(r@ =~= seq![digit_char(d as int)]);
    }
    r
}

/// Appends a number in decimal notation.
pub fn push_number(out: &mut String, n: u64)
    ensures
        final(out)@ == old(out)@ + decimal_text(n as nat),
{
    let mut digits: Vec<u8> = Vec::new();
    let mut rest: u64 = n;
    proof {
        assert(decimal_text(rest as nat) + digits_backwards(digits@) =~= decimal_text(n as nat));
    }
    while rest >= 10
        invariant
            decimal_text(n as nat) == decimal_text(rest as nat) + digits_backwards(digits@),
            forall|i: int| 0 <= i < digits@.len() ==> digits@[i] < 10,
        decreases rest,
    {
        let d: u8 = (rest % 10) as u8;
        proof {
            let longer = digits@.push(d);
            assert(longer.drop_last() =~= digits@);
            assert(decimal_text((rest / 10) as nat) + digits_backwards(longer) =~= decimal_text(
                rest as nat,
            ) + digits_backwards(digits@));
        }
        digits.push(d);
        rest = rest / 10;
    }
    let ghost start = out@;
    out.append(digit_text(rest as u8));
    let mut i: usize = digits.len();
    proof {
        assert(digits@.take(i as int) =~= digits@);
    }
    while i > 0
        invariant
            0 <= i <= digits@.len(),
            forall|k: int| 0 <= k < digits@.len() ==> digits@[k] < 10,
            out@ + digits_backwards(digits@.take(i as int)) == start + decimal_text(n as nat),
        decreases i,
    {
        proof {
            let shorter = digits@.take(i as int - 1);
            let longer = digits@.take(i as int);
            assert(longer.drop_last() =~= shorter);
            assert(longer.last() == digits@[i as int - 1]);
            assert((out@ + seq![digit_char(digits@[i as int - 1] as int)]) + digits_backwards(
                shorter,
            ) =~= out@ + digits_backwards(longer));
        }
        i = i - 1;
        out.append(digit_text(digits[i]));
    }
    proof {
        assert(out@ + digits_backwards(digits@.take(0)) =~= out@);
    }
}

/// The size of a number.
pub open spec fn magnitude(n: int) -> nat {
    if n < 0 {
        (-n) as nat
    } else {
        n as nat
    }
}

/// A whole number in decimal notation, with a minus sign if it is negative.
pub open spec fn signed_text(n: int) -> Seq<char> {
    if n < 0 {
        seq!['-'] + decimal_text(magnitude(n))
    } else {
        decimal_text(magnitude(n))
    }
}

/// The part of a strike behind the point: nothing for whole points, one
/// digit for whole tenths, two digits otherwise.
pub open spec fn strike_fraction(hundredths: int) -> Seq<char> {
    if hundredths == 0 {
        Seq::empty()
    } else if hundredths % 10 == 0 {
        seq!['.', digit_char(hundredths / 10)]
    } else {
        seq!['.', digit_char(hundredths / 10), digit_char(hundredths % 10)]
    }
}

/// A strike in cents written in points, with as many decimals as it needs
/// and at most two.
pub open spec fn strike_text(price: int) -> Seq<char> {
    (if price < 0 {
        seq!['-']
    } else {
        Seq::<char>::empty()
    }) + decimal_text(magnitude(price) / 100) + strike_fraction((magnitude(price) % 100) as int)
}

fn push_signed(out: &mut String, n: i64)
    ensures
        final(out)@ == old(out)@ + signed_text(n as int),
{
    let ghost start = out@;
    if n < 0 {
        proof {
            reveal_strlit("-");
        }
        out.append("-");
        let size: u64 = (-(n as i128)) as u64;
        push_number(out, size);
        proof {
            assert("-"@ =~= seq!['-']);
            assert(out@ =~= start + signed_text(n as int));
        }
    } else {
        push_number(out, n as u64);
    }
}

/// Writes a strike given in cents: `500000` is `5000`, `500050` is `5000.5`
/// and `500005` is `5000.05`.
pub fn format_strike(price: i32) -> (text: String)
    ensures
        text@ == strike_text(price as int),
{
    let mut text: String = String::new();
    let size: u64 = if price < 0 {
        (-(price as i64)) as u64
    } else {
        price as u64
    };
    proof {
        reveal_strlit("-");
        reveal_strlit(".");
        assert("-"@ =~= seq!['-']);
        assert("."@ =~= seq!['.']);
    }
    if price < 0 {
        text.append("-");
    }
    push_number(&mut text, size / 100);
    let hundredths: u8 = (size % 100) as u8;
    if hundredths != 0 {
        text.append(".");
        text.append(digit_text(hundredths / 10));
        if hundredths % 10 != 0 {
            text.append(digit_text(hundredths % 10));
        }
    }
    proof {
        assert(text@ =~= strike_text(price as int));
    }
    text
}

/// One leg of an order as the broker reads it: the contract id, a stroke and
/// the signed ratio.
pub open spec fn leg_text(leg: OrderLeg) -> Seq<char> {
    decimal_text(leg.conid as nat) + seq!['/'] + signed_text(leg.ratio as int)
}

/// The first `n` legs, with commas between them.
pub open spec fn legs_text(legs: Seq<OrderLeg>, n: int) -> Seq<char>
    decreases n,
{
    if n <= 0 {
        Seq::empty()
    } else if n == 1 {
        leg_text(legs[0])
    } else {
        legs_text(legs, n - 1) + seq![','] + leg_text(legs[n - 1])
    }
}

/// The legs of a combination as the broker reads them: the id of the spread
/// itself, three semicolons, and the legs.
pub open spec fn conidex_text(legs: Seq<OrderLeg>) -> Seq<char> {
    "28812380;;;"@ + legs_text(legs, legs.len() as int)
}

/// Writes the legs of an order as the broker reads them, such as
/// `28812380;;;123/-1,456/1`.
pub fn con_idex(order: &OrderBody) -> (text: String)
    ensures
        text@ == conidex_text(order@.legs),
{
    let mut text: String = String::new();
    text.append("28812380;;;");
    proof {
        reveal_strlit("/");
        reveal_strlit(",");
        assert("/"@ =~= seq!['/']);
        assert(","@ =~= seq![',']);
        assert(text@ =~= "28812380;;;"@ + legs_text(order.legs@, 0));
    }
    let mut n: usize = 0;
    while n < order.legs.len()
        invariant
            0 <= n <= order.legs@.len(),
            "/"@ == seq!['/'],
            ","@ == seq![','],
            text@ == "28812380;;;"@ + legs_text(order.legs@, n as int),
        decreases order.legs@.len() - n,
    {
        let ghost before = text@;
        if n > 0 {
            text.append(",");
        }
        let leg: OrderLeg = order.legs[n];
        push_number(&mut text, leg.conid);
        text.append("/");
        push_signed(&mut text, leg.ratio as i64);
        proof {
            if n == 0 {
                assert(text@ =~= "28812380;;;"@ + leg_text(leg));
            } else {
                assert(text@ =~= "28812380;;;"@ + (legs_text(order.legs@, n as int) + seq![',']
                    + leg_text(leg)));
            }
        }
        n = n + 1;
    }
    text
}

} // verus!
