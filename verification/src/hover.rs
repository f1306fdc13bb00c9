//! The text that the language server shows on hover.

use crate::text::push_char;
use vstd::prelude::*;

verus! {

/// The decimal digit for `d`, which is below 10.
pub open spec fn digit_char(d: nat) -> char {
    if d == 0 {
        '0'
    } else if d == 1 {
        '1'
    } else if d == 2 {
        '2'
    } else if d == 3 {
        '3'
    } else if d == 4 {
        '4'
    } else if d == 5 {
        '5'
    } else if d == 6 {
        '6'
    } else if d == 7 {
        '7'
    } else if d == 8 {
        '8'
    } else {
        '9'
    }
}

/// `n` written in decimal, without leading zeros.
pub open spec fn decimal(n: nat) -> Seq<char>
    decreases n,
{
    if n < 10 {
        seq![digit_char(n)]
    } else {
        decimal(n / 10).push(digit_char(n % 10))
    }
}

fn digit(d: usize) -> (c: char)
    requires
        d < 10,
    ensures
        c == digit_char(d as nat),
{
    if d == 0 {
        '0'
    } else if d == 1 {
        '1'
    } else if d == 2 {
        '2'
    } else if d == 3 {
        '3'
    } else if d == 4 {
        '4'
    } else if d == 5 {
        '5'
    } else if d == 6 {
        '6'
    } else if d == 7 {
        '7'
    } else if d == 8 {
        '8'
    } else {
        '9'
    }
}

/// Appends `n` in decimal to `s`.
pub fn push_decimal(s: &mut String, n: usize)
    ensures
        final(s)@ == old(s)@ + decimal(n as nat),
    decreases n,
{
    if n >= 10 {
        push_decimal(s, n / 10);
    }
    push_char(s, digit(n % 10));
    proof {
        if n < 10 {
            assert(old(s)@ + decimal(n as nat) =~= old(s)@.push(digit_char(n as nat)));
        } else {
            assert(old(s)@ + decimal(n as nat) =~= (old(s)@ + decimal((n / 10) as nat)).push(
                digit_char((n % 10) as nat),
            ));
        }
    }
}

/// The Markdown hover text for a body character count.
pub open spec fn hover_text(count: nat) -> Seq<char> {
    "**本文文字数:** "@ + decimal(count) + " 文字"@
}

/// The Markdown hover text for a body character count:
/// `**本文文字数:** N 文字`.
pub fn hover_markdown(count: usize) -> (markdown: String)
    ensures
        markdown@ == hover_text(count as nat),
{
    let mut markdown = "**本文文字数:** ".to_owned();
    push_decimal(&mut markdown, count);
    markdown.append(" 文字");
    markdown
}


/// The number that a string of decimal digits stands for, most significant
/// digit first.
pub open spec fn numeral_value(digits: Seq<char>) -> int
    decreases digits.len(),
{
    if digits.len() == 0 {
        0
    } else {
        numeral_value(digits.drop_last()) * 10 + (digits.last() as int - '0' as int)
    }
}

/// Each digit char is the ASCII digit of its value.
pub proof fn law_digit_char_is_ascii_digit(d: nat)
    requires
        d < 10,
    ensures
        digit_char(d) as int == '0' as int + d,
{
}

/// `decimal(n)` is the decimal numeral of `n`: its chars are ASCII digits,
/// it has no leading zero, and the digits weighted by powers of ten add up
/// to `n`.
pub proof fn law_decimal_is_the_numeral(n: nat)
    ensures
        decimal(n).len() > 0,
        forall|i: int| 0 <= i < decimal(n).len() ==> '0' <= #[trigger] decimal(n)[i] <= '9',
        n > 0 ==> decimal(n)[0] != '0',
        numeral_value(decimal(n)) == n,
    decreases n,
{
    if n < 10 {
        law_digit_char_is_ascii_digit(n);
        assert(decimal(n).drop_last() =~= Seq::<char>::empty());
        assert(numeral_value(Seq::<char>::empty()) == 0);
        assert(decimal(n)[0] == digit_char(n));
        assert(numeral_value(decimal(n)) == n);
        assert('0' <= decimal(n)[0] <= '9');
    } else {
        let q = n / 10;
        let d = n % 10;
        law_decimal_is_the_numeral(q);
        law_digit_char_is_ascii_digit(d);
        let ds = decimal(q).push(digit_char(d));
        assert(decimal(n) == ds);
        assert(ds.drop_last() =~= decimal(q));
        assert(ds[0] == decimal(q)[0]);
        assert forall|i: int| 0 <= i < ds.len() implies '0' <= #[trigger] ds[i] <= '9' by {
            if i < decimal(q).len() {
                assert(ds[i] == decimal(q)[i]);
            }
        }
        assert(n == q * 10 + d);
    }
}

/// Appending a digit to a numeral multiplies its number by ten and adds
/// the digit.
pub proof fn law_decimal_appends_digits(q: nat, d: nat)
    requires
        q > 0,
        d < 10,
    ensures
        decimal(10 * q + d) == decimal(q).push(digit_char(d)),
{
    let n = 10 * q + d;
    assert(n / 10 == q && n % 10 == d) by (nonlinear_arith)
        requires
            n == 10 * q + d,
            d < 10,
    ;
}

/// Different counts give different hover texts: the text shows the count
/// itself.
pub proof fn law_hover_text_tells_counts_apart(a: nat, b: nat)
    requires
        hover_text(a) == hover_text(b),
    ensures
        a == b,
{
    let pre = "**本文文字数:** "@;
    let post = " 文字"@;
    let x = hover_text(a);
    assert(x == pre + decimal(a) + post);
    assert(x == pre + decimal(b) + post);
    assert(decimal(a).len() == decimal(b).len());
    assert(decimal(a) =~= x.subrange(pre.len() as int, pre.len() + decimal(a).len() as int));
    assert(decimal(b) =~= x.subrange(pre.len() as int, pre.len() + decimal(b).len() as int));
    law_decimal_is_the_numeral(a);
    law_decimal_is_the_numeral(b);
}

} // verus!
