//! Exact integer values: arithmetic and display text.

use vstd::prelude::*;
use vstd::string::StringExecFns;
use core::ops::{Add, Div, Mul, Sub};
use vstd::std_specs::ops::{AddSpecImpl, DivSpecImpl, MulSpecImpl, SubSpecImpl};
use crate::literal::{all_digits, is_digit};

verus! {

/// An integer value.
#[derive(Debug, Clone, Copy, PartialEq, Eq, Structural)]
pub struct Integer(pub i64);

/// The character that is written for the digit `d`.
pub open spec fn digit_char(d: int) -> char {
    ('0' as int + d) as char
}

/// The digit that the character `c` is written for.
pub open spec fn digit_value(c: char) -> int {
    c as int - '0' as int
}

/// The decimal digits of `n`, most significant first, without leading zeros.
pub open spec fn digits_text(n: nat) -> Seq<char>
    decreases n,
{
    if n < 10 {
        seq![digit_char(n as int)]
    } else {
        digits_text(n / 10).push(digit_char((n % 10) as int))
    }
}

/// The display text of `n`: its decimal digits, behind a minus where `n` is
/// negative.
pub open spec fn integer_text(n: int) -> Seq<char> {
    if n < 0 {
        seq!['-'] + digits_text((-n) as nat)
    } else {
        digits_text(n as nat)
    }
}

/// The number that the digits `s` are written for.
pub open spec fn digits_value(s: Seq<char>) -> nat
    decreases s.len(),
{
    if s.len() == 0 {
        0
    } else {
        (10 * digits_value(s.drop_last()) + digit_value(s.last())) as nat
    }
}

/// The number that the text `s` is written for: its digits read as a
/// number, negated behind a minus.
pub open spec fn integer_value(s: Seq<char>) -> int {
    if s.len() > 0 && s[0] == '-' {
        -(digits_value(s.skip(1)) as int)
    } else {
        digits_value(s) as int
    }
}

/// `s` is digits without a needless zero in front: at least one digit, and
/// a zero in front only where it is the only one.
pub open spec fn is_plain_digits(s: Seq<char>) -> bool {
    &&& s.len() >= 1
    &&& all_digits(s)
    &&& s[0] == '0' ==> s.len() == 1
}

/// `s` is an integer literal in the one form that is displayed: plain
/// digits, behind a minus for a negative number, and no minus before zero.
pub open spec fn is_integer_literal(s: Seq<char>) -> bool {
    if s.len() > 0 && s[0] == '-' {
        is_plain_digits(s.skip(1)) && s[1] != '0'
    } else {
        is_plain_digits(s)
    }
}

/// The digits written for a number are plain digits, and read back they
/// give the number.
pub proof fn lemma_digits_read_back(n: nat)
    ensures
        is_plain_digits(digits_text(n)),
        digits_text(n)[0] == '0' <==> n == 0,
        digits_value(digits_text(n)) == n,
    decreases n,
{
    if n < 10 {
        let s = digits_text(n);
        assert(digits_value(s.drop_last()) == 0);
        assert(digit_value(s.last()) == n);
    } else {
        lemma_digits_read_back(n / 10);
        let head = digits_text(n / 10);
        let s = digits_text(n);
        assert(s.drop_last() =~= head);
        assert(s[0] == head[0]);
        assert(digit_value(s.last()) == n % 10);
    }
}

/// Plain digits read as a number and written again are the same digits.
pub proof fn lemma_digits_write_back(s: Seq<char>)
    requires
        is_plain_digits(s),
    ensures
        digits_text(digits_value(s)) == s,
        s[0] != '0' ==> digits_value(s) >= 1,
        s.len() == 1 ==> digits_value(s) < 10,
    decreases s.len(),
{
    let head = s.drop_last();
    if s.len() == 1 {
        assert(head.len() == 0);
        assert(digits_text(digits_value(s)) =~= s);
    } else {
        assert(head[0] == s[0]);
        assert forall|i: int| 0 <= i < head.len() implies is_digit(#[trigger] head[i]) by {
            assert(head[i] == s[i]);
        }
        lemma_digits_write_back(head);
        let n = digits_value(s);
        assert(n / 10 == digits_value(head) && n % 10 == digit_value(s.last()));
        assert(digits_text(n) =~= s);
    }
}

/// Display and reading agree on every number: the display text of `n` is
/// an integer literal, and read as a number it gives `n`.
pub proof fn lemma_text_reads_back(n: int)
    ensures
        is_integer_literal(integer_text(n)),
        integer_value(integer_text(n)) == n,
{
    if n < 0 {
        lemma_digits_read_back((-n) as nat);
        assert(integer_text(n).skip(1) =~= digits_text((-n) as nat));
    } else {
        lemma_digits_read_back(n as nat);
    }
}

/// Display reproduces the literal: an integer literal read as a number and
/// displayed again is the same text.
pub proof fn lemma_literal_writes_back(s: Seq<char>)
    requires
        is_integer_literal(s),
    ensures
        integer_text(integer_value(s)) == s,
{
    if s.len() > 0 && s[0] == '-' {
        lemma_digits_write_back(s.skip(1));
        assert(s.skip(1)[0] == s[1]);
        assert(seq!['-'] + s.skip(1) =~= s);
    } else {
        lemma_digits_write_back(s);
    }
}

/// The text that is written for one digit.
fn digit_str(d: u8) -> (text: &'static str)
    requires
        d < 10,
    ensures
        text@ == seq![digit_char(d as int)],
{
    proof {
        reveal_strlit("0");
        reveal_strlit("1");
        reveal_strlit("2");
        reveal_strlit("3");
        reveal_strlit("4");
        reveal_strlit("5");
        reveal_strlit("6");
        reveal_strlit("7");
        reveal_strlit("8");
        reveal_strlit("9");
    }
    let text = match d {
        0 => "0",
        1 => "1",
        2 => "2",
        3 => "3",
        4 => "4",
        5 => "5",
        6 => "6",
        7 => "7",
        8 => "8",
        _ => "9",
    };
    assert(text@ =~= seq![digit_char(d as int)]);
    text
}

/// Appends the decimal digits of `n` to `text`.
fn push_digits(text: &mut String, n: u64)
    ensures
        final(text)@ == old(text)@ + digits_text(n as nat),
    decreases n,
{
    if n >= 10 {
        push_digits(text, n / 10);
    }
    text.append(digit_str((n % 10) as u8));
}

impl Integer {
    /// The display text of this value: the bare decimal literal.
    pub fn to_string(&self) -> (text: String)
        ensures
            text@ == integer_text(self.0 as int),
    {
        let mut text = String::new();
        if self.0 < 0 {
            proof {
                reveal_strlit("-");
            }
            text.append("-");
            let magnitude: u64 = (-(self.0 + 1)) as u64 + 1;
            push_digits(&mut text, magnitude);
        } else {
            push_digits(&mut text, self.0 as u64);
        }
        text
    }
}

impl Add for Integer {
    type Output = Integer;

    /// The sum, where it is an `i64`.
    fn add(self, rhs: Integer) -> (sum: Integer)
        ensures
            sum.0 == self.0 + rhs.0,
    {
        Integer(self.0 + rhs.0)
    }
}

impl AddSpecImpl for Integer {
    open spec fn obeys_add_spec() -> bool {
        true
    }

    open spec fn add_req(self, rhs: Integer) -> bool {
        i64::MIN <= self.0 + rhs.0 <= i64::MAX
    }

    open spec fn add_spec(self, rhs: Integer) -> Integer {
        Integer((self.0 + rhs.0) as i64)
    }
}

impl Sub for Integer {
    type Output = Integer;

    /// The difference, where it is an `i64`.
    fn sub(self, rhs: Integer) -> (difference: Integer)
        ensures
            difference.0 == self.0 - rhs.0,
    {
        Integer(self.0 - rhs.0)
    }
}

impl SubSpecImpl for Integer {
    open spec fn obeys_sub_spec() -> bool {
        true
    }

    open spec fn sub_req(self, rhs: Integer) -> bool {
        i64::MIN <= self.0 - rhs.0 <= i64::MAX
    }

    open spec fn sub_spec(self, rhs: Integer) -> Integer {
        Integer((self.0 - rhs.0) as i64)
    }
}

impl Mul for Integer {
    type Output = Integer;

    /// The product, where it is an `i64`.
    fn mul(self, rhs: Integer) -> (product: Integer)
        ensures
            product.0 == self.0 * rhs.0,
    {
        Integer(self.0 * rhs.0)
    }
}

impl MulSpecImpl for Integer {
    open spec fn obeys_mul_spec() -> bool {
        true
    }

    open spec fn mul_req(self, rhs: Integer) -> bool {
        i64::MIN <= self.0 * rhs.0 <= i64::MAX
    }

    open spec fn mul_spec(self, rhs: Integer) -> Integer {
        Integer((self.0 * rhs.0) as i64)
    }
}

/// With `q` as the quotient of `a` by `b`, what remains of `a` is smaller in
/// magnitude than `b` and is zero or has the sign of `a`.
pub open spec fn remainder_towards_zero(a: int, b: int, q: int) -> bool {
    let r = a - q * b;
    &&& a >= 0 ==> 0 <= r
    &&& a <= 0 ==> r <= 0
    &&& -b < r < b || b < r < -b
}

/// The quotient of `a` by `b`, rounded towards zero.
pub open spec fn truncated_quotient(a: int, b: int) -> int {
    if a >= 0 {
        a / b
    } else {
        -((-a) / b)
    }
}

/// Rounding towards zero leaves a remainder that is smaller in magnitude than
/// the divisor and is zero or has the sign of the dividend. Only one quotient
/// does.
pub proof fn lemma_quotient_rounds_towards_zero(a: int, b: int, q: int)
    requires
        b != 0,
    ensures
        remainder_towards_zero(a, b, truncated_quotient(a, b)),
        remainder_towards_zero(a, b, q) ==> q == truncated_quotient(a, b),
{
    let t = truncated_quotient(a, b);
    assert(remainder_towards_zero(a, b, t)) by (nonlinear_arith)
        requires
            b != 0,
            t == if a >= 0 {
                a / b
            } else {
                -((-a) / b)
            },
    ;
    if remainder_towards_zero(a, b, q) {
        assert(q == t) by (nonlinear_arith)
            requires
                b != 0,
                remainder_towards_zero(a, b, q),
                remainder_towards_zero(a, b, t),
        ;
    }
}

impl Div for Integer {
    type Output = Integer;

    /// The quotient rounded towards zero, where the divisor is not zero and
    /// the quotient is an `i64`.
    fn div(self, rhs: Integer) -> (quotient: Integer)
        ensures
            quotient.0 == truncated_quotient(self.0 as int, rhs.0 as int),
    {
        proof {
            let a = self.0 as int;
            let b = rhs.0 as int;
            let q = truncated_quotient(a, b);
            assert(-0x8000_0000_0000_0000 <= q < 0x8000_0000_0000_0000) by (nonlinear_arith)
                requires
                    b != 0,
                    -0x8000_0000_0000_0000 <= a < 0x8000_0000_0000_0000,
                    !(a == -0x8000_0000_0000_0000 && b == -1),
                    q == if a >= 0 {
                        a / b
                    } else {
                        -((-a) / b)
                    },
            ;
        }
        Integer(self.0 / rhs.0)
    }
}

impl DivSpecImpl for Integer {
    open spec fn obeys_div_spec() -> bool {
        true
    }

    open spec fn div_req(self, rhs: Integer) -> bool {
        rhs.0 != 0 && !(self.0 == i64::MIN && rhs.0 == -1)
    }

    open spec fn div_spec(self, rhs: Integer) -> Integer {
        Integer(truncated_quotient(self.0 as int, rhs.0 as int) as i64)
    }
}

} // verus!
