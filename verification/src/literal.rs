//! The grammar of decimal literals.
//!
//! A decimal literal is an optional sign, digits with one decimal point among
//! them, and an optional exponent:
//!
//! ```text
//! literal  ::= sign? ( digit+ '.' digit* | digit* '.' digit+ ) exponent?
//! exponent ::= ( 'e' | 'E' ) sign? digit+
//! sign     ::= '+' | '-'
//! digit    ::= '0' ..= '9'
//! ```
//!
//! These are the texts with a decimal point that the standard library reads
//! as a floating-point number.

use vstd::prelude::*;

verus! {

/// One of the ten ASCII digits.
pub open spec fn is_digit(c: char) -> bool {
    '0' <= c && c <= '9'
}

/// A plus or a minus.
pub open spec fn is_sign(c: char) -> bool {
    c == '+' || c == '-'
}

/// The letter that opens an exponent, in either case.
pub open spec fn is_exponent_mark(c: char) -> bool {
    c == 'e' || c == 'E'
}

/// Every character of `s` is a digit. The empty text qualifies.
pub open spec fn all_digits(s: Seq<char>) -> bool {
    forall|i: int| 0 <= i < s.len() ==> is_digit(#[trigger] s[i])
}

/// The length of the sign that `s` begins with: one, or zero without a sign.
pub open spec fn sign_len(s: Seq<char>) -> int {
    if s.len() > 0 && is_sign(s[0]) {
        1
    } else {
        0
    }
}

/// `s` is an exponent: the mark, an optional sign, and at least one digit.
pub open spec fn is_exponent(s: Seq<char>) -> bool {
    &&& s.len() >= 1
    &&& is_exponent_mark(s[0])
    &&& 1 + sign_len(s.skip(1)) < s.len()
    &&& all_digits(s.skip(1 + sign_len(s.skip(1))))
}

/// `s` is a decimal literal whose digits begin at `start`, whose decimal
/// point stands at `point` and whose digits end before `end`: digits on both
/// sides of the point, at least one in all, and behind them nothing or an
/// exponent.
pub open spec fn decimal_shape(s: Seq<char>, start: int, point: int, end: int) -> bool {
    &&& 0 <= start <= point < end <= s.len()
    &&& all_digits(s.subrange(start, point))
    &&& s[point] == '.'
    &&& all_digits(s.subrange(point + 1, end))
    &&& end - start >= 2
    &&& (end == s.len() || is_exponent(s.skip(end)))
}

/// `s` is a decimal literal: behind its optional sign it has the shape of
/// one.
pub open spec fn decimal_literal(s: Seq<char>) -> bool {
    exists|point: int, end: int| decimal_shape(s, sign_len(s), point, end)
}

/// The four parts fit the grammar: `sign` is a sign or empty, `whole` and
/// `fraction` are digits with at least one digit between them, and
/// `exponent` is an exponent or empty.
pub open spec fn literal_parts(
    sign: Seq<char>,
    whole: Seq<char>,
    fraction: Seq<char>,
    exponent: Seq<char>,
) -> bool {
    &&& sign.len() == 0 || (sign.len() == 1 && is_sign(sign[0]))
    &&& all_digits(whole)
    &&& all_digits(fraction)
    &&& whole.len() + fraction.len() >= 1
    &&& exponent.len() == 0 || is_exponent(exponent)
}

/// The text made of the four parts, with the decimal point between `whole`
/// and `fraction`.
pub open spec fn literal_text(
    sign: Seq<char>,
    whole: Seq<char>,
    fraction: Seq<char>,
    exponent: Seq<char>,
) -> Seq<char> {
    sign + whole + seq!['.'] + fraction + exponent
}

/// Parts that fit the grammar make a decimal literal.
pub proof fn lemma_parts_make_literal(
    sign: Seq<char>,
    whole: Seq<char>,
    fraction: Seq<char>,
    exponent: Seq<char>,
)
    requires
        literal_parts(sign, whole, fraction, exponent),
    ensures
        decimal_literal(literal_text(sign, whole, fraction, exponent)),
{
    let s = literal_text(sign, whole, fraction, exponent);
    let start = sign.len() as int;
    let point = start + whole.len();
    let end = point + 1 + fraction.len();
    assert(s[point] == '.');
    if whole.len() > 0 {
        assert(s[start] == whole[0]);
    }
    assert(sign_len(s) == start);
    assert(s.subrange(start, point) =~= whole);
    assert(s.subrange(point + 1, end) =~= fraction);
    assert(s.skip(end) =~= exponent);
    assert(decimal_shape(s, start, point, end));
}

/// A decimal literal is made of parts that fit the grammar.
pub proof fn lemma_literal_has_parts(s: Seq<char>)
    requires
        decimal_literal(s),
    ensures
        exists|sign: Seq<char>, whole: Seq<char>, fraction: Seq<char>, exponent: Seq<char>|
            literal_parts(sign, whole, fraction, exponent) && s == #[trigger] literal_text(
                sign,
                whole,
                fraction,
                exponent,
            ),
{
    let start = sign_len(s);
    let (point, end) = choose|point: int, end: int| decimal_shape(s, start, point, end);
    let sign = s.subrange(0, start);
    let whole = s.subrange(start, point);
    let fraction = s.subrange(point + 1, end);
    let exponent = s.skip(end);
    assert(s =~= literal_text(sign, whole, fraction, exponent));
    assert(literal_parts(sign, whole, fraction, exponent));
}

/// Where the digits that begin at `from` end: `to` is the first index from
/// `from` on that holds no digit, or the length of `s`.
pub open spec fn digits_end_at(s: Seq<char>, from: int, to: int) -> bool {
    &&& 0 <= from <= to <= s.len()
    &&& all_digits(s.subrange(from, to))
    &&& to < s.len() ==> !is_digit(s[to])
}

/// A run of digits has one end: two indices that both end the digits from
/// `from` are the same.
pub proof fn lemma_digits_end_unique(s: Seq<char>, from: int, to: int, other: int)
    requires
        digits_end_at(s, from, to),
        digits_end_at(s, from, other),
    ensures
        to == other,
{
    if to < other {
        assert(s.subrange(from, other)[to - from] == s[to]);
    }
    if other < to {
        assert(s.subrange(from, to)[other - from] == s[other]);
    }
}

/// A decimal literal is read in one way only: the point stands where the
/// digits behind the sign end, and the digits behind the point end where
/// `decimal_shape` says.
pub proof fn lemma_shape_unique(s: Seq<char>, start: int, point: int, end: int)
    requires
        decimal_shape(s, start, point, end),
    ensures
        digits_end_at(s, start, point),
        digits_end_at(s, point + 1, end),
{
    if end < s.len() {
        assert(s.skip(end)[0] == s[end]);
    }
}

/// Finds where the digits that begin at `from` end.
fn digits_end(text: &[char], from: usize) -> (to: usize)
    requires
        from <= text.len(),
    ensures
        digits_end_at(text@, from as int, to as int),
{
    let mut to: usize = from;
    while to < text.len() && '0' <= text[to] && text[to] <= '9'
        invariant
            from <= to <= text.len(),
            all_digits(text@.subrange(from as int, to as int)),
        decreases text.len() - to,
    {
        to = to + 1;
        assert forall|i: int| 0 <= i < to - from implies is_digit(
            #[trigger] text@.subrange(from as int, to as int)[i],
        ) by {
            if i < to - from - 1 {
                assert(text@.subrange(from as int, to - 1)[i] == text@[from + i]);
            }
        }
    }
    to
}

/// Tells whether the part of `text` from `from` on is an exponent.
fn is_exponent_from(text: &[char], from: usize) -> (ok: bool)
    requires
        from <= text.len(),
    ensures
        ok == is_exponent(text@.skip(from as int)),
{
    let len = text.len();
    let ghost tail = text@.skip(from as int);
    if from == len || !(text[from] == 'e' || text[from] == 'E') {
        return false;
    }
    let signed = from + 1 < len && (text[from + 1] == '+' || text[from + 1] == '-');
    let digits: usize = if signed {
        from + 2
    } else {
        from + 1
    };
    let to = digits_end(text, digits);
    proof {
        assert(tail[0] == text@[from as int]);
        if from + 1 < len {
            assert(tail.skip(1)[0] == text@[from + 1]);
        }
        assert(digits - from == 1 + sign_len(tail.skip(1)));
        let rest = tail.skip(digits - from);
        assert(rest =~= text@.subrange(digits as int, len as int));
        if to < len {
            assert(rest[to - digits] == text@[to as int]);
        }
    }
    digits < len && to == len
}

/// Tells whether `text` is a decimal literal.
pub fn is_decimal_literal(text: &[char]) -> (ok: bool)
    ensures
        ok == decimal_literal(text@),
{
    let len = text.len();
    let start: usize = if len > 0 && (text[0] == '+' || text[0] == '-') {
        1
    } else {
        0
    };
    let point = digits_end(text, start);
    if point == len || text[point] != '.' {
        proof {
            assert forall|p: int, e: int| !decimal_shape(text@, start as int, p, e) by {
                if decimal_shape(text@, start as int, p, e) {
                    lemma_shape_unique(text@, start as int, p, e);
                    lemma_digits_end_unique(text@, start as int, point as int, p);
                }
            }
        }
        return false;
    }
    let end = digits_end(text, point + 1);
    let ok = end - start >= 2 && (end == len || is_exponent_from(text, end));
    proof {
        assert(start == sign_len(text@));
        if ok {
            assert(decimal_shape(text@, start as int, point as int, end as int));
        } else {
            assert forall|p: int, e: int| !decimal_shape(text@, start as int, p, e) by {
                if decimal_shape(text@, start as int, p, e) {
                    lemma_shape_unique(text@, start as int, p, e);
                    lemma_digits_end_unique(text@, start as int, point as int, p);
                    lemma_digits_end_unique(text@, point + 1, end as int, e);
                }
            }
        }
    }
    ok
}

} // verus!
