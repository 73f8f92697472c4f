//! Texts: what normalizing, comparing and counting leave as it is, and what they
//! change.

use vstd::prelude::*;

use crate::text;

verus! {

/// Whether a character counts as white space: tabs, line ends and blanks of
/// every width.
pub open spec fn is_blank(c: char) -> bool {
    ||| '\u{9}' <= c <= '\u{d}'
    ||| c == ' '
    ||| c == '\u{85}'
    ||| c == '\u{a0}'
    ||| c == '\u{1680}'
    ||| '\u{2000}' <= c <= '\u{200a}'
    ||| c == '\u{2028}'
    ||| c == '\u{2029}'
    ||| c == '\u{202f}'
    ||| c == '\u{205f}'
    ||| c == '\u{3000}'
}

/// A text without white space at its ends keeps its length, and each of its
/// characters but for the capitals of ASCII, which become small.
pub proof fn law_normalizing_lowers_capitals(s: Seq<char>)
    requires
        s.len() > 0 ==> !is_blank(s[0]) && !is_blank(s.last()),
    ensures
        text::normalized(s).len() == s.len(),
        forall|i: int|
            0 <= i < s.len() && !('A' <= s[i] <= 'Z') ==> #[trigger] text::normalized(s)[i] == s[i],
        forall|i: int|
            0 <= i < s.len() && 'A' <= s[i] <= 'Z' ==> #[trigger] text::normalized(s)[i] as int
                == s[i] as int + 32,
{
    let margin = |c: char| text::white(c);
    if s.len() > 0 {
        lemma_blank_is_white(s[0]);
        lemma_blank_is_white(s.last());
        assert(!margin(s[0]) && !margin(s.last()));
    }
    text::lemma_strip_fixed(s, margin);
}

/// White space is what counts as such.
proof fn lemma_blank_is_white(c: char)
    ensures
        is_blank(c) == text::white(c),
{
}

/// White space around a text does not count.
pub proof fn law_blanks_around_do_not_count(s: Seq<char>, c: char)
    requires
        is_blank(c),
    ensures
        text::normalized(seq![c] + s) == text::normalized(s),
        text::normalized(s.push(c)) == text::normalized(s),
{
    let margin = |c: char| text::white(c);
    assert((seq![c] + s).drop_first() =~= s);
    text::lemma_strip_push(s, c, margin);
}

/// Two texts that differ in the case of ASCII letters only are normalized to the
/// same.
pub proof fn law_case_does_not_count(a: Seq<char>, b: Seq<char>)
    requires
        a.len() == b.len(),
        forall|i: int|
            #![trigger a[i]]
            0 <= i < a.len() ==> a[i] == b[i] || ('A' <= a[i] <= 'Z' && b[i] as int == a[i] as int
                + 32),
    ensures
        text::normalized(a) == text::normalized(b),
    decreases a.len(),
{
    let margin = |c: char| text::white(c);
    if a.len() == 0 {
        assert(a =~= b);
    } else if text::white(a[0]) {
        assert(a[0] == b[0]);
        let x = a.drop_first();
        let y = b.drop_first();
        assert forall|i: int| #![trigger x[i]] 0 <= i < x.len() implies x[i] == y[i] || ('A'
            <= x[i] <= 'Z' && y[i] as int == x[i] as int + 32) by {
            assert(x[i] == a[i + 1] && y[i] == b[i + 1]);
        }
        law_case_does_not_count(x, y);
    } else if text::white(a.last()) {
        assert(a[a.len() - 1] == b[b.len() - 1]);
        let x = a.drop_last();
        let y = b.drop_last();
        assert forall|i: int| #![trigger x[i]] 0 <= i < x.len() implies x[i] == y[i] || ('A'
            <= x[i] <= 'Z' && y[i] as int == x[i] as int + 32) by {
            assert(x[i] == a[i] && y[i] == b[i]);
        }
        law_case_does_not_count(x, y);
        assert(a =~= x.push(a.last()) && b =~= y.push(b.last()));
        text::lemma_strip_push(x, a.last(), margin);
        text::lemma_strip_push(y, b.last(), margin);
    } else {
        assert(a[0] == a[0] && a[a.len() - 1] == a.last());
        text::lemma_strip_fixed(a, margin);
        text::lemma_strip_fixed(b, margin);
        assert(text::normalized(a) =~= text::normalized(b));
    }
}

/// A text stands before one that goes on where it ends; of two that go on
/// differently, the one with the smaller character stands before the other.
pub proof fn law_order_of_texts(common: Seq<char>, one: Seq<char>, other: Seq<char>)
    requires
        other.len() > 0,
        one.len() > 0 ==> one[0] < other[0],
    ensures
        text::before(common + one, common + other),
        !text::before(common + other, common + one),
{
    let a = common + one;
    let b = common + other;
    let at = common.len() as int;
    assert(b[at] == other[0]);
    assert(one.len() > 0 ==> a[at] == one[0]);
    assert forall|k: int| 0 <= k < at implies a[k] == b[k] by {
        assert(a[k] == common[k] && b[k] == common[k]);
    }
    assert(text::before_at(a, b, at));
    text::lemma_before_not_both(b, a);
}

/// A digit is written by its character, a larger number by that of its tenth and
/// the digit that is left, and a negative one with a minus sign in front.
pub proof fn law_decimal(n: nat, digit: nat)
    requires
        digit < 10,
    ensures
        text::decimal_text(digit as int).len() == 1,
        text::decimal_text(digit as int)[0] as int == '0' as int + digit,
        n > 0 ==> text::decimal_text((n * 10 + digit) as int) == text::decimal_text(n as int)
            + text::decimal_text(digit as int),
        n > 0 ==> text::decimal_text(-(n as int)) == seq!['-'] + text::decimal_text(n as int),
{
    if n > 0 {
        let whole = n * 10 + digit;
        assert(whole / 10 == n && whole % 10 == digit);
        assert(text::digits(whole) =~= text::digits(n) + text::digits(digit));
    }
}

/// A part stands in a text where the text is made of something, the part, and
/// something else, and nowhere else.
pub proof fn law_parts(text: Seq<char>, part: Seq<char>, start: Seq<char>, end: Seq<char>)
    ensures
        text::holds(start + part + end, part),
        text::holds(text, part) ==> exists|a: Seq<char>, b: Seq<char>| text == #[trigger] (a + part
            + b),
{
    let whole = start + part + end;
    let at = start.len() as int;
    assert(whole.subrange(at, at + part.len()) =~= part);
    assert(text::stands_at(whole, part, at));
    if text::holds(text, part) {
        let at = choose|at: int| text::stands_at(text, part, at);
        let a = text.take(at);
        let b = text.skip(at + part.len());
        assert(text =~= a + part + b);
    }
}

} // verus!
