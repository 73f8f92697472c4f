//! Text as sequences of characters: comparing, trimming, numbers in decimal.

use vstd::prelude::*;
use vstd::string::*;
use vstd::utf8::*;

verus! {

/// `String::push` appends one character at the end of the string.
pub assume_specification[ String::push ](s: &mut String, c: char)
    ensures
        final(s)@ == old(s)@.push(c),
;

/// The characters of a string, in order.
pub(crate) fn chars_of(s: &str) -> (chars: Vec<char>)
    ensures
        chars@ == s@,
{
    let mut chars: Vec<char> = Vec::new();
    for c in it: s.chars()
        invariant
            chars@ == it.seq().take(it.index()),
            it.seq() == s@,
    {
        chars.push(c);
    }
    chars
}

/// The string made of some characters in a row.
pub(crate) fn text_between(chars: &Vec<char>, from: usize, to: usize) -> (text: String)
    requires
        from <= to <= chars@.len(),
    ensures
        text@ == chars@.subrange(from as int, to as int),
{
    let mut text = String::new();
    for i in from..to
        invariant
            from <= to <= chars@.len(),
            text@ == chars@.subrange(from as int, i as int),
    {
        text.push(chars[i]);
    }
    text
}

/// The first of two values, or the second where the first is missing.
pub open spec fn first_of<T>(a: Option<T>, b: Option<T>) -> Option<T> {
    match a {
        Some(_) => a,
        None => b,
    }
}

/// The value, or another one where it is missing.
pub open spec fn or_else<T>(a: Option<T>, b: T) -> T {
    match a {
        Some(value) => value,
        None => b,
    }
}

/// A string that may be missing, as a text.
pub(crate) fn borrowed(string: &Option<String>) -> (text: Option<&str>)
    ensures
        text.deep_view() == string.deep_view(),
{
    match string {
        Some(string) => Some(string.as_str()),
        None => None,
    }
}

/// Strings of their own.
pub(crate) fn copied(texts: &Vec<String>) -> (copies: Vec<String>)
    ensures
        copies.deep_view() == texts.deep_view(),
{
    let mut copies: Vec<String> = Vec::new();
    for i in 0..texts.len()
        invariant
            copies@.len() == i,
            forall|j: int| 0 <= j < i ==> (#[trigger] copies@[j])@ == texts@[j]@,
    {
        copies.push(texts[i].clone());
    }
    assert(copies.deep_view() =~= texts.deep_view());
    copies
}

/// Whether two strings hold the same characters.
pub(crate) fn same_text(a: &str, b: &str) -> (same: bool)
    ensures
        same == (a@ == b@),
{
    let x = a.as_bytes();
    let y = b.as_bytes();
    if x.len() != y.len() {
        return false;
    }
    for i in 0..x.len()
        invariant
            x@ == encode_utf8(a@),
            y@ == encode_utf8(b@),
            x@.len() == y@.len(),
            forall|j: int| 0 <= j < i ==> x@[j] == y@[j],
    {
        if x[i] != y[i] {
            return false;
        }
    }
    proof {
        broadcast use encode_utf8_decode_utf8;

        assert(x@ == y@);
        assert(decode_utf8(encode_utf8(a@)) == decode_utf8(encode_utf8(b@)));
    }
    true
}

/// Whether a part stands in a text, at a position.
pub open spec fn stands_at(text: Seq<char>, part: Seq<char>, at: int) -> bool {
    0 <= at <= text.len() - part.len() && text.subrange(at, at + part.len()) == part
}

/// Whether a part stands in a text.
pub open spec fn holds(text: Seq<char>, part: Seq<char>) -> bool {
    exists|at: int| stands_at(text, part, at)
}

/// Whether a part stands in a text.
pub(crate) fn contains_text(text: &str, part: &str) -> (yes: bool)
    ensures
        yes == holds(text@, part@),
{
    let whole = chars_of(text);
    let length: usize = part.unicode_len();
    if length > whole.len() {
        return false;
    }
    if length == 0 {
        assert(stands_at(text@, part@, 0)) by {
            assert(text@.subrange(0, 0) =~= part@);
        }
        return true;
    }
    for at in 0..whole.len() - length + 1
        invariant
            whole@ == text@,
            length == part@.len(),
            0 < length <= whole@.len(),
            forall|i: int| 0 <= i < at ==> !stands_at(text@, part@, i),
    {
        let here = text_between(&whole, at, at + length);
        if same_text(here.as_str(), part) {
            assert(stands_at(text@, part@, at as int));
            return true;
        }
    }
    false
}

/// Whether `a` stands before `b` because of position `at`: they agree up to
/// there, where `a` ends or has the smaller character.
pub open spec fn before_at(a: Seq<char>, b: Seq<char>, at: int) -> bool {
    &&& 0 <= at <= a.len()
    &&& at < b.len()
    &&& forall|i: int| 0 <= i < at ==> a[i] == b[i]
    &&& at < a.len() ==> a[at] < b[at]
}

/// The order of texts by their characters.
pub open spec fn before(a: Seq<char>, b: Seq<char>) -> bool {
    exists|at: int| before_at(a, b, at)
}

/// No text stands before itself.
pub proof fn lemma_before_irreflexive(a: Seq<char>)
    ensures
        !before(a, a),
{
}

/// Of two different texts one stands before the other.
pub proof fn lemma_before_total(a: Seq<char>, b: Seq<char>)
    ensures
        a == b || before(a, b) || before(b, a),
    decreases a.len(),
{
    if a.len() == 0 && b.len() == 0 {
        assert(a =~= b);
    } else if a.len() == 0 {
        assert(before_at(a, b, 0));
    } else if b.len() == 0 {
        assert(before_at(b, a, 0));
    } else if a[0] < b[0] {
        assert(before_at(a, b, 0));
    } else if b[0] < a[0] {
        assert(before_at(b, a, 0));
    } else {
        let x = a.drop_first();
        let y = b.drop_first();
        lemma_before_total(x, y);
        if x == y {
            assert(a =~= seq![a[0]] + x);
            assert(b =~= seq![b[0]] + y);
        } else if before(x, y) {
            let at = choose|at: int| before_at(x, y, at);
            assert forall|i: int| 0 <= i < at + 1 implies a[i] == b[i] by {
                if i > 0 {
                    assert(x[i - 1] == y[i - 1]);
                }
            }
            assert(before_at(a, b, at + 1));
        } else {
            let at = choose|at: int| before_at(y, x, at);
            assert forall|i: int| 0 <= i < at + 1 implies b[i] == a[i] by {
                if i > 0 {
                    assert(y[i - 1] == x[i - 1]);
                }
            }
            assert(before_at(b, a, at + 1));
        }
    }
}

/// The order of texts is transitive.
pub proof fn lemma_before_transitive(a: Seq<char>, b: Seq<char>, c: Seq<char>)
    requires
        before(a, b),
        before(b, c),
    ensures
        before(a, c),
{
    let i = choose|at: int| before_at(a, b, at);
    let j = choose|at: int| before_at(b, c, at);
    if i < j {
        assert(b[i] == c[i]);
        assert(before_at(a, c, i));
    } else {
        assert(forall|k: int| 0 <= k < j ==> a[k] == b[k]);
        if i == j {
            assert(before_at(a, c, j));
        } else {
            assert(a[j] == b[j]);
            assert(before_at(a, c, j));
        }
    }
}

/// Whether one text stands before another.
pub(crate) fn text_before(a: &str, b: &str) -> (yes: bool)
    ensures
        yes == before(a@, b@),
{
    let x = chars_of(a);
    let y = chars_of(b);
    let mut i: usize = 0;
    while i < x.len() && i < y.len()
        invariant
            i <= x@.len(),
            i <= y@.len(),
            x@ == a@,
            y@ == b@,
            forall|j: int| 0 <= j < i ==> x@[j] == y@[j],
        decreases x@.len() - i,
    {
        if x[i] < y[i] {
            assert(before_at(a@, b@, i as int));
            return true;
        }
        if y[i] < x[i] {
            assert(before_at(b@, a@, i as int));
            proof {
                lemma_before_not_both(a@, b@);
            }
            return false;
        }
        i = i + 1;
    }
    if i < y.len() {
        assert(before_at(a@, b@, i as int));
        true
    } else {
        proof {
            if before(a@, b@) {
                let at = choose|at: int| before_at(a@, b@, at);
                assert(at < i);
                assert(x@[at] == y@[at]);
            }
        }
        false
    }
}

/// Two texts do not stand before one another.
pub proof fn lemma_before_not_both(a: Seq<char>, b: Seq<char>)
    requires
        before(b, a),
    ensures
        !before(a, b),
{
    if before(a, b) {
        lemma_before_transitive(a, b, a);
        lemma_before_irreflexive(a);
    }
}

/// The character that writes a single digit.
pub open spec fn digit_char(digit: int) -> char {
    (48 + digit) as u8 as char
}

/// A natural number in decimal, without leading zeros.
pub open spec fn digits(n: nat) -> Seq<char>
    decreases n,
{
    if n < 10 {
        seq![digit_char(n as int)]
    } else {
        digits(n / 10).push(digit_char((n % 10) as int))
    }
}

/// An integer in decimal, with a minus sign in front where it is negative.
pub open spec fn decimal_text(n: int) -> Seq<char> {
    if n < 0 {
        seq!['-'] + digits((-n) as nat)
    } else {
        digits(n as nat)
    }
}

/// A natural number in decimal.
pub(crate) fn digits_of(n: u64) -> (text: String)
    ensures
        text@ == digits(n as nat),
    decreases n,
{
    let last: u8 = (n % 10) as u8;
    let mut text = if n < 10 {
        String::new()
    } else {
        digits_of(n / 10)
    };
    text.push((48 + last) as char);
    text
}

/// An integer in decimal.
pub fn decimal(n: i64) -> (text: String)
    ensures
        text@ == decimal_text(n as int),
{
    if n < 0 {
        let mut text = String::new();
        text.push('-');
        let magnitude: u64 = (-(n as i128)) as u64;
        let tail = digits_of(magnitude);
        text.append(tail.as_str());
        text
    } else {
        digits_of(n as u64)
    }
}

/// Whether Unicode gives a character the property `White_Space`.
pub open spec fn white(c: char) -> bool {
    ||| 0x9 <= c as u32 <= 0xd
    ||| c as u32 == 0x20
    ||| c as u32 == 0x85
    ||| c as u32 == 0xa0
    ||| c as u32 == 0x1680
    ||| 0x2000 <= c as u32 <= 0x200a
    ||| c as u32 == 0x2028
    ||| c as u32 == 0x2029
    ||| c as u32 == 0x202f
    ||| c as u32 == 0x205f
    ||| c as u32 == 0x3000
}

/// Tells white space from other characters.
pub(crate) fn is_white(c: char) -> (yes: bool)
    ensures
        yes == white(c),
{
    let n: u32 = c as u32;
    (0x9 <= n && n <= 0xd) || n == 0x20 || n == 0x85 || n == 0xa0 || n == 0x1680 || (0x2000 <= n
        && n <= 0x200a) || n == 0x2028 || n == 0x2029 || n == 0x202f || n == 0x205f || n == 0x3000
}

/// What is left of `s` once the characters in `margin` are taken off its front.
pub open spec fn strip_start(s: Seq<char>, margin: spec_fn(char) -> bool) -> Seq<char>
    decreases s.len(),
{
    if s.len() > 0 && margin(s[0]) {
        strip_start(s.drop_first(), margin)
    } else {
        s
    }
}

/// What is left of `s` once the characters in `margin` are taken off its end.
pub open spec fn strip_end(s: Seq<char>, margin: spec_fn(char) -> bool) -> Seq<char>
    decreases s.len(),
{
    if s.len() > 0 && margin(s.last()) {
        strip_end(s.drop_last(), margin)
    } else {
        s
    }
}

/// What is left of `s` once the characters in `margin` are taken off both ends.
pub open spec fn strip(s: Seq<char>, margin: spec_fn(char) -> bool) -> Seq<char> {
    strip_end(strip_start(s, margin), margin)
}

/// What stripping leaves stands in a row in the text, and neither begins nor
/// ends in the margin.
pub proof fn lemma_strip_shape(s: Seq<char>, margin: spec_fn(char) -> bool)
    ensures
        exists|from: int, to: int|
            0 <= from <= to <= s.len() && strip(s, margin) == #[trigger] s.subrange(from, to),
        strip(s, margin).len() > 0 ==> !margin(strip(s, margin)[0]) && !margin(
            strip(s, margin).last(),
        ),
{
    let front = strip_start(s, margin);
    lemma_strip_start_shape(s, margin);
    lemma_strip_end_shape(front, margin);
    let from = s.len() - front.len();
    let to = from + strip(s, margin).len();
    assert(strip(s, margin) =~= s.subrange(from, to));
}

proof fn lemma_strip_start_shape(s: Seq<char>, margin: spec_fn(char) -> bool)
    ensures
        strip_start(s, margin).len() <= s.len(),
        strip_start(s, margin) == s.skip(s.len() - strip_start(s, margin).len()),
        strip_start(s, margin).len() > 0 ==> !margin(strip_start(s, margin)[0]),
    decreases s.len(),
{
    if s.len() > 0 && margin(s[0]) {
        let rest = s.drop_first();
        lemma_strip_start_shape(rest, margin);
        let k = rest.len() - strip_start(rest, margin).len();
        assert(rest.skip(k) =~= s.skip(k + 1));
    } else {
        assert(s.skip(0) =~= s);
    }
}

proof fn lemma_strip_end_shape(s: Seq<char>, margin: spec_fn(char) -> bool)
    ensures
        strip_end(s, margin).len() <= s.len(),
        strip_end(s, margin) == s.take(strip_end(s, margin).len() as int),
        strip_end(s, margin).len() > 0 ==> !margin(strip_end(s, margin).last()),
    decreases s.len(),
{
    if s.len() > 0 && margin(s.last()) {
        let rest = s.drop_last();
        lemma_strip_end_shape(rest, margin);
        assert(rest.take(strip_end(rest, margin).len() as int) =~= s.take(
            strip_end(rest, margin).len() as int,
        ));
    } else {
        assert(s.take(s.len() as int) =~= s);
    }
}

/// A text that neither begins nor ends in the margin is left as it is.
pub proof fn lemma_strip_fixed(s: Seq<char>, margin: spec_fn(char) -> bool)
    requires
        s.len() > 0 ==> !margin(s[0]) && !margin(s.last()),
    ensures
        strip(s, margin) == s,
{
}

/// A character of the margin at the end is taken off.
pub proof fn lemma_strip_push(s: Seq<char>, c: char, margin: spec_fn(char) -> bool)
    requires
        margin(c),
    ensures
        strip(s.push(c), margin) == strip(s, margin),
    decreases s.len(),
{
    let longer = s.push(c);
    if s.len() == 0 {
        assert(longer.drop_first() =~= s);
        assert(strip_start(longer, margin) == strip_start(longer.drop_first(), margin));
    } else if margin(s[0]) {
        assert(longer.drop_first() =~= s.drop_first().push(c));
        lemma_strip_push(s.drop_first(), c, margin);
    } else {
        assert(longer[0] == s[0]);
        assert(longer.drop_last() =~= s);
    }
}

/// Takes the characters that `drop` accepts off both ends.
pub(crate) fn stripped<F: Fn(char) -> bool>(
    chars: &Vec<char>,
    drop: F,
    Ghost(margin): Ghost<spec_fn(char) -> bool>,
) -> (text: String)
    requires
        forall|c: char| drop.requires((c,)),
        forall|c: char, b: bool| drop.ensures((c,), b) ==> b == margin(c),
    ensures
        text@ == strip(chars@, margin),
{
    let mut from: usize = 0;
    assert(chars@.skip(0) =~= chars@);
    while from < chars.len() && drop(chars[from])
        invariant
            from <= chars@.len(),
            forall|c: char| drop.requires((c,)),
            forall|c: char, b: bool| drop.ensures((c,), b) ==> b == margin(c),
            strip_start(chars@, margin) == strip_start(chars@.skip(from as int), margin),
        ensures
            from <= chars@.len(),
            strip_start(chars@, margin) == chars@.skip(from as int),
        decreases chars@.len() - from,
    {
        proof {
            assert(chars@.skip(from as int).drop_first() =~= chars@.skip(from + 1));
        }
        from = from + 1;
    }
    let mut to: usize = chars.len();
    assert(chars@.subrange(from as int, to as int) =~= chars@.skip(from as int));
    while from < to && drop(chars[to - 1])
        invariant
            from <= to <= chars@.len(),
            forall|c: char| drop.requires((c,)),
            forall|c: char, b: bool| drop.ensures((c,), b) ==> b == margin(c),
            strip(chars@, margin) == strip_end(chars@.subrange(from as int, to as int), margin),
        ensures
            from <= to <= chars@.len(),
            strip(chars@, margin) == chars@.subrange(from as int, to as int),
        decreases to - from,
    {
        proof {
            assert(chars@.subrange(from as int, to as int).drop_last() =~= chars@.subrange(
                from as int,
                to - 1,
            ));
        }
        to = to - 1;
    }
    text_between(chars, from, to)
}

/// A character in ASCII lower case; characters outside `A` to `Z` stay.
pub open spec fn lower_char(c: char) -> char {
    if 'A' <= c <= 'Z' {
        (c as u8 + 32) as u8 as char
    } else {
        c
    }
}

/// A text in ASCII lower case.
pub open spec fn lower(s: Seq<char>) -> Seq<char> {
    s.map_values(|c: char| lower_char(c))
}

/// A text in ASCII lower case without the white space around it.
pub open spec fn normalized(s: Seq<char>) -> Seq<char> {
    lower(strip(s, |c: char| white(c)))
}

/// A text that may be missing, in ASCII lower case without the white space
/// around it.
pub open spec fn normalized_in(s: Option<Seq<char>>) -> Option<Seq<char>> {
    match s {
        Some(text) => Some(normalized(text)),
        None => None,
    }
}

/// Normalizing a text twice is normalizing it once.
pub proof fn law_normalized_once(s: Seq<char>)
    ensures
        normalized(normalized(s)) == normalized(s),
{
    let margin = |c: char| white(c);
    let inner = strip(s, margin);
    lemma_strip_shape(s, margin);
    lemma_strip_fixed(lower(inner), margin);
    assert(lower(lower(inner)) =~= lower(inner));
}

/// Takes off the white space around a text and puts it in ASCII lower case.
pub fn normalize_text(value: &str) -> (text: String)
    ensures
        text@ == normalized(value@),
{
    let chars = chars_of(value);
    let ghost margin = |c: char| white(c);
    let trimmed = stripped(&chars, is_white, Ghost(margin));
    let inner = chars_of(trimmed.as_str());
    let mut text = String::new();
    for i in 0..inner.len()
        invariant
            inner@ == strip(value@, margin),
            margin == (|c: char| white(c)),
            text@ == lower(inner@.take(i as int)),
    {
        let c = inner[i];
        let small: char = if 'A' <= c && c <= 'Z' {
            (c as u8 + 32) as char
        } else {
            c
        };
        text.push(small);
        proof {
            assert(inner@.take(i + 1) =~= inner@.take(i as int).push(c));
            assert(lower(inner@.take(i + 1)) =~= lower(inner@.take(i as int)).push(lower_char(c)));
        }
    }
    assert(inner@.take(inner@.len() as int) =~= inner@);
    text
}

} // verus!
