//! Classes of characters, and texts without the blanks around them.

use vstd::prelude::*;
use vstd::string::*;

use crate::text::{chars_of, text_of};

verus! {

/// The characters with the Unicode property White_Space.
pub open spec fn is_blank(c: char) -> bool {
    let n = c as u32;
    ||| 0x09 <= n <= 0x0d
    ||| n == 0x20
    ||| n == 0x85
    ||| n == 0xa0
    ||| n == 0x1680
    ||| 0x2000 <= n <= 0x200a
    ||| n == 0x2028
    ||| n == 0x2029
    ||| n == 0x202f
    ||| n == 0x205f
    ||| n == 0x3000
}

pub fn blank(c: char) -> (r: bool)
    ensures
        r == is_blank(c),
{
    let n: u32 = c as u32;
    (0x09 <= n && n <= 0x0d) || n == 0x20 || n == 0x85 || n == 0xa0 || n == 0x1680 || (0x2000 <= n
        && n <= 0x200a) || n == 0x2028 || n == 0x2029 || n == 0x202f || n == 0x205f || n == 0x3000
}

/// The control characters.
pub open spec fn is_control(c: char) -> bool {
    let n = c as u32;
    n <= 0x1f || 0x7f <= n <= 0x9f
}

pub fn control(c: char) -> (r: bool)
    ensures
        r == is_control(c),
{
    let n: u32 = c as u32;
    n <= 0x1f || (0x7f <= n && n <= 0x9f)
}

/// A text from its first character on that is not blank.
pub open spec fn without_leading(s: Seq<char>) -> Seq<char>
    decreases s.len(),
{
    if s.len() > 0 && is_blank(s[0]) {
        without_leading(s.skip(1))
    } else {
        s
    }
}

/// A text up to its last character that is not blank.
pub open spec fn without_trailing(s: Seq<char>) -> Seq<char>
    decreases s.len(),
{
    if s.len() > 0 && is_blank(s.last()) {
        without_trailing(s.drop_last())
    } else {
        s
    }
}

/// A text without the blanks around it.
pub open spec fn trimmed(s: Seq<char>) -> Seq<char> {
    without_trailing(without_leading(s))
}

pub fn trim(s: &str) -> (r: String)
    ensures
        r@ == trimmed(s@),
{
    let chars = chars_of(s);
    let len: usize = chars.len();
    let mut from: usize = 0;
    proof {
        assert(chars@.skip(0) =~= chars@);
    }
    while from < len && blank(chars[from])
        invariant
            len == chars@.len(),
            from <= len,
            without_leading(chars@) == without_leading(chars@.skip(from as int)),
        decreases len - from,
    {
        proof {
            assert(chars@.skip(from as int).skip(1) =~= chars@.skip(from + 1));
            assert(chars@.skip(from as int)[0] == chars@[from as int]);
        }
        from = from + 1;
    }
    let mut to: usize = len;
    proof {
        if from < len {
            assert(chars@.skip(from as int)[0] == chars@[from as int]);
        }
        assert(chars@.skip(from as int) =~= chars@.subrange(from as int, to as int));
    }
    while to > from && blank(chars[to - 1])
        invariant
            len == chars@.len(),
            from <= to <= len,
            trimmed(chars@) == without_trailing(chars@.subrange(from as int, to as int)),
        decreases to,
    {
        proof {
            assert(chars@.subrange(from as int, to as int).drop_last() =~= chars@.subrange(
                from as int,
                to - 1,
            ));
        }
        to = to - 1;
    }
    proof {
        if to > from {
            assert(chars@.subrange(from as int, to as int).last() == chars@[to - 1]);
        }
    }
    text_of(&chars, from, to)
}

/// Trimming a text again changes nothing, and what it leaves neither begins
/// nor ends blank.
pub proof fn trimming_settles(s: Seq<char>)
    ensures
        trimmed(trimmed(s)) == trimmed(s),
        trimmed(s).len() > 0 ==> !is_blank(trimmed(s)[0]) && !is_blank(trimmed(s).last()),
{
    lemma_leading(s);
    lemma_trailing(without_leading(s));
    let t = trimmed(s);
    if t.len() > 0 {
        assert(t[0] == without_leading(s)[0]);
    }
}

proof fn lemma_leading(s: Seq<char>)
    ensures
        without_leading(s).len() > 0 ==> !is_blank(without_leading(s)[0]),
    decreases s.len(),
{
    if s.len() > 0 && is_blank(s[0]) {
        lemma_leading(s.skip(1));
    }
}

proof fn lemma_trailing(s: Seq<char>)
    ensures
        without_trailing(s).len() <= s.len(),
        without_trailing(s) == s.take(without_trailing(s).len() as int),
        without_trailing(s).len() > 0 ==> !is_blank(without_trailing(s).last()),
    decreases s.len(),
{
    if s.len() > 0 && is_blank(s.last()) {
        lemma_trailing(s.drop_last());
        let n = without_trailing(s).len() as int;
        assert(s.drop_last().take(n) =~= s.take(n));
    } else {
        assert(s.take(s.len() as int) =~= s);
    }
}

/// The blanks around a text are left out and nothing else: what is inside stays, blanks
/// among it too.
pub proof fn trimming_takes_the_blanks_around(s: Seq<char>, c: char)
    ensures
        is_blank(c) ==> trimmed(seq![c] + s) == trimmed(s),
        is_blank(c) ==> trimmed(s.push(c)) == trimmed(s),
        s.len() > 0 && !is_blank(s[0]) && !is_blank(s.last()) ==> trimmed(s) == s,
        trimmed(Seq::empty()) == Seq::<char>::empty(),
{
    if is_blank(c) {
        assert((seq![c] + s).skip(1) =~= s);
        lemma_leading_push(s, c);
    }
}

proof fn lemma_leading_push(s: Seq<char>, c: char)
    requires
        is_blank(c),
    ensures
        trimmed(s.push(c)) == trimmed(s),
    decreases s.len(),
{
    if s.len() > 0 && is_blank(s[0]) {
        assert(s.push(c).skip(1) =~= s.skip(1).push(c));
        lemma_leading_push(s.skip(1), c);
    } else if s.len() == 0 {
        assert(s.push(c).skip(1) =~= s);
    } else {
        assert(s.push(c).drop_last() =~= s);
    }
}

/// The blanks are the spaces, tabs and line ends of Unicode, and the control characters its
/// two ranges; letters, digits and punctuation of ASCII are neither.
pub proof fn blanks_and_controls(c: char)
    ensures
        '!' <= c <= '~' ==> !is_blank(c) && !is_control(c),
        is_blank(' ') && is_blank('\t') && is_blank('\n') && is_blank('\r'),
        is_blank(c) && c as u32 >= 0x80 ==> c as u32 == 0x85 || c as u32 == 0xa0 || c as u32
            == 0x1680 || 0x2000 <= c as u32 <= 0x200a || c as u32 == 0x2028 || c as u32 == 0x2029
            || c as u32 == 0x202f || c as u32 == 0x205f || c as u32 == 0x3000,
        c as u32 == 0x85 || c as u32 == 0xa0 || c as u32 == 0x1680 || 0x2000 <= c as u32 <= 0x200a
            || c as u32 == 0x2028 || c as u32 == 0x2029 || c as u32 == 0x202f || c as u32 == 0x205f
            || c as u32 == 0x3000 ==> is_blank(c),
        is_blank(c) && (c as u32) < 0x80 ==> c == ' ' || 9 <= c as u32 <= 13,
        is_control(c) <==> (c as u32) < 32 || 127 <= c as u32 <= 159,
{
}

} // verus!
