//! The order of texts, and sorting by it.

use vstd::prelude::*;

use crate::text::chars_of;

verus! {

/// Whether a text comes no later than another in the order of their characters.
pub open spec fn text_le(a: Seq<char>, b: Seq<char>) -> bool
    decreases a.len(),
{
    if a.len() == 0 {
        true
    } else if b.len() == 0 {
        false
    } else if a[0] != b[0] {
        a[0] < b[0]
    } else {
        text_le(a.drop_first(), b.drop_first())
    }
}

pub proof fn lemma_text_le_total(a: Seq<char>, b: Seq<char>)
    ensures
        text_le(a, b) || text_le(b, a),
        text_le(a, b) && text_le(b, a) ==> a == b,
    decreases a.len(),
{
    if a.len() > 0 && b.len() > 0 && a[0] == b[0] {
        lemma_text_le_total(a.drop_first(), b.drop_first());
        if text_le(a, b) && text_le(b, a) {
            assert(a =~= seq![a[0]] + a.drop_first());
            assert(b =~= seq![b[0]] + b.drop_first());
        }
    } else if a.len() == 0 && b.len() == 0 {
        assert(a =~= b);
    }
}

pub proof fn lemma_text_le_transitive(a: Seq<char>, b: Seq<char>, c: Seq<char>)
    requires
        text_le(a, b),
        text_le(b, c),
    ensures
        text_le(a, c),
    decreases a.len(),
{
    if a.len() > 0 && b.len() > 0 && c.len() > 0 && a[0] == b[0] && b[0] == c[0] {
        lemma_text_le_transitive(a.drop_first(), b.drop_first(), c.drop_first());
    }
}

/// Compares two texts.
pub fn text_not_after(a: &str, b: &str) -> (r: bool)
    ensures
        r == text_le(a@, b@),
{
    let x = chars_of(a);
    let y = chars_of(b);
    let mut i: usize = 0;
    proof {
        assert(a@.subrange(0, a@.len() as int) =~= a@);
        assert(b@.subrange(0, b@.len() as int) =~= b@);
    }
    while i < x.len() && i < y.len()
        invariant
            x@ == a@,
            y@ == b@,
            i <= x@.len(),
            i <= y@.len(),
            text_le(a@, b@) == text_le(
                a@.subrange(i as int, a@.len() as int),
                b@.subrange(i as int, b@.len() as int),
            ),
        decreases x@.len() - i,
    {
        if x[i] != y[i] {
            return x[i] < y[i];
        }
        proof {
            assert(a@.subrange(i as int, a@.len() as int).drop_first() =~= a@.subrange(
                i + 1,
                a@.len() as int,
            ));
            assert(b@.subrange(i as int, b@.len() as int).drop_first() =~= b@.subrange(
                i + 1,
                b@.len() as int,
            ));
        }
        i = i + 1;
    }
    i == x.len()
}

/// Whether each entry comes no later than those behind it.
pub open spec fn sorted<T>(entries: Seq<T>, le: spec_fn(T, T) -> bool) -> bool {
    forall|i: int, j: int| 0 <= i <= j < entries.len() ==> le(entries[i], entries[j])
}

/// A letter in lower case where it is an ASCII capital.
pub open spec fn lower(c: char) -> char {
    if 'A' <= c <= 'Z' {
        (c as int + 32) as char
    } else {
        c
    }
}

pub open spec fn lowered(s: Seq<char>) -> Seq<char> {
    Seq::new(s.len(), |i: int| lower(s[i]))
}

/// `char::to_ascii_lowercase`, for one letter.
fn lower_char(c: char) -> (r: char)
    ensures
        r == lower(c),
{
    if c >= 'A' && c <= 'Z' {
        ((c as u8) + 32) as char
    } else {
        c
    }
}

/// A text with its ASCII capitals in lower case.
pub fn ascii_lowercase(s: &str) -> (r: String)
    ensures
        r@ == lowered(s@),
{
    let chars = chars_of(s);
    let mut out = String::new();
    let mut i: usize = 0;
    while i < chars.len()
        invariant
            chars@ == s@,
            i <= chars@.len(),
            out@ == lowered(s@).subrange(0, i as int),
        decreases chars@.len() - i,
    {
        out.push(lower_char(chars[i]));
        i = i + 1;
        proof {
            assert(out@ =~= lowered(s@).subrange(0, i as int));
        }
    }
    proof {
        assert(lowered(s@).subrange(0, i as int) =~= lowered(s@));
    }
    out
}

/// Putting a value somewhere into a sequence adds it to what the sequence
/// holds.
pub proof fn lemma_insert_adds<T>(entries: Seq<T>, at: int, value: T)
    requires
        0 <= at <= entries.len(),
    ensures
        entries.insert(at, value).to_multiset() == entries.to_multiset().insert(value),
{
    let longer = entries.insert(at, value);
    assert(longer.remove(at) =~= entries);
    vstd::seq_lib::to_multiset_remove(longer, at);
    longer.to_multiset_ensures();
    assert(longer[at] == value);
    assert(longer.contains(value));
    assert(longer.to_multiset() =~= entries.to_multiset().insert(value));
}

/// Putting a value between those that come before it and those that come after
/// it keeps a sequence sorted.
pub proof fn lemma_insert_sorted<T>(
    entries: Seq<T>,
    at: int,
    value: T,
    le: spec_fn(T, T) -> bool,
)
    requires
        0 <= at <= entries.len(),
        sorted(entries, le),
        forall|i: int| 0 <= i < at ==> le(#[trigger] entries[i], value),
        forall|i: int| at <= i < entries.len() ==> le(value, #[trigger] entries[i]),
        le(value, value),
    ensures
        sorted(entries.insert(at, value), le),
{
    let longer = entries.insert(at, value);
    assert forall|i: int, j: int| 0 <= i <= j < longer.len() implies le(longer[i], longer[j]) by {
        let a = if i <= at { i } else { i - 1 };
        let b = if j <= at { j } else { j - 1 };
        if i != at {
            assert(longer[i] == entries[a]);
        }
        if j != at {
            assert(longer[j] == entries[b]);
        }
    }
}

/// The first `n` entries, or all where there are fewer.
pub open spec fn first_n<T>(entries: Seq<T>, n: int) -> Seq<T> {
    if entries.len() <= n {
        entries
    } else {
        entries.subrange(0, n)
    }
}

/// The first `n` entries of what some entries are in sorted order.
pub open spec fn top_sorted<T>(
    entries: Seq<T>,
    le: spec_fn(T, T) -> bool,
    n: int,
    top: Seq<T>,
) -> bool {
    exists|all: Seq<T>|
        #![trigger first_n(all, n)]
        sorted(all, le) && all.to_multiset() == entries.to_multiset() && top == first_n(all, n)
}

pub open spec fn text_order() -> spec_fn(Seq<char>, Seq<char>) -> bool {
    |a: Seq<char>, b: Seq<char>| text_le(a, b)
}

/// The texts at those places.
pub open spec fn texts_at(texts: Seq<String>, places: Seq<usize>) -> Seq<Seq<char>> {
    Seq::new(places.len(), |i: int| texts[places[i] as int]@)
}

pub open spec fn all_texts(texts: Seq<String>) -> Seq<Seq<char>> {
    Seq::new(texts.len(), |i: int| texts[i]@)
}

/// The places of the first `max` texts in their order.
pub fn text_places(texts: &Vec<String>, max: usize) -> (r: Vec<usize>)
    ensures
        forall|i: int| 0 <= i < r@.len() ==> #[trigger] r@[i] < texts@.len(),
        top_sorted(all_texts(texts@), text_order(), max as int, texts_at(texts@, r@)),
{
    let mut places: Vec<usize> = Vec::new();
    let mut i: usize = 0;
    proof {
        assert(texts_at(texts@, places@) =~= all_texts(texts@).take(0));
    }
    while i < texts.len()
        invariant
            i <= texts@.len(),
            forall|j: int| 0 <= j < places@.len() ==> #[trigger] places@[j] < texts@.len(),
            sorted(texts_at(texts@, places@), text_order()),
            texts_at(texts@, places@).to_multiset() == all_texts(texts@).take(
                i as int,
            ).to_multiset(),
        decreases texts@.len() - i,
    {
        insert_text_place(texts, &mut places, i);
        proof {
            let before = all_texts(texts@).take(i as int);
            vstd::seq_lib::to_multiset_build(before, texts@[i as int]@);
            assert(all_texts(texts@).take(i + 1) =~= before.push(texts@[i as int]@));
        }
        i = i + 1;
    }
    let ghost all = texts_at(texts@, places@);
    proof {
        assert(all_texts(texts@).take(i as int) =~= all_texts(texts@));
    }
    if places.len() > max {
        places.truncate(max);
    }
    proof {
        assert(texts_at(texts@, places@) =~= first_n(all, max as int));
    }
    places
}

fn insert_text_place(texts: &Vec<String>, places: &mut Vec<usize>, place: usize)
    requires
        place < texts@.len(),
        forall|j: int| 0 <= j < old(places)@.len() ==> #[trigger] old(places)@[j] < texts@.len(),
        sorted(texts_at(texts@, old(places)@), text_order()),
    ensures
        forall|j: int| 0 <= j < final(places)@.len() ==> #[trigger] final(places)@[j] < texts@.len(),
        sorted(texts_at(texts@, final(places)@), text_order()),
        texts_at(texts@, final(places)@).to_multiset() == texts_at(
            texts@,
            old(places)@,
        ).to_multiset().insert(texts@[place as int]@),
{
    let ghost views = texts_at(texts@, places@);
    let ghost text = texts@[place as int]@;
    let mut at: usize = 0;
    let mut found = false;
    while at < places.len() && !found
        invariant
            place < texts@.len(),
            at <= places@.len(),
            *places == *old(places),
            views == texts_at(texts@, places@),
            text == texts@[place as int]@,
            forall|j: int| 0 <= j < places@.len() ==> #[trigger] places@[j] < texts@.len(),
            forall|i: int| 0 <= i < at ==> text_le(#[trigger] views[i], text),
            found ==> at < places@.len() && !text_le(views[at as int], text),
        decreases places@.len() - at, if found { 0int } else { 1int },
    {
        assert(views[at as int] == texts@[places@[at as int] as int]@);
        if text_not_after(texts[places[at]].as_str(), texts[place].as_str()) {
            at = at + 1;
        } else {
            found = true;
        }
    }
    proof {
        assert forall|i: int| at <= i < views.len() implies text_le(text, #[trigger] views[i]) by {
            lemma_text_le_total(views[at as int], text);
            assert(text_order()(views[at as int], views[i]));
            lemma_text_le_transitive(text, views[at as int], views[i]);
        }
        lemma_text_le_total(text, text);
        lemma_insert_adds(views, at as int, text);
        lemma_insert_sorted(views, at as int, text, text_order());
    }
    places.insert(at, place);
    proof {
        assert(texts_at(texts@, places@) =~= views.insert(at as int, text));
    }
}

/// Texts are ordered by their first character that differs, and a beginning of a text
/// comes before it.
pub proof fn texts_are_ordered_by_their_first_difference(
    common: Seq<char>,
    a: Seq<char>,
    b: Seq<char>,
)
    ensures
        text_le(common, common + b),
        a.len() > 0 ==> !text_le(common + a, common),
        a.len() > 0 && b.len() > 0 && a[0] != b[0] ==> (text_le(common + a, common + b) <==> a[0]
            < b[0]),
    decreases common.len(),
{
    if common.len() > 0 {
        let rest = common.drop_first();
        texts_are_ordered_by_their_first_difference(rest, a, b);
        assert((common + a).drop_first() =~= rest + a);
        assert((common + b).drop_first() =~= rest + b);
    } else {
        assert(common + a =~= a);
        assert(common + b =~= b);
    }
}

/// Lower case changes the ASCII capitals into their small letters and nothing else, and a
/// text in lower case stays.
pub proof fn lower_case_changes_capitals(s: Seq<char>, i: int)
    requires
        0 <= i < s.len(),
    ensures
        lowered(s).len() == s.len(),
        'A' <= s[i] <= 'Z' ==> lowered(s)[i] as int - 'a' as int == s[i] as int - 'A' as int,
        !('A' <= s[i] <= 'Z') ==> lowered(s)[i] == s[i],
        lowered(lowered(s)) == lowered(s),
{
    assert(lowered(lowered(s)) =~= lowered(s));
}

/// What is shown of a list in order is as much of it as fits, in order, and nothing that is
/// left out comes before anything that is shown.
pub proof fn the_first_are_shown<T>(
    entries: Seq<T>,
    le: spec_fn(T, T) -> bool,
    n: int,
    top: Seq<T>,
    i: int,
    left_out: T,
)
    requires
        0 <= n,
        top_sorted(entries, le, n, top),
        0 <= i < top.len(),
    ensures
        top.len() == if entries.len() <= n {
            entries.len() as int
        } else {
            n
        },
        sorted(top, le),
        entries.contains(top[i]),
        entries.to_multiset().count(left_out) > top.to_multiset().count(left_out) ==> le(
            top[i],
            left_out,
        ),
{
    let all = choose|all: Seq<T>|
        #![trigger first_n(all, n)]
        sorted(all, le) && all.to_multiset() == entries.to_multiset() && top == first_n(all, n);
    all.to_multiset_ensures();
    entries.to_multiset_ensures();
    assert(all.len() == entries.len());
    assert(top[i] == all[i]);
    assert(all.contains(all[i]));
    assert(entries.to_multiset().count(top[i]) > 0);
    if entries.to_multiset().count(left_out) > top.to_multiset().count(left_out) {
        if all.len() <= n {
            assert(top == all);
        } else {
            let rest = all.subrange(n, all.len() as int);
            assert(all =~= top + rest);
            vstd::seq_lib::lemma_multiset_commutative(top, rest);
            assert(rest.to_multiset().count(left_out) > 0);
            rest.to_multiset_ensures();
            assert(rest.contains(left_out));
            let k = choose|k: int| 0 <= k < rest.len() && rest[k] == left_out;
            assert(all[n + k] == left_out);
            assert(le(all[i], all[n + k]));
        }
    }
}

/// Places stand for the texts at them.
pub proof fn places_stand_for_texts(texts: Seq<String>, places: Seq<usize>, i: int, j: int)
    requires
        0 <= i < places.len(),
        0 <= j < texts.len(),
    ensures
        texts_at(texts, places).len() == places.len(),
        texts_at(texts, places)[i] == texts[places[i] as int]@,
        all_texts(texts).len() == texts.len(),
        all_texts(texts)[j] == texts[j]@,
        forall|a: Seq<char>, b: Seq<char>| #[trigger] text_order()(a, b) <==> text_le(a, b),
{
}

} // verus!
