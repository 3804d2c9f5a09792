//! How a page of a book is broken into lines.

use vstd::prelude::*;
use vstd::string::*;

use crate::chars::{self, blank};
use crate::recipe_book;
use crate::text::{chars_of, text_of};

verus! {

/// The paragraphs of a page.
pub open spec fn paragraphs(page: Seq<char>) -> Seq<Seq<char>>
    decreases page.len(),
{
    if page.len() == 0 {
        seq![Seq::empty()]
    } else {
        let before = paragraphs(page.drop_last());
        if page.last() == '\n' {
            before.push(Seq::empty())
        } else {
            before.update(before.len() - 1, before.last().push(page.last()))
        }
    }
}

/// The words of a paragraph. Every blank ends a word, so between two blanks
/// there is an empty one.
pub open spec fn words(paragraph: Seq<char>) -> Seq<Seq<char>>
    decreases paragraph.len(),
{
    if paragraph.len() == 0 {
        Seq::empty()
    } else {
        let shorter = paragraph.drop_last();
        let c = paragraph.last();
        let before = words(shorter);
        if shorter.len() == 0 || chars::is_blank(shorter.last()) {
            before.push(
                if chars::is_blank(c) {
                    Seq::empty()
                } else {
                    seq![c]
                },
            )
        } else if chars::is_blank(c) {
            before
        } else {
            before.update(before.len() - 1, before.last().push(c))
        }
    }
}

/// Lines that are full, and the line that is being filled.
#[verifier::ext_equal]
pub struct Lines {
    pub full: Seq<Seq<char>>,
    pub line: Seq<char>,
}

/// One more character of a word that is longer than a line.
pub open spec fn with_char(lines: Lines, c: char, columns: nat) -> Lines {
    if lines.line.len() == columns {
        Lines { full: lines.full.push(lines.line), line: seq![c] }
    } else {
        Lines { line: lines.line.push(c), ..lines }
    }
}

/// The characters of a word that is longer than a line, one by one.
pub open spec fn with_long_word(lines: Lines, word: Seq<char>, columns: nat) -> Lines
    decreases word.len(),
{
    if word.len() == 0 {
        lines
    } else {
        with_char(with_long_word(lines, word.drop_last(), columns), word.last(), columns)
    }
}

/// Room for one more word: a new line where it does not fit behind a space.
pub open spec fn with_room(lines: Lines, len: nat, columns: nat) -> Lines {
    let fresh = if lines.line.len() > 0 && lines.line.len() + 1 + len > columns {
        Lines { full: lines.full.push(lines.line), line: Seq::empty() }
    } else {
        lines
    };
    if fresh.line.len() > 0 {
        Lines { line: fresh.line.push(' '), ..fresh }
    } else {
        fresh
    }
}

/// One more word.
pub open spec fn with_word(lines: Lines, word: Seq<char>, columns: nat) -> Lines {
    let ready = with_room(lines, word.len(), columns);
    if word.len() > columns {
        with_long_word(ready, word, columns)
    } else {
        Lines { line: ready.line + word, ..ready }
    }
}

pub open spec fn with_words(lines: Lines, list: Seq<Seq<char>>, columns: nat) -> Lines
    decreases list.len(),
{
    if list.len() == 0 {
        lines
    } else {
        with_word(with_words(lines, list.drop_last(), columns), list.last(), columns)
    }
}

/// The lines of paragraphs; each begins a new line.
pub open spec fn lines_of(list: Seq<Seq<char>>, columns: nat) -> Seq<Seq<char>>
    decreases list.len(),
{
    if list.len() == 0 {
        Seq::empty()
    } else {
        let filled = with_words(
            Lines { full: lines_of(list.drop_last(), columns), line: Seq::empty() },
            words(list.last()),
            columns,
        );
        filled.full.push(filled.line)
    }
}

/// The lines of a page.
pub open spec fn all_lines(page: Seq<char>, columns: nat) -> Seq<Seq<char>> {
    lines_of(paragraphs(page), columns)
}

/// The first lines of a page.
pub open spec fn book_lines(page: Seq<char>, columns: nat, max_lines: nat) -> Seq<Seq<char>> {
    let all = all_lines(page, columns);
    if all.len() <= max_lines {
        all
    } else {
        all.take(max_lines as int)
    }
}

fn find_paragraphs(page: &Vec<char>) -> (r: Vec<Vec<char>>)
    ensures
        char_views(r@) == paragraphs(page@),
{
    let mut done: Vec<Vec<char>> = Vec::new();
    let mut last: Vec<char> = Vec::new();
    let mut i: usize = 0;
    proof {
        assert(char_views(done@).push(last@) =~= paragraphs(page@.take(0)));
    }
    while i < page.len()
        invariant
            i <= page@.len(),
            char_views(done@).push(last@) == paragraphs(page@.take(i as int)),
        decreases page@.len() - i,
    {
        let c: char = page[i];
        let ghost before = char_views(done@);
        let ghost tail = last@;
        proof {
            assert(page@.take(i + 1).drop_last() =~= page@.take(i as int));
            assert(page@.take(i + 1).last() == c);
        }
        if c == '\n' {
            let ghost list = done@;
            done.push(last);
            last = Vec::new();
            proof {
                assert(char_views(done@) =~= char_views(list).push(tail));
                assert(last@ =~= Seq::<char>::empty());
                assert(char_views(done@).push(last@) =~= paragraphs(page@.take(i + 1)));
            }
        } else {
            last.push(c);
            proof {
                assert(before.push(tail).update(before.len() as int, tail.push(c)) =~= before.push(
                    tail.push(c),
                ));
            }
        }
        i = i + 1;
    }
    let ghost list = done@;
    let ghost tail = last@;
    done.push(last);
    proof {
        assert(page@.take(i as int) =~= page@);
        assert(char_views(done@) =~= char_views(list).push(tail));
    }
    done
}

pub open spec fn char_views(list: Seq<Vec<char>>) -> Seq<Seq<char>> {
    Seq::new(list.len(), |i: int| list[i]@)
}

fn find_words(paragraph: &Vec<char>) -> (r: Vec<Vec<char>>)
    ensures
        char_views(r@) == words(paragraph@),
{
    let mut done: Vec<Vec<char>> = Vec::new();
    let mut last: Vec<char> = Vec::new();
    let mut open: bool = false;
    let mut i: usize = 0;
    proof {
        assert(char_views(done@) =~= words(paragraph@.take(0)));
    }
    while i < paragraph.len()
        invariant
            i <= paragraph@.len(),
            open == (i > 0 && !chars::is_blank(paragraph@[i - 1])),
            open ==> char_views(done@).push(last@) == words(paragraph@.take(i as int)),
            !open ==> char_views(done@) == words(paragraph@.take(i as int)),
            !open ==> last@.len() == 0,
        decreases paragraph@.len() - i,
    {
        let c: char = paragraph[i];
        let ghost before = char_views(done@);
        let ghost list = done@;
        let ghost tail = last@;
        proof {
            let longer = paragraph@.take(i + 1);
            assert(longer.drop_last() =~= paragraph@.take(i as int));
            assert(longer.last() == c);
            if i > 0 {
                assert(paragraph@.take(i as int).last() == paragraph@[i - 1]);
            }
        }
        if blank(c) {
            done.push(last);
            last = Vec::new();
            open = false;
            proof {
                assert(char_views(done@) =~= before.push(tail));
                if !(i > 0 && !chars::is_blank(paragraph@[i - 1])) {
                    assert(tail =~= Seq::<char>::empty());
                }
            }
        } else {
            last.push(c);
            proof {
                if open {
                    assert(before.push(tail).update(before.len() as int, tail.push(c))
                        =~= before.push(tail.push(c)));
                } else {
                    assert(tail.push(c) =~= seq![c]);
                }
            }
            open = true;
        }
        i = i + 1;
    }
    proof {
        assert(paragraph@.take(i as int) =~= paragraph@);
    }
    if open {
        let ghost before = char_views(done@);
        let ghost tail = last@;
        done.push(last);
        proof {
            assert(char_views(done@) =~= before.push(tail));
        }
    }
    done
}

fn push_line(full: &mut Vec<String>, line: &Vec<char>)
    ensures
        recipe_book::texts(final(full)@) == recipe_book::texts(old(full)@).push(line@),
{
    let ghost before = full@;
    let text = text_of(line, 0, line.len());
    proof {
        assert(line@.subrange(0, line@.len() as int) =~= line@);
    }
    full.push(text);
    proof {
        assert(recipe_book::texts(full@) =~= recipe_book::texts(before).push(line@));
    }
}

fn add_word(full: &mut Vec<String>, line: &mut Vec<char>, word: &Vec<char>, columns: usize)
    ensures
        (Lines { full: recipe_book::texts(final(full)@), line: final(line)@ }) == with_word(
            Lines { full: recipe_book::texts(old(full)@), line: old(line)@ },
            word@,
            columns as nat,
        ),
{
    let ghost start = Lines { full: recipe_book::texts(full@), line: line@ };
    let ghost ready = with_room(start, word@.len(), columns as nat);
    if line.len() > 0 && (line.len() >= columns || word.len() > columns - line.len() - 1) {
        push_line(full, line);
        line.clear();
    }
    if line.len() > 0 {
        line.push(' ');
    }
    proof {
        assert(Lines { full: recipe_book::texts(full@), line: line@ } =~= ready);
    }
    if word.len() > columns {
        let mut i: usize = 0;
        proof {
            assert(with_long_word(ready, word@.take(0), columns as nat) == ready);
        }
        while i < word.len()
            invariant
                i <= word@.len(),
                (Lines { full: recipe_book::texts(full@), line: line@ }) == with_long_word(
                    ready,
                    word@.take(i as int),
                    columns as nat,
                ),
            decreases word@.len() - i,
        {
            proof {
                assert(word@.take(i + 1).drop_last() =~= word@.take(i as int));
                assert(word@.take(i + 1).last() == word@[i as int]);
            }
            if line.len() == columns {
                push_line(full, line);
                line.clear();
                line.push(word[i]);
                proof {
                    assert(line@ =~= seq![word@[i as int]]);
                }
            } else {
                line.push(word[i]);
            }
            i = i + 1;
        }
        proof {
            assert(word@.take(i as int) =~= word@);
        }
    } else {
        let ghost before = line@;
        let mut i: usize = 0;
        proof {
            assert(before + word@.take(0) =~= before);
        }
        while i < word.len()
            invariant
                i <= word@.len(),
                line@ == before + word@.take(i as int),
            decreases word@.len() - i,
        {
            line.push(word[i]);
            proof {
                assert(line@ =~= before + word@.take(i + 1));
            }
            i = i + 1;
        }
        proof {
            assert(word@.take(i as int) =~= word@);
        }
    }
}

/// Breaks a page into lines of so many columns, and gives the first of them. No page
/// has more lines than can be asked for.
pub fn wrapped_book_lines(page: &str, columns: usize, max_lines: usize) -> (r: Vec<String>)
    ensures
        recipe_book::texts(r@) == book_lines(page@, columns as nat, max_lines as nat),
        all_lines(page@, columns as nat).len() <= usize::MAX,
        max_lines == usize::MAX ==> recipe_book::texts(r@) == all_lines(page@, columns as nat),
{
    let chars = chars_of(page);
    let list = find_paragraphs(&chars);
    let ghost all = char_views(list@);
    let mut full: Vec<String> = Vec::new();
    let mut i: usize = 0;
    proof {
        assert(recipe_book::texts(full@) =~= lines_of(all.take(0), columns as nat));
    }
    while i < list.len()
        invariant
            i <= list@.len(),
            all == char_views(list@),
            recipe_book::texts(full@) == lines_of(all.take(i as int), columns as nat),
        decreases list@.len() - i,
    {
        proof {
            assert(all.take(i + 1).drop_last() =~= all.take(i as int));
            assert(all.take(i + 1).last() == list@[i as int]@);
        }
        let parts = find_words(&list[i]);
        let ghost pieces = char_views(parts@);
        let ghost start = Lines { full: recipe_book::texts(full@), line: Seq::<char>::empty() };
        let mut line: Vec<char> = Vec::new();
        let mut j: usize = 0;
        proof {
            assert(line@ =~= Seq::<char>::empty());
            assert(with_words(start, pieces.take(0), columns as nat) == start);
        }
        while j < parts.len()
            invariant
                j <= parts@.len(),
                pieces == char_views(parts@),
                (Lines { full: recipe_book::texts(full@), line: line@ }) == with_words(
                    start,
                    pieces.take(j as int),
                    columns as nat,
                ),
            decreases parts@.len() - j,
        {
            proof {
                assert(pieces.take(j + 1).drop_last() =~= pieces.take(j as int));
                assert(pieces.take(j + 1).last() == parts@[j as int]@);
            }
            add_word(&mut full, &mut line, &parts[j], columns);
            j = j + 1;
        }
        proof {
            assert(pieces.take(j as int) =~= pieces);
        }
        push_line(&mut full, &line);
        i = i + 1;
    }
    proof {
        assert(all.take(i as int) =~= all);
    }
    proof {
        assert(all_lines(page@, columns as nat).len() == full@.len());
    }
    if full.len() > max_lines {
        full.truncate(max_lines);
        proof {
            assert(recipe_book::texts(full@) =~= book_lines(
                page@,
                columns as nat,
                max_lines as nat,
            ));
        }
    }
    full
}

pub open spec fn fit(list: Seq<Seq<char>>, columns: nat) -> bool {
    forall|i: int| 0 <= i < list.len() ==> (#[trigger] list[i]).len() <= columns
}

proof fn lemma_long_word_fits(lines: Lines, word: Seq<char>, columns: nat)
    requires
        columns > 0,
        fit(lines.full, columns),
        lines.line.len() <= columns,
    ensures
        fit(with_long_word(lines, word, columns).full, columns),
        with_long_word(lines, word, columns).line.len() <= columns,
    decreases word.len(),
{
    if word.len() > 0 {
        lemma_long_word_fits(lines, word.drop_last(), columns);
    }
}

proof fn lemma_words_fit(lines: Lines, list: Seq<Seq<char>>, columns: nat)
    requires
        columns > 0,
        fit(lines.full, columns),
        lines.line.len() <= columns,
    ensures
        fit(with_words(lines, list, columns).full, columns),
        with_words(lines, list, columns).line.len() <= columns,
    decreases list.len(),
{
    if list.len() > 0 {
        lemma_words_fit(lines, list.drop_last(), columns);
        let before = with_words(lines, list.drop_last(), columns);
        let word = list.last();
        let ready = with_room(before, word.len(), columns);
        if word.len() > columns {
            lemma_long_word_fits(ready, word, columns);
        }
    }
}

/// No line is longer than the page is wide, and there are not more lines than
/// asked for.
pub proof fn lines_fit_the_page(page: Seq<char>, columns: nat, max_lines: nat)
    requires
        columns > 0,
    ensures
        fit(book_lines(page, columns, max_lines), columns),
        book_lines(page, columns, max_lines).len() <= max_lines,
{
    lemma_lines_fit(paragraphs(page), columns);
}

proof fn lemma_lines_fit(list: Seq<Seq<char>>, columns: nat)
    requires
        columns > 0,
    ensures
        fit(lines_of(list, columns), columns),
    decreases list.len(),
{
    if list.len() > 0 {
        lemma_lines_fit(list.drop_last(), columns);
        lemma_words_fit(
            Lines { full: lines_of(list.drop_last(), columns), line: Seq::empty() },
            words(list.last()),
            columns,
        );
    }
}

/// The characters of a text that are no blanks.
pub open spec fn solid(text: Seq<char>) -> Seq<char>
    decreases text.len(),
{
    if text.len() == 0 {
        Seq::empty()
    } else if chars::is_blank(text.last()) {
        solid(text.drop_last())
    } else {
        solid(text.drop_last()).push(text.last())
    }
}

/// The characters of texts, one after the other, that are no blanks.
pub open spec fn all_solid(texts: Seq<Seq<char>>) -> Seq<char>
    decreases texts.len(),
{
    if texts.len() == 0 {
        Seq::empty()
    } else {
        all_solid(texts.drop_last()) + solid(texts.last())
    }
}

proof fn lemma_solid_push(text: Seq<char>, c: char)
    ensures
        solid(text.push(c)) == if chars::is_blank(c) {
            solid(text)
        } else {
            solid(text).push(c)
        },
{
    assert(text.push(c).drop_last() =~= text);
}

proof fn lemma_solid_one(c: char)
    ensures
        solid(seq![c]) == if chars::is_blank(c) {
            Seq::empty()
        } else {
            seq![c]
        },
{
    lemma_solid_push(Seq::empty(), c);
    assert(Seq::<char>::empty().push(c) =~= seq![c]);
}

proof fn lemma_solid_add(a: Seq<char>, b: Seq<char>)
    ensures
        solid(a + b) == solid(a) + solid(b),
    decreases b.len(),
{
    if b.len() == 0 {
        assert(a + b =~= a);
        assert(solid(a) + solid(b) =~= solid(a));
    } else {
        lemma_solid_add(a, b.drop_last());
        assert((a + b).drop_last() =~= a + b.drop_last());
        assert((a + b).last() == b.last());
        assert(solid(a + b) =~= solid(a) + solid(b));
    }
}

proof fn lemma_all_solid_push(texts: Seq<Seq<char>>, text: Seq<char>)
    ensures
        all_solid(texts.push(text)) == all_solid(texts) + solid(text),
{
    assert(texts.push(text).drop_last() =~= texts);
}

/// What lines hold besides blanks.
spec fn content(lines: Lines) -> Seq<char> {
    all_solid(lines.full) + solid(lines.line)
}

proof fn lemma_line_ends(lines: Lines)
    ensures
        content(Lines { full: lines.full.push(lines.line), line: Seq::empty() }) == content(lines),
{
    lemma_all_solid_push(lines.full, lines.line);
    assert(content(Lines { full: lines.full.push(lines.line), line: Seq::empty() }) =~= content(
        lines,
    ));
}

proof fn lemma_long_word_content(lines: Lines, word: Seq<char>, columns: nat)
    ensures
        content(with_long_word(lines, word, columns)) == content(lines) + solid(word),
    decreases word.len(),
{
    if word.len() == 0 {
        assert(content(lines) + solid(word) =~= content(lines));
    } else {
        let before = with_long_word(lines, word.drop_last(), columns);
        let c = word.last();
        lemma_long_word_content(lines, word.drop_last(), columns);
        lemma_line_ends(before);
        lemma_all_solid_push(before.full, before.line);
        lemma_solid_one(c);
        lemma_solid_push(before.line, c);
        assert(content(with_char(before, c, columns)) =~= content(before) + solid(seq![c]));
        assert(content(before) + solid(seq![c]) =~= content(lines) + solid(word));
    }
}

proof fn lemma_word_content(lines: Lines, word: Seq<char>, columns: nat)
    ensures
        content(with_word(lines, word, columns)) == content(lines) + solid(word),
{
    let ready = with_room(lines, word.len(), columns);
    lemma_line_ends(lines);
    lemma_solid_push(lines.line, ' ');
    assert(content(ready) == content(lines));
    if word.len() > columns {
        lemma_long_word_content(ready, word, columns);
    } else {
        lemma_solid_add(ready.line, word);
        assert(content(with_word(lines, word, columns)) =~= content(ready) + solid(word));
    }
}

proof fn lemma_words_content(lines: Lines, list: Seq<Seq<char>>, columns: nat)
    ensures
        content(with_words(lines, list, columns)) == content(lines) + all_solid(list),
    decreases list.len(),
{
    if list.len() == 0 {
        assert(content(lines) + all_solid(list) =~= content(lines));
    } else {
        lemma_words_content(lines, list.drop_last(), columns);
        lemma_word_content(
            with_words(lines, list.drop_last(), columns),
            list.last(),
            columns,
        );
        assert(content(lines) + all_solid(list.drop_last()) + solid(list.last()) =~= content(lines)
            + all_solid(list));
    }
}

proof fn lemma_last_word_grows(list: Seq<Seq<char>>, c: char)
    requires
        list.len() > 0,
    ensures
        all_solid(list.update(list.len() - 1, list.last().push(c))) == all_solid(list) + solid(
            seq![c],
        ),
{
    let grown = list.update(list.len() - 1, list.last().push(c));
    assert(grown.drop_last() =~= list.drop_last());
    lemma_solid_push(list.last(), c);
    lemma_solid_one(c);
    assert(all_solid(grown) =~= all_solid(list) + solid(seq![c]));
}

proof fn lemma_words_are_there(paragraph: Seq<char>)
    ensures
        paragraph.len() > 0 ==> words(paragraph).len() > 0,
    decreases paragraph.len(),
{
    if paragraph.len() > 1 {
        lemma_words_are_there(paragraph.drop_last());
    }
}

proof fn lemma_words_solid(paragraph: Seq<char>)
    ensures
        all_solid(words(paragraph)) == solid(paragraph),
    decreases paragraph.len(),
{
    if paragraph.len() > 0 {
        let shorter = paragraph.drop_last();
        let c = paragraph.last();
        let before = words(shorter);
        lemma_words_solid(shorter);
        lemma_words_are_there(shorter);
        lemma_solid_one(c);
        if shorter.len() == 0 || chars::is_blank(shorter.last()) {
            lemma_all_solid_push(before, Seq::empty());
            lemma_all_solid_push(before, seq![c]);
        } else if !chars::is_blank(c) {
            lemma_last_word_grows(before, c);
        }
        assert(all_solid(words(paragraph)) =~= solid(paragraph));
    }
}

proof fn lemma_paragraphs_solid(page: Seq<char>)
    ensures
        paragraphs(page).len() > 0,
        all_solid(paragraphs(page)) == solid(page),
    decreases page.len(),
{
    if page.len() == 0 {
        lemma_all_solid_push(Seq::empty(), Seq::empty());
        assert(Seq::<Seq<char>>::empty().push(Seq::empty()) =~= paragraphs(page));
        assert(all_solid(paragraphs(page)) =~= solid(page));
    } else {
        let before = paragraphs(page.drop_last());
        lemma_paragraphs_solid(page.drop_last());
        lemma_all_solid_push(before, Seq::empty());
        lemma_last_word_grows(before, page.last());
        lemma_solid_one(page.last());
        assert(all_solid(paragraphs(page)) =~= solid(page));
    }
}

proof fn lemma_lines_solid(list: Seq<Seq<char>>, columns: nat)
    ensures
        all_solid(lines_of(list, columns)) == all_solid(list),
    decreases list.len(),
{
    if list.len() > 0 {
        let start = Lines { full: lines_of(list.drop_last(), columns), line: Seq::empty() };
        let filled = with_words(start, words(list.last()), columns);
        lemma_lines_solid(list.drop_last(), columns);
        lemma_words_content(start, words(list.last()), columns);
        lemma_words_solid(list.last());
        lemma_all_solid_push(filled.full, filled.line);
        assert(content(start) =~= all_solid(start.full));
    }
}

/// Breaking a page loses, repeats and reorders nothing: apart from blanks, all
/// of its lines together hold the characters of the page in their order.
pub proof fn lines_keep_the_letters(page: Seq<char>, columns: nat)
    ensures
        all_solid(all_lines(page, columns)) == solid(page),
{
    lemma_lines_solid(paragraphs(page), columns);
    lemma_paragraphs_solid(page);
}

/// Asked for fewer lines, a page gives the first of those that it gives when
/// asked for more.
pub proof fn fewer_lines_come_first(page: Seq<char>, columns: nat, fewer: nat, more: nat)
    requires
        fewer <= more,
    ensures
        ({
            let lines = book_lines(page, columns, more);
            book_lines(page, columns, fewer) == lines.take(
                if fewer <= lines.len() {
                    fewer as int
                } else {
                    lines.len() as int
                },
            )
        }),
        all_lines(page, columns).len() <= more ==> book_lines(page, columns, more) == all_lines(
            page,
            columns,
        ),
{
    let lines = book_lines(page, columns, more);
    let end = if fewer <= lines.len() {
        fewer as int
    } else {
        lines.len() as int
    };
    assert(book_lines(page, columns, fewer) =~= lines.take(end));
}

/// Texts with a space between each and the next.
pub open spec fn joined(texts: Seq<Seq<char>>) -> Seq<char>
    decreases texts.len(),
{
    if texts.len() == 0 {
        Seq::empty()
    } else if texts.len() == 1 {
        texts[0]
    } else {
        joined(texts.drop_last()).push(' ') + texts.last()
    }
}

/// Words that hold no blank, and of which each fits a line.
pub open spec fn are_short_words(list: Seq<Seq<char>>, columns: nat) -> bool {
    forall|i: int| 0 <= i < list.len() ==> is_short_word(#[trigger] list[i], columns)
}

pub open spec fn is_short_word(word: Seq<char>, columns: nat) -> bool {
    &&& 0 < word.len() <= columns
    &&& forall|i: int| 0 <= i < word.len() ==> !chars::is_blank(#[trigger] word[i])
}

proof fn lemma_joined_ends_solid(list: Seq<Seq<char>>, columns: nat)
    requires
        list.len() > 0,
        are_short_words(list, columns),
    ensures
        joined(list).len() > 0,
        !chars::is_blank(joined(list).last()),
{
    let word = list.last();
    assert(is_short_word(list[list.len() - 1], columns));
    assert(joined(list).last() == word[word.len() - 1]);
}

proof fn lemma_one_paragraph(text: Seq<char>)
    requires
        forall|i: int| 0 <= i < text.len() ==> #[trigger] text[i] != '\n',
    ensures
        paragraphs(text) == seq![text],
    decreases text.len(),
{
    if text.len() > 0 {
        let shorter = text.drop_last();
        assert forall|i: int| 0 <= i < shorter.len() implies #[trigger] shorter[i] != '\n' by {
            assert(text[i] != '\n');
        }
        lemma_one_paragraph(shorter);
        assert(shorter.push(text.last()) =~= text);
        assert(text[text.len() - 1] != '\n');
        assert(paragraphs(text) =~= seq![text]);
    } else {
        assert(text =~= Seq::empty());
    }
}

proof fn lemma_joined_has_no_newline(list: Seq<Seq<char>>, columns: nat)
    requires
        are_short_words(list, columns),
    ensures
        forall|i: int| 0 <= i < joined(list).len() ==> #[trigger] joined(list)[i] != '\n',
    decreases list.len(),
{
    if list.len() > 0 {
        let word = list.last();
        let shorter = list.drop_last();
        lemma_shorter(list, columns);
        lemma_joined_has_no_newline(shorter, columns);
        assert forall|i: int| 0 <= i < joined(list).len() implies #[trigger] joined(list)[i]
            != '\n' by {
            if list.len() > 1 {
                let first = joined(shorter).len();
                if i < first {
                    assert(joined(list)[i] == joined(shorter)[i]);
                } else if i > first {
                    assert(joined(list)[i] == word[i - first - 1]);
                }
            }
        }
    }
}

/// One more word behind text that ends with a blank or is empty.
proof fn lemma_new_word(text: Seq<char>, word: Seq<char>, n: nat, columns: nat)
    requires
        is_short_word(word, columns),
        0 < n <= word.len(),
        text.len() == 0 || chars::is_blank(text.last()),
    ensures
        words(text + word.take(n as int)) == words(text).push(word.take(n as int)),
    decreases n,
{
    let longer = text + word.take(n as int);
    let c = word[n - 1];
    assert(longer.last() == c);
    assert(longer.drop_last() =~= text + word.take(n - 1));
    if n == 1 {
        assert(longer.drop_last() =~= text);
        assert(word.take(1) =~= seq![c]);
    } else {
        lemma_new_word(text, word, (n - 1) as nat, columns);
        assert(longer.drop_last().last() == word[n - 2]);
        assert(word.take(n - 1).push(c) =~= word.take(n as int));
        assert(words(longer) =~= words(text).push(word.take(n as int)));
    }
}

proof fn lemma_words_of_joined(list: Seq<Seq<char>>, columns: nat)
    requires
        list.len() > 0,
        are_short_words(list, columns),
    ensures
        words(joined(list)) == list,
    decreases list.len(),
{
    let word = list[list.len() - 1];
    assert(is_short_word(word, columns));
    assert(word.take(word.len() as int) =~= word);
    if list.len() == 1 {
        lemma_new_word(Seq::empty(), word, word.len(), columns);
        assert(Seq::<char>::empty() + word =~= word);
        assert(words(joined(list)) =~= list);
    } else {
        let shorter = list.drop_last();
        lemma_shorter(list, columns);
        lemma_words_of_joined(shorter, columns);
        lemma_joined_ends_solid(shorter, columns);
        let text = joined(shorter).push(' ');
        assert(text.drop_last() =~= joined(shorter));
        assert(words(text) == words(joined(shorter)));
        lemma_new_word(text, word, word.len(), columns);
        assert(shorter.push(word) =~= list);
    }
}

proof fn lemma_shorter(list: Seq<Seq<char>>, columns: nat)
    requires
        list.len() > 0,
        are_short_words(list, columns),
    ensures
        are_short_words(list.drop_last(), columns),
        is_short_word(list.last(), columns),
{
    let shorter = list.drop_last();
    assert forall|i: int| 0 <= i < shorter.len() implies is_short_word(
        #[trigger] shorter[i],
        columns,
    ) by {
        assert(is_short_word(list[i], columns));
    }
    assert(is_short_word(list[list.len() - 1], columns));
}

/// The lines of short words alone.
spec fn wrapped(list: Seq<Seq<char>>, columns: nat) -> Lines {
    with_words(Lines { full: Seq::empty(), line: Seq::empty() }, list, columns)
}

proof fn lemma_joined_push(texts: Seq<Seq<char>>, text: Seq<char>)
    ensures
        joined(texts.push(text)) == if texts.len() == 0 {
            text
        } else {
            joined(texts).push(' ') + text
        },
{
    assert(texts.push(text).drop_last() =~= texts);
}

proof fn lemma_wrapped_joins(list: Seq<Seq<char>>, columns: nat)
    requires
        list.len() > 0,
        are_short_words(list, columns),
    ensures
        wrapped(list, columns).line.len() > 0,
        joined(wrapped(list, columns).full.push(wrapped(list, columns).line)) == joined(list),
    decreases list.len(),
{
    let word = list.last();
    let after = wrapped(list, columns);
    lemma_shorter(list, columns);
    if list.len() == 1 {
        let start = Lines { full: Seq::empty(), line: Seq::empty() };
        assert(with_words(start, list.drop_last(), columns) == start);
        assert(after.line =~= word);
        lemma_joined_push(Seq::empty(), word);
    } else {
        let shorter = list.drop_last();
        lemma_wrapped_joins(shorter, columns);
        let before = wrapped(shorter, columns);
        let lines = before.full.push(before.line);
        if before.line.len() + 1 + word.len() > columns {
            assert(after.full =~= lines);
            assert(after.line =~= word);
            lemma_joined_push(lines, word);
        } else {
            assert(after.full =~= before.full);
            assert(after.line =~= before.line.push(' ') + word);
            lemma_joined_push(before.full, before.line);
            lemma_joined_push(before.full, after.line);
            assert(joined(before.full.push(after.line)) =~= joined(lines).push(' ') + word);
        }
    }
}

/// A breaking of words ends with the last word alone, or with a line that ends
/// with it.
proof fn lemma_last_line(list: Seq<Seq<char>>, other: Seq<Seq<char>>, columns: nat) -> (rest: Seq<
    Seq<char>,
>)
    requires
        list.len() > 1,
        are_short_words(list, columns),
        joined(other) == joined(list),
    ensures
        other.len() > 0,
        rest.len() > 0,
        joined(rest) == joined(list.drop_last()),
        ({
            let word = list.last();
            let line = other.last();
            ||| line == word && rest == other.drop_last()
            ||| line.len() > word.len() && rest == other.update(
                other.len() - 1,
                line.take(line.len() - word.len() - 1),
            )
        }),
{
    let shorter = list.drop_last();
    let word = list.last();
    let page = joined(list);
    lemma_shorter(list, columns);
    lemma_joined_ends_solid(list, columns);
    lemma_joined_ends_solid(shorter, columns);
    let cut = joined(shorter).len() as int;
    assert(page == joined(shorter).push(' ') + word);
    assert(page[cut] == ' ');
    assert(page.take(cut) =~= joined(shorter));
    assert(other.len() > 0);
    let line = other.last();
    let lead = page.len() - line.len();
    assert(page.skip(lead) =~= line);
    if line.len() < word.len() {
        assert(other.len() > 1);
        assert(page[lead - 1] == ' ');
        assert(page[lead - 1] == word[lead - 1 - cut - 1]);
        assert(false);
    }
    if line.len() == word.len() {
        assert(line =~= word);
        let rest = other.drop_last();
        assert(other.len() > 1);
        assert(page == joined(rest).push(' ') + line);
        assert(joined(rest) =~= page.take(cut));
        rest
    } else {
        let kept = line.take(line.len() - word.len() - 1);
        let rest = other.update(other.len() - 1, kept);
        assert(rest.drop_last() =~= other.drop_last());
        assert(rest.last() == kept);
        assert(joined(rest) =~= page.take(cut));
        rest
    }
}

/// Filling line by line is best: any other breaking of the same words has more
/// lines, or as many and a last line that is no shorter.
proof fn lemma_wrapped_is_best(list: Seq<Seq<char>>, other: Seq<Seq<char>>, columns: nat)
    requires
        list.len() > 0,
        are_short_words(list, columns),
        joined(other) == joined(list),
        fit(other, columns),
    ensures
        other.len() > 0,
        wrapped(list, columns).full.len() + 1 < other.len() || (wrapped(list, columns).full.len()
            + 1 == other.len() && wrapped(list, columns).line.len() <= other.last().len()),
    decreases list.len(),
{
    let word = list.last();
    lemma_shorter(list, columns);
    lemma_joined_ends_solid(list, columns);
    if list.len() == 1 {
        let start = Lines { full: Seq::empty(), line: Seq::empty() };
        assert(with_words(start, list.drop_last(), columns) == start);
        assert(wrapped(list, columns).line =~= word);
        assert(other.len() > 0);
    } else {
        let shorter = list.drop_last();
        let rest = lemma_last_line(list, other, columns);
        let line = other.last();
        assert(line.len() <= columns) by {
            assert(other[other.len() - 1].len() <= columns);
        }
        assert(fit(rest, columns)) by {
            assert forall|i: int| 0 <= i < rest.len() implies (#[trigger] rest[i]).len()
                <= columns by {
                assert(other[i].len() <= columns);
            }
        }
        lemma_wrapped_is_best(shorter, rest, columns);
        lemma_wrapped_joins(shorter, columns);
        let before = wrapped(shorter, columns);
        let after = wrapped(list, columns);
        assert(after == with_word(before, word, columns));
    }
}

/// Words that each fit a line are never split: the lines, joined by spaces, give
/// the page back. And no other way to break such a page at its spaces into
/// lines that fit has fewer lines.
pub proof fn short_words_stay_whole(list: Seq<Seq<char>>, other: Seq<Seq<char>>, columns: nat)
    requires
        list.len() > 0,
        are_short_words(list, columns),
    ensures
        joined(all_lines(joined(list), columns)) == joined(list),
        joined(other) == joined(list) && fit(other, columns) ==> all_lines(
            joined(list),
            columns,
        ).len() <= other.len(),
{
    let page = joined(list);
    lemma_joined_has_no_newline(list, columns);
    lemma_one_paragraph(page);
    lemma_words_of_joined(list, columns);
    lemma_wrapped_joins(list, columns);
    let lines = wrapped(list, columns);
    assert(seq![page].drop_last() =~= Seq::<Seq<char>>::empty());
    assert(lines_of(seq![page].drop_last(), columns) =~= Seq::<Seq<char>>::empty());
    assert(all_lines(page, columns) == lines.full.push(lines.line));
    if joined(other) == page && fit(other, columns) {
        lemma_wrapped_is_best(list, other, columns);
    }
}

/// A new line in a page begins a new line: the lines of what stands before it are followed
/// by the lines of what stands behind it, and an empty page is one empty line.
pub proof fn new_lines_begin_lines(before: Seq<char>, after: Seq<char>, columns: nat)
    ensures
        all_lines(before.push('\n') + after, columns) == all_lines(before, columns) + all_lines(
            after,
            columns,
        ),
        all_lines(Seq::empty(), columns) == seq![Seq::<char>::empty()],
{
    lemma_paragraphs_split(before, after);
    lemma_lines_of_both(paragraphs(before), paragraphs(after), columns);
    let one = seq![Seq::<char>::empty()];
    assert(one.drop_last() =~= Seq::<Seq<char>>::empty());
    assert(lines_of(one.drop_last(), columns) =~= Seq::<Seq<char>>::empty());
    assert(all_lines(Seq::empty(), columns) =~= one);
}

proof fn lemma_paragraphs_some(page: Seq<char>)
    ensures
        paragraphs(page).len() > 0,
    decreases page.len(),
{
    if page.len() > 0 {
        lemma_paragraphs_some(page.drop_last());
    }
}

proof fn lemma_paragraphs_split(before: Seq<char>, after: Seq<char>)
    ensures
        paragraphs(before.push('\n') + after) == paragraphs(before) + paragraphs(after),
    decreases after.len(),
{
    let page = before.push('\n') + after;
    if after.len() == 0 {
        assert(page =~= before.push('\n'));
        assert(page.drop_last() =~= before);
        assert(paragraphs(page) =~= paragraphs(before) + paragraphs(after));
    } else {
        let shorter = after.drop_last();
        lemma_paragraphs_split(before, shorter);
        lemma_paragraphs_some(shorter);
        assert(page.drop_last() =~= before.push('\n') + shorter);
        assert(paragraphs(page) =~= paragraphs(before) + paragraphs(after));
    }
}

/// Lines with others in front of those that are full.
spec fn behind(front: Seq<Seq<char>>, lines: Lines) -> Lines {
    Lines { full: front + lines.full, line: lines.line }
}

proof fn lemma_long_word_behind(front: Seq<Seq<char>>, lines: Lines, word: Seq<char>, columns: nat)
    ensures
        with_long_word(behind(front, lines), word, columns) =~= behind(
            front,
            with_long_word(lines, word, columns),
        ),
    decreases word.len(),
{
    if word.len() > 0 {
        lemma_long_word_behind(front, lines, word.drop_last(), columns);
    }
}

proof fn lemma_words_behind(
    front: Seq<Seq<char>>,
    lines: Lines,
    list: Seq<Seq<char>>,
    columns: nat,
)
    ensures
        with_words(behind(front, lines), list, columns) =~= behind(
            front,
            with_words(lines, list, columns),
        ),
    decreases list.len(),
{
    if list.len() > 0 {
        lemma_words_behind(front, lines, list.drop_last(), columns);
        let so_far = with_words(lines, list.drop_last(), columns);
        let word = list.last();
        let ready = with_room(so_far, word.len(), columns);
        assert(with_room(behind(front, so_far), word.len(), columns) =~= behind(front, ready));
        lemma_long_word_behind(front, ready, word, columns);
    }
}

proof fn lemma_lines_of_both(first: Seq<Seq<char>>, second: Seq<Seq<char>>, columns: nat)
    ensures
        lines_of(first + second, columns) =~= lines_of(first, columns) + lines_of(second, columns),
    decreases second.len(),
{
    if second.len() == 0 {
        assert(first + second =~= first);
    } else {
        let shorter = second.drop_last();
        lemma_lines_of_both(first, shorter, columns);
        assert((first + second).drop_last() =~= first + shorter);
        let start = Lines { full: lines_of(shorter, columns), line: Seq::empty() };
        let front = lines_of(first, columns);
        lemma_words_behind(front, start, words(second.last()), columns);
        assert(behind(front, start) =~= (Lines {
            full: lines_of(first + shorter, columns),
            line: Seq::empty(),
        }));
    }
}

} // verus!
