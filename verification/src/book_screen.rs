//! The screen on which a book is read, written and signed.

use vstd::prelude::*;
use vstd::string::*;

use crate::chars::{self, control, trim};
use crate::component::{self, plain_text};
use crate::nbt::{self, Nbt, NbtModel};
use crate::players;
use crate::recipe_book;
use crate::text::{self, chars_of, natural_text, str_eq};

verus! {

#[derive(Debug)]
pub struct BookScreen {
    pub pages: Vec<String>,
    pub page: usize,
    pub writable: bool,
    /// Whether the book was changed.
    pub dirty: bool,
    pub hotbar_slot: i32,
    pub title: Option<String>,
    pub author: Option<String>,
    /// Whether the title for a signature is being entered.
    pub signing: bool,
    pub sign_title: String,
    /// The title that the book was signed with.
    pub submitted_title: Option<String>,
}

#[verifier::ext_equal]
pub struct ScreenModel {
    pub pages: Seq<Seq<char>>,
    pub page: int,
    pub writable: bool,
    pub dirty: bool,
    pub hotbar_slot: i32,
    pub title: Option<Seq<char>>,
    pub author: Option<Seq<char>>,
    pub signing: bool,
    pub sign_title: Seq<char>,
    pub submitted_title: Option<Seq<char>>,
}

impl View for BookScreen {
    type V = ScreenModel;

    open spec fn view(&self) -> ScreenModel {
        ScreenModel {
            pages: recipe_book::texts(self.pages@),
            page: self.page as int,
            writable: self.writable,
            dirty: self.dirty,
            hotbar_slot: self.hotbar_slot,
            title: players::opt_view(self.title),
            author: players::opt_view(self.author),
            signing: self.signing,
            sign_title: self.sign_title@,
            submitted_title: players::opt_view(self.submitted_title),
        }
    }
}

/// The most pages of a book that is written.
pub const MAX_PAGES: usize = 100;

/// The most characters of a page.
pub const MAX_PAGE_CHARS: usize = 1024;

/// The most characters of a title.
pub const MAX_TITLE_CHARS: usize = 16;

/// The pages that the data of a book holds; those of a signed book are text
/// components.
pub open spec fn page_texts(pages: Seq<NbtModel>, signed: bool) -> Seq<Seq<char>>
    decreases pages.len(),
{
    if pages.len() == 0 {
        Seq::empty()
    } else {
        let before = page_texts(pages.drop_last(), signed);
        match pages.last() {
            NbtModel::String(page) => before.push(
                if signed {
                    component::plain_json(page)
                } else {
                    page
                },
            ),
            _ => before,
        }
    }
}

pub open spec fn data_get(data: Option<NbtModel>, name: Seq<char>) -> Option<NbtModel> {
    match data {
        Some(data) => nbt::nbt_get(data, name),
        None => None,
    }
}

/// The pages of a book; there is always one.
pub open spec fn pages_of(data: Option<NbtModel>, signed: bool) -> Seq<Seq<char>> {
    let pages = match data_get(data, "pages"@) {
        Some(NbtModel::List(pages)) => page_texts(pages, signed),
        _ => Seq::empty(),
    };
    if pages.len() == 0 {
        seq![Seq::empty()]
    } else {
        pages
    }
}

pub open spec fn text_tag(data: Option<NbtModel>, name: Seq<char>) -> Option<Seq<char>> {
    match data_get(data, name) {
        Some(NbtModel::String(value)) => Some(value),
        _ => None,
    }
}

/// The screen for an item, where it is a book.
pub open spec fn opened(name: Seq<char>, data: Option<NbtModel>, hotbar_slot: u8) -> Option<
    ScreenModel,
> {
    if name == "writable_book"@ || name == "written_book"@ {
        Some(
            ScreenModel {
                pages: pages_of(data, name == "written_book"@),
                page: 0,
                writable: name == "writable_book"@,
                dirty: false,
                hotbar_slot: hotbar_slot as i32,
                title: text_tag(data, "title"@),
                author: text_tag(data, "author"@),
                signing: false,
                sign_title: Seq::empty(),
                submitted_title: None,
            },
        )
    } else {
        None
    }
}

/// Text with typed characters behind it, up to a limit; control characters are
/// left out.
pub open spec fn typed(text: Seq<char>, input: Seq<char>, limit: nat) -> Seq<char>
    decreases input.len(),
{
    if input.len() == 0 {
        text
    } else {
        let before = typed(text, input.drop_last(), limit);
        if chars::is_control(input.last()) || before.len() >= limit {
            before
        } else {
            before.push(input.last())
        }
    }
}

/// Types characters behind a text. Returns whether any was added.
pub fn type_text(text: &mut String, input: &str, limit: usize) -> (changed: bool)
    ensures
        final(text)@ == typed(old(text)@, input@, limit as nat),
        changed == (final(text)@ != old(text)@),
{
    let ghost start = text@;
    let chars = chars_of(input);
    let mut changed: bool = false;
    let mut i: usize = 0;
    let mut len: usize = text.as_str().unicode_len();
    while i < chars.len()
        invariant
            i <= chars@.len(),
            chars@ == input@,
            text@ == typed(start, chars@.take(i as int), limit as nat),
            len == text@.len(),
            len >= start.len(),
            changed == (len > start.len()),
            start == text@.take(start.len() as int),
        decreases chars@.len() - i,
    {
        proof {
            assert(chars@.take(i + 1).drop_last() =~= chars@.take(i as int));
            assert(chars@.take(i + 1).last() == chars@[i as int]);
        }
        if !control(chars[i]) && len < limit {
            let ghost before = text@;
            text.push(chars[i]);
            len = len + 1;
            changed = true;
            proof {
                assert(text@.take(start.len() as int) =~= before.take(start.len() as int));
            }
        }
        i = i + 1;
    }
    proof {
        assert(chars@.take(i as int) =~= input@);
        if !changed {
            assert(text@.take(start.len() as int) =~= text@);
        }
    }
    changed
}

/// A text without its last character.
pub open spec fn shortened(text: Seq<char>) -> Seq<char> {
    if text.len() > 0 {
        text.drop_last()
    } else {
        text
    }
}

pub open spec fn page_back(book: ScreenModel) -> ScreenModel {
    ScreenModel {
        page: if book.page > 0 {
            book.page - 1
        } else {
            0
        },
        ..book
    }
}

/// The next page; behind the last one a new page can be written.
pub open spec fn page_on(book: ScreenModel) -> ScreenModel {
    if book.page + 1 < book.pages.len() {
        ScreenModel { page: book.page + 1, ..book }
    } else if book.writable && book.pages.len() < MAX_PAGES {
        ScreenModel {
            pages: book.pages.push(Seq::empty()),
            page: book.page + 1,
            dirty: true,
            ..book
        }
    } else {
        book
    }
}

/// The book with its signature, where a title was entered.
pub open spec fn signed(book: ScreenModel) -> ScreenModel {
    ScreenModel { submitted_title: Some(chars::trimmed(book.sign_title)), dirty: true, ..book }
}

pub open spec fn has_title(book: ScreenModel) -> bool {
    chars::trimmed(book.sign_title).len() > 0
}

/// Whether a button is there: back, on, sign and done, or the two of a
/// signature.
pub open spec fn offered(book: ScreenModel, button: int) -> bool {
    if book.signing {
        button == 4 || button == 5
    } else {
        button == 0 || button == 1 || (button == 2 && book.writable) || button == 3
    }
}

/// The buttons that are there, in their order.
pub open spec fn all_offered(book: ScreenModel) -> Seq<usize> {
    if book.signing {
        seq![4, 5]
    } else if book.writable {
        seq![0, 1, 2, 3]
    } else {
        seq![0, 1, 3]
    }
}

/// A button was pressed: the book then, and whether the screen closes.
pub open spec fn pressed(book: ScreenModel, button: int) -> (ScreenModel, bool) {
    if !offered(book, button) {
        (book, false)
    } else if button == 0 {
        (page_back(book), false)
    } else if button == 1 {
        (page_on(book), false)
    } else if button == 2 {
        (ScreenModel { signing: true, ..book }, false)
    } else if button == 3 {
        (book, true)
    } else if button == 4 {
        if has_title(book) {
            (signed(book), true)
        } else {
            (book, false)
        }
    } else {
        (ScreenModel { signing: false, ..book }, false)
    }
}

/// The keys that mean something to the screen.
#[derive(Clone, Copy, Debug, PartialEq, Eq, Structural)]
pub enum BookKey {
    Escape,
    Backspace,
    Enter,
    Back,
    On,
    Other,
}

/// The book with another text on the current page.
pub open spec fn with_page(book: ScreenModel, text: Seq<char>) -> ScreenModel {
    if text == book.pages[book.page] {
        book
    } else {
        ScreenModel { pages: book.pages.update(book.page, text), dirty: true, ..book }
    }
}

/// A key was pressed: the book then, and whether the screen closes.
pub open spec fn keyed(book: ScreenModel, key: BookKey, input: Seq<char>) -> (ScreenModel, bool) {
    if key == BookKey::Escape {
        if book.signing {
            (ScreenModel { signing: false, ..book }, false)
        } else {
            (book, true)
        }
    } else if book.signing {
        if key == BookKey::Backspace {
            (ScreenModel { sign_title: shortened(book.sign_title), ..book }, false)
        } else if key == BookKey::Enter && has_title(book) {
            (signed(book), true)
        } else {
            (
                ScreenModel {
                    sign_title: typed(book.sign_title, input, MAX_TITLE_CHARS as nat),
                    ..book
                },
                false,
            )
        }
    } else if key == BookKey::Back {
        (page_back(book), false)
    } else if key == BookKey::On {
        (page_on(book), false)
    } else if !book.writable {
        (book, false)
    } else {
        let text = book.pages[book.page];
        if key == BookKey::Backspace {
            (with_page(book, shortened(text)), false)
        } else if key == BookKey::Enter {
            (
                if text.len() < MAX_PAGE_CHARS {
                    with_page(book, text.push('\n'))
                } else {
                    book
                },
                false,
            )
        } else {
            (with_page(book, typed(text, input, MAX_PAGE_CHARS as nat)), false)
        }
    }
}

/// What the server is told of a book that was changed.
#[derive(Debug)]
pub struct BookEdit {
    pub slot: i32,
    pub pages: Vec<String>,
    pub title: Option<String>,
}

fn read_pages(pages: &Vec<Nbt>, signed: bool) -> (r: Vec<String>)
    ensures
        recipe_book::texts(r@) == page_texts(nbt::nbt_models(pages@), signed),
{
    let ghost models = nbt::nbt_models(pages@);
    let mut out: Vec<String> = Vec::new();
    let mut i: usize = 0;
    proof {
        nbt::lemma_nbt_models(pages@);
        assert(recipe_book::texts(out@) =~= page_texts(models.take(0), signed));
    }
    while i < pages.len()
        invariant
            i <= pages@.len(),
            models.len() == pages@.len(),
            forall|k: int| 0 <= k < pages@.len() ==> #[trigger] models[k] == pages@[k]@,
            recipe_book::texts(out@) == page_texts(models.take(i as int), signed),
        decreases pages@.len() - i,
    {
        proof {
            assert(models.take(i + 1).drop_last() =~= models.take(i as int));
            assert(models.take(i + 1).last() == pages@[i as int]@);
        }
        match &pages[i] {
            Nbt::String(page) => {
                let ghost before = out@;
                let text = if signed {
                    plain_text(page.as_str())
                } else {
                    page.clone()
                };
                out.push(text);
                proof {
                    assert(recipe_book::texts(out@) =~= recipe_book::texts(before).push(text@));
                }
            },
            _ => {},
        }
        i = i + 1;
    }
    proof {
        assert(models.take(i as int) =~= models);
    }
    out
}

fn read_text_tag(data: Option<&Nbt>, name: &str) -> (r: Option<String>)
    ensures
        players::opt_view(r) == text_tag(
            match data {
                Some(data) => Some(data@),
                None => None,
            },
            name@,
        ),
{
    match data {
        Some(data) => match data.get(name) {
            Some(Nbt::String(value)) => Some(value.clone()),
            _ => None,
        },
        None => None,
    }
}

fn find_pages(data: Option<&Nbt>, signed: bool) -> (r: Vec<String>)
    ensures
        recipe_book::texts(r@) == pages_of(
            match data {
                Some(data) => Some(data@),
                None => None,
            },
            signed,
        ),
        r@.len() > 0,
{
    let mut pages = match data {
        Some(data) => match data.get("pages") {
            Some(Nbt::List(pages)) => read_pages(pages, signed),
            _ => {
                let none: Vec<String> = Vec::new();
                proof {
                    assert(recipe_book::texts(none@) =~= Seq::empty());
                }
                none
            },
        },
        None => {
            let none: Vec<String> = Vec::new();
            proof {
                assert(recipe_book::texts(none@) =~= Seq::empty());
            }
            none
        },
    };
    proof {
        assert(recipe_book::texts(pages@).len() == pages@.len());
    }
    if pages.len() == 0 {
        pages.push(String::new());
        proof {
            assert(recipe_book::texts(pages@) =~= seq![Seq::<char>::empty()]);
        }
    }
    pages
}

impl BookScreen {
    /// The current page is one of the pages.
    pub open spec fn wf(&self) -> bool {
        self.page < self.pages@.len()
    }

    /// Opens the screen for the item in the hand, where it is a book.
    pub fn open(name: &str, data: Option<&Nbt>, hotbar_slot: u8) -> (r: Option<BookScreen>)
        ensures
            match opened(
                name@,
                match data {
                    Some(data) => Some(data@),
                    None => None,
                },
                hotbar_slot,
            ) {
                Some(want) => r matches Some(got) && got.wf() && got@ == want,
                None => r is None,
            },
    {
        let writable: bool = str_eq(name, "writable_book");
        let signed: bool = str_eq(name, "written_book");
        if !writable && !signed {
            return None;
        }
        let pages = find_pages(data, signed);
        Some(
            BookScreen {
                pages,
                page: 0,
                writable,
                dirty: false,
                hotbar_slot: hotbar_slot as i32,
                title: read_text_tag(data, "title"),
                author: read_text_tag(data, "author"),
                signing: false,
                sign_title: String::new(),
                submitted_title: None,
            },
        )
    }

    /// The buttons that are there, in their order.
    pub fn buttons(&self) -> (r: Vec<usize>)
        ensures
            r@ == all_offered(self@),
    {
        if self.signing {
            vec![4, 5]
        } else if self.writable {
            vec![0, 1, 2, 3]
        } else {
            vec![0, 1, 3]
        }
    }

    fn go_back(&mut self)
        requires
            old(self).wf(),
        ensures
            final(self).wf(),
            final(self)@ == page_back(old(self)@),
    {
        if self.page > 0 {
            self.page = self.page - 1;
        }
    }

    fn go_on(&mut self)
        requires
            old(self).wf(),
        ensures
            final(self).wf(),
            final(self)@ == page_on(old(self)@),
    {
        let len: usize = self.pages.len();
        if self.page + 1 < len {
            self.page = self.page + 1;
        } else if self.writable && len < MAX_PAGES {
            let ghost before = self.pages@;
            self.pages.push(String::new());
            self.page = self.page + 1;
            self.dirty = true;
            proof {
                assert(recipe_book::texts(self.pages@) =~= recipe_book::texts(before).push(
                    Seq::empty(),
                ));
            }
        }
    }

    fn sign(&mut self) -> (ok: bool)
        requires
            old(self).wf(),
        ensures
            final(self).wf(),
            ok == has_title(old(self)@),
            final(self)@ == if ok {
                signed(old(self)@)
            } else {
                old(self)@
            },
    {
        let title = trim(self.sign_title.as_str());
        if title.as_str().is_empty() {
            return false;
        }
        self.submitted_title = Some(title);
        self.dirty = true;
        true
    }

    /// A button was pressed. Returns whether the screen closes.
    pub fn press(&mut self, button: usize) -> (finish: bool)
        requires
            old(self).wf(),
        ensures
            final(self).wf(),
            (final(self)@, finish) == pressed(old(self)@, button as int),
    {
        if self.signing {
            if button == 4 {
                self.sign()
            } else {
                if button == 5 {
                    self.signing = false;
                }
                false
            }
        } else if button == 0 {
            self.go_back();
            false
        } else if button == 1 {
            self.go_on();
            false
        } else if button == 2 {
            if self.writable {
                self.signing = true;
            }
            false
        } else {
            button == 3
        }
    }

    fn set_page(&mut self, text: String)
        requires
            old(self).wf(),
            text@ != old(self)@.pages[old(self)@.page],
        ensures
            final(self).wf(),
            final(self)@ == with_page(old(self)@, text@),
    {
        let ghost before = self.pages@;
        let i: usize = self.page;
        self.pages[i] = text;
        self.dirty = true;
        proof {
            assert(recipe_book::texts(self.pages@) =~= recipe_book::texts(before).update(
                i as int,
                text@,
            ));
        }
    }

    /// A key was pressed, with the text that it types. Returns whether the
    /// screen closes.
    pub fn key(&mut self, key: BookKey, input: &str) -> (finish: bool)
        requires
            old(self).wf(),
        ensures
            final(self).wf(),
            (final(self)@, finish) == keyed(old(self)@, key, input@),
    {
        if key == BookKey::Escape {
            if self.signing {
                self.signing = false;
                return false;
            }
            return true;
        }
        if self.signing {
            if key == BookKey::Backspace {
                let _ = self.sign_title.pop();
                return false;
            }
            if key == BookKey::Enter {
                if self.sign() {
                    return true;
                }
            }
            let _ = type_text(&mut self.sign_title, input, MAX_TITLE_CHARS);
            return false;
        }
        if key == BookKey::Back {
            self.go_back();
        } else if key == BookKey::On {
            self.go_on();
        } else if self.writable {
            let mut text = self.pages[self.page].clone();
            let ghost before = text@;
            proof {
                assert(before == self@.pages[self@.page]);
            }
            if key == BookKey::Backspace {
                if text.pop().is_some() {
                    proof {
                        assert(text@.len() != before.len());
                    }
                    self.set_page(text);
                }
            } else if key == BookKey::Enter {
                if text.as_str().unicode_len() < MAX_PAGE_CHARS {
                    text.push('\n');
                    proof {
                        assert(text@.len() != before.len());
                    }
                    self.set_page(text);
                }
            } else if type_text(&mut text, input, MAX_PAGE_CHARS) {
                self.set_page(text);
            }
        }
        false
    }

    /// Closes the screen. Returns what the server is to be told, if anything
    /// was changed.
    pub fn finish(self) -> (r: Option<BookEdit>)
        ensures
            match r {
                Some(edit) => self.writable && self.dirty && edit.slot == self.hotbar_slot
                    && edit.pages == self.pages && edit.title == self.submitted_title,
                None => !(self.writable && self.dirty),
            },
    {
        if self.writable && self.dirty {
            Some(
                BookEdit {
                    slot: self.hotbar_slot,
                    pages: self.pages,
                    title: self.submitted_title,
                },
            )
        } else {
            None
        }
    }

    /// What stands above the pages.
    pub open spec fn heading_of(&self) -> Seq<char> {
        match self.title {
            Some(title) => title@,
            None => if self.signing {
                "Sign Book"@
            } else if self.writable {
                "Writable Book"@
            } else {
                "Written Book"@
            },
        }
    }

    pub fn heading(&self) -> (r: &str)
        ensures
            r@ == self.heading_of(),
    {
        match &self.title {
            Some(title) => title.as_str(),
            None => {
                if self.signing {
                    "Sign Book"
                } else if self.writable {
                    "Writable Book"
                } else {
                    "Written Book"
                }
            },
        }
    }

    /// What stands below the pages; nothing while a title is entered.
    pub fn page_label(&self) -> (r: String)
        requires
            self.wf(),
        ensures
            r@ == if self.signing {
                Seq::empty()
            } else {
                "Page "@ + text::decimal(self.page + 1) + " of "@ + text::decimal(
                    self.pages@.len() as int,
                )
            },
    {
        if self.signing {
            return String::new();
        }
        let len: usize = self.pages.len();
        let mut label = "Page ".to_owned();
        label.append(natural_text((self.page + 1) as u64).as_str());
        label.append(" of ");
        label.append(natural_text(len as u64).as_str());
        label
    }
}

/// A book that cannot be written is never changed, whatever is pressed.
pub proof fn read_books_stay_as_they_are(
    book: ScreenModel,
    button: int,
    key: BookKey,
    input: Seq<char>,
)
    requires
        !book.writable,
        !book.signing,
    ensures
        pressed(book, button).0.pages == book.pages,
        pressed(book, button).0.dirty == book.dirty,
        !pressed(book, button).0.signing,
        keyed(book, key, input).0.pages == book.pages,
        keyed(book, key, input).0.dirty == book.dirty,
{
}

proof fn lemma_typed_len(text: Seq<char>, input: Seq<char>, limit: nat)
    ensures
        typed(text, input, limit).len() <= if text.len() > limit {
            text.len()
        } else {
            limit
        },
    decreases input.len(),
{
    if input.len() > 0 {
        lemma_typed_len(text, input.drop_last(), limit);
    }
}

/// Pages and titles that keep to their limits still do after any key.
pub proof fn writing_keeps_to_the_limits(book: ScreenModel, key: BookKey, input: Seq<char>)
    requires
        0 <= book.page < book.pages.len() <= MAX_PAGES,
        book.sign_title.len() <= MAX_TITLE_CHARS,
        forall|i: int| 0 <= i < book.pages.len() ==> (#[trigger] book.pages[i]).len()
            <= MAX_PAGE_CHARS,
    ensures
        ({
            let after = keyed(book, key, input).0;
            &&& 0 <= after.page < after.pages.len() <= MAX_PAGES
            &&& after.sign_title.len() <= MAX_TITLE_CHARS
            &&& forall|i: int|
                0 <= i < after.pages.len() ==> (#[trigger] after.pages[i]).len() <= MAX_PAGE_CHARS
        }),
{
    lemma_typed_len(book.sign_title, input, MAX_TITLE_CHARS as nat);
    lemma_typed_len(book.pages[book.page], input, MAX_PAGE_CHARS as nat);
    assert(book.pages[book.page].len() <= MAX_PAGE_CHARS);
}

/// The buttons that a screen shows are those that it answers to.
pub proof fn shown_buttons_work(book: ScreenModel, button: usize)
    ensures
        all_offered(book).contains(button) <==> offered(book, button as int),
{
    let shown = all_offered(book);
    assert(shown.len() >= 2);
    if offered(book, button as int) {
        if book.signing {
            assert(shown[button - 4] == button);
        } else if book.writable {
            assert(shown[button as int] == button);
        } else if button == 3 {
            assert(shown[2] == button);
        } else {
            assert(shown[button as int] == button);
        }
    }
}

/// The pages of a book come in order; those of a signed book are read as components and
/// those of others as they are, and what is no text is no page.
pub proof fn pages_are_read_in_order(pages: Seq<NbtModel>, page: Seq<char>, other: NbtModel)
    requires
        other !is String,
    ensures
        page_texts(Seq::empty(), true) == Seq::<Seq<char>>::empty(),
        page_texts(pages.push(NbtModel::String(page)), false) == page_texts(pages, false).push(page),
        page_texts(pages.push(NbtModel::String(page)), true) == page_texts(pages, true).push(
            component::plain_json(page),
        ),
        page_texts(pages.push(other), true) == page_texts(pages, true),
        page_texts(pages.push(other), false) == page_texts(pages, false),
{
    assert(pages.push(NbtModel::String(page)).drop_last() =~= pages);
    assert(pages.push(other).drop_last() =~= pages);
}

/// Only books open: one with a quill can be written, a written one is read only. Either
/// opens at its first page, with its own title and author, and unchanged.
pub proof fn books_open_at_their_first_page(
    name: Seq<char>,
    data: NbtModel,
    hotbar_slot: u8,
    pages: Seq<NbtModel>,
    title: Seq<char>,
    author: Seq<char>,
)
    requires
        nbt::nbt_get(data, "pages"@) == Some(NbtModel::List(pages)),
        nbt::nbt_get(data, "title"@) == Some(NbtModel::String(title)),
        nbt::nbt_get(data, "author"@) == Some(NbtModel::String(author)),
    ensures
        opened(name, Some(data), hotbar_slot) is Some <==> name == "writable_book"@ || name
            == "written_book"@,
        opened(name, Some(data), hotbar_slot) matches Some(book) ==> {
            &&& book.writable == (name == "writable_book"@)
            &&& book.page == 0
            &&& !book.dirty && !book.signing && book.sign_title.len() == 0
                && book.submitted_title is None
            &&& book.hotbar_slot == hotbar_slot
            &&& book.title == Some(title)
            &&& book.author == Some(author)
            &&& book.writable && page_texts(pages, false).len() > 0 ==> book.pages == page_texts(
                pages,
                false,
            )
            &&& !book.writable && page_texts(pages, true).len() > 0 ==> book.pages == page_texts(
                pages,
                true,
            )
            &&& book.writable && page_texts(pages, false).len() == 0 ==> book.pages.len() == 1
                && book.pages[0].len() == 0
        },
        opened("writable_book"@, None, hotbar_slot) matches Some(book) && book.pages.len() == 1
            && book.pages[0].len() == 0 && book.title is None && book.author is None,
{
    reveal_strlit("writable_book");
    reveal_strlit("written_book");
    assert("writable_book"@.len() != "written_book"@.len());
}

/// Typing puts the characters behind the text, leaves control characters out and stops at
/// the limit.
pub proof fn typing_stops_at_the_limit(text: Seq<char>, input: Seq<char>, c: char, limit: nat)
    ensures
        typed(text, Seq::empty(), limit) == text,
        !chars::is_control(c) && typed(text, input, limit).len() < limit ==> typed(
            text,
            input.push(c),
            limit,
        ) == typed(text, input, limit).push(c),
        chars::is_control(c) || typed(text, input, limit).len() >= limit ==> typed(
            text,
            input.push(c),
            limit,
        ) == typed(text, input, limit),
{
    assert(input.push(c).drop_last() =~= input);
}

/// Pages turn by one and stop at the first; behind the last one only a book that can be
/// written gets a new, empty page, and only up to a hundred. Turning back after that leads
/// to the page before.
pub proof fn pages_turn_by_one(book: ScreenModel)
    requires
        0 <= book.page < book.pages.len(),
    ensures
        book.page > 0 ==> page_back(book).page == book.page - 1,
        book.page == 0 ==> page_back(book).page == 0,
        page_back(book).pages == book.pages && page_back(book).dirty == book.dirty,
        book.page + 1 < book.pages.len() ==> page_on(book) == (ScreenModel {
            page: book.page + 1,
            ..book
        }),
        book.page + 1 == book.pages.len() && book.writable && book.pages.len() < 100 ==> {
            &&& page_on(book).page == book.page + 1
            &&& page_on(book).pages.len() == book.pages.len() + 1
            &&& page_on(book).pages[book.page + 1].len() == 0
            &&& page_on(book).pages[book.page] == book.pages[book.page]
            &&& page_on(book).dirty
        },
        book.page + 1 == book.pages.len() && (!book.writable || book.pages.len() >= 100) ==> page_on(
            book,
        ) == book,
        page_on(book).page == book.page + 1 ==> page_back(page_on(book)).page == book.page,
{
}

/// The buttons turn the pages, begin a signature and end the reading; those of a signature
/// sign the book, where it has a title, or lead back to the pages.
pub proof fn buttons_do_what_they_are_for(book: ScreenModel)
    ensures
        !book.signing ==> {
            &&& pressed(book, 0) == (page_back(book), false)
            &&& pressed(book, 1) == (page_on(book), false)
            &&& book.writable ==> pressed(book, 2) == (ScreenModel { signing: true, ..book }, false)
            &&& !book.writable ==> pressed(book, 2) == (book, false)
            &&& pressed(book, 3) == (book, true)
            &&& pressed(book, 4) == (book, false)
            &&& pressed(book, 5) == (book, false)
        },
        book.signing ==> {
            &&& chars::trimmed(book.sign_title).len() > 0 ==> pressed(book, 4) == (
                ScreenModel {
                    submitted_title: Some(chars::trimmed(book.sign_title)),
                    dirty: true,
                    ..book
                },
                true,
            )
            &&& chars::trimmed(book.sign_title).len() == 0 ==> pressed(book, 4) == (book, false)
            &&& pressed(book, 5) == (ScreenModel { signing: false, ..book }, false)
            &&& pressed(book, 0) == (book, false)
            &&& pressed(book, 1) == (book, false)
            &&& pressed(book, 2) == (book, false)
            &&& pressed(book, 3) == (book, false)
        },
{
}

/// While pages are shown, a page of a book that can be written gets what is typed behind
/// its text, a new line for the enter key, and loses its last character to the backspace;
/// the other pages stay.
pub proof fn keys_write_on_the_page(book: ScreenModel, input: Seq<char>, other: int)
    requires
        !book.signing,
        book.writable,
        0 <= book.page < book.pages.len(),
        0 <= other < book.pages.len(),
        other != book.page,
    ensures
        ({
            let text = book.pages[book.page];
            let written = keyed(book, BookKey::Other, input).0;
            let broken = keyed(book, BookKey::Enter, input).0;
            let erased = keyed(book, BookKey::Backspace, input).0;
            &&& written.pages[book.page] == typed(text, input, 1024)
            &&& text.len() < 1024 ==> broken.pages[book.page] == text.push('\n') && broken.dirty
            &&& text.len() >= 1024 ==> broken == book
            &&& text.len() > 0 ==> erased.pages[book.page] == text.subrange(0, text.len() - 1)
                && erased.dirty
            &&& text.len() == 0 ==> erased == book
            &&& written.pages[book.page] != text ==> written.dirty
            &&& written.pages[book.page] == text ==> written == book
            &&& written.pages[other] == book.pages[other] && broken.pages[other]
                == book.pages[other] && erased.pages[other] == book.pages[other]
            &&& written.page == book.page && broken.page == book.page && erased.page == book.page
            &&& !keyed(book, BookKey::Other, input).1 && !keyed(book, BookKey::Enter, input).1
                && !keyed(book, BookKey::Backspace, input).1
        }),
{
    let text = book.pages[book.page];
    if text.len() > 0 {
        assert(text.drop_last() =~= text.subrange(0, text.len() - 1));
        assert(text.drop_last().len() != text.len());
    }
    assert(text.push('\n').len() != text.len());
}

/// While a book is signed, keys write its title, up to sixteen characters, and enter signs
/// it; escape leads back to the pages, and from there out of the book.
pub proof fn keys_write_the_title(book: ScreenModel, key: BookKey, input: Seq<char>)
    ensures
        book.signing && key == BookKey::Escape ==> keyed(book, key, input) == (
            ScreenModel { signing: false, ..book },
            false,
        ),
        !book.signing && key == BookKey::Escape ==> keyed(book, key, input) == (book, true),
        book.signing && (key == BookKey::Other || key == BookKey::Back || key == BookKey::On)
            ==> keyed(book, key, input) == (
            ScreenModel { sign_title: typed(book.sign_title, input, 16), ..book },
            false,
        ),
        book.signing && key == BookKey::Backspace && book.sign_title.len() > 0 ==> keyed(
            book,
            key,
            input,
        ) == (
            ScreenModel {
                sign_title: book.sign_title.subrange(0, book.sign_title.len() - 1),
                ..book
            },
            false,
        ),
        book.signing && key == BookKey::Enter && chars::trimmed(book.sign_title).len() > 0 ==> keyed(
            book,
            key,
            input,
        ) == (
            ScreenModel {
                submitted_title: Some(chars::trimmed(book.sign_title)),
                dirty: true,
                ..book
            },
            true,
        ),
        !book.signing && key == BookKey::Back ==> keyed(book, key, input) == (
            page_back(book),
            false,
        ),
        !book.signing && key == BookKey::On ==> keyed(book, key, input) == (page_on(book), false),
{
    if book.sign_title.len() > 0 {
        assert(book.sign_title.drop_last() =~= book.sign_title.subrange(
            0,
            book.sign_title.len() - 1,
        ));
    }
}

/// A book is headed by its title, and without one by what is done with it.
pub proof fn books_have_headings(book: &BookScreen)
    ensures
        book.title matches Some(title) ==> book.heading_of() == title@,
        book.title is None && book.signing ==> book.heading_of() == "Sign Book"@,
        book.title is None && !book.signing && book.writable ==> book.heading_of()
            == "Writable Book"@,
        book.title is None && !book.signing && !book.writable ==> book.heading_of()
            == "Written Book"@,
{
}

/// A book on the screen stands for its parts, the pages in order.
pub proof fn screens_stand_for_their_parts(book: BookScreen, i: int)
    ensures
        book@.pages.len() == book.pages@.len(),
        0 <= i < book.pages@.len() ==> book@.pages[i] == book.pages@[i]@,
        book@.page == book.page,
        book@.writable == book.writable && book@.dirty == book.dirty && book@.signing
            == book.signing,
        book@.hotbar_slot == book.hotbar_slot,
        book@.sign_title == book.sign_title@,
        book.title matches Some(title) ==> book@.title == Some(title@),
        book.title is None ==> book@.title is None,
        book.author matches Some(author) ==> book@.author == Some(author@),
        book.author is None ==> book@.author is None,
        book.submitted_title matches Some(title) ==> book@.submitted_title == Some(title@),
        book.submitted_title is None ==> book@.submitted_title is None,
{
}

/// The server hears of a book exactly if it can be written and was changed: of its slot, of
/// all its pages and of the title that it was signed with.
pub proof fn changed_books_are_reported(book: BookScreen, edit: Option<BookEdit>)
    requires
        call_ensures(BookScreen::finish, (book,), edit),
    ensures
        edit is Some <==> book.writable && book.dirty,
        edit matches Some(told) ==> told.slot == book.hotbar_slot && told.pages == book.pages
            && told.title == book.submitted_title,
{
}

/// The label below the pages counts from 1, and is not there while a title is entered.
pub proof fn page_labels_count_from_one(book: &BookScreen, label: String)
    requires
        book.wf(),
        call_ensures(BookScreen::page_label, (book,), label),
    ensures
        book.signing ==> label@.len() == 0,
        !book.signing ==> label@ == "Page "@ + text::decimal(book.page + 1) + " of "@
            + text::decimal(book.pages@.len() as int),
{
}

} // verus!
