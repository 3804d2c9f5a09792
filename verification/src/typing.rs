//! Lines that are typed: chat, and the name of an item in an anvil.

use vstd::prelude::*;
use vstd::string::*;
use vstd::utf8::*;

use crate::book_screen::{self, type_text};
use crate::chars::{self, control, trim};
use crate::text::chars_of;

verus! {

/// The line of chat that is being typed.
#[derive(Debug)]
pub struct ChatInput {
    pub open: bool,
    pub buffer: String,
}

#[verifier::ext_equal]
pub struct ChatInputModel {
    pub open: bool,
    pub buffer: Seq<char>,
}

impl View for ChatInput {
    type V = ChatInputModel;

    open spec fn view(&self) -> ChatInputModel {
        ChatInputModel { open: self.open, buffer: self.buffer@ }
    }
}

/// A line takes no more characters once it has this many bytes.
pub const MAX_CHAT_BYTES: usize = 200;

/// A line with typed characters behind it; control characters are left out.
pub open spec fn chat_typed(line: Seq<char>, input: Seq<char>) -> Seq<char>
    decreases input.len(),
{
    if input.len() == 0 {
        line
    } else {
        let before = chat_typed(line, input.drop_last());
        if chars::is_control(input.last()) || encode_utf8(before).len() >= MAX_CHAT_BYTES {
            before
        } else {
            before.push(input.last())
        }
    }
}

#[derive(Clone, Copy, Debug, PartialEq, Eq, Structural)]
pub enum LineKey {
    Escape,
    Enter,
    Backspace,
    Other,
}

/// A key was pressed: the line then, and the message to send. One of blanks
/// alone is not sent.
pub open spec fn chat_keyed(chat: ChatInputModel, key: LineKey, input: Seq<char>) -> (
    ChatInputModel,
    Option<Seq<char>>,
) {
    match key {
        LineKey::Escape => (ChatInputModel { open: false, buffer: Seq::empty() }, None),
        LineKey::Enter => (
            ChatInputModel { open: false, buffer: Seq::empty() },
            if chars::trimmed(chat.buffer).len() > 0 {
                Some(chat.buffer)
            } else {
                None
            },
        ),
        LineKey::Backspace => (
            ChatInputModel { buffer: book_screen::shortened(chat.buffer), ..chat },
            None,
        ),
        LineKey::Other => (
            ChatInputModel { buffer: chat_typed(chat.buffer, input), ..chat },
            None,
        ),
    }
}

impl ChatInput {
    pub fn new() -> (r: Self)
        ensures
            r@ == (ChatInputModel { open: false, buffer: Seq::empty() }),
    {
        ChatInput { open: false, buffer: String::new() }
    }

    /// Opens the line, empty or with the slash of a command.
    pub fn start(&mut self, command: bool)
        ensures
            final(self)@ == (ChatInputModel {
                open: true,
                buffer: if command {
                    seq!['/']
                } else {
                    Seq::empty()
                },
            }),
    {
        self.open = true;
        self.buffer = String::new();
        if command {
            self.buffer.push('/');
            proof {
                assert(self.buffer@ =~= seq!['/']);
            }
        }
    }

    /// A key was pressed, with the text that it types. Returns the message to
    /// send, if any.
    pub fn key(&mut self, key: LineKey, input: &str) -> (r: Option<String>)
        ensures
            final(self)@ == chat_keyed(old(self)@, key, input@).0,
            match chat_keyed(old(self)@, key, input@).1 {
                Some(message) => r matches Some(got) && got@ == message,
                None => r is None,
            },
    {
        match key {
            LineKey::Escape => {
                self.open = false;
                self.buffer = String::new();
                None
            },
            LineKey::Enter => {
                let message = self.buffer.clone();
                self.buffer = String::new();
                self.open = false;
                if trim(message.as_str()).as_str().is_empty() {
                    None
                } else {
                    Some(message)
                }
            },
            LineKey::Backspace => {
                let _ = self.buffer.pop();
                None
            },
            LineKey::Other => {
                let ghost start = self.buffer@;
                let chars = chars_of(input);
                let mut i: usize = 0;
                while i < chars.len()
                    invariant
                        i <= chars@.len(),
                        chars@ == input@,
                        self.open == old(self).open,
                        start == old(self).buffer@,
                        self.buffer@ == chat_typed(start, chars@.take(i as int)),
                    decreases chars@.len() - i,
                {
                    proof {
                        assert(chars@.take(i + 1).drop_last() =~= chars@.take(i as int));
                        assert(chars@.take(i + 1).last() == chars@[i as int]);
                    }
                    if !control(chars[i]) && self.buffer.as_str().as_bytes().len()
                        < MAX_CHAT_BYTES {
                        self.buffer.push(chars[i]);
                    }
                    i = i + 1;
                }
                proof {
                    assert(chars@.take(i as int) =~= input@);
                }
                None
            },
        }
    }
}

/// The most characters of the name of an item.
pub const MAX_NAME_CHARS: usize = 50;

/// The name after a key.
pub open spec fn name_keyed(name: Seq<char>, backspace: bool, input: Seq<char>) -> Seq<char> {
    if backspace {
        book_screen::shortened(name)
    } else {
        book_screen::typed(name, input, MAX_NAME_CHARS as nat)
    }
}

/// A key was pressed while the name of an item is typed. Returns whether the
/// name is another one then.
pub fn key_name(name: &mut String, backspace: bool, input: &str) -> (changed: bool)
    ensures
        final(name)@ == name_keyed(old(name)@, backspace, input@),
        changed == (final(name)@ != old(name)@),
{
    if backspace {
        let ghost before = name@;
        let popped: bool = name.pop().is_some();
        proof {
            if popped {
                assert(name@.len() != before.len());
            }
        }
        popped
    } else {
        type_text(name, input, MAX_NAME_CHARS)
    }
}

/// What is typed and taken back again leaves the line as it was.
pub proof fn backspace_undoes_typing(line: Seq<char>, c: char)
    requires
        !chars::is_control(c),
        encode_utf8(line).len() < MAX_CHAT_BYTES,
    ensures
        ({
            let open = ChatInputModel { open: true, buffer: line };
            let typed = chat_keyed(open, LineKey::Other, seq![c]).0;
            chat_keyed(typed, LineKey::Backspace, Seq::empty()).0 == open
        }),
{
    assert(seq![c].drop_last() =~= Seq::<char>::empty());
    assert(chat_typed(line, Seq::empty()) == line);
    assert(line.push(c).drop_last() =~= line);
}

/// Sending a line closes it and leaves nothing behind.
pub proof fn sent_lines_are_gone(chat: ChatInputModel, input: Seq<char>)
    ensures
        !chat_keyed(chat, LineKey::Enter, input).0.open,
        chat_keyed(chat, LineKey::Enter, input).0.buffer.len() == 0,
{
}

/// Escape closes the line and sends nothing; Enter closes it and sends what was typed,
/// unless that is blanks alone; Backspace takes the last character away; and no other
/// key sends or closes anything.
pub proof fn keys_of_the_chat_line(chat: ChatInputModel, input: Seq<char>)
    ensures
        chat_keyed(chat, LineKey::Escape, input) == (
            ChatInputModel { open: false, buffer: Seq::empty() },
            None::<Seq<char>>,
        ),
        chat_keyed(chat, LineKey::Enter, input).1 is Some <==> chars::trimmed(chat.buffer).len()
            > 0,
        chat_keyed(chat, LineKey::Enter, input).1 matches Some(sent) ==> sent == chat.buffer,
        chat_keyed(chat, LineKey::Backspace, input).1 is None,
        chat_keyed(chat, LineKey::Backspace, input).0.open == chat.open,
        chat.buffer.len() > 0 ==> chat_keyed(chat, LineKey::Backspace, input).0.buffer
            == chat.buffer.take(chat.buffer.len() - 1),
        chat_keyed(chat, LineKey::Other, input).1 is None,
        chat_keyed(chat, LineKey::Other, input).0.open == chat.open,
{
    if chat.buffer.len() > 0 {
        assert(chat.buffer.drop_last() =~= chat.buffer.take(chat.buffer.len() - 1));
    }
}

/// Characters are appended one by one in their order, without control characters, as
/// long as the line has fewer than 200 bytes.
pub proof fn typing_appends(line: Seq<char>, input: Seq<char>, c: char)
    ensures
        chat_typed(line, Seq::empty()) == line,
        !chars::is_control(c) && encode_utf8(chat_typed(line, input)).len() < 200 ==> chat_typed(
            line,
            input.push(c),
        ) == chat_typed(line, input).push(c),
        chars::is_control(c) || encode_utf8(chat_typed(line, input)).len() >= 200 ==> chat_typed(
            line,
            input.push(c),
        ) == chat_typed(line, input),
        line.len() <= chat_typed(line, input).len() && chat_typed(line, input).take(
            line.len() as int,
        ) == line,
    decreases input.len(),
{
    assert(input.push(c).drop_last() =~= input);
    if input.len() == 0 {
        assert(line.take(line.len() as int) =~= line);
    } else {
        typing_appends(line, input.drop_last(), c);
        let before = chat_typed(line, input.drop_last());
        assert(before.push(input.last()).take(line.len() as int) =~= before.take(
            line.len() as int,
        ));
    }
}

/// The name of an item loses its last character by Backspace, and never grows beyond 50
/// characters.
pub proof fn names_stay_short(name: Seq<char>, input: Seq<char>)
    ensures
        name.len() > 0 ==> name_keyed(name, true, input) == name.take(name.len() - 1),
        name.len() == 0 ==> name_keyed(name, true, input) == name,
        name_keyed(name, false, input) == book_screen::typed(name, input, 50),
{
    if name.len() > 0 {
        assert(name.drop_last() =~= name.take(name.len() - 1));
    }
}

/// A line of chat stands for its text and whether it is open.
pub proof fn lines_stand_for_their_text(line: ChatInput)
    ensures
        line@.open == line.open,
        line@.buffer == line.buffer@,
{
}

/// A line of chat opens empty, and one for a command with a slash.
pub proof fn lines_open_for_chat_or_command(line: &mut ChatInput, command: bool)
    requires
        call_ensures(ChatInput::start, (line, command), ()),
    ensures
        final(line)@.open,
        command ==> final(line)@.buffer == seq!['/'],
        !command ==> final(line)@.buffer.len() == 0,
{
}

} // verus!
