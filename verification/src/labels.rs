//! Texts of the screens: names of items, what a bundle holds, and prompts.

use vstd::prelude::*;
use vstd::string::*;

use crate::items::{ItemRegistry, SlotItem};
use crate::nbt::{self, Nbt, NbtModel};
use crate::player::PlayerState;
use crate::players::PlayerListEntry;
use crate::recipe_book;
use crate::scoreboard::ScoreboardState;
use crate::text::{self, chars_of, decimal_text, natural_text};

verus! {

/// A letter in upper case, which can take several characters.
pub uninterp spec fn upper_of(c: char) -> Seq<char>;

/// `char::to_uppercase`: a letter in upper case. Among the ASCII characters
/// only the small letters have another form; the others are named.
#[verifier::external_body]
fn uppercase(c: char) -> (r: String)
    ensures
        r@ == upper_of(c),
        'a' <= c <= 'z' ==> r@ == seq![(c as u32 - 32) as char],
        (c as u32) < 128 && !('a' <= c <= 'z') ==> r@ == seq![c],
{
    c.to_uppercase().collect()
}

/// Whether a character is an ASCII one.
pub open spec fn is_ascii(c: char) -> bool {
    (c as u32) < 128
}

/// An ASCII character in upper case.
pub open spec fn ascii_capital(c: char) -> char {
    if 'a' <= c <= 'z' {
        (c as u32 - 32) as char
    } else {
        c
    }
}

/// A letter in upper case, which beyond ASCII can take several characters.
pub open spec fn capital(c: char) -> Seq<char> {
    if is_ascii(c) {
        seq![ascii_capital(c)]
    } else {
        upper_of(c)
    }
}

/// The name of an item for a reader: every word begins with a capital, and
/// spaces stand for underscores.
pub open spec fn pretty(name: Seq<char>) -> Seq<char>
    decreases name.len(),
{
    if name.len() == 0 {
        Seq::empty()
    } else {
        let shorter = name.drop_last();
        let c = name.last();
        if c == '_' {
            pretty(shorter).push(' ')
        } else if shorter.len() == 0 || shorter.last() == '_' {
            pretty(shorter) + capital(c)
        } else {
            pretty(shorter).push(c)
        }
    }
}

/// The character that stands for the one at a place of an ASCII name.
pub open spec fn pretty_char(name: Seq<char>, i: int) -> char {
    if name[i] == '_' {
        ' '
    } else if i == 0 || name[i - 1] == '_' {
        ascii_capital(name[i])
    } else {
        name[i]
    }
}

/// The readable form of an ASCII name is as long as the name, and goes with it
/// character by character: an underscore becomes a space, the first letter of
/// every word its capital, and all else stays.
pub proof fn ascii_names_go_letter_by_letter(name: Seq<char>)
    requires
        forall|i: int| 0 <= i < name.len() ==> is_ascii(#[trigger] name[i]),
    ensures
        pretty(name).len() == name.len(),
        forall|i: int|
            0 <= i < name.len() ==> #[trigger] pretty(name)[i] == pretty_char(name, i),
    decreases name.len(),
{
    if name.len() > 0 {
        let shorter = name.drop_last();
        ascii_names_go_letter_by_letter(shorter);
        assert(is_ascii(name[name.len() - 1]));
        assert forall|i: int| 0 <= i < name.len() implies #[trigger] pretty(name)[i]
            == pretty_char(name, i) by {
            if i < shorter.len() {
                assert(pretty(shorter)[i] == pretty_char(shorter, i));
            }
        }
    }
}

/// The readable name of an item.
pub fn pretty_item_name(name: &str) -> (r: String)
    ensures
        r@ == pretty(name@),
{
    let chars = chars_of(name);
    let mut out = String::new();
    let mut i: usize = 0;
    while i < chars.len()
        invariant
            i <= chars@.len(),
            out@ == pretty(chars@.take(i as int)),
        decreases chars@.len() - i,
    {
        let c: char = chars[i];
        proof {
            assert(chars@.take(i + 1).drop_last() =~= chars@.take(i as int));
            assert(chars@.take(i + 1).last() == c);
            if i > 0 {
                assert(chars@.take(i as int).last() == chars@[i - 1]);
            }
        }
        if c == '_' {
            out.push(' ');
        } else if i == 0 || chars[i - 1] == '_' {
            out.append(uppercase(c).as_str());
        } else {
            out.push(c);
        }
        i = i + 1;
    }
    proof {
        assert(chars@.take(i as int) =~= chars@);
    }
    out
}

/// The stack that an entry of a bundle describes, where it is complete.
pub open spec fn bundle_stack(entry: NbtModel) -> Option<SlotItem> {
    match (nbt::nbt_get(entry, "id"@), nbt::nbt_get(entry, "count"@)) {
        (Some(NbtModel::Int(item_id)), Some(NbtModel::Byte(count))) => Some(
            SlotItem { item_id, count },
        ),
        _ => None,
    }
}

pub open spec fn bundle_stacks(entries: Seq<NbtModel>) -> Seq<SlotItem>
    decreases entries.len(),
{
    if entries.len() == 0 {
        Seq::empty()
    } else {
        let before = bundle_stacks(entries.drop_last());
        match bundle_stack(entries.last()) {
            Some(stack) => before.push(stack),
            None => before,
        }
    }
}

/// What a bundle holds.
pub open spec fn bundle_of(data: Option<NbtModel>) -> Seq<SlotItem> {
    match data {
        Some(data) => match nbt::nbt_get(data, "bundle_contents"@) {
            Some(NbtModel::List(entries)) => bundle_stacks(entries),
            _ => Seq::empty(),
        },
        None => Seq::empty(),
    }
}

fn read_bundle_stack(entry: &Nbt) -> (r: Option<SlotItem>)
    ensures
        r == bundle_stack(entry@),
{
    match entry.get("id") {
        Some(Nbt::Int(item_id)) => match entry.get("count") {
            Some(Nbt::Byte(count)) => Some(SlotItem { item_id: *item_id, count: *count }),
            _ => None,
        },
        _ => None,
    }
}

pub fn bundle_items(data: Option<&Nbt>) -> (r: Vec<SlotItem>)
    ensures
        r@ == bundle_of(
            match data {
                Some(data) => Some(data@),
                None => None,
            },
        ),
{
    let mut out: Vec<SlotItem> = Vec::new();
    let found = match data {
        Some(data) => data.get("bundle_contents"),
        None => None,
    };
    match found {
        Some(Nbt::List(entries)) => {
            let ghost models = nbt::nbt_models(entries@);
            let mut i: usize = 0;
            proof {
                nbt::lemma_nbt_models(entries@);
                assert(models.take(0) =~= Seq::empty());
            }
            while i < entries.len()
                invariant
                    i <= entries@.len(),
                    models.len() == entries@.len(),
                    forall|k: int| 0 <= k < entries@.len() ==> #[trigger] models[k] == entries@[k]@,
                    out@ == bundle_stacks(models.take(i as int)),
                decreases entries@.len() - i,
            {
                proof {
                    assert(models.take(i + 1).drop_last() =~= models.take(i as int));
                    assert(models.take(i + 1).last() == entries@[i as int]@);
                }
                match read_bundle_stack(&entries[i]) {
                    Some(stack) => out.push(stack),
                    None => {},
                }
                i = i + 1;
            }
            proof {
                assert(models.take(i as int) =~= models);
            }
        },
        _ => {},
    }
    out
}

/// The stack of a bundle that is chosen, given the slot under the cursor and
/// the last choice.
pub open spec fn chosen_index(slot: i32, len: int, choice: Option<(i32, i32)>) -> Option<int> {
    match choice {
        Some((chosen_slot, index)) => if chosen_slot == slot && 0 <= index < len {
            Some(index as int)
        } else {
            None
        },
        None => None,
    }
}

pub fn chosen_stack(slot: i32, len: usize, choice: Option<(i32, i32)>) -> (r: Option<usize>)
    ensures
        match chosen_index(slot, len as int, choice) {
            Some(i) => r == Some(i as usize) && i < len,
            None => r is None,
        },
{
    match choice {
        Some((chosen_slot, index)) => {
            if chosen_slot == slot && index >= 0 && (index as usize) < len {
                Some(index as usize)
            } else {
                None
            }
        },
        None => None,
    }
}

/// The name of an item for a reader; one that is unknown goes by its number.
pub open spec fn shown_name(registry: ItemRegistry, item_id: i32) -> Seq<char> {
    match registry.name_of(item_id) {
        Some(name) => pretty(name),
        None => "Item #"@ + text::decimal(item_id as int),
    }
}

fn find_shown_name(registry: &ItemRegistry, item_id: i32) -> (r: String)
    ensures
        r@ == shown_name(*registry, item_id),
{
    match registry.item_name(item_id) {
        Some(name) => pretty_item_name(name),
        None => {
            let mut r = "Item #".to_owned();
            r.append(decimal_text(item_id as i64).as_str());
            r
        },
    }
}

/// The lines that describe a bundle: the chosen stack, or how many there are.
pub open spec fn bundle_tip(
    registry: ItemRegistry,
    contents: Seq<SlotItem>,
    chosen: Option<int>,
) -> Seq<Seq<char>> {
    match chosen {
        Some(i) => seq![
            "Bundle"@,
            shown_name(registry, contents[i].item_id) + " x"@ + text::decimal(
                contents[i].count as int,
            ),
            "Scroll to select  "@ + text::decimal(i + 1) + " / "@ + text::decimal(
                contents.len() as int,
            ),
        ],
        None => seq![
            "Bundle"@,
            text::decimal(contents.len() as int) + (if contents.len() == 1 {
                " stack"@
            } else {
                " stacks"@
            }) + "  -  scroll to select"@,
        ],
    }
}

pub fn bundle_lines(registry: &ItemRegistry, contents: &Vec<SlotItem>, chosen: Option<usize>) -> (r:
    Vec<String>)
    requires
        chosen is Some ==> chosen->0 < contents@.len(),
    ensures
        recipe_book::texts(r@) == bundle_tip(
            *registry,
            contents@,
            match chosen {
                Some(i) => Some(i as int),
                None => None,
            },
        ),
{
    let len: usize = contents.len();
    let mut out: Vec<String> = Vec::new();
    out.push("Bundle".to_owned());
    match chosen {
        Some(i) => {
            let stack: SlotItem = contents[i];
            let mut name = find_shown_name(registry, stack.item_id);
            name.append(" x");
            name.append(decimal_text(stack.count as i64).as_str());
            let mut hint = "Scroll to select  ".to_owned();
            hint.append(natural_text((i + 1) as u64).as_str());
            hint.append(" / ");
            hint.append(natural_text(len as u64).as_str());
            out.push(name);
            out.push(hint);
        },
        None => {
            let mut hint = natural_text(len as u64);
            if len == 1 {
                hint.append(" stack");
            } else {
                hint.append(" stacks");
            }
            hint.append("  -  scroll to select");
            out.push(hint);
        },
    }
    proof {
        assert(recipe_book::texts(out@) =~= bundle_tip(
            *registry,
            contents@,
            match chosen {
                Some(i) => Some(i as int),
                None => None,
            },
        ));
    }
    out
}

/// The labels of the buttons that answer a request for a resource pack:
/// yes and no.
pub fn pack_buttons(forced: bool) -> (r: (&'static str, &'static str))
    ensures
        forced ==> r.0@ == "Proceed"@ && r.1@ == "Disconnect"@,
        !forced ==> r.0@ == "Accept"@ && r.1@ == "Decline"@,
{
    if forced {
        ("Proceed", "Disconnect")
    } else {
        ("Accept", "Decline")
    }
}

/// The question about a resource pack where the server has none of its own.
pub fn pack_question(forced: bool) -> (r: &'static str)
    ensures
        r@ == if forced {
            "This server requires its resource pack."@
        } else {
            "This server recommends its resource pack."@
        },
{
    if forced {
        "This server requires its resource pack."
    } else {
        "This server recommends its resource pack."
    }
}

/// How long an answer of a player takes; a negative number shows as none.
pub fn latency_label(latency: i32) -> (r: String)
    ensures
        r@ == text::decimal(
            if latency > 0 {
                latency as int
            } else {
                0
            },
        ) + "ms"@,
{
    let mut r = natural_text(
        if latency > 0 {
            latency as u64
        } else {
            0
        },
    );
    r.append("ms");
    r
}

/// The name of a player in the list: the one that the server gave it for that,
/// or else its own between what its team puts around it.
pub fn player_label(entry: &PlayerListEntry, board: &ScoreboardState) -> (r: String)
    ensures
        r@ == match entry.display_name {
            Some(name) => name@,
            None => board.decorated(entry.name@),
        },
{
    match &entry.display_name {
        Some(name) => name.clone(),
        None => board.decorated_name(entry.name.as_str()),
    }
}

/// A text, or nothing.
pub open spec fn shown_if(shown: bool, text: Seq<char>) -> Seq<char> {
    if shown {
        text
    } else {
        Seq::empty()
    }
}

/// The mode of the player and the ways in which it moves.
pub fn mode_label(player: &PlayerState) -> (r: String)
    ensures
        r@ == "Mode "@ + text::decimal(player.gamemode as int) + "  "@ + shown_if(
            player.flying,
            "Flying "@,
        ) + shown_if(player.swimming, "Swimming "@) + shown_if(player.gliding, "Gliding"@),
{
    let mut r = "Mode ".to_owned();
    r.append(natural_text(player.gamemode as u64).as_str());
    r.append("  ");
    if player.flying {
        r.append("Flying ");
    }
    if player.swimming {
        r.append("Swimming ");
    }
    if player.gliding {
        r.append("Gliding");
    }
    proof {
        assert(r@ =~= "Mode "@ + text::decimal(player.gamemode as int) + "  "@ + shown_if(
            player.flying,
            "Flying "@,
        ) + shown_if(player.swimming, "Swimming "@) + shown_if(player.gliding, "Gliding"@));
    }
    r
}

/// Which page of how many is open; pages count from 0.
pub fn pages_label(page: usize, last: usize) -> (r: String)
    requires
        page <= last < usize::MAX,
    ensures
        r@ == text::decimal(page + 1) + " / "@ + text::decimal(last + 1),
{
    let mut r = natural_text(page as u64 + 1);
    r.append(" / ");
    r.append(natural_text(last as u64 + 1).as_str());
    r
}

/// The number on a stack: none on one of a single item.
pub fn count_label(count: i8) -> (r: Option<String>)
    ensures
        match r {
            Some(label) => count > 1 && label@ == text::decimal(count as int),
            None => count <= 1,
        },
{
    if count > 1 {
        Some(decimal_text(count as i64))
    } else {
        None
    }
}

/// The number of newest lines of chat that are shown.
pub fn shown_chat_lines(len: usize, open: bool) -> (r: usize)
    ensures
        r == ({
            let most = if open {
                10int
            } else {
                7
            };
            if len < most {
                len as int
            } else {
                most
            }
        }),
{
    let most: usize = if open {
        10
    } else {
        7
    };
    if len < most {
        len
    } else {
        most
    }
}

/// Names are made readable word by word.
pub proof fn words_are_made_readable(first: Seq<char>, second: Seq<char>)
    ensures
        pretty(first.push('_') + second) == pretty(first).push(' ') + pretty(second),
        pretty(Seq::empty()) == Seq::<char>::empty(),
    decreases second.len(),
{
    let whole = first.push('_') + second;
    if second.len() == 0 {
        assert(whole =~= first.push('_'));
        assert(whole.drop_last() =~= first);
        assert(pretty(whole) =~= pretty(first).push(' ') + pretty(second));
    } else {
        let shorter = second.drop_last();
        words_are_made_readable(first, shorter);
        assert(whole.drop_last() =~= first.push('_') + shorter);
        if shorter.len() == 0 {
            assert(whole.drop_last() =~= first.push('_'));
        } else {
            assert(whole.drop_last().last() == shorter.last());
        }
        assert(pretty(whole) =~= pretty(first).push(' ') + pretty(second));
    }
}

/// A bundle holds the complete stacks of its list in order; an entry without an item or a
/// count is left out.
pub proof fn bundles_hold_their_stacks(
    entries: Seq<NbtModel>,
    tags: Seq<(Seq<char>, NbtModel)>,
    item_id: i32,
    count: i8,
    other: NbtModel,
)
    requires
        nbt::nbt_get(NbtModel::Compound(tags), "id"@) == Some(NbtModel::Int(item_id)),
        nbt::nbt_get(NbtModel::Compound(tags), "count"@) == Some(NbtModel::Byte(count)),
        other !is Compound,
    ensures
        bundle_stacks(entries.push(NbtModel::Compound(tags))) == bundle_stacks(entries).push(
            SlotItem { item_id, count },
        ),
        bundle_stacks(entries.push(other)) == bundle_stacks(entries),
        bundle_stacks(Seq::empty()) == Seq::<SlotItem>::empty(),
        bundle_of(None) == Seq::<SlotItem>::empty(),
{
    assert(entries.push(NbtModel::Compound(tags)).drop_last() =~= entries);
    assert(entries.push(other).drop_last() =~= entries);
}

/// The choice of a stack counts for the slot where it was made, and only while there is
/// such a stack.
pub proof fn choices_belong_to_their_slot(slot: i32, len: int, chosen_slot: i32, index: i32)
    ensures
        chosen_index(slot, len, None) is None,
        chosen_index(slot, len, Some((chosen_slot, index))) is Some <==> chosen_slot == slot && 0
            <= index < len,
        chosen_index(slot, len, Some((chosen_slot, index))) matches Some(i) ==> i == index,
{
}

/// An item is shown under its readable name, and an unknown one under its number.
pub proof fn items_are_shown_by_name(registry: ItemRegistry, item_id: i32)
    ensures
        0 <= item_id < registry.items@.len() ==> shown_name(registry, item_id) == pretty(
            registry.items@[item_id as int].name@,
        ),
        item_id < 0 || item_id >= registry.items@.len() ==> shown_name(registry, item_id)
            == "Item #"@ + text::decimal(item_id as int),
{
}

/// The tip of a bundle is headed as such, names the chosen stack with its count and its
/// place, counted from 1, or says how many stacks there are.
pub proof fn bundles_say_what_is_chosen(
    registry: ItemRegistry,
    contents: Seq<SlotItem>,
    i: int,
)
    requires
        0 <= i < contents.len(),
    ensures
        ({
            let chosen = bundle_tip(registry, contents, Some(i));
            let plain = bundle_tip(registry, contents, None);
            &&& chosen.len() == 3 && plain.len() == 2
            &&& chosen[0] == "Bundle"@ && plain[0] == "Bundle"@
            &&& chosen[1] == shown_name(registry, contents[i].item_id) + " x"@ + text::decimal(
                contents[i].count as int,
            )
            &&& chosen[2] == "Scroll to select  "@ + text::decimal(i + 1) + " / "@ + text::decimal(
                contents.len() as int,
            )
            &&& contents.len() == 1 ==> plain[1] == text::decimal(1) + " stack"@
                + "  -  scroll to select"@
            &&& contents.len() > 1 ==> plain[1] == text::decimal(contents.len() as int) + " stacks"@
                + "  -  scroll to select"@
        }),
{
}

/// The first letter of an ASCII word becomes its capital and the others stay.
pub proof fn words_begin_with_capitals(first: char, rest: Seq<char>, i: int)
    requires
        'a' <= first <= 'z',
        forall|k: int| 0 <= k < rest.len() ==> is_ascii(#[trigger] rest[k]) && rest[k] != '_',
        0 <= i < rest.len(),
    ensures
        ({
            let name = seq![first] + rest;
            &&& pretty(name).len() == name.len()
            &&& pretty(name)[0] as int == first as int - 'a' as int + 'A' as int
            &&& pretty(name)[i + 1] == rest[i]
        }),
{
    let name = seq![first] + rest;
    assert forall|k: int| 0 <= k < name.len() implies is_ascii(#[trigger] name[k]) by {
        if k > 0 {
            assert(name[k] == rest[k - 1]);
        }
    }
    ascii_names_go_letter_by_letter(name);
    assert(name[0] == first);
    assert(name[i + 1] == rest[i]);
    if i > 0 {
        assert(name[i] == rest[i - 1]);
    }
}

/// A required pack leaves to go on or to leave, a recommended one to accept or to decline.
pub proof fn packs_are_asked_for(
    forced: bool,
    buttons: (&'static str, &'static str),
    question: &'static str,
)
    requires
        call_ensures(pack_buttons, (forced,), buttons),
        call_ensures(pack_question, (forced,), question),
    ensures
        forced ==> buttons.0@ == "Proceed"@ && buttons.1@ == "Disconnect"@ && question@
            == "This server requires its resource pack."@,
        !forced ==> buttons.0@ == "Accept"@ && buttons.1@ == "Decline"@ && question@
            == "This server recommends its resource pack."@,
{
}

/// Latencies are in milliseconds and never negative.
pub proof fn latencies_are_milliseconds(latency: i32, label: String)
    requires
        call_ensures(latency_label, (latency,), label),
    ensures
        latency >= 0 ==> label@ == text::decimal(latency as int) + "ms"@,
        latency < 0 ==> label@ == text::decimal(0) + "ms"@,
{
}

/// The label of the mode names the ways to move that are in use, and no others.
pub proof fn modes_name_the_ways_to_move(player: &PlayerState, label: String)
    requires
        call_ensures(mode_label, (player,), label),
    ensures
        ({
            let mode = "Mode "@ + text::decimal(player.gamemode as int) + "  "@;
            &&& !player.flying && !player.swimming && !player.gliding ==> label@ == mode
            &&& player.flying && !player.swimming && !player.gliding ==> label@ == mode
                + "Flying "@
            &&& !player.flying && player.swimming && !player.gliding ==> label@ == mode
                + "Swimming "@
            &&& !player.flying && !player.swimming && player.gliding ==> label@ == mode
                + "Gliding"@
            &&& player.flying && player.swimming && player.gliding ==> label@ == mode + "Flying "@
                + "Swimming "@ + "Gliding"@
        }),
{
    let mode = "Mode "@ + text::decimal(player.gamemode as int) + "  "@;
    assert(mode + Seq::<char>::empty() =~= mode);
    let a = mode + shown_if(player.flying, "Flying "@);
    let b = a + shown_if(player.swimming, "Swimming "@);
    if !player.flying {
        assert(a =~= mode);
    }
    if !player.swimming {
        assert(b =~= a);
    }
    if !player.gliding {
        assert(b + shown_if(player.gliding, "Gliding"@) =~= b);
    }
}

/// Pages are counted from 1.
pub proof fn pages_count_from_one(page: usize, last: usize, label: String)
    requires
        page <= last < usize::MAX,
        call_ensures(pages_label, (page, last), label),
    ensures
        label@ == text::decimal(page + 1) + " / "@ + text::decimal(last + 1),
{
}

/// Only stacks of more than one item have a number.
pub proof fn single_items_have_no_number(count: i8, label: Option<String>)
    requires
        call_ensures(count_label, (count,), label),
    ensures
        label is Some <==> count >= 2,
        label matches Some(text) ==> text@ == text::decimal(count as int),
{
}

/// Ten lines of chat are shown while it is open and seven else, or all where there are
/// fewer.
pub proof fn chat_shows_its_newest_lines(len: usize, open: bool, shown: usize)
    requires
        call_ensures(shown_chat_lines, (len, open), shown),
    ensures
        shown <= len,
        open ==> shown == (if len <= 10 {
            len
        } else {
            10
        }),
        !open ==> shown == (if len <= 7 {
            len
        } else {
            7
        }),
{
}

/// A player goes by the name that the server gave it, and else by its decorated own.
pub proof fn given_names_count_first(
    entry: &PlayerListEntry,
    board: &ScoreboardState,
    label: String,
)
    requires
        call_ensures(player_label, (entry, board), label),
    ensures
        entry.display_name matches Some(name) ==> label@ == name@,
        entry.display_name is None ==> label@ == board.decorated(entry.name@),
{
}

} // verus!
