//! Text components flattened to plain text, from JSON and from NBT.

use vstd::prelude::*;
use vstd::string::*;

use crate::json::{self, parse_json, Json, JsonModel};
use crate::named;
use crate::nbt::{self, read_anonymous_nbt, Nbt, NbtModel};
use crate::protocol::ProtocolVersion;
use crate::text::{self, last_segment_text, str_eq};
use crate::wire::{self, Reader, Taken};

verus! {

/// The text shown for a translation key: the container titles by name, any
/// other key by its last segment.
pub open spec fn translation(key: Seq<char>) -> Seq<char> {
    if key == "container.chest"@ {
        "Chest"@
    } else if key == "container.chestDouble"@ {
        "Large Chest"@
    } else if key == "container.enderchest"@ {
        "Ender Chest"@
    } else if key == "container.barrel"@ {
        "Barrel"@
    } else if key == "container.shulkerBox"@ {
        "Shulker Box"@
    } else if key == "container.furnace"@ {
        "Furnace"@
    } else if key == "container.blast_furnace"@ {
        "Blast Furnace"@
    } else if key == "container.smoker"@ {
        "Smoker"@
    } else {
        text::last_segment(key)
    }
}

fn translated(key: &str) -> (r: String)
    ensures
        r@ == translation(key@),
{
    if str_eq(key, "container.chest") {
        "Chest".to_owned()
    } else if str_eq(key, "container.chestDouble") {
        "Large Chest".to_owned()
    } else if str_eq(key, "container.enderchest") {
        "Ender Chest".to_owned()
    } else if str_eq(key, "container.barrel") {
        "Barrel".to_owned()
    } else if str_eq(key, "container.shulkerBox") {
        "Shulker Box".to_owned()
    } else if str_eq(key, "container.furnace") {
        "Furnace".to_owned()
    } else if str_eq(key, "container.blast_furnace") {
        "Blast Furnace".to_owned()
    } else if str_eq(key, "container.smoker") {
        "Smoker".to_owned()
    } else {
        last_segment_text(key)
    }
}

/// A string member of an object, or the empty text.
pub open spec fn json_text_member(value: JsonModel, name: Seq<char>) -> Option<Seq<char>> {
    match json::json_get(value, name) {
        Some(JsonModel::String(s)) => Some(s),
        _ => None,
    }
}

/// The plain text of a JSON component: a string is itself, an array the text of
/// its parts in order, an object its text, its translation and its extra parts.
pub open spec fn json_component(value: JsonModel) -> Seq<char>
    decreases value,
{
    match value {
        JsonModel::String(s) => s,
        JsonModel::Array(parts) => json_components(parts),
        JsonModel::Object(members) => {
            let own = match json_text_member(value, "text"@) {
                Some(s) => s,
                None => Seq::empty(),
            };
            let translated = match json_text_member(value, "translate"@) {
                Some(key) => translation(key),
                None => Seq::empty(),
            };
            let i = named::find_last(members, "extra"@);
            let extra = if 0 <= i < members.len() {
                json_component(members[i].1)
            } else {
                Seq::empty()
            };
            own + translated + extra
        },
        _ => Seq::empty(),
    }
}

pub open spec fn json_components(parts: Seq<JsonModel>) -> Seq<char>
    decreases parts,
{
    if parts.len() == 0 {
        Seq::empty()
    } else {
        json_components(parts.drop_last()) + json_component(parts.last())
    }
}

/// Flattens a JSON component.
pub fn component_text(value: &Json) -> (r: String)
    ensures
        r@ == json_component(value@),
    decreases *value,
{
    match value {
        Json::String(s) => s.clone(),
        Json::Array(parts) => {
            let mut out = String::new();
            let mut i: usize = 0;
            let ghost models = json::json_models(parts@);
            proof {
                json::lemma_json_models(parts@);
                assert(models.subrange(0, 0) =~= Seq::<JsonModel>::empty());
            }
            while i < parts.len()
                invariant
                    i <= parts@.len(),
                    models == json::json_models(parts@),
                    models.len() == parts@.len(),
                    forall|j: int| 0 <= j < parts@.len() ==> #[trigger] models[j] == parts@[j]@,
                    *value == Json::Array(*parts),
                    out@ == json_components(models.subrange(0, i as int)),
                decreases parts@.len() - i,
            {
                proof {
                    assert(decreases_to!(*value => (*value)->Array_0));
                    assert(decreases_to!((*value)->Array_0 => parts@));
                    assert(decreases_to!(parts@ => parts@[i as int]));
                }
                let part = component_text(&parts[i]);
                out.append(part.as_str());
                proof {
                    assert(models.subrange(0, i + 1).drop_last() =~= models.subrange(0, i as int));
                    assert(models.subrange(0, i + 1).last() == parts@[i as int]@);
                }
                i = i + 1;
            }
            proof {
                assert(models.subrange(0, i as int) =~= models);
            }
            out
        },
        Json::Object(_) => {
            let mut out = match value.get("text") {
                Some(Json::String(s)) => s.clone(),
                _ => String::new(),
            };
            match value.get("translate") {
                Some(Json::String(key)) => {
                    let t = translated(key.as_str());
                    out.append(t.as_str());
                },
                _ => {
                    proof {
                        assert(out@ + Seq::<char>::empty() =~= out@);
                    }
                },
            }
            match value.get("extra") {
                Some(extra) => {
                    let t = component_text(extra);
                    out.append(t.as_str());
                },
                None => {
                    proof {
                        assert(out@ + Seq::<char>::empty() =~= out@);
                    }
                },
            }
            out
        },
        _ => String::new(),
    }
}

/// The plain text of a JSON component given as text: the flattened component,
/// or the text itself where it is no JSON or flattens to nothing.
pub open spec fn plain(json: Seq<char>, document: Option<JsonModel>) -> Seq<char> {
    match document {
        Some(value) => if json_component(value).len() > 0 {
            json_component(value)
        } else {
            json
        },
        None => json,
    }
}

/// Flattens a JSON component whose document is already read.
pub fn plain_text_of(json: &str, document: &Option<Json>) -> (r: String)
    ensures
        r@ == plain(
            json@,
            match *document {
                Some(value) => Some(value@),
                None => None,
            },
        ),
{
    match document {
        Some(value) => {
            let flat = component_text(value);
            if flat.as_str().is_empty() {
                json.to_owned()
            } else {
                flat
            }
        },
        None => json.to_owned(),
    }
}

/// The plain text of a JSON component given as text.
pub open spec fn plain_json(json: Seq<char>) -> Seq<char> {
    plain(json, json::json_of(json))
}

/// Flattens a JSON component.
pub fn plain_text(json: &str) -> (r: String)
    ensures
        r@ == plain_json(json@),
{
    let document = parse_json(json);
    plain_text_of(json, &document)
}

/// The plain text of an NBT component, built as that of a JSON one; a
/// translation key is always shown by its last segment.
pub open spec fn nbt_component(value: NbtModel) -> Seq<char>
    decreases value,
{
    match value {
        NbtModel::String(s) => s,
        NbtModel::List(parts) => nbt_components(parts),
        NbtModel::Compound(tags) => {
            let own = match nbt::nbt_get(value, "text"@) {
                Some(NbtModel::String(s)) => s,
                _ => Seq::empty(),
            };
            let translated = match nbt::nbt_get(value, "translate"@) {
                Some(NbtModel::String(key)) => text::last_segment(key),
                _ => Seq::empty(),
            };
            let i = named::find_last(tags, "extra"@);
            let extra = if 0 <= i < tags.len() {
                nbt_component(tags[i].1)
            } else {
                Seq::empty()
            };
            own + translated + extra
        },
        _ => Seq::empty(),
    }
}

pub open spec fn nbt_components(parts: Seq<NbtModel>) -> Seq<char>
    decreases parts,
{
    if parts.len() == 0 {
        Seq::empty()
    } else {
        nbt_components(parts.drop_last()) + nbt_component(parts.last())
    }
}

/// Flattens an NBT component.
pub fn nbt_plain_text(value: &Nbt) -> (r: String)
    ensures
        r@ == nbt_component(value@),
    decreases *value,
{
    match value {
        Nbt::String(s) => s.clone(),
        Nbt::List(parts) => {
            let mut out = String::new();
            let mut i: usize = 0;
            let ghost models = nbt::nbt_models(parts@);
            proof {
                nbt::lemma_nbt_models(parts@);
                assert(models.subrange(0, 0) =~= Seq::<NbtModel>::empty());
            }
            while i < parts.len()
                invariant
                    i <= parts@.len(),
                    models == nbt::nbt_models(parts@),
                    models.len() == parts@.len(),
                    forall|j: int| 0 <= j < parts@.len() ==> #[trigger] models[j] == parts@[j]@,
                    *value == Nbt::List(*parts),
                    out@ == nbt_components(models.subrange(0, i as int)),
                decreases parts@.len() - i,
            {
                proof {
                    assert(decreases_to!(*value => (*value)->List_0));
                    assert(decreases_to!((*value)->List_0 => parts@));
                    assert(decreases_to!(parts@ => parts@[i as int]));
                }
                let part = nbt_plain_text(&parts[i]);
                out.append(part.as_str());
                proof {
                    assert(models.subrange(0, i + 1).drop_last() =~= models.subrange(0, i as int));
                    assert(models.subrange(0, i + 1).last() == parts@[i as int]@);
                }
                i = i + 1;
            }
            proof {
                assert(models.subrange(0, i as int) =~= models);
            }
            out
        },
        Nbt::Compound(_) => {
            let mut out = match value.get("text") {
                Some(Nbt::String(s)) => s.clone(),
                _ => String::new(),
            };
            match value.get("translate") {
                Some(Nbt::String(key)) => {
                    let t = last_segment_text(key.as_str());
                    out.append(t.as_str());
                },
                _ => {
                    proof {
                        assert(out@ + Seq::<char>::empty() =~= out@);
                    }
                },
            }
            match value.get("extra") {
                Some(extra) => {
                    let t = nbt_plain_text(extra);
                    out.append(t.as_str());
                },
                None => {
                    proof {
                        assert(out@ + Seq::<char>::empty() =~= out@);
                    }
                },
            }
            out
        },
        _ => String::new(),
    }
}

/// The longest JSON component, in characters.
pub const MAX_COMPONENT: u32 = 262144;

/// A text component in the form that a version sends, flattened.
pub open spec fn take_component(s: Seq<u8>, protocol: ProtocolVersion) -> Taken<Seq<char>> {
    if protocol.nbt_components() {
        match nbt::take_anonymous_nbt(s) {
            (Some(value), rest) => (Some(nbt_component(value)), rest),
            (None, rest) => (None, rest),
        }
    } else {
        match wire::take_string(s, MAX_COMPONENT as nat) {
            (Some(json), rest) => (Some(plain_json(json)), rest),
            (None, rest) => (None, rest),
        }
    }
}

/// A read text agrees with what was to be read.
pub open spec fn text_read_as(want: Taken<Seq<char>>, got: Option<String>, rest: Seq<u8>) -> bool {
    rest == want.1 && match want.0 {
        Some(chars) => got matches Some(value) && value@ == chars,
        None => got is None,
    }
}

/// Reads and flattens a text component.
pub fn read_text_component(r: &mut Reader, protocol: ProtocolVersion) -> (v: Option<String>)
    ensures
        text_read_as(take_component(old(r)@, protocol), v, final(r)@),
{
    if protocol.uses_nbt_components() {
        match read_anonymous_nbt(r) {
            Some(value) => Some(nbt_plain_text(&value)),
            None => None,
        }
    } else {
        match r.string(MAX_COMPONENT) {
            Some(json) => Some(plain_text(json.as_str())),
            None => None,
        }
    }
}

/// The optional number format behind a score: kinds 1 and 2 carry a component.
pub open spec fn take_number_format(s: Seq<u8>) -> Taken<()> {
    match wire::take_bool(s) {
        (Some(present), rest) => if !present {
            (Some(()), rest)
        } else {
            match wire::take_varint(rest) {
                (Some(format), rest) => if format == 1 || format == 2 {
                    match nbt::take_anonymous_nbt(rest) {
                        (Some(_), rest) => (Some(()), rest),
                        (None, rest) => (None, rest),
                    }
                } else {
                    (Some(()), rest)
                },
                (None, rest) => (None, rest),
            }
        },
        (None, rest) => (None, rest),
    }
}

pub fn skip_optional_number_format(r: &mut Reader) -> (v: Option<()>)
    ensures
        (v, final(r)@) == take_number_format(old(r)@),
{
    match r.bool() {
        Some(present) => {
            if !present {
                return Some(());
            }
            match r.varint() {
                Some(format) => {
                    if format == 1 || format == 2 {
                        match read_anonymous_nbt(r) {
                            Some(_) => Some(()),
                            None => None,
                        }
                    } else {
                        Some(())
                    }
                },
                None => None,
            }
        },
        None => None,
    }
}

/// A component that is only a string flattens to that string, in both forms.
pub proof fn string_components_are_themselves(s: Seq<char>)
    ensures
        json_component(JsonModel::String(s)) == s,
        nbt_component(NbtModel::String(s)) == s,
{
}

/// The text of a list of parts is the text of the parts one after another.
pub proof fn parts_concatenate(a: Seq<NbtModel>, b: Seq<NbtModel>)
    ensures
        nbt_components(a + b) == nbt_components(a) + nbt_components(b),
    decreases b.len(),
{
    if b.len() == 0 {
        assert(a + b =~= a);
        assert(nbt_components(a) + nbt_components(b) =~= nbt_components(a));
    } else {
        parts_concatenate(a, b.drop_last());
        assert((a + b).drop_last() =~= a + b.drop_last());
        assert(nbt_components(a + b) =~= nbt_components(a) + nbt_components(b));
    }
}

proof fn lemma_member_names()
    ensures
        "text"@ != "translate"@,
        "text"@ != "extra"@,
        "translate"@ != "extra"@,
{
    reveal_strlit("text");
    reveal_strlit("translate");
    reveal_strlit("extra");
    assert("text"@.len() == 4);
    assert("translate"@.len() == 9);
    assert("extra"@.len() == 5);
}

/// The extra parts of an NBT component come behind the rest of it: a compound with
/// such parts flattens to what it is without them, followed by the flattened parts.
pub proof fn nbt_extra_parts_follow(tags: Seq<(Seq<char>, NbtModel)>, extra: NbtModel)
    requires
        nbt::nbt_get(NbtModel::Compound(tags), "extra"@) is None,
    ensures
        nbt_component(NbtModel::Compound(tags.push(("extra"@, extra)))) == nbt_component(
            NbtModel::Compound(tags),
        ) + nbt_component(extra),
{
    lemma_member_names();
    let name = "extra"@;
    let longer = tags.push((name, extra));
    named::later_names_win(tags, name, extra, "text"@);
    named::later_names_win(tags, name, extra, "translate"@);
    named::later_names_win(tags, name, extra, name);
    named::lemma_find_last(tags, name);
    assert(longer.drop_last() =~= tags);
    let bare = nbt_component(NbtModel::Compound(tags));
    assert(bare + Seq::<char>::empty() =~= bare);
    assert(nbt_component(NbtModel::Compound(longer)) =~= bare + nbt_component(extra));
}

/// The own text of an NBT component comes before the rest of it.
pub proof fn nbt_own_text_leads(tags: Seq<(Seq<char>, NbtModel)>, own: Seq<char>)
    requires
        nbt::nbt_get(NbtModel::Compound(tags), "text"@) is None,
    ensures
        nbt_component(NbtModel::Compound(tags.push(("text"@, NbtModel::String(own))))) == own
            + nbt_component(NbtModel::Compound(tags)),
        nbt_component(NbtModel::Compound(Seq::empty())) == Seq::<char>::empty(),
{
    lemma_member_names();
    let name = "text"@;
    let value = NbtModel::String(own);
    let longer = tags.push((name, value));
    named::later_names_win(tags, name, value, "text"@);
    named::later_names_win(tags, name, value, "translate"@);
    named::later_names_win(tags, name, value, "extra"@);
    named::lemma_find_last(tags, "extra"@);
    assert(longer.drop_last() =~= tags);
    assert(nbt_component(NbtModel::Compound(longer)) =~= own + nbt_component(
        NbtModel::Compound(tags),
    ));
    assert(nbt_component(NbtModel::Compound(Seq::empty())) =~= Seq::<char>::empty());
}

/// A translation key of an NBT component is shown by its last segment, behind the own
/// text.
pub proof fn nbt_translations_follow(tags: Seq<(Seq<char>, NbtModel)>, key: Seq<char>)
    requires
        nbt::nbt_get(NbtModel::Compound(tags), "translate"@) is None,
        nbt::nbt_get(NbtModel::Compound(tags), "extra"@) is None,
    ensures
        nbt_component(NbtModel::Compound(tags.push(("translate"@, NbtModel::String(key)))))
            == nbt_component(NbtModel::Compound(tags)) + text::last_segment(key),
{
    lemma_member_names();
    let name = "translate"@;
    let value = NbtModel::String(key);
    let longer = tags.push((name, value));
    named::later_names_win(tags, name, value, "text"@);
    named::later_names_win(tags, name, value, "translate"@);
    named::later_names_win(tags, name, value, "extra"@);
    named::lemma_find_last(tags, "extra"@);
    assert(longer.drop_last() =~= tags);
    assert(nbt_component(NbtModel::Compound(longer)) =~= nbt_component(NbtModel::Compound(tags))
        + text::last_segment(key));
}

/// Tags of other names, colours and styles among them, make no difference to the text
/// of an NBT component.
pub proof fn nbt_styles_do_not_matter(
    tags: Seq<(Seq<char>, NbtModel)>,
    name: Seq<char>,
    value: NbtModel,
)
    requires
        name != "text"@,
        name != "translate"@,
        name != "extra"@,
    ensures
        nbt_component(NbtModel::Compound(tags.push((name, value)))) == nbt_component(
            NbtModel::Compound(tags),
        ),
{
    let longer = tags.push((name, value));
    named::later_names_win(tags, name, value, "text"@);
    named::later_names_win(tags, name, value, "translate"@);
    named::later_names_win(tags, name, value, "extra"@);
    named::lemma_find_last(tags, "extra"@);
    assert(longer.drop_last() =~= tags);
}

/// The extra parts of a JSON component come behind the rest of it.
pub proof fn json_extra_parts_follow(members: Seq<(Seq<char>, JsonModel)>, extra: JsonModel)
    requires
        json::json_get(JsonModel::Object(members), "extra"@) is None,
    ensures
        json_component(JsonModel::Object(members.push(("extra"@, extra)))) == json_component(
            JsonModel::Object(members),
        ) + json_component(extra),
{
    lemma_member_names();
    let name = "extra"@;
    let longer = members.push((name, extra));
    named::later_names_win(members, name, extra, "text"@);
    named::later_names_win(members, name, extra, "translate"@);
    named::later_names_win(members, name, extra, name);
    named::lemma_find_last(members, name);
    assert(longer.drop_last() =~= members);
    let bare = json_component(JsonModel::Object(members));
    assert(bare + Seq::<char>::empty() =~= bare);
    assert(json_component(JsonModel::Object(longer)) =~= bare + json_component(extra));
}

/// The own text of a JSON component comes before the rest of it.
pub proof fn json_own_text_leads(members: Seq<(Seq<char>, JsonModel)>, own: Seq<char>)
    requires
        json::json_get(JsonModel::Object(members), "text"@) is None,
    ensures
        json_component(JsonModel::Object(members.push(("text"@, JsonModel::String(own))))) == own
            + json_component(JsonModel::Object(members)),
        json_component(JsonModel::Object(Seq::empty())) == Seq::<char>::empty(),
{
    lemma_member_names();
    let name = "text"@;
    let value = JsonModel::String(own);
    let longer = members.push((name, value));
    named::later_names_win(members, name, value, "text"@);
    named::later_names_win(members, name, value, "translate"@);
    named::later_names_win(members, name, value, "extra"@);
    named::lemma_find_last(members, "extra"@);
    assert(longer.drop_last() =~= members);
    assert(json_component(JsonModel::Object(longer)) =~= own + json_component(
        JsonModel::Object(members),
    ));
    assert(json_component(JsonModel::Object(Seq::empty())) =~= Seq::<char>::empty());
}

/// The translation of a JSON component comes behind its own text: a key outside the
/// titles of containers is shown by its last segment.
pub proof fn json_translations_follow(members: Seq<(Seq<char>, JsonModel)>, key: Seq<char>)
    requires
        json::json_get(JsonModel::Object(members), "translate"@) is None,
        json::json_get(JsonModel::Object(members), "extra"@) is None,
    ensures
        ({
            let before = json_component(JsonModel::Object(members));
            let after = json_component(
                JsonModel::Object(members.push(("translate"@, JsonModel::String(key)))),
            );
            &&& text::starts_with(after, before)
            &&& !text::starts_with(key, "container."@) ==> after == before + text::last_segment(key)
        }),
{
    lemma_member_names();
    let name = "translate"@;
    let value = JsonModel::String(key);
    let longer = members.push((name, value));
    named::later_names_win(members, name, value, "text"@);
    named::later_names_win(members, name, value, "translate"@);
    named::later_names_win(members, name, value, "extra"@);
    named::lemma_find_last(members, "extra"@);
    assert(longer.drop_last() =~= members);
    let before = json_component(JsonModel::Object(members));
    let after = json_component(JsonModel::Object(longer));
    assert(after =~= before + translation(key));
    assert(after.subrange(0, before.len() as int) =~= before);
    if !text::starts_with(key, "container."@) {
        lemma_container_keys();
    }
}

/// The keys with a title of their own all begin alike.
proof fn lemma_container_keys()
    ensures
        text::starts_with("container.chest"@, "container."@),
        text::starts_with("container.chestDouble"@, "container."@),
        text::starts_with("container.enderchest"@, "container."@),
        text::starts_with("container.barrel"@, "container."@),
        text::starts_with("container.shulkerBox"@, "container."@),
        text::starts_with("container.furnace"@, "container."@),
        text::starts_with("container.blast_furnace"@, "container."@),
        text::starts_with("container.smoker"@, "container."@),
{
    reveal_strlit("container.");
    reveal_strlit("container.chest");
    reveal_strlit("container.chestDouble");
    reveal_strlit("container.enderchest");
    reveal_strlit("container.barrel");
    reveal_strlit("container.shulkerBox");
    reveal_strlit("container.furnace");
    reveal_strlit("container.blast_furnace");
    reveal_strlit("container.smoker");
    assert("container.chest"@.subrange(0, 10) =~= "container."@);
    assert("container.chestDouble"@.subrange(0, 10) =~= "container."@);
    assert("container.enderchest"@.subrange(0, 10) =~= "container."@);
    assert("container.barrel"@.subrange(0, 10) =~= "container."@);
    assert("container.shulkerBox"@.subrange(0, 10) =~= "container."@);
    assert("container.furnace"@.subrange(0, 10) =~= "container."@);
    assert("container.blast_furnace"@.subrange(0, 10) =~= "container."@);
    assert("container.smoker"@.subrange(0, 10) =~= "container."@);
}

/// Each kind of container has its own title.
pub proof fn containers_have_titles()
    ensures
        translation("container.chest"@) == "Chest"@,
        translation("container.chestDouble"@) == "Large Chest"@,
        translation("container.enderchest"@) == "Ender Chest"@,
        translation("container.barrel"@) == "Barrel"@,
        translation("container.shulkerBox"@) == "Shulker Box"@,
        translation("container.furnace"@) == "Furnace"@,
        translation("container.blast_furnace"@) == "Blast Furnace"@,
        translation("container.smoker"@) == "Smoker"@,
{
    reveal_strlit("container.chest");
    reveal_strlit("container.chestDouble");
    reveal_strlit("container.enderchest");
    reveal_strlit("container.barrel");
    reveal_strlit("container.shulkerBox");
    reveal_strlit("container.furnace");
    reveal_strlit("container.blast_furnace");
    reveal_strlit("container.smoker");
    assert("container.chest"@.len() == 15);
    assert("container.chestDouble"@.len() == 21);
    assert("container.enderchest"@.len() == 20);
    assert("container.barrel"@.len() == 16);
    assert("container.shulkerBox"@.len() == 20);
    assert("container.furnace"@.len() == 17);
    assert("container.blast_furnace"@.len() == 23);
    assert("container.smoker"@.len() == 16);
    assert("container.enderchest"@[10] != "container.shulkerBox"@[10]);
    assert("container.barrel"@[10] != "container.smoker"@[10]);
}

/// Members of other names make no difference to the text of a JSON component, and
/// what is neither text, list nor object has none.
pub proof fn json_styles_do_not_matter(
    members: Seq<(Seq<char>, JsonModel)>,
    name: Seq<char>,
    value: JsonModel,
)
    requires
        name != "text"@,
        name != "translate"@,
        name != "extra"@,
    ensures
        json_component(JsonModel::Object(members.push((name, value)))) == json_component(
            JsonModel::Object(members),
        ),
        value !is String && value !is Array && value !is Object ==> json_component(value)
            == Seq::<char>::empty(),
{
    let longer = members.push((name, value));
    named::later_names_win(members, name, value, "text"@);
    named::later_names_win(members, name, value, "translate"@);
    named::later_names_win(members, name, value, "extra"@);
    named::lemma_find_last(members, "extra"@);
    assert(longer.drop_last() =~= members);
}

/// A list flattens to the texts of its parts one after another, in both forms.
pub proof fn lists_flatten_in_order(
    json_parts: Seq<JsonModel>,
    json_part: JsonModel,
    nbt_parts: Seq<NbtModel>,
    nbt_part: NbtModel,
)
    ensures
        json_component(JsonModel::Array(Seq::empty())) == Seq::<char>::empty(),
        json_component(JsonModel::Array(json_parts.push(json_part))) == json_component(
            JsonModel::Array(json_parts),
        ) + json_component(json_part),
        nbt_component(NbtModel::List(Seq::empty())) == Seq::<char>::empty(),
        nbt_component(NbtModel::List(nbt_parts.push(nbt_part))) == nbt_component(
            NbtModel::List(nbt_parts),
        ) + nbt_component(nbt_part),
{
    reveal_with_fuel(json_component, 2);
    reveal_with_fuel(json_components, 2);
    reveal_with_fuel(nbt_component, 2);
    reveal_with_fuel(nbt_components, 2);
    assert(json_parts.push(json_part).drop_last() =~= json_parts);
    assert(nbt_parts.push(nbt_part).drop_last() =~= nbt_parts);
}

/// Text that is no JSON, or that flattens to nothing, is shown as it came; any other
/// is shown flattened. So a message that is not empty shows something.
pub proof fn plain_text_shows_something(json: Seq<char>, value: JsonModel)
    ensures
        plain(json, None) == json,
        json_component(value) == Seq::<char>::empty() ==> plain(json, Some(value)) == json,
        json_component(value) != Seq::<char>::empty() ==> plain(json, Some(value))
            == json_component(value),
        json.len() > 0 ==> plain(json, Some(value)).len() > 0,
{
    if json_component(value).len() == 0 {
        assert(json_component(value) =~= Seq::<char>::empty());
    }
}

/// The two oldest versions send text components as JSON text, all later ones as NBT.
pub proof fn components_come_in_the_form_of_the_version(s: Seq<u8>, protocol: ProtocolVersion)
    ensures
        protocol is V1_20_1 || protocol is V1_20_2 ==> match wire::take_string(s, 262144) {
            (Some(json), rest) => take_component(s, protocol) == (
                Some(plain(json, json::json_of(json))),
                rest,
            ),
            (None, rest) => take_component(s, protocol) == (None::<Seq<char>>, rest),
        },
        protocol !is V1_20_1 && protocol !is V1_20_2 ==> match nbt::take_anonymous_nbt(s) {
            (Some(value), rest) => take_component(s, protocol) == (
                Some(nbt_component(value)),
                rest,
            ),
            (None, rest) => take_component(s, protocol) == (None::<Seq<char>>, rest),
        },
{
}

/// A number format takes one byte where there is none, and behind its kind a component
/// only for the kinds 1 and 2.
pub proof fn number_formats_are_skipped(s: Seq<u8>, kind: i32, rest: Seq<u8>)
    requires
        s.len() > 0,
    ensures
        s[0] == 0 ==> take_number_format(s) == (Some(()), s.subrange(1, s.len() as int)),
        s[0] != 0 && wire::take_varint(s.subrange(1, s.len() as int)) == (Some(kind), rest) ==> {
            &&& kind != 1 && kind != 2 ==> take_number_format(s) == (Some(()), rest)
            &&& kind == 1 || kind == 2 ==> take_number_format(s).1 == nbt::take_anonymous_nbt(
                rest,
            ).1 && (take_number_format(s).0 is Some <==> nbt::take_anonymous_nbt(rest).0 is Some)
        },
{
}

/// A reader hands out the text that is there, and stands behind it.
pub proof fn readers_hand_out_texts(r: &mut Reader, protocol: ProtocolVersion, v: Option<String>)
    requires
        call_ensures(read_text_component, (r, protocol), v),
    ensures
        ({
            let (found, rest) = take_component(old(r)@, protocol);
            &&& final(r)@ == rest
            &&& found matches Some(text) ==> v is Some && v->0@ == text
            &&& found is None ==> v is None
        }),
{
}

} // verus!
