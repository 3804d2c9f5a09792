//! The registries that the server sends while a session is configured.

use vstd::prelude::*;
use vstd::string::*;

use crate::named;
use crate::nbt::{self, NamedTag, Nbt, NbtModel};
use crate::text::str_eq;

verus! {

/// A registry: its name, and its entries in the order of their numbers.
#[derive(Debug)]
pub struct RegistryData {
    pub id: String,
    pub entries: Vec<RegistryEntry>,
}

#[derive(Debug)]
pub struct RegistryEntry {
    pub name: String,
    pub element: Option<Nbt>,
}

pub open spec fn element_of(entry: RegistryEntry) -> NbtModel {
    match entry.element {
        Some(element) => element@,
        None => NbtModel::End,
    }
}

/// An entry as a tag: its name, its number and what it describes.
pub open spec fn entry_model(name: Seq<char>, id: i32, element: NbtModel) -> NbtModel {
    NbtModel::Compound(
        seq![
            ("name"@, NbtModel::String(name)),
            ("id"@, NbtModel::Int(id)),
            ("element"@, element),
        ],
    )
}

/// The entries of a registry as tags; only so many as there are numbers.
pub open spec fn entry_models(entries: Seq<RegistryEntry>) -> Seq<NbtModel> {
    Seq::new(
        if entries.len() <= 0x8000_0000 {
            entries.len()
        } else {
            0x8000_0000
        },
        |i: int| entry_model(entries[i].name@, i as i32, element_of(entries[i])),
    )
}

/// A registry as a tag.
pub open spec fn registry_model(data: RegistryData) -> NbtModel {
    NbtModel::Compound(
        seq![
            ("type"@, NbtModel::String(data.id@)),
            ("value"@, NbtModel::List(entry_models(data.entries@))),
        ],
    )
}

/// The tags of other names.
pub open spec fn without(tags: Seq<(Seq<char>, NbtModel)>, name: Seq<char>) -> Seq<
    (Seq<char>, NbtModel),
>
    decreases tags.len(),
{
    if tags.len() == 0 {
        tags
    } else if tags.last().0 == name {
        without(tags.drop_last(), name)
    } else {
        without(tags.drop_last(), name).push(tags.last())
    }
}

/// The registries known so far with one more, in place of an earlier one of
/// its name.
pub open spec fn merged(codec: Option<NbtModel>, data: RegistryData) -> NbtModel {
    let known = match codec {
        Some(NbtModel::Compound(tags)) => tags,
        _ => Seq::empty(),
    };
    NbtModel::Compound(without(known, data.id@).push((data.id@, registry_model(data))))
}

pub open spec fn codec_view(codec: Option<Nbt>) -> Option<NbtModel> {
    match codec {
        Some(codec) => Some(codec@),
        None => None,
    }
}

fn entry_tag(entry: RegistryEntry, id: i32) -> (r: Nbt)
    ensures
        r@ == entry_model(entry.name@, id, element_of(entry)),
{
    let ghost want = entry_model(entry.name@, id, element_of(entry));
    let element = match entry.element {
        Some(element) => element,
        None => Nbt::End,
    };
    let mut tags: Vec<NamedTag> = Vec::new();
    tags.push(NamedTag { name: "name".to_owned(), value: Nbt::String(entry.name) });
    tags.push(NamedTag { name: "id".to_owned(), value: Nbt::Int(id) });
    tags.push(NamedTag { name: "element".to_owned(), value: element });
    proof {
        nbt::lemma_tag_models(tags@);
        assert(nbt::tag_models(tags@) =~= want->Compound_0);
    }
    Nbt::Compound(tags)
}

fn entry_tags(entries: Vec<RegistryEntry>) -> (r: Vec<Nbt>)
    ensures
        nbt::nbt_models(r@) == entry_models(entries@),
{
    let ghost all = entries@;
    let ghost want = entry_models(entries@);
    let mut rest = entries;
    let mut turned: Vec<RegistryEntry> = Vec::new();
    while rest.len() > 0
        invariant
            rest@.len() + turned@.len() == all.len(),
            rest@ == all.take(rest@.len() as int),
            forall|i: int|
                0 <= i < turned@.len() ==> #[trigger] turned@[i] == all[all.len() - 1 - i],
        decreases rest@.len(),
    {
        match rest.pop() {
            Some(entry) => turned.push(entry),
            None => {},
        }
    }
    let mut out: Vec<Nbt> = Vec::new();
    let mut id: i32 = 0;
    let mut full: bool = false;
    proof {
        assert(nbt::nbt_models(out@) =~= want.take(0));
    }
    while turned.len() > 0 && !full
        invariant
            want == entry_models(all),
            0 <= id,
            !full ==> id == all.len() - turned@.len(),
            !full ==> out@.len() == id,
            full ==> out@.len() == 0x8000_0000 && all.len() >= 0x8000_0000,
            turned@.len() <= all.len(),
            forall|i: int|
                0 <= i < turned@.len() ==> #[trigger] turned@[i] == all[all.len() - 1 - i],
            nbt::nbt_models(out@) == want.take(out@.len() as int),
            out@.len() <= want.len(),
        decreases turned@.len() + if full { 0int } else { 1int },
    {
        match turned.pop() {
            Some(entry) => {
                proof {
                    assert(entry == all[id as int]);
                    assert(want[id as int] == entry_model(entry.name@, id, element_of(entry)));
                }
                let tag = entry_tag(entry, id);
                proof {
                    nbt::lemma_nbt_models_push(out@, tag);
                    assert(want.take(id + 1) =~= want.take(id as int).push(want[id as int]));
                }
                out.push(tag);
                if id == i32::MAX {
                    full = true;
                } else {
                    id = id + 1;
                }
            },
            None => {},
        }
    }
    proof {
        assert(want.take(want.len() as int) =~= want);
    }
    out
}

fn registry_tag(data: RegistryData) -> (r: NamedTag)
    ensures
        r.name@ == data.id@,
        r.value@ == registry_model(data),
{
    let ghost want = registry_model(data);
    let name = data.id;
    let label = name.clone();
    let values = entry_tags(data.entries);
    let mut tags: Vec<NamedTag> = Vec::new();
    tags.push(NamedTag { name: "type".to_owned(), value: Nbt::String(label) });
    tags.push(NamedTag { name: "value".to_owned(), value: Nbt::List(values) });
    proof {
        nbt::lemma_tag_models(tags@);
        assert(nbt::tag_models(tags@) =~= want->Compound_0);
    }
    NamedTag { name, value: Nbt::Compound(tags) }
}

fn others(tags: Vec<NamedTag>, name: &str) -> (r: Vec<NamedTag>)
    ensures
        nbt::tag_models(r@) == without(nbt::tag_models(tags@), name@),
{
    let ghost all = tags@;
    let mut rest = tags;
    let mut turned: Vec<NamedTag> = Vec::new();
    while rest.len() > 0
        invariant
            rest@.len() + turned@.len() == all.len(),
            rest@ == all.take(rest@.len() as int),
            forall|i: int|
                0 <= i < turned@.len() ==> #[trigger] turned@[i] == all[all.len() - 1 - i],
        decreases rest@.len(),
    {
        match rest.pop() {
            Some(tag) => turned.push(tag),
            None => {},
        }
    }
    let mut out: Vec<NamedTag> = Vec::new();
    proof {
        assert(nbt::tag_models(all.take(0)) =~= Seq::empty());
        assert(nbt::tag_models(out@) =~= Seq::empty());
    }
    while turned.len() > 0
        invariant
            turned@.len() <= all.len(),
            forall|i: int|
                0 <= i < turned@.len() ==> #[trigger] turned@[i] == all[all.len() - 1 - i],
            nbt::tag_models(out@) == without(
                nbt::tag_models(all.take(all.len() - turned@.len())),
                name@,
            ),
        decreases turned@.len(),
    {
        let ghost n = all.len() - turned@.len();
        match turned.pop() {
            Some(tag) => {
                proof {
                    assert(tag == all[n]);
                    assert(all.take(n + 1) =~= all.take(n).push(tag));
                    nbt::lemma_tag_models_push(all.take(n), tag);
                    let models = nbt::tag_models(all.take(n));
                    assert(models.push((tag.name@, tag.value@)).drop_last() =~= models);
                }
                if !str_eq(tag.name.as_str(), name) {
                    proof {
                        nbt::lemma_tag_models_push(out@, tag);
                    }
                    out.push(tag);
                }
            },
            None => {},
        }
    }
    proof {
        assert(all.take(all.len() as int) =~= all);
    }
    out
}

/// Adds a registry to the registries known so far, in place of an earlier one
/// of its name.
pub fn merge_registry_data_766(codec: Option<Nbt>, data: RegistryData) -> (r: Nbt)
    ensures
        r@ == merged(codec_view(codec), data),
{
    let ghost want = merged(codec_view(codec), data);
    let known = match codec {
        Some(Nbt::Compound(tags)) => tags,
        _ => {
            let none: Vec<NamedTag> = Vec::new();
            proof {
                assert(nbt::tag_models(none@) =~= Seq::empty());
            }
            none
        },
    };
    let tag = registry_tag(data);
    let mut tags = others(known, tag.name.as_str());
    proof {
        nbt::lemma_tag_models_push(tags@, tag);
    }
    tags.push(tag);
    Nbt::Compound(tags)
}

/// The name of an entry, where the entry has that number.
pub open spec fn entry_name(entry: NbtModel, id: i32) -> Option<Seq<char>> {
    match (nbt::nbt_get(entry, "id"@), nbt::nbt_get(entry, "name"@)) {
        (Some(NbtModel::Int(entry_id)), Some(NbtModel::String(name))) => if entry_id == id {
            Some(name)
        } else {
            None
        },
        _ => None,
    }
}

/// The name of the first entry with a number, from a place on.
pub open spec fn first_name(entries: Seq<NbtModel>, id: i32, from: int) -> Option<Seq<char>>
    decreases entries.len() - from,
{
    if from < 0 || from >= entries.len() {
        None
    } else {
        match entry_name(entries[from], id) {
            Some(name) => Some(name),
            None => first_name(entries, id, from + 1),
        }
    }
}

/// The name that a registry gives to a number.
pub open spec fn name_by_id(codec: NbtModel, registry: Seq<char>, id: i32) -> Option<Seq<char>> {
    match nbt::nbt_get(codec, registry) {
        Some(tag) => match nbt::nbt_get(tag, "value"@) {
            Some(NbtModel::List(entries)) => first_name(entries, id, 0),
            _ => None,
        },
        None => None,
    }
}

fn name_of_entry(entry: &Nbt, id: i32) -> (r: Option<String>)
    ensures
        match entry_name(entry@, id) {
            Some(name) => r matches Some(got) && got@ == name,
            None => r is None,
        },
{
    match entry.get("id") {
        Some(Nbt::Int(entry_id)) => {
            if *entry_id != id {
                return None;
            }
        },
        _ => return None,
    }
    match entry.get("name") {
        Some(Nbt::String(name)) => Some(name.clone()),
        _ => None,
    }
}

pub fn registry_name_by_id(codec: &Nbt, registry: &str, id: i32) -> (r: Option<String>)
    ensures
        match name_by_id(codec@, registry@, id) {
            Some(name) => r matches Some(got) && got@ == name,
            None => r is None,
        },
{
    let tag = match codec.get(registry) {
        Some(tag) => tag,
        None => return None,
    };
    match tag.get("value") {
        Some(Nbt::List(entries)) => {
            let ghost models = nbt::nbt_models(entries@);
            proof {
                nbt::lemma_nbt_models(entries@);
            }
            let mut i: usize = 0;
            while i < entries.len()
                invariant
                    i <= entries@.len(),
                    models == nbt::nbt_models(entries@),
                    models.len() == entries@.len(),
                    forall|k: int| 0 <= k < entries@.len() ==> #[trigger] models[k] == entries@[k]@,
                    name_by_id(codec@, registry@, id) == first_name(models, id, i as int),
                decreases entries@.len() - i,
            {
                proof {
                    assert(models[i as int] == entries@[i as int]@);
                }
                match name_of_entry(&entries[i], id) {
                    Some(name) => return Some(name),
                    None => {},
                }
                i = i + 1;
            }
            None
        },
        _ => None,
    }
}

proof fn lemma_entry(name: Seq<char>, id: i32, element: NbtModel, wanted: i32)
    ensures
        entry_name(entry_model(name, id, element), wanted) == if id == wanted {
            Some(name)
        } else {
            None
        },
{
    reveal_strlit("name");
    reveal_strlit("id");
    reveal_strlit("element");
    let tags = entry_model(name, id, element)->Compound_0;
    named::lemma_find_last(tags, "id"@);
    named::lemma_find_last(tags, "name"@);
    assert("name"@.len() == 4 && "id"@.len() == 2 && "element"@.len() == 7);
    assert(tags[0].0 == "name"@ && tags[1].0 == "id"@ && tags[2].0 == "element"@);
    let i = named::find_last(tags, "id"@);
    if i < 1 {
        assert(tags[1].0 != "id"@);
    }
    assert(i == 1);
    let n = named::find_last(tags, "name"@);
    if n < 0 {
        assert(tags[0].0 != "name"@);
    }
    assert(n == 0);
}

proof fn lemma_first_name(entries: Seq<NbtModel>, id: i32, from: int, at: int)
    requires
        0 <= from <= at < entries.len(),
        forall|k: int| from <= k < at ==> entry_name(#[trigger] entries[k], id) is None,
        entry_name(entries[at], id) is Some,
    ensures
        first_name(entries, id, from) == entry_name(entries[at], id),
    decreases at - from,
{
    if from < at {
        assert(entry_name(entries[from], id) is None);
        lemma_first_name(entries, id, from + 1, at);
    }
}

proof fn lemma_without(tags: Seq<(Seq<char>, NbtModel)>, name: Seq<char>, other: Seq<char>)
    requires
        name != other,
    ensures
        named::lookup(without(tags, name), other) == named::lookup(tags, other),
    decreases tags.len(),
{
    if tags.len() > 0 {
        lemma_without(tags.drop_last(), name, other);
        named::lemma_find_last(tags.drop_last(), other);
        named::lemma_find_last(without(tags.drop_last(), name), other);
        let kept = without(tags.drop_last(), name);
        assert(kept.push(tags.last()).drop_last() =~= kept);
    }
}

/// The names of a registry are found again by their numbers once it is merged.
pub proof fn merged_names_are_found(codec: Option<NbtModel>, data: RegistryData, id: i32)
    requires
        0 <= id < data.entries@.len(),
    ensures
        name_by_id(merged(codec, data), data.id@, id) == Some(data.entries@[id as int].name@),
{
    reveal_strlit("type");
    reveal_strlit("value");
    let entries = data.entries@;
    let models = entry_models(entries);
    let root = merged(codec, data)->Compound_0;
    assert(root.last() == (data.id@, registry_model(data)));
    assert(nbt::nbt_get(merged(codec, data), data.id@) == Some(registry_model(data)));
    let tags = registry_model(data)->Compound_0;
    assert(tags.last() == ("value"@, NbtModel::List(models)));
    assert(nbt::nbt_get(registry_model(data), "value"@) == Some(NbtModel::List(models)));
    assert forall|k: int| 0 <= k < id implies entry_name(#[trigger] models[k], id) is None by {
        lemma_entry(entries[k].name@, k as i32, element_of(entries[k]), id);
    }
    lemma_entry(entries[id as int].name@, id, element_of(entries[id as int]), id);
    assert(models[id as int] == entry_model(
        entries[id as int].name@,
        id,
        element_of(entries[id as int]),
    ));
    lemma_first_name(models, id, 0, id as int);
}

/// Merging a registry leaves the others as they are.
pub proof fn merging_keeps_other_registries(
    tags: Seq<(Seq<char>, NbtModel)>,
    data: RegistryData,
    other: Seq<char>,
    id: i32,
)
    requires
        other != data.id@,
    ensures
        name_by_id(merged(Some(NbtModel::Compound(tags)), data), other, id) == name_by_id(
            NbtModel::Compound(tags),
            other,
            id,
        ),
{
    let root = merged(Some(NbtModel::Compound(tags)), data)->Compound_0;
    let kept = without(tags, data.id@);
    lemma_without(tags, data.id@, other);
    assert(root.drop_last() =~= kept);
    named::lemma_find_last(kept, other);
}

/// A merged registry has its name, and its entries with their names, numbers and what they
/// describe, in the order of their numbers.
pub proof fn merged_entries_are_described(codec: Option<NbtModel>, data: RegistryData, i: int)
    requires
        0 <= i < data.entries@.len() <= 0x8000_0000,
    ensures
        nbt::nbt_get(merged(codec, data), data.id@) matches Some(tag) && {
            &&& nbt::nbt_get(tag, "type"@) == Some(NbtModel::String(data.id@))
            &&& nbt::nbt_get(tag, "value"@) matches Some(NbtModel::List(entries)) && {
                &&& entries.len() == data.entries@.len()
                &&& nbt::nbt_get(entries[i], "name"@) == Some(
                    NbtModel::String(data.entries@[i].name@),
                )
                &&& nbt::nbt_get(entries[i], "id"@) == Some(NbtModel::Int(i as i32))
                &&& data.entries@[i].element matches Some(element) ==> nbt::nbt_get(
                    entries[i],
                    "element"@,
                ) == Some(element@)
                &&& data.entries@[i].element is None ==> nbt::nbt_get(entries[i], "element"@)
                    == Some(NbtModel::End)
            }
        },
{
    let known = match codec {
        Some(NbtModel::Compound(tags)) => tags,
        _ => Seq::empty(),
    };
    named::later_names_win(
        without(known, data.id@),
        data.id@,
        registry_model(data),
        data.id@,
    );
    let entries = entry_models(data.entries@);
    let fields = Seq::<(Seq<char>, NbtModel)>::empty().push(
        ("type"@, NbtModel::String(data.id@)),
    ).push(("value"@, NbtModel::List(entries)));
    assert(fields =~= seq![
        ("type"@, NbtModel::String(data.id@)),
        ("value"@, NbtModel::List(entries)),
    ]);
    lemma_names();
    named::later_names_win(fields.drop_last(), "value"@, NbtModel::List(entries), "value"@);
    assert(fields.drop_last().push(("value"@, NbtModel::List(entries))) =~= fields);
    named::later_names_win(fields.drop_last(), "value"@, NbtModel::List(entries), "type"@);
    let first = Seq::<(Seq<char>, NbtModel)>::empty();
    assert(fields.drop_last() =~= first.push(("type"@, NbtModel::String(data.id@))));
    named::later_names_win(first, "type"@, NbtModel::String(data.id@), "type"@);
    let name = NbtModel::String(data.entries@[i].name@);
    let id = NbtModel::Int(i as i32);
    let element = element_of(data.entries@[i]);
    let one = first.push(("name"@, name));
    let two = one.push(("id"@, id));
    let three = two.push(("element"@, element));
    assert(entries[i] == entry_model(data.entries@[i].name@, i as i32, element));
    assert(three =~= seq![("name"@, name), ("id"@, id), ("element"@, element)]);
    named::later_names_win(two, "element"@, element, "element"@);
    named::later_names_win(two, "element"@, element, "id"@);
    named::later_names_win(two, "element"@, element, "name"@);
    named::later_names_win(one, "id"@, id, "id"@);
    named::later_names_win(one, "id"@, id, "name"@);
    named::later_names_win(first, "name"@, name, "name"@);
}

proof fn lemma_names()
    ensures
        "type"@ != "value"@,
        "element"@ != "id"@,
        "element"@ != "name"@,
        "id"@ != "name"@,
{
    reveal_strlit("type");
    reveal_strlit("value");
    reveal_strlit("element");
    reveal_strlit("id");
    reveal_strlit("name");
    assert("type"@.len() == 4 && "value"@.len() == 5 && "element"@.len() == 7 && "id"@.len() == 2
        && "name"@.len() == 4);
}

/// Of several entries with a number the first gives the name; one without a number or a
/// name is passed over.
pub proof fn first_entries_give_the_name(
    entries: Seq<NbtModel>,
    codec: NbtModel,
    registry: Seq<char>,
    tag: NbtModel,
    id: i32,
    at: int,
    name: Seq<char>,
)
    requires
        nbt::nbt_get(codec, registry) == Some(tag),
        nbt::nbt_get(tag, "value"@) == Some(NbtModel::List(entries)),
        0 <= at < entries.len(),
        nbt::nbt_get(entries[at], "id"@) == Some(NbtModel::Int(id)),
        nbt::nbt_get(entries[at], "name"@) == Some(NbtModel::String(name)),
        forall|k: int|
            0 <= k < at ==> nbt::nbt_get(#[trigger] entries[k], "id"@) != Some(NbtModel::Int(id)),
    ensures
        name_by_id(codec, registry, id) == Some(name),
{
    lemma_first_name(entries, id, 0, at);
}

} // verus!
