//! Named binary tags: the tree that items, signs and text components travel in.

use vstd::prelude::*;

use crate::named;
use crate::text::str_eq;
use crate::wire::{self, Reader, Taken};

verus! {

/// A tag. Floating-point numbers are kept as their bits.
#[derive(Debug)]
pub enum Nbt {
    End,
    Byte(i8),
    Short(i16),
    Int(i32),
    Long(i64),
    Float(u32),
    Double(u64),
    ByteArray(Vec<u8>),
    String(String),
    List(Vec<Nbt>),
    Compound(Vec<NamedTag>),
    IntArray(Vec<i32>),
    LongArray(Vec<i64>),
}

/// A tag inside a compound, with its name.
#[derive(Debug)]
pub struct NamedTag {
    pub name: String,
    pub value: Nbt,
}

/// What a tag says.
pub enum NbtModel {
    End,
    Byte(i8),
    Short(i16),
    Int(i32),
    Long(i64),
    Float(u32),
    Double(u64),
    ByteArray(Seq<u8>),
    String(Seq<char>),
    List(Seq<NbtModel>),
    Compound(Seq<(Seq<char>, NbtModel)>),
    IntArray(Seq<i32>),
    LongArray(Seq<i64>),
}

pub open spec fn nbt_model(value: Nbt) -> NbtModel
    decreases value,
{
    match value {
        Nbt::End => NbtModel::End,
        Nbt::Byte(v) => NbtModel::Byte(v),
        Nbt::Short(v) => NbtModel::Short(v),
        Nbt::Int(v) => NbtModel::Int(v),
        Nbt::Long(v) => NbtModel::Long(v),
        Nbt::Float(v) => NbtModel::Float(v),
        Nbt::Double(v) => NbtModel::Double(v),
        Nbt::ByteArray(v) => NbtModel::ByteArray(v@),
        Nbt::String(v) => NbtModel::String(v@),
        Nbt::List(v) => NbtModel::List(nbt_models(v@)),
        Nbt::Compound(v) => NbtModel::Compound(tag_models(v@)),
        Nbt::IntArray(v) => NbtModel::IntArray(v@),
        Nbt::LongArray(v) => NbtModel::LongArray(v@),
    }
}

pub open spec fn nbt_models(items: Seq<Nbt>) -> Seq<NbtModel>
    decreases items,
{
    if items.len() == 0 {
        Seq::empty()
    } else {
        nbt_models(items.drop_last()).push(nbt_model(items.last()))
    }
}

pub open spec fn tag_models(tags: Seq<NamedTag>) -> Seq<(Seq<char>, NbtModel)>
    decreases tags,
{
    if tags.len() == 0 {
        Seq::empty()
    } else {
        tag_models(tags.drop_last()).push((tags.last().name@, nbt_model(tags.last().value)))
    }
}

impl View for Nbt {
    type V = NbtModel;

    open spec fn view(&self) -> NbtModel {
        nbt_model(*self)
    }
}

pub proof fn lemma_nbt_models(items: Seq<Nbt>)
    ensures
        nbt_models(items).len() == items.len(),
        forall|i: int| 0 <= i < items.len() ==> #[trigger] nbt_models(items)[i] == items[i]@,
    decreases items.len(),
{
    if items.len() > 0 {
        lemma_nbt_models(items.drop_last());
    }
}

pub proof fn lemma_tag_models(tags: Seq<NamedTag>)
    ensures
        tag_models(tags).len() == tags.len(),
        forall|i: int|
            0 <= i < tags.len() ==> #[trigger] tag_models(tags)[i] == (
                tags[i].name@,
                tags[i].value@,
            ),
    decreases tags.len(),
{
    if tags.len() > 0 {
        lemma_tag_models(tags.drop_last());
    }
}

pub proof fn lemma_nbt_models_push(items: Seq<Nbt>, item: Nbt)
    ensures
        nbt_models(items.push(item)) == nbt_models(items).push(item@),
{
    assert(items.push(item).drop_last() =~= items);
}

pub proof fn lemma_tag_models_push(tags: Seq<NamedTag>, tag: NamedTag)
    ensures
        tag_models(tags.push(tag)) == tag_models(tags).push((tag.name@, tag.value@)),
{
    assert(tags.push(tag).drop_last() =~= tags);
}

/// What a compound holds under a name; nothing for any other tag.
pub open spec fn nbt_get(value: NbtModel, name: Seq<char>) -> Option<NbtModel> {
    match value {
        NbtModel::Compound(tags) => named::lookup(tags, name),
        _ => None,
    }
}

impl Nbt {
    /// The tag of that name in a compound.
    pub fn get(&self, name: &str) -> (r: Option<&Nbt>)
        ensures
            match nbt_get(self@, name@) {
                Some(model) => r matches Some(value) && value@ == model,
                None => r is None,
            },
            r matches Some(value) ==> decreases_to!(*self => *value),
    {
        match self {
            Nbt::Compound(tags) => {
                let mut n: usize = tags.len();
                let ghost models = tag_models(tags@);
                proof {
                    lemma_tag_models(tags@);
                    assert(models.subrange(0, n as int) =~= models);
                }
                while n > 0
                    invariant
                        n <= tags@.len(),
                        models == tag_models(tags@),
                        models.len() == tags@.len(),
                        *self == Nbt::Compound(*tags),
                        self@ == NbtModel::Compound(models),
                        forall|i: int|
                            0 <= i < models.len() ==> #[trigger] models[i] == (
                                tags@[i].name@,
                                tags@[i].value@,
                            ),
                        named::find_last(models, name@) == named::find_last(
                            models.subrange(0, n as int),
                            name@,
                        ),
                    decreases n,
                {
                    let tag = &tags[n - 1];
                    proof {
                        assert(models[n - 1] == (tags@[n - 1].name@, tags@[n - 1].value@));
                        assert(models.subrange(0, n as int).drop_last() =~= models.subrange(
                            0,
                            n - 1,
                        ));
                    }
                    if str_eq(tag.name.as_str(), name) {
                        proof {
                            assert(decreases_to!(tags@ => tags@[n - 1]));
                            assert(decreases_to!(tags@[n - 1] => tags@[n - 1].value));
                        }
                        return Some(&tag.value);
                    }
                    n = n - 1;
                }
                None
            },
            _ => None,
        }
    }
}

impl Nbt {
    /// A second copy of a tag.
    pub fn duplicate(&self) -> (r: Nbt)
        ensures
            r@ == self@,
        decreases *self,
    {
        match self {
            Nbt::End => Nbt::End,
            Nbt::Byte(v) => Nbt::Byte(*v),
            Nbt::Short(v) => Nbt::Short(*v),
            Nbt::Int(v) => Nbt::Int(*v),
            Nbt::Long(v) => Nbt::Long(*v),
            Nbt::Float(v) => Nbt::Float(*v),
            Nbt::Double(v) => Nbt::Double(*v),
            Nbt::ByteArray(v) => Nbt::ByteArray(v.clone()),
            Nbt::String(v) => Nbt::String(v.clone()),
            Nbt::IntArray(v) => Nbt::IntArray(v.clone()),
            Nbt::LongArray(v) => Nbt::LongArray(v.clone()),
            Nbt::List(items) => {
                let mut out: Vec<Nbt> = Vec::new();
                let mut i: usize = 0;
                while i < items.len()
                    invariant
                        i <= items@.len(),
                        *self == Nbt::List(*items),
                        out@.len() == i,
                        nbt_models(out@) == nbt_models(items@.subrange(0, i as int)),
                    decreases items@.len() - i,
                {
                    proof {
                        assert(decreases_to!(*self => (*self)->List_0));
                        assert(decreases_to!((*self)->List_0 => items@));
                        assert(decreases_to!(items@ => items@[i as int]));
                    }
                    let item = items[i].duplicate();
                    proof {
                        lemma_nbt_models_push(out@, item);
                        lemma_nbt_models_push(items@.subrange(0, i as int), items@[i as int]);
                        assert(items@.subrange(0, i as int).push(items@[i as int])
                            =~= items@.subrange(0, i + 1));
                    }
                    out.push(item);
                    i = i + 1;
                }
                proof {
                    assert(items@.subrange(0, i as int) =~= items@);
                }
                Nbt::List(out)
            },
            Nbt::Compound(tags) => {
                let mut out: Vec<NamedTag> = Vec::new();
                let mut i: usize = 0;
                while i < tags.len()
                    invariant
                        i <= tags@.len(),
                        *self == Nbt::Compound(*tags),
                        out@.len() == i,
                        tag_models(out@) == tag_models(tags@.subrange(0, i as int)),
                    decreases tags@.len() - i,
                {
                    proof {
                        assert(decreases_to!(*self => (*self)->Compound_0));
                        assert(decreases_to!((*self)->Compound_0 => tags@));
                        assert(decreases_to!(tags@ => tags@[i as int]));
                        assert(decreases_to!(tags@[i as int] => tags@[i as int].value));
                    }
                    let tag = NamedTag {
                        name: tags[i].name.clone(),
                        value: tags[i].value.duplicate(),
                    };
                    proof {
                        lemma_tag_models_push(out@, tag);
                        lemma_tag_models_push(tags@.subrange(0, i as int), tags@[i as int]);
                        assert(tags@.subrange(0, i as int).push(tags@[i as int]) =~= tags@.subrange(
                            0,
                            i + 1,
                        ));
                    }
                    out.push(tag);
                    i = i + 1;
                }
                proof {
                    assert(tags@.subrange(0, i as int) =~= tags@);
                }
                Nbt::Compound(out)
            },
        }
    }
}

/// Tags may nest this deeply.
pub const MAX_DEPTH: u32 = 512;

pub open spec fn take_i32s(s: Seq<u8>, n: nat, acc: Seq<i32>) -> Taken<Seq<i32>>
    decreases n,
{
    if n == 0 {
        (Some(acc), s)
    } else {
        match wire::take_i32(s) {
            (Some(v), rest) => take_i32s(rest, (n - 1) as nat, acc.push(v)),
            (None, rest) => (None, rest),
        }
    }
}

pub open spec fn take_i64s(s: Seq<u8>, n: nat, acc: Seq<i64>) -> Taken<Seq<i64>>
    decreases n,
{
    if n == 0 {
        (Some(acc), s)
    } else {
        match wire::take_i64(s) {
            (Some(v), rest) => take_i64s(rest, (n - 1) as nat, acc.push(v)),
            (None, rest) => (None, rest),
        }
    }
}

/// The payload of a tag of that kind, with `depth` levels of nesting left.
pub open spec fn take_payload(s: Seq<u8>, kind: u8, depth: nat) -> Taken<NbtModel>
    decreases depth, 0nat,
{
    if kind == 0 {
        (Some(NbtModel::End), s)
    } else if kind == 1 {
        match wire::take_i8(s) {
            (Some(v), rest) => (Some(NbtModel::Byte(v)), rest),
            (None, rest) => (None, rest),
        }
    } else if kind == 2 {
        match wire::take_i16(s) {
            (Some(v), rest) => (Some(NbtModel::Short(v)), rest),
            (None, rest) => (None, rest),
        }
    } else if kind == 3 {
        match wire::take_i32(s) {
            (Some(v), rest) => (Some(NbtModel::Int(v)), rest),
            (None, rest) => (None, rest),
        }
    } else if kind == 4 {
        match wire::take_i64(s) {
            (Some(v), rest) => (Some(NbtModel::Long(v)), rest),
            (None, rest) => (None, rest),
        }
    } else if kind == 5 {
        match wire::take_u32(s) {
            (Some(v), rest) => (Some(NbtModel::Float(v)), rest),
            (None, rest) => (None, rest),
        }
    } else if kind == 6 {
        match wire::take_u64(s) {
            (Some(v), rest) => (Some(NbtModel::Double(v)), rest),
            (None, rest) => (None, rest),
        }
    } else if kind == 7 {
        match wire::take_i32(s) {
            (Some(n), rest) => if n < 0 {
                (None, rest)
            } else {
                match wire::take_bytes(rest, n as nat) {
                    (Some(v), rest) => (Some(NbtModel::ByteArray(v)), rest),
                    (None, rest) => (None, rest),
                }
            },
            (None, rest) => (None, rest),
        }
    } else if kind == 8 {
        match wire::take_short_string(s) {
            (Some(v), rest) => (Some(NbtModel::String(v)), rest),
            (None, rest) => (None, rest),
        }
    } else if kind == 9 {
        match wire::take_u8(s) {
            (Some(element), rest) => match wire::take_i32(rest) {
                (Some(n), rest) => if n <= 0 {
                    (Some(NbtModel::List(Seq::empty())), rest)
                } else if element == 0 || depth == 0 {
                    (None, rest)
                } else {
                    match take_list(rest, element, n as nat, (depth - 1) as nat, Seq::empty()) {
                        (Some(v), rest) => (Some(NbtModel::List(v)), rest),
                        (None, rest) => (None, rest),
                    }
                },
                (None, rest) => (None, rest),
            },
            (None, rest) => (None, rest),
        }
    } else if kind == 10 {
        if depth == 0 {
            (None, s)
        } else {
            match take_tags(s, (depth - 1) as nat, Seq::empty()) {
                (Some(v), rest) => (Some(NbtModel::Compound(v)), rest),
                (None, rest) => (None, rest),
            }
        }
    } else if kind == 11 {
        match wire::take_i32(s) {
            (Some(n), rest) => if n < 0 {
                (None, rest)
            } else {
                match take_i32s(rest, n as nat, Seq::empty()) {
                    (Some(v), rest) => (Some(NbtModel::IntArray(v)), rest),
                    (None, rest) => (None, rest),
                }
            },
            (None, rest) => (None, rest),
        }
    } else if kind == 12 {
        match wire::take_i32(s) {
            (Some(n), rest) => if n < 0 {
                (None, rest)
            } else {
                match take_i64s(rest, n as nat, Seq::empty()) {
                    (Some(v), rest) => (Some(NbtModel::LongArray(v)), rest),
                    (None, rest) => (None, rest),
                }
            },
            (None, rest) => (None, rest),
        }
    } else {
        (None, s)
    }
}

/// `n` more payloads of one kind behind those in `acc`.
pub open spec fn take_list(
    s: Seq<u8>,
    kind: u8,
    n: nat,
    depth: nat,
    acc: Seq<NbtModel>,
) -> Taken<Seq<NbtModel>>
    decreases depth, n + 1,
{
    if n == 0 {
        (Some(acc), s)
    } else {
        match take_payload(s, kind, depth) {
            (Some(v), rest) => take_list(rest, kind, (n - 1) as nat, depth, acc.push(v)),
            (None, rest) => (None, rest),
        }
    }
}

/// Named tags up to the end tag, behind those in `acc`. A tag takes up bytes,
/// so fewer of them are left after it.
pub open spec fn take_tags(
    s: Seq<u8>,
    depth: nat,
    acc: Seq<(Seq<char>, NbtModel)>,
) -> Taken<Seq<(Seq<char>, NbtModel)>>
    decreases depth, s.len() + 1,
{
    match wire::take_u8(s) {
        (Some(kind), rest) => if kind == 0 {
            (Some(acc), rest)
        } else {
            match wire::take_short_string(rest) {
                (Some(name), rest) => match take_payload(rest, kind, depth) {
                    (Some(v), rest) => if rest.len() < s.len() {
                        take_tags(rest, depth, acc.push((name, v)))
                    } else {
                        (None, rest)
                    },
                    (None, rest) => (None, rest),
                },
                (None, rest) => (None, rest),
            }
        },
        (None, rest) => (None, rest),
    }
}

/// A root tag without a name.
pub open spec fn take_anonymous_nbt(s: Seq<u8>) -> Taken<NbtModel> {
    match wire::take_u8(s) {
        (Some(kind), rest) => take_payload(rest, kind, MAX_DEPTH as nat),
        (None, rest) => (None, rest),
    }
}

/// A root tag with a name, which is dropped.
pub open spec fn take_named_nbt(s: Seq<u8>) -> Taken<NbtModel> {
    match wire::take_u8(s) {
        (Some(kind), rest) => if kind == 0 {
            (Some(NbtModel::End), rest)
        } else {
            match wire::take_short_string(rest) {
                (Some(_), rest) => take_payload(rest, kind, MAX_DEPTH as nat),
                (None, rest) => (None, rest),
            }
        },
        (None, rest) => (None, rest),
    }
}

/// What a reader gave back agrees with what was to be read.
pub open spec fn read_as(want: Taken<NbtModel>, got: Option<Nbt>, rest: Seq<u8>) -> bool {
    rest == want.1 && match want.0 {
        Some(model) => got matches Some(value) && value@ == model,
        None => got is None,
    }
}

fn read_payload(r: &mut Reader, kind: u8, depth: u32) -> (v: Option<Nbt>)
    ensures
        read_as(take_payload(old(r)@, kind, depth as nat), v, final(r)@),
        final(r)@.len() <= old(r)@.len(),
    decreases depth, 0nat,
{
    if kind == 0 {
        Some(Nbt::End)
    } else if kind == 1 {
        match r.i8() {
            Some(v) => Some(Nbt::Byte(v)),
            None => None,
        }
    } else if kind == 2 {
        match r.i16() {
            Some(v) => Some(Nbt::Short(v)),
            None => None,
        }
    } else if kind == 3 {
        match r.i32() {
            Some(v) => Some(Nbt::Int(v)),
            None => None,
        }
    } else if kind == 4 {
        match r.i64() {
            Some(v) => Some(Nbt::Long(v)),
            None => None,
        }
    } else if kind == 5 {
        match r.u32() {
            Some(v) => Some(Nbt::Float(v)),
            None => None,
        }
    } else if kind == 6 {
        match r.u64() {
            Some(v) => Some(Nbt::Double(v)),
            None => None,
        }
    } else if kind == 7 {
        let n: i32 = match r.i32() {
            Some(n) => n,
            None => return None,
        };
        if n < 0 {
            return None;
        }
        match r.bytes(n as usize) {
            Some(v) => Some(Nbt::ByteArray(v)),
            None => None,
        }
    } else if kind == 8 {
        match r.short_string() {
            Some(v) => Some(Nbt::String(v)),
            None => None,
        }
    } else if kind == 9 {
        let element: u8 = match r.u8() {
            Some(element) => element,
            None => return None,
        };
        let n: i32 = match r.i32() {
            Some(n) => n,
            None => return None,
        };
        if n <= 0 {
            return Some(Nbt::List(Vec::new()));
        }
        if element == 0 || depth == 0 {
            return None;
        }
        match read_list(r, element, n as u32, depth - 1) {
            Some(v) => Some(Nbt::List(v)),
            None => None,
        }
    } else if kind == 10 {
        if depth == 0 {
            return None;
        }
        match read_tags(r, depth - 1) {
            Some(v) => Some(Nbt::Compound(v)),
            None => None,
        }
    } else if kind == 11 {
        let n: i32 = match r.i32() {
            Some(n) => n,
            None => return None,
        };
        if n < 0 {
            return None;
        }
        match read_i32s(r, n as u32) {
            Some(v) => Some(Nbt::IntArray(v)),
            None => None,
        }
    } else if kind == 12 {
        let n: i32 = match r.i32() {
            Some(n) => n,
            None => return None,
        };
        if n < 0 {
            return None;
        }
        match read_i64s(r, n as u32) {
            Some(v) => Some(Nbt::LongArray(v)),
            None => None,
        }
    } else {
        None
    }
}

fn read_list(r: &mut Reader, kind: u8, n: u32, depth: u32) -> (v: Option<Vec<Nbt>>)
    ensures
        match take_list(old(r)@, kind, n as nat, depth as nat, Seq::empty()) {
            (Some(models), rest) => v matches Some(items) && nbt_models(items@) == models
                && final(r)@ == rest,
            (None, rest) => v is None && final(r)@ == rest,
        },
        final(r)@.len() <= old(r)@.len(),
    decreases depth, n + 1,
{
    let mut out: Vec<Nbt> = Vec::new();
    let mut left: u32 = n;
    let ghost start = r@;
    proof {
        assert(nbt_models(out@) =~= Seq::empty());
    }
    while left > 0
        invariant
            left <= n,
            start == old(r)@,
            r@.len() <= start.len(),
            take_list(start, kind, n as nat, depth as nat, Seq::empty()) == take_list(
                r@,
                kind,
                left as nat,
                depth as nat,
                nbt_models(out@),
            ),
        decreases left,
    {
        match read_payload(r, kind, depth) {
            Some(v) => {
                proof {
                    lemma_nbt_models_push(out@, v);
                }
                out.push(v);
            },
            None => return None,
        }
        left = left - 1;
    }
    Some(out)
}

fn read_tags(r: &mut Reader, depth: u32) -> (v: Option<Vec<NamedTag>>)
    ensures
        match take_tags(old(r)@, depth as nat, Seq::empty()) {
            (Some(models), rest) => v matches Some(tags) && tag_models(tags@) == models
                && final(r)@ == rest,
            (None, rest) => v is None && final(r)@ == rest,
        },
        final(r)@.len() <= old(r)@.len(),
    decreases depth, 1nat,
{
    let mut out: Vec<NamedTag> = Vec::new();
    let ghost start = r@;
    proof {
        assert(tag_models(out@) =~= Seq::empty());
    }
    loop
        invariant
            start == old(r)@,
            r@.len() <= start.len(),
            take_tags(start, depth as nat, Seq::empty()) == take_tags(
                r@,
                depth as nat,
                tag_models(out@),
            ),
        decreases r@.len(),
    {
        let kind: u8 = match r.u8() {
            Some(kind) => kind,
            None => return None,
        };
        if kind == 0 {
            return Some(out);
        }
        let name = match r.short_string() {
            Some(name) => name,
            None => return None,
        };
        match read_payload(r, kind, depth) {
            Some(value) => {
                let tag = NamedTag { name, value };
                proof {
                    lemma_tag_models_push(out@, tag);
                }
                out.push(tag);
            },
            None => return None,
        }
    }
}

fn read_i32s(r: &mut Reader, n: u32) -> (v: Option<Vec<i32>>)
    ensures
        match take_i32s(old(r)@, n as nat, Seq::empty()) {
            (Some(items), rest) => v matches Some(got) && got@ == items && final(r)@ == rest,
            (None, rest) => v is None && final(r)@ == rest,
        },
        final(r)@.len() <= old(r)@.len(),
{
    let mut out: Vec<i32> = Vec::new();
    let mut left: u32 = n;
    let ghost start = r@;
    proof {
        assert(out@ =~= Seq::empty());
    }
    while left > 0
        invariant
            start == old(r)@,
            r@.len() <= start.len(),
            take_i32s(start, n as nat, Seq::empty()) == take_i32s(r@, left as nat, out@),
        decreases left,
    {
        match r.i32() {
            Some(v) => out.push(v),
            None => return None,
        }
        left = left - 1;
    }
    Some(out)
}

fn read_i64s(r: &mut Reader, n: u32) -> (v: Option<Vec<i64>>)
    ensures
        match take_i64s(old(r)@, n as nat, Seq::empty()) {
            (Some(items), rest) => v matches Some(got) && got@ == items && final(r)@ == rest,
            (None, rest) => v is None && final(r)@ == rest,
        },
        final(r)@.len() <= old(r)@.len(),
{
    let mut out: Vec<i64> = Vec::new();
    let mut left: u32 = n;
    let ghost start = r@;
    proof {
        assert(out@ =~= Seq::empty());
    }
    while left > 0
        invariant
            start == old(r)@,
            r@.len() <= start.len(),
            take_i64s(start, n as nat, Seq::empty()) == take_i64s(r@, left as nat, out@),
        decreases left,
    {
        match r.i64() {
            Some(v) => out.push(v),
            None => return None,
        }
        left = left - 1;
    }
    Some(out)
}

/// Reads a root tag without a name.
pub fn read_anonymous_nbt(r: &mut Reader) -> (v: Option<Nbt>)
    ensures
        read_as(take_anonymous_nbt(old(r)@), v, final(r)@),
        final(r)@.len() <= old(r)@.len(),
{
    match r.u8() {
        Some(kind) => read_payload(r, kind, MAX_DEPTH),
        None => None,
    }
}

/// Reads a root tag with a name.
pub fn read_nbt(r: &mut Reader) -> (v: Option<Nbt>)
    ensures
        read_as(take_named_nbt(old(r)@), v, final(r)@),
        final(r)@.len() <= old(r)@.len(),
{
    match r.u8() {
        Some(kind) => {
            if kind == 0 {
                return Some(Nbt::End);
            }
            match r.short_string() {
                Some(_) => read_payload(r, kind, MAX_DEPTH),
                None => None,
            }
        },
        None => None,
    }
}

/// A tag without a name is its kind and its payload: the kinds from 1 to 6 are the
/// numbers by rising size, 8 is a text.
pub proof fn tags_are_read_by_their_kind(s: Seq<u8>)
    requires
        s.len() > 0,
    ensures
        ({
            let rest = s.subrange(1, s.len() as int);
            let read = take_anonymous_nbt(s);
            &&& s[0] == 0 ==> read == (Some(NbtModel::End), rest)
            &&& s[0] == 1 ==> (wire::take_i8(rest).0 matches Some(v) ==> read == (
                Some(NbtModel::Byte(v)),
                wire::take_i8(rest).1,
            ))
            &&& s[0] == 2 ==> (wire::take_i16(rest).0 matches Some(v) ==> read == (
                Some(NbtModel::Short(v)),
                wire::take_i16(rest).1,
            ))
            &&& s[0] == 3 ==> (wire::take_i32(rest).0 matches Some(v) ==> read == (
                Some(NbtModel::Int(v)),
                wire::take_i32(rest).1,
            ))
            &&& s[0] == 4 ==> (wire::take_i64(rest).0 matches Some(v) ==> read == (
                Some(NbtModel::Long(v)),
                wire::take_i64(rest).1,
            ))
            &&& s[0] == 5 ==> (wire::take_u32(rest).0 matches Some(v) ==> read == (
                Some(NbtModel::Float(v)),
                wire::take_u32(rest).1,
            ))
            &&& s[0] == 6 ==> (wire::take_u64(rest).0 matches Some(v) ==> read == (
                Some(NbtModel::Double(v)),
                wire::take_u64(rest).1,
            ))
            &&& s[0] == 8 ==> (wire::take_short_string(rest).0 matches Some(v) ==> read == (
                Some(NbtModel::String(v)),
                wire::take_short_string(rest).1,
            ))
            &&& s[0] > 12 ==> read.0 is None
        }),
{
}

/// A compound is a series of tags, each with its kind, its name and its payload, up to an
/// end tag.
pub proof fn compounds_are_series_of_tags(
    s: Seq<u8>,
    depth: nat,
    acc: Seq<(Seq<char>, NbtModel)>,
    name: Seq<char>,
    behind_name: Seq<u8>,
    value: NbtModel,
    rest: Seq<u8>,
)
    requires
        s.len() > 0,
    ensures
        s[0] == 0 ==> take_tags(s, depth, acc) == (Some(acc), s.subrange(1, s.len() as int)),
        s[0] != 0 && wire::take_short_string(s.subrange(1, s.len() as int)) == (
            Some(name),
            behind_name,
        ) && take_payload(behind_name, s[0], depth) == (Some(value), rest) && rest.len() < s.len()
            ==> take_tags(s, depth, acc) == take_tags(rest, depth, acc.push((name, value))),
        depth > 0 ==> (take_tags(s, (depth - 1) as nat, Seq::empty()) matches (Some(tags), behind)
            ==> take_payload(s, 10, depth) == (Some(NbtModel::Compound(tags)), behind)),
{
    reveal_with_fuel(take_tags, 2);
    reveal_with_fuel(take_payload, 2);
}

/// A list is the kind of its members, their number, and their payloads in order.
pub proof fn lists_are_read_in_order(
    s: Seq<u8>,
    kind: u8,
    n: nat,
    depth: nat,
    acc: Seq<NbtModel>,
    value: NbtModel,
    rest: Seq<u8>,
)
    ensures
        take_list(s, kind, 0, depth, acc) == (Some(acc), s),
        take_payload(s, kind, depth) == (Some(value), rest) ==> take_list(
            s,
            kind,
            n + 1,
            depth,
            acc,
        ) == take_list(rest, kind, n, depth, acc.push(value)),
{
    reveal_with_fuel(take_list, 2);
}

/// A root with a name reads as one without it.
pub proof fn root_names_are_dropped(s: Seq<u8>, name: Seq<char>, rest: Seq<u8>)
    requires
        s.len() > 0,
        s[0] != 0,
        wire::take_short_string(s.subrange(1, s.len() as int)) == (Some(name), rest),
    ensures
        take_named_nbt(s) == take_anonymous_nbt(seq![s[0]] + rest),
{
    let bare = seq![s[0]] + rest;
    assert(bare.subrange(1, bare.len() as int) =~= rest);
}

/// A compound gives what it holds under a name, the last of that name, and no other tag
/// holds anything.
pub proof fn compounds_give_what_they_hold(
    tags: Seq<(Seq<char>, NbtModel)>,
    name: Seq<char>,
    value: NbtModel,
    other: Seq<char>,
)
    ensures
        nbt_get(NbtModel::Compound(tags.push((name, value))), name) == Some(value),
        other != name ==> nbt_get(NbtModel::Compound(tags.push((name, value))), other) == nbt_get(
            NbtModel::Compound(tags),
            other,
        ),
        value !is Compound ==> nbt_get(value, name) is None,
{
    named::later_names_win(tags, name, value, name);
    named::later_names_win(tags, name, value, other);
}

/// Arrays are their number of members and then these, one after the other; a negative
/// number is refused.
pub proof fn arrays_are_read_in_order(
    s: Seq<u8>,
    depth: nat,
    n: i32,
    r1: Seq<u8>,
    count: nat,
    ints: Seq<i32>,
    int_value: i32,
    longs: Seq<i64>,
    long_value: i64,
    rest: Seq<u8>,
)
    requires
        wire::take_i32(s) == (Some(n), r1),
    ensures
        n < 0 ==> take_payload(s, 7, depth).0 is None && take_payload(s, 11, depth).0 is None
            && take_payload(s, 12, depth).0 is None,
        n >= 0 ==> (wire::take_bytes(r1, n as nat) matches (Some(v), behind) ==> take_payload(
            s,
            7,
            depth,
        ) == (Some(NbtModel::ByteArray(v)), behind)),
        n >= 0 ==> (take_i32s(r1, n as nat, Seq::empty()) matches (Some(v), behind) ==> take_payload(
            s,
            11,
            depth,
        ) == (Some(NbtModel::IntArray(v)), behind)),
        n >= 0 ==> (take_i64s(r1, n as nat, Seq::empty()) matches (Some(v), behind) ==> take_payload(
            s,
            12,
            depth,
        ) == (Some(NbtModel::LongArray(v)), behind)),
        take_i32s(s, 0, ints) == (Some(ints), s),
        take_i64s(s, 0, longs) == (Some(longs), s),
        wire::take_i32(s) == (Some(int_value), rest) ==> take_i32s(s, count + 1, ints) == take_i32s(
            rest,
            count,
            ints.push(int_value),
        ),
        wire::take_i64(s) == (Some(long_value), rest) ==> take_i64s(s, count + 1, longs)
            == take_i64s(rest, count, longs.push(long_value)),
{
}

/// A list is the kind of its members, their number and the members; without members the
/// kind does not matter, and members need a kind and room to nest.
pub proof fn lists_name_their_kind(s: Seq<u8>, depth: nat, n: i32, rest: Seq<u8>)
    requires
        s.len() > 0,
        wire::take_i32(s.subrange(1, s.len() as int)) == (Some(n), rest),
    ensures
        n <= 0 ==> take_payload(s, 9, depth) == (Some(NbtModel::List(Seq::empty())), rest),
        n > 0 && (s[0] == 0 || depth == 0) ==> take_payload(s, 9, depth).0 is None,
        n > 0 && s[0] != 0 && depth > 0 ==> (take_list(
            rest,
            s[0],
            n as nat,
            (depth - 1) as nat,
            Seq::empty(),
        ) matches (Some(v), behind) ==> take_payload(s, 9, depth) == (
            Some(NbtModel::List(v)),
            behind,
        )),
        take_payload(s, 10, 0).0 is None,
{
    reveal_with_fuel(take_payload, 2);
}

/// A tag stands for what it holds: numbers for themselves, texts for their characters, and
/// lists and compounds for what their members stand for, in order.
pub proof fn tags_stand_for_what_they_hold(value: Nbt, i: int)
    ensures
        value matches Nbt::Byte(v) ==> value@ == NbtModel::Byte(v),
        value matches Nbt::Short(v) ==> value@ == NbtModel::Short(v),
        value matches Nbt::Int(v) ==> value@ == NbtModel::Int(v),
        value matches Nbt::Long(v) ==> value@ == NbtModel::Long(v),
        value matches Nbt::Float(v) ==> value@ == NbtModel::Float(v),
        value matches Nbt::Double(v) ==> value@ == NbtModel::Double(v),
        value matches Nbt::ByteArray(v) ==> value@ == NbtModel::ByteArray(v@),
        value matches Nbt::String(v) ==> value@ == NbtModel::String(v@),
        value matches Nbt::IntArray(v) ==> value@ == NbtModel::IntArray(v@),
        value matches Nbt::LongArray(v) ==> value@ == NbtModel::LongArray(v@),
        value matches Nbt::List(v) ==> {
            let models = nbt_models(v@);
            &&& value@ == NbtModel::List(models)
            &&& models.len() == v@.len()
            &&& 0 <= i < v@.len() ==> models[i] == v@[i]@
        },
        value matches Nbt::Compound(v) ==> {
            let models = tag_models(v@);
            &&& value@ == NbtModel::Compound(models)
            &&& models.len() == v@.len()
            &&& 0 <= i < v@.len() ==> models[i] == (v@[i].name@, v@[i].value@)
        },
{
    reveal_with_fuel(nbt_model, 2);
    match value {
        Nbt::List(v) => {
            lemma_models_at(v@, i);
        },
        Nbt::Compound(v) => {
            lemma_tag_models_at(v@, i);
        },
        _ => {},
    }
}

proof fn lemma_models_at(items: Seq<Nbt>, i: int)
    ensures
        nbt_models(items).len() == items.len(),
        0 <= i < items.len() ==> nbt_models(items)[i] == items[i]@,
    decreases items.len(),
{
    reveal_with_fuel(nbt_models, 2);
    if items.len() > 0 {
        lemma_models_at(items.drop_last(), i);
    }
}

proof fn lemma_tag_models_at(tags: Seq<NamedTag>, i: int)
    ensures
        tag_models(tags).len() == tags.len(),
        0 <= i < tags.len() ==> tag_models(tags)[i] == (tags[i].name@, tags[i].value@),
    decreases tags.len(),
{
    reveal_with_fuel(tag_models, 2);
    if tags.len() > 0 {
        lemma_tag_models_at(tags.drop_last(), i);
    }
}

/// A reader hands out the tag that is there, and stands behind it.
pub proof fn readers_hand_out_tags(r: &mut Reader, v: Option<Nbt>)
    ensures
        call_ensures(read_anonymous_nbt, (r,), v) ==> {
            let (found, rest) = take_anonymous_nbt(old(r)@);
            &&& final(r)@ == rest
            &&& found matches Some(model) ==> v is Some && v->0@ == model
            &&& found is None ==> v is None
        },
        call_ensures(read_nbt, (r,), v) ==> {
            let (found, rest) = take_named_nbt(old(r)@);
            &&& final(r)@ == rest
            &&& found matches Some(model) ==> v is Some && v->0@ == model
            &&& found is None ==> v is None
        },
{
}

} // verus!
