//! The resource packs in use, from the request of the server to the answer
//! that it gets.

use vstd::prelude::*;
use vstd::string::*;

use crate::component::{self, plain_text};
use crate::hash::{self, sha1_hex};
use crate::join::MAX_IDENTIFIER;
use crate::players;
use crate::protocol::ProtocolVersion;
use crate::resource_pack::PackError;
use crate::text::{self, natural_text, str_eq};
use crate::wire::{self, Reader, Uuid};

verus! {

/// A pack that the server asks for. Packs have an identity of their own from
/// protocol 765 on.
#[derive(Debug)]
pub struct ResourcePackRequest {
    pub uuid: Option<Uuid>,
    pub url: String,
    pub hash: String,
    pub forced: bool,
    pub prompt: Option<String>,
}

#[verifier::ext_equal]
pub struct RequestModel {
    pub uuid: Option<Uuid>,
    pub url: Seq<char>,
    pub hash: Seq<char>,
    pub forced: bool,
    pub prompt: Option<Seq<char>>,
}

impl View for ResourcePackRequest {
    type V = RequestModel;

    open spec fn view(&self) -> RequestModel {
        RequestModel {
            uuid: self.uuid,
            url: self.url@,
            hash: self.hash@,
            forced: self.forced,
            prompt: players::opt_view(self.prompt),
        }
    }
}

/// A pack in use, by the place that it is kept at.
#[derive(Debug)]
pub struct ResourcePackLayer {
    pub uuid: Option<Uuid>,
    pub archive: String,
}

/// A layer as a pair of its identity and its place.
pub type LayerModel = (Option<Uuid>, Seq<char>);

impl View for ResourcePackLayer {
    type V = LayerModel;

    open spec fn view(&self) -> LayerModel {
        (self.uuid, self.archive@)
    }
}

pub open spec fn layer_views(layers: Seq<ResourcePackLayer>) -> Seq<LayerModel> {
    Seq::new(layers.len(), |i: int| layers[i]@)
}

/// The packs in use, the lowest first.
#[derive(Debug)]
pub struct ResourcePacks {
    pub request: Option<ResourcePackRequest>,
    /// Whether the player is being asked.
    pub prompt_open: bool,
    pub layers: Vec<ResourcePackLayer>,
    /// The assets of the game, which packs are laid over.
    pub base: Option<String>,
    /// The archive to load assets from next.
    pub cached: Option<String>,
    /// Whether assets are drawn; then loading them ends a request.
    pub renderer_active: bool,
    /// Whether loading the archive is to be reported.
    pub reload_ack: bool,
}

#[verifier::ext_equal]
pub struct PacksModel {
    pub request: Option<RequestModel>,
    pub prompt_open: bool,
    pub layers: Seq<LayerModel>,
    pub base: Option<Seq<char>>,
    pub cached: Option<Seq<char>>,
    pub renderer_active: bool,
    pub reload_ack: bool,
}

impl View for ResourcePacks {
    type V = PacksModel;

    open spec fn view(&self) -> PacksModel {
        PacksModel {
            request: match self.request {
                Some(request) => Some(request@),
                None => None,
            },
            prompt_open: self.prompt_open,
            layers: layer_views(self.layers@),
            base: players::opt_view(self.base),
            cached: players::opt_view(self.cached),
            renderer_active: self.renderer_active,
            reload_ack: self.reload_ack,
        }
    }
}

/// The longest prompt.
pub const MAX_PROMPT: u32 = 262144;

/// The longest announced digest.
pub const MAX_HASH: u32 = 40;

/// The prompt of a request, where it has one.
pub open spec fn take_prompt(s: Seq<u8>) -> Option<Option<Seq<char>>> {
    match wire::take_bool(s) {
        (Some(present), rest) => if present {
            match wire::take_string(rest, MAX_PROMPT as nat).0 {
                Some(json) => Some(Some(component::plain_json(json))),
                None => None,
            }
        } else {
            Some(None)
        },
        (None, _) => None,
    }
}

/// The request in a packet up to protocol 764.
pub open spec fn request_of(body: Seq<u8>) -> Option<RequestModel> {
    match wire::take_string(body, MAX_IDENTIFIER as nat) {
        (Some(url), rest) => match wire::take_string(rest, MAX_HASH as nat) {
            (Some(hash), rest) => match wire::take_bool(rest) {
                (Some(forced), rest) => match take_prompt(rest) {
                    Some(prompt) => Some(RequestModel { uuid: None, url, hash, forced, prompt }),
                    None => None,
                },
                (None, _) => None,
            },
            (None, _) => None,
        },
        (None, _) => None,
    }
}

/// The pack that a packet removes, or nothing for all of them.
pub open spec fn removal_of(body: Seq<u8>) -> Option<Option<Uuid>> {
    match wire::take_bool(body) {
        (Some(one), rest) => if one {
            match wire::take_uuid(rest).0 {
                Some(uuid) => Some(Some(uuid)),
                None => None,
            }
        } else {
            Some(None)
        },
        (None, _) => None,
    }
}

/// The layers without those of an identity; without an identity no layer
/// stays.
pub open spec fn without_pack(layers: Seq<LayerModel>, uuid: Option<Uuid>) -> Seq<LayerModel>
    decreases layers.len(),
{
    if layers.len() == 0 || uuid is None {
        Seq::empty()
    } else if layers.last().0 == uuid {
        without_pack(layers.drop_last(), uuid)
    } else {
        without_pack(layers.drop_last(), uuid).push(layers.last())
    }
}

/// The state after a removal.
pub open spec fn packs_without(packs: PacksModel, removed: Option<Uuid>) -> PacksModel {
    let cleared = removed is None || (packs.request is Some && packs.request->0.uuid == removed);
    PacksModel {
        layers: without_pack(packs.layers, removed),
        request: if cleared {
            None
        } else {
            packs.request
        },
        prompt_open: packs.prompt_open && !cleared,
        ..packs
    }
}

fn drop_pack(layers: &mut Vec<ResourcePackLayer>, uuid: Option<Uuid>)
    ensures
        layer_views(final(layers)@) == without_pack(layer_views(old(layers)@), uuid),
{
    let ghost all = layer_views(layers@);
    let mut turned: Vec<ResourcePackLayer> = Vec::new();
    while layers.len() > 0
        invariant
            layers@.len() + turned@.len() == all.len(),
            forall|i: int| 0 <= i < layers@.len() ==> (#[trigger] layers@[i])@ == all[i],
            forall|i: int|
                0 <= i < turned@.len() ==> (#[trigger] turned@[i])@ == all[all.len() - 1 - i],
        decreases layers@.len(),
    {
        match layers.pop() {
            Some(layer) => turned.push(layer),
            None => {},
        }
    }
    proof {
        assert(layer_views(layers@) =~= Seq::empty());
    }
    if uuid.is_none() {
        return ;
    }
    while turned.len() > 0
        invariant
            uuid is Some,
            turned@.len() <= all.len(),
            forall|i: int|
                0 <= i < turned@.len() ==> (#[trigger] turned@[i])@ == all[all.len() - 1 - i],
            layer_views(layers@) == without_pack(all.take(all.len() - turned@.len()), uuid),
        decreases turned@.len(),
    {
        let ghost n = all.len() - turned@.len();
        match turned.pop() {
            Some(layer) => {
                proof {
                    assert(layer@ == all[n]);
                    assert(all.take(n + 1).drop_last() =~= all.take(n));
                    assert(all.take(n + 1).last() == layer@);
                }
                if layer.uuid != uuid {
                    let ghost before = layers@;
                    layers.push(layer);
                    proof {
                        assert(layer_views(layers@) =~= layer_views(before).push(layer@));
                    }
                }
            },
            None => {},
        }
    }
    proof {
        assert(all.take(all.len() as int) =~= all);
    }
}

fn copy_layers(layers: &Vec<ResourcePackLayer>) -> (r: Vec<ResourcePackLayer>)
    ensures
        layer_views(r@) == layer_views(layers@),
{
    let mut out: Vec<ResourcePackLayer> = Vec::new();
    let mut i: usize = 0;
    while i < layers.len()
        invariant
            i <= layers@.len(),
            out@.len() == i,
            forall|k: int| 0 <= k < i ==> (#[trigger] out@[k])@ == layers@[k]@,
        decreases layers@.len() - i,
    {
        out.push(ResourcePackLayer { uuid: layers[i].uuid, archive: layers[i].archive.clone() });
        i = i + 1;
    }
    proof {
        assert(layer_views(out@) =~= layer_views(layers@));
    }
    out
}

/// What has to be done to have an archive of all the packs.
#[derive(Debug)]
pub enum Rebuild {
    /// There is nothing to load.
    Nothing,
    /// An archive can be used as it is.
    Use(String),
    /// The layers have to be laid over the base, each result under one of
    /// these names.
    Stack(String, Vec<String>),
}

pub enum RebuildModel {
    Nothing,
    Use(Seq<char>),
    Stack(Seq<char>, Seq<Seq<char>>),
}

/// The bytes of the places of layers, one behind the other.
pub open spec fn place_bytes(layers: Seq<LayerModel>) -> Seq<u8>
    decreases layers.len(),
{
    if layers.len() == 0 {
        Seq::empty()
    } else {
        place_bytes(layers.drop_last()) + vstd::utf8::encode_utf8(layers.last().1)
    }
}

/// The name of an intermediate archive: by the digest of the places of all
/// layers, and by the number of the layer.
pub open spec fn stack_name(layers: Seq<LayerModel>, i: int) -> Seq<char> {
    "stack-"@ + hash::hex(hash::sha1_of(place_bytes(layers))) + "-"@ + text::decimal(i) + ".zip"@
}

/// What has to be done: without packs the base is used. A pack alone can be
/// used only where nothing is drawn.
pub open spec fn rebuild_of(packs: PacksModel) -> Result<RebuildModel, PackError> {
    if packs.layers.len() == 0 {
        match packs.base {
            Some(base) => Ok(RebuildModel::Use(base)),
            None => Ok(RebuildModel::Nothing),
        }
    } else {
        match packs.base {
            Some(base) => Ok(
                RebuildModel::Stack(
                    base,
                    Seq::new(packs.layers.len(), |i: int| stack_name(packs.layers, i)),
                ),
            ),
            None => if packs.renderer_active {
                Err(PackError::NeedsBase)
            } else {
                Ok(RebuildModel::Use(packs.layers.last().1))
            },
        }
    }
}

pub open spec fn name_views(names: Seq<String>) -> Seq<Seq<char>> {
    Seq::new(names.len(), |i: int| names[i]@)
}

pub open spec fn rebuild_as(
    want: Result<RebuildModel, PackError>,
    got: Result<Rebuild, PackError>,
) -> bool {
    match want {
        Ok(RebuildModel::Nothing) => got == Ok::<Rebuild, PackError>(Rebuild::Nothing),
        Ok(RebuildModel::Use(place)) => got matches Ok(Rebuild::Use(p)) && p@ == place,
        Ok(RebuildModel::Stack(base, names)) => got matches Ok(Rebuild::Stack(b, n)) && b@ == base
            && name_views(n@) == names,
        Err(error) => got == Err::<Rebuild, PackError>(error),
    }
}

fn append_bytes(out: &mut Vec<u8>, bytes: &[u8])
    ensures
        final(out)@ == old(out)@ + bytes@,
{
    let ghost before = out@;
    let mut i: usize = 0;
    proof {
        assert(before + bytes@.take(0) =~= before);
    }
    while i < bytes.len()
        invariant
            i <= bytes@.len(),
            out@ == before + bytes@.take(i as int),
        decreases bytes@.len() - i,
    {
        out.push(bytes[i]);
        proof {
            assert(out@ =~= before + bytes@.take(i + 1));
        }
        i = i + 1;
    }
    proof {
        assert(bytes@.take(i as int) =~= bytes@);
    }
}

fn stack_names(layers: &Vec<ResourcePackLayer>) -> (r: Vec<String>)
    ensures
        name_views(r@) == Seq::new(
            layers@.len(),
            |i: int| stack_name(layer_views(layers@), i),
        ),
{
    let ghost models = layer_views(layers@);
    let mut bytes: Vec<u8> = Vec::new();
    let mut i: usize = 0;
    while i < layers.len()
        invariant
            i <= layers@.len(),
            models == layer_views(layers@),
            bytes@ == place_bytes(models.take(i as int)),
        decreases layers@.len() - i,
    {
        proof {
            assert(models.take(i + 1).drop_last() =~= models.take(i as int));
            assert(models.take(i + 1).last() == layers@[i as int]@);
        }
        append_bytes(&mut bytes, layers[i].archive.as_str().as_bytes());
        i = i + 1;
    }
    proof {
        assert(models.take(i as int) =~= models);
    }
    let key = sha1_hex(&bytes);
    let mut names: Vec<String> = Vec::new();
    let mut j: usize = 0;
    while j < layers.len()
        invariant
            j <= layers@.len(),
            models == layer_views(layers@),
            key@ == hash::hex(hash::sha1_of(place_bytes(models))),
            names@.len() == j,
            forall|k: int| 0 <= k < j ==> (#[trigger] names@[k])@ == stack_name(models, k),
        decreases layers@.len() - j,
    {
        let mut name = "stack-".to_owned();
        name.append(key.as_str());
        name.append("-");
        name.append(natural_text(j as u64).as_str());
        name.append(".zip");
        names.push(name);
        j = j + 1;
    }
    proof {
        assert(name_views(names@) =~= Seq::new(
            layers@.len(),
            |i: int| stack_name(layer_views(layers@), i),
        ));
    }
    names
}

/// How a rebuild ended: with an archive to load, if any, or with an error.
pub open spec fn rebuilt_view(rebuilt: Result<Option<String>, PackError>) -> Result<
    Option<Seq<char>>,
    PackError,
> {
    match rebuilt {
        Ok(place) => Ok(players::opt_view(place)),
        Err(error) => Err(error),
    }
}

/// The packs after the server asked for one; a malformed packet is ignored.
pub open spec fn asked(packs: PacksModel, body: Seq<u8>) -> PacksModel {
    match request_of(body) {
        Some(request) => PacksModel { request: Some(request), prompt_open: true, ..packs },
        None => packs,
    }
}

/// How an accepted request ends, and the status to report of it: with an
/// archive to load, or with none.
pub open spec fn settled(packs: PacksModel, loaded: Option<Seq<char>>) -> (
    PacksModel,
    Option<i32>,
) {
    match loaded {
        Some(place) => (
            PacksModel { cached: Some(place), ..packs },
            if packs.renderer_active {
                None
            } else {
                Some(STATUS_LOADED)
            },
        ),
        None => (packs, Some(STATUS_FAILED)),
    }
}

/// How a reload of the assets ends, and the status to report of it, where one
/// is owed.
pub open spec fn reloaded(packs: PacksModel, loaded: bool) -> (PacksModel, Option<i32>) {
    (
        PacksModel { reload_ack: false, ..packs },
        if packs.reload_ack {
            Some(
                if loaded {
                    STATUS_LOADED
                } else {
                    STATUS_FAILED
                },
            )
        } else {
            None
        },
    )
}

impl ResourcePacks {
    pub fn new(base: Option<String>, renderer_active: bool) -> (r: Self)
        ensures
            r@ == (PacksModel {
                request: None,
                prompt_open: false,
                layers: Seq::empty(),
                base: players::opt_view(base),
                cached: None,
                renderer_active,
                reload_ack: false,
            }),
    {
        let r = ResourcePacks {
            request: None,
            prompt_open: false,
            layers: Vec::new(),
            base,
            cached: None,
            renderer_active,
            reload_ack: false,
        };
        proof {
            assert(r@.layers =~= Seq::empty());
        }
        r
    }

    /// Notes what the server asks for, and asks the player.
    pub fn set_resource_pack_request(&mut self, request: ResourcePackRequest)
        ensures
            final(self)@ == (PacksModel {
                request: Some(request@),
                prompt_open: true,
                ..old(self)@
            }),
    {
        self.request = Some(request);
        self.prompt_open = true;
    }

    /// The server asks for a pack, up to protocol 764. Returns whether the
    /// packet was in order; otherwise nothing changes.
    pub fn handle_resource_pack_request(&mut self, body: &[u8]) -> (ok: bool)
        ensures
            ok == request_of(body@) is Some,
            final(self)@ == asked(old(self)@, body@),
    {
        let mut r = Reader::new(body);
        let url = match r.string(MAX_IDENTIFIER) {
            Some(v) => v,
            None => return false,
        };
        let hash = match r.string(MAX_HASH) {
            Some(v) => v,
            None => return false,
        };
        let forced: bool = match r.bool() {
            Some(v) => v,
            None => return false,
        };
        let prompt = match r.bool() {
            Some(present) => {
                if present {
                    match r.string(MAX_PROMPT) {
                        Some(json) => Some(plain_text(json.as_str())),
                        None => return false,
                    }
                } else {
                    None
                }
            },
            None => return false,
        };
        self.set_resource_pack_request(
            ResourcePackRequest { uuid: None, url, hash, forced, prompt },
        );
        true
    }

    /// The server removes a pack, or all of them, from protocol 765 on.
    /// Returns whether the packet was in order; otherwise nothing changes.
    pub fn handle_remove_resource_pack_765(&mut self, body: &[u8]) -> (ok: bool)
        ensures
            match removal_of(body@) {
                Some(removed) => ok && final(self)@ == packs_without(old(self)@, removed),
                None => !ok && *final(self) == *old(self),
            },
    {
        let mut r = Reader::new(body);
        let removed: Option<Uuid> = match r.bool() {
            Some(one) => {
                if one {
                    match r.uuid() {
                        Some(uuid) => Some(uuid),
                        None => return false,
                    }
                } else {
                    None
                }
            },
            None => return false,
        };
        drop_pack(&mut self.layers, removed);
        let cleared: bool = removed.is_none() || match &self.request {
            Some(request) => request.uuid == removed,
            None => false,
        };
        if cleared {
            self.request = None;
            self.prompt_open = false;
        }
        true
    }

    /// What has to be done to have an archive of all the packs.
    pub fn rebuild_plan(&self) -> (r: Result<Rebuild, PackError>)
        ensures
            rebuild_as(rebuild_of(self@), r),
    {
        let len: usize = self.layers.len();
        if len == 0 {
            match &self.base {
                Some(base) => Ok(Rebuild::Use(base.clone())),
                None => Ok(Rebuild::Nothing),
            }
        } else {
            match &self.base {
                Some(base) => Ok(Rebuild::Stack(base.clone(), stack_names(&self.layers))),
                None => {
                    if self.renderer_active {
                        Err(PackError::NeedsBase)
                    } else {
                        Ok(Rebuild::Use(self.layers[len - 1].archive.clone()))
                    }
                },
            }
        }
    }

    /// The archive was rebuilt after a removal: it is loaded without a report.
    pub fn finish_removal(&mut self, rebuilt: Option<String>)
        ensures
            final(self)@ == (PacksModel {
                cached: players::opt_view(rebuilt),
                reload_ack: false,
                ..old(self)@
            }),
    {
        self.cached = rebuilt;
        self.reload_ack = false;
    }

    /// Puts a pack on top, in place of an earlier one of its identity; one
    /// without an identity replaces them all. Returns the layers before.
    pub fn begin_activation(&mut self, uuid: Option<Uuid>, archive: String) -> (previous: Vec<
        ResourcePackLayer,
    >)
        ensures
            layer_views(previous@) == old(self)@.layers,
            final(self)@ == (PacksModel {
                layers: without_pack(old(self)@.layers, uuid).push((uuid, archive@)),
                ..old(self)@
            }),
    {
        let previous = copy_layers(&self.layers);
        drop_pack(&mut self.layers, uuid);
        let ghost kept = self.layers@;
        let layer = ResourcePackLayer { uuid, archive };
        self.layers.push(layer);
        proof {
            assert(layer_views(self.layers@) =~= layer_views(kept).push(layer@));
        }
        previous
    }

    /// The archive was rebuilt after a pack was put on top. Where that gave
    /// nothing to load, the layers are again those before. Returns the archive
    /// to load.
    pub fn finish_activation(
        &mut self,
        previous: Vec<ResourcePackLayer>,
        rebuilt: Result<Option<String>, PackError>,
    ) -> (r: Result<String, PackError>)
        ensures
            match rebuilt_view(rebuilt) {
                Ok(Some(place)) => r matches Ok(got) && got@ == place && final(self)@ == (
                PacksModel { reload_ack: true, ..old(self)@ }),
                Ok(None) => r == Err::<String, PackError>(PackError::EmptyStack) && final(self)@
                    == (PacksModel { layers: layer_views(previous@), ..old(self)@ }),
                Err(error) => r == Err::<String, PackError>(error) && final(self)@ == (
                PacksModel { layers: layer_views(previous@), ..old(self)@ }),
            },
    {
        match rebuilt {
            Ok(Some(place)) => {
                self.reload_ack = true;
                Ok(place)
            },
            Ok(None) => {
                self.layers = previous;
                Err(PackError::EmptyStack)
            },
            Err(error) => {
                self.layers = previous;
                Err(error)
            },
        }
    }

    /// How an accepted request ended: with an archive to load, or not. Returns
    /// the status to report; where assets are drawn, success is reported when
    /// they were loaded.
    pub fn settle(&mut self, loaded: Option<String>) -> (status: Option<i32>)
        ensures
            (final(self)@, status) == settled(old(self)@, players::opt_view(loaded)),
    {
        match loaded {
            Some(place) => {
                self.cached = Some(place);
                if self.renderer_active {
                    None
                } else {
                    Some(STATUS_LOADED)
                }
            },
            None => Some(STATUS_FAILED),
        }
    }
}

pub const STATUS_LOADED: i32 = 0;

pub const STATUS_DECLINED: i32 = 1;

pub const STATUS_FAILED: i32 = 2;

pub const STATUS_ACCEPTED: i32 = 3;

/// The first status to report of the player's decision.
pub fn decision_status(accepted: bool) -> (r: i32)
    ensures
        r == if accepted {
            STATUS_ACCEPTED
        } else {
            STATUS_DECLINED
        },
{
    if accepted {
        STATUS_ACCEPTED
    } else {
        STATUS_DECLINED
    }
}

/// How a status is reported.
#[derive(Clone, Copy, Debug, PartialEq, Eq, Structural)]
pub enum StatusForm {
    /// Without an identity.
    Plain,
    /// With the identity of the pack, as protocol 765 has it.
    Named(Uuid),
    /// With the identity of the pack, as protocol 766 has it.
    NamedSplit(Uuid),
    /// The pack has no identity, or the protocol no such report.
    Impossible,
}

/// How a status is reported in the course of play.
pub fn play_status_form(protocol: ProtocolVersion, uuid: Option<Uuid>) -> (r: StatusForm)
    ensures
        r == if !protocol.nbt_components() {
            StatusForm::Plain
        } else {
            match uuid {
                Some(uuid) => if protocol.split_registry() {
                    StatusForm::NamedSplit(uuid)
                } else {
                    StatusForm::Named(uuid)
                },
                None => StatusForm::Impossible,
            }
        },
{
    if !protocol.uses_nbt_components() {
        return StatusForm::Plain;
    }
    match uuid {
        Some(uuid) => {
            if protocol.uses_split_registry() {
                StatusForm::NamedSplit(uuid)
            } else {
                StatusForm::Named(uuid)
            }
        },
        None => StatusForm::Impossible,
    }
}

/// How a status is reported while a session is configured.
pub fn configuration_status_form(protocol: ProtocolVersion, uuid: Option<Uuid>) -> (r: StatusForm)
    ensures
        r == if protocol == ProtocolVersion::V1_20_1 {
            StatusForm::Impossible
        } else if protocol == ProtocolVersion::V1_20_2 {
            StatusForm::Plain
        } else {
            match uuid {
                Some(uuid) => StatusForm::Named(uuid),
                None => StatusForm::Impossible,
            }
        },
{
    if protocol == ProtocolVersion::V1_20_1 {
        StatusForm::Impossible
    } else if protocol == ProtocolVersion::V1_20_2 {
        StatusForm::Plain
    } else {
        match uuid {
            Some(uuid) => StatusForm::Named(uuid),
            None => StatusForm::Impossible,
        }
    }
}

proof fn lemma_without_pack(layers: Seq<LayerModel>, uuid: Option<Uuid>, layer: LayerModel)
    ensures
        without_pack(layers, uuid).contains(layer) <==> uuid is Some && layers.contains(layer)
            && layer.0 != uuid,
    decreases layers.len(),
{
    if layers.len() > 0 && uuid is Some {
        let shorter = layers.drop_last();
        lemma_without_pack(shorter, uuid, layer);
        let kept = without_pack(shorter, uuid);
        let longer = kept.push(layers.last());
        assert(longer[kept.len() as int] == layers.last());
        assert(layers[layers.len() - 1] == layers.last());
        if shorter.contains(layer) {
            let k = choose|k: int| 0 <= k < shorter.len() && shorter[k] == layer;
            assert(layers[k] == layer);
        }
        if layers.contains(layer) && layer != layers.last() {
            let k = choose|k: int| 0 <= k < layers.len() && layers[k] == layer;
            assert(shorter[k] == layer);
        }
        if kept.contains(layer) {
            let k = choose|k: int| 0 <= k < kept.len() && kept[k] == layer;
            assert(longer[k] == layer);
        }
        if longer.contains(layer) && layer != layers.last() {
            let k = choose|k: int| 0 <= k < longer.len() && longer[k] == layer;
            assert(kept[k] == layer);
        }
    }
}

/// Removing a pack leaves exactly the layers of other identities.
pub proof fn removal_leaves_the_others(packs: PacksModel, uuid: Uuid, layer: LayerModel)
    ensures
        packs_without(packs, Some(uuid)).layers.contains(layer) <==> packs.layers.contains(layer)
            && layer.0 != Some(uuid),
        packs_without(packs, None).layers.len() == 0,
        packs_without(packs, None).request is None,
{
    lemma_without_pack(packs.layers, Some(uuid), layer);
}

/// Removing a pack that was just put on top of others leaves those others.
pub proof fn removal_undoes_activation(layers: Seq<LayerModel>, uuid: Uuid, archive: Seq<char>)
    ensures
        without_pack(
            without_pack(layers, Some(uuid)).push((Some(uuid), archive)),
            Some(uuid),
        ) == without_pack(layers, Some(uuid)),
{
    let kept = without_pack(layers, Some(uuid));
    let longer = kept.push((Some(uuid), archive));
    assert(longer.drop_last() =~= kept);
    lemma_without_twice(layers, uuid);
}

proof fn lemma_without_twice(layers: Seq<LayerModel>, uuid: Uuid)
    ensures
        without_pack(without_pack(layers, Some(uuid)), Some(uuid)) == without_pack(
            layers,
            Some(uuid),
        ),
    decreases layers.len(),
{
    if layers.len() > 0 {
        lemma_without_twice(layers.drop_last(), uuid);
        let kept = without_pack(layers.drop_last(), Some(uuid));
        assert(kept.push(layers.last()).drop_last() =~= kept);
    }
}

/// Where assets are drawn, the outcome of a pack that was put on top is
/// reported once, and only when its assets were loaded or could not be; where
/// none are drawn, success is reported at once.
pub proof fn outcomes_are_reported_once(
    packs: PacksModel,
    place: Seq<char>,
    loaded: bool,
    again: bool,
)
    requires
        packs.reload_ack,
    ensures
        ({
            let (ready, at_once) = settled(packs, Some(place));
            let (drawn, later) = reloaded(ready, loaded);
            &&& packs.renderer_active ==> at_once is None && later == Some(
                if loaded {
                    STATUS_LOADED
                } else {
                    STATUS_FAILED
                },
            )
            &&& !packs.renderer_active ==> at_once == Some(STATUS_LOADED)
            &&& reloaded(drawn, again).1 is None
        }),
{
}

impl ResourcePacks {
    /// The player answered the question about a pack.
    pub fn close_prompt(&mut self)
        ensures
            final(self)@ == (PacksModel { prompt_open: false, ..old(self)@ }),
    {
        self.prompt_open = false;
    }

    /// The archive to load, where another one was loaded last.
    pub fn pending_reload(&self, applied: Option<&str>) -> (r: Option<&str>)
        ensures
            match r {
                Some(place) => self@.cached == Some(place@) && !(applied is Some && applied->0@
                    == place@),
                None => self@.cached is None || (applied is Some && self@.cached
                    == Some(applied->0@)),
            },
    {
        match &self.cached {
            Some(place) => {
                let same: bool = match applied {
                    Some(applied) => str_eq(applied, place.as_str()),
                    None => false,
                };
                if same {
                    None
                } else {
                    Some(place.as_str())
                }
            },
            None => None,
        }
    }

    /// An archive was loaded, or could not be. Returns the status to report,
    /// which is owed once.
    pub fn finish_reload(&mut self, loaded: bool) -> (status: Option<i32>)
        ensures
            (final(self)@, status) == reloaded(old(self)@, loaded),
    {
        let owed: bool = self.reload_ack;
        self.reload_ack = false;
        if owed {
            if loaded {
                Some(STATUS_LOADED)
            } else {
                Some(STATUS_FAILED)
            }
        } else {
            None
        }
    }
}

/// The numbers of requests to load assets. A request that cannot be taken has
/// none.
#[derive(Clone, Copy, Debug, PartialEq, Eq, Structural)]
pub struct Generations {
    pub next: u64,
}

impl Generations {
    pub fn new() -> (r: Self)
        ensures
            r.next == 1,
    {
        Generations { next: 1 }
    }

    pub fn request(&mut self, taken: bool) -> (r: Option<u64>)
        ensures
            taken ==> r == Some(old(self).next) && final(self).next == (if old(self).next
                == u64::MAX {
                u64::MAX as int
            } else {
                old(self).next + 1
            }),
            !taken ==> r is None && *final(self) == *old(self),
    {
        if taken {
            let generation: u64 = self.next;
            if self.next < u64::MAX {
                self.next = self.next + 1;
            }
            Some(generation)
        } else {
            None
        }
    }
}

/// A request has its address, its digest, whether it is forced and, behind a flag, what to
/// ask the player, in this order, and opens the question.
pub proof fn requests_are_read_in_order(
    packs: PacksModel,
    body: Seq<u8>,
    url: Seq<char>,
    r1: Seq<u8>,
    hash: Seq<char>,
    r2: Seq<u8>,
    json: Seq<char>,
)
    requires
        wire::take_string(body, 32767) == (Some(url), r1),
        wire::take_string(r1, 40) == (Some(hash), r2),
        r2.len() >= 2,
        r2[1] != 0 ==> wire::take_string(r2.subrange(2, r2.len() as int), 262144).0 == Some(json),
    ensures
        request_of(body) matches Some(request) && {
            &&& request.url == url
            &&& request.hash == hash
            &&& request.forced == (r2[0] != 0)
            &&& request.uuid is None
            &&& r2[1] == 0 ==> request.prompt is None
            &&& r2[1] != 0 ==> request.prompt == Some(component::plain_json(json))
            &&& asked(packs, body).request == Some(request)
        },
        asked(packs, body).prompt_open,
        asked(packs, body).layers == packs.layers,
        asked(packs, body).cached == packs.cached,
        asked(packs, body).base == packs.base,
        asked(packs, body).reload_ack == packs.reload_ack,
        asked(packs, body).renderer_active == packs.renderer_active,
{
    let n = r2.len() as int;
    assert(r2.subrange(1, n).subrange(1, n - 1) =~= r2.subrange(2, n));
}

/// A removal names its pack behind a flag; without one it removes all.
pub proof fn removals_name_their_pack(body: Seq<u8>, uuid: Uuid)
    requires
        body.len() > 0,
    ensures
        body[0] == 0 ==> removal_of(body) == Some(None::<Uuid>),
        body[0] != 0 && wire::take_uuid(body.subrange(1, body.len() as int)).0 == Some(uuid)
            ==> removal_of(body) == Some(Some(uuid)),
{
}

/// The layers that stay keep their order, and a request for the removed pack is dropped
/// with its question; any other stays open.
pub proof fn removals_drop_their_request(
    packs: PacksModel,
    uuid: Uuid,
    layers: Seq<LayerModel>,
    layer: LayerModel,
)
    ensures
        ({
            let after = packs_without(packs, Some(uuid));
            let same = packs.request is Some && packs.request->0.uuid == Some(uuid);
            &&& same ==> after.request is None && !after.prompt_open
            &&& !same ==> after.request == packs.request && after.prompt_open == packs.prompt_open
            &&& after.cached == packs.cached && after.base == packs.base && after.reload_ack
                == packs.reload_ack
        }),
        !packs_without(packs, None).prompt_open,
        layer.0 != Some(uuid) ==> without_pack(layers.push(layer), Some(uuid)) == without_pack(
            layers,
            Some(uuid),
        ).push(layer),
        layer.0 == Some(uuid) ==> without_pack(layers.push(layer), Some(uuid)) == without_pack(
            layers,
            Some(uuid),
        ),
{
    assert(layers.push(layer).drop_last() =~= layers);
}

/// Without packs the assets of the game are loaded; packs are laid over those, and without
/// them the topmost is used as it is where nothing is drawn, and refused where it is.
pub proof fn packs_are_laid_over_the_base(packs: PacksModel, base: Seq<char>)
    ensures
        packs.layers.len() == 0 && packs.base == Some(base) ==> rebuild_of(packs)
            == Ok::<RebuildModel, PackError>(RebuildModel::Use(base)),
        packs.layers.len() == 0 && packs.base is None ==> rebuild_of(packs)
            == Ok::<RebuildModel, PackError>(RebuildModel::Nothing),
        packs.layers.len() > 0 && packs.base == Some(base) ==> (rebuild_of(packs) matches Ok(
            RebuildModel::Stack(below, names),
        ) && below == base && names.len() == packs.layers.len()),
        packs.layers.len() > 0 && packs.base is None && packs.renderer_active ==> rebuild_of(packs)
            == Err::<RebuildModel, PackError>(PackError::NeedsBase),
        packs.layers.len() > 0 && packs.base is None && !packs.renderer_active ==> rebuild_of(packs)
            == Ok::<RebuildModel, PackError>(
            RebuildModel::Use(packs.layers[packs.layers.len() - 1].1),
        ),
{
}

/// The name of an archive comes from the digest of the places of all its layers, in order,
/// and from the number of the layer.
pub proof fn archives_are_named_by_their_layers(layers: Seq<LayerModel>, last: LayerModel, i: int)
    ensures
        place_bytes(layers.push(last)) == place_bytes(layers) + vstd::utf8::encode_utf8(last.1),
        place_bytes(Seq::empty()) == Seq::<u8>::empty(),
        stack_name(layers, i) == "stack-"@ + hash::hex(hash::sha1_of(place_bytes(layers))) + "-"@
            + text::decimal(i) + ".zip"@,
{
    assert(layers.push(last).drop_last() =~= layers);
}

/// An archive that is to be loaded is kept as such, and reported as loaded at once where
/// nothing is drawn; where there is none, the request failed and nothing changes. A reload
/// reports what became of it, where that is owed.
pub proof fn outcomes_have_a_status(packs: PacksModel, place: Seq<char>, loaded: bool)
    ensures
        settled(packs, Some(place)).0.cached == Some(place),
        settled(packs, Some(place)).0.layers == packs.layers,
        settled(packs, Some(place)).0.reload_ack == packs.reload_ack,
        packs.renderer_active ==> settled(packs, Some(place)).1 is None,
        !packs.renderer_active ==> settled(packs, Some(place)).1 == Some(0i32),
        settled(packs, None) == (packs, Some(2i32)),
        packs.reload_ack && loaded ==> reloaded(packs, loaded).1 == Some(0i32),
        packs.reload_ack && !loaded ==> reloaded(packs, loaded).1 == Some(2i32),
        !packs.reload_ack ==> reloaded(packs, loaded) == (packs, None::<i32>),
        !reloaded(packs, loaded).0.reload_ack,
        reloaded(packs, loaded).0.cached == packs.cached,
        reloaded(packs, loaded).0.layers == packs.layers,
        STATUS_DECLINED == 1,
        STATUS_ACCEPTED == 3,
{
}

/// The packs and what is asked for stand for their parts, the layers in order.
pub proof fn packs_stand_for_their_parts(
    packs: ResourcePacks,
    request: ResourcePackRequest,
    i: int,
)
    ensures
        request@.uuid == request.uuid,
        request@.url == request.url@,
        request@.hash == request.hash@,
        request@.forced == request.forced,
        request.prompt matches Some(prompt) ==> request@.prompt == Some(prompt@),
        request.prompt is None ==> request@.prompt is None,
        packs.request matches Some(asked) ==> packs@.request == Some(asked@),
        packs.request is None ==> packs@.request is None,
        packs@.prompt_open == packs.prompt_open,
        packs@.renderer_active == packs.renderer_active,
        packs@.reload_ack == packs.reload_ack,
        packs.base matches Some(place) ==> packs@.base == Some(place@),
        packs.base is None ==> packs@.base is None,
        packs.cached matches Some(place) ==> packs@.cached == Some(place@),
        packs.cached is None ==> packs@.cached is None,
        packs@.layers.len() == packs.layers@.len(),
        0 <= i < packs.layers@.len() ==> packs@.layers[i] == (
            packs.layers@[i].uuid,
            packs.layers@[i].archive@,
        ),
{
}

/// An accepted pack is reported by 3 and a declined one by 1.
pub proof fn decisions_have_a_status(accepted: bool, status: i32)
    requires
        call_ensures(decision_status, (accepted,), status),
    ensures
        accepted ==> status == 3,
        !accepted ==> status == 1,
{
}

/// Reports name their pack from protocol 765 on, and in play in another form from 766 on;
/// there is none for a pack without an identity then, nor while the oldest version is
/// configured.
pub proof fn reports_name_their_pack(
    protocol: ProtocolVersion,
    uuid: Uuid,
    play: StatusForm,
    play_nameless: StatusForm,
    configuration: StatusForm,
    configuration_nameless: StatusForm,
)
    requires
        call_ensures(play_status_form, (protocol, Some(uuid)), play),
        call_ensures(play_status_form, (protocol, None::<Uuid>), play_nameless),
        call_ensures(configuration_status_form, (protocol, Some(uuid)), configuration),
        call_ensures(configuration_status_form, (protocol, None::<Uuid>), configuration_nameless),
    ensures
        protocol.number() < 765 ==> play == StatusForm::Plain && play_nameless == StatusForm::Plain,
        protocol.number() == 765 ==> play == StatusForm::Named(uuid),
        protocol.number() >= 766 ==> play == StatusForm::NamedSplit(uuid),
        protocol.number() >= 765 ==> play_nameless == StatusForm::Impossible && configuration
            == StatusForm::Named(uuid) && configuration_nameless == StatusForm::Impossible,
        protocol.number() == 764 ==> configuration == StatusForm::Plain && configuration_nameless
            == StatusForm::Plain,
        protocol.number() == 763 ==> configuration == StatusForm::Impossible
            && configuration_nameless == StatusForm::Impossible,
{
}

/// Answering closes the question and keeps the request; a removal is loaded without a
/// report, and a pack that is put on top replaces its earlier one and stands last.
pub proof fn packs_change_by_their_steps(
    packs: &mut ResourcePacks,
    rebuilt: Option<String>,
    uuid: Option<Uuid>,
    archive: String,
    previous: Vec<ResourcePackLayer>,
)
    ensures
        call_ensures(ResourcePacks::close_prompt, (packs,), ()) ==> !final(packs)@.prompt_open
            && final(packs)@.request == old(packs)@.request && final(packs)@.layers
            == old(packs)@.layers,
        call_ensures(ResourcePacks::finish_removal, (packs, rebuilt), ()) ==> {
            &&& !final(packs)@.reload_ack
            &&& final(packs)@.cached == players::opt_view(rebuilt)
            &&& final(packs)@.layers == old(packs)@.layers
            &&& final(packs)@.request == old(packs)@.request
        },
        call_ensures(ResourcePacks::begin_activation, (packs, uuid, archive), previous) ==> {
            let layers = final(packs)@.layers;
            &&& layer_views(previous@) == old(packs)@.layers
            &&& layers.len() > 0
            &&& layers.last() == (uuid, archive@)
            &&& layers.drop_last() == without_pack(old(packs)@.layers, uuid)
            &&& final(packs)@.cached == old(packs)@.cached
        },
{
    if call_ensures(ResourcePacks::begin_activation, (packs, uuid, archive), previous) {
        let below = without_pack(old(packs)@.layers, uuid);
        assert(below.push((uuid, archive@)).drop_last() =~= below);
    }
}

/// A pack that could not be laid on top leaves the layers as they were; one that could is
/// reported once it is loaded.
pub proof fn failed_packs_leave_the_layers(
    packs: &mut ResourcePacks,
    previous: Vec<ResourcePackLayer>,
    place: String,
    error: PackError,
    outcome: Result<String, PackError>,
)
    ensures
        call_ensures(
            ResourcePacks::finish_activation,
            (packs, previous, Err::<Option<String>, PackError>(error)),
            outcome,
        ) ==> outcome == Err::<String, PackError>(error) && final(packs)@.layers == layer_views(
            previous@,
        ) && final(packs)@.reload_ack == old(packs)@.reload_ack,
        call_ensures(
            ResourcePacks::finish_activation,
            (packs, previous, Ok::<Option<String>, PackError>(None)),
            outcome,
        ) ==> outcome == Err::<String, PackError>(PackError::EmptyStack) && final(packs)@.layers
            == layer_views(previous@),
        call_ensures(
            ResourcePacks::finish_activation,
            (packs, previous, Ok::<Option<String>, PackError>(Some(place))),
            outcome,
        ) ==> outcome is Ok && outcome->Ok_0@ == place@ && final(packs)@.reload_ack
            && final(packs)@.layers == old(packs)@.layers,
{
}

/// Requests to load assets are numbered one after the other, and those that are not taken
/// use no number.
pub proof fn requests_are_numbered(
    generations: &mut Generations,
    taken: bool,
    number: Option<u64>,
)
    requires
        call_ensures(Generations::request, (generations, taken), number),
        old(generations).next < u64::MAX,
    ensures
        taken ==> number == Some(old(generations).next) && final(generations).next
            == old(generations).next + 1,
        !taken ==> number is None && final(generations).next == old(generations).next,
{
}

/// What is to be done is told as it was found: an archive to use by its place, layers with
/// what they lie on and the names of what they give, and an error as such.
pub proof fn plans_are_told(packs: &ResourcePacks, plan: Result<Rebuild, PackError>)
    requires
        call_ensures(ResourcePacks::rebuild_plan, (packs,), plan),
    ensures
        rebuild_of(packs@) matches Err(error) ==> plan == Err::<Rebuild, PackError>(error),
        rebuild_of(packs@) == Ok::<RebuildModel, PackError>(RebuildModel::Nothing) ==> plan == Ok::<
            Rebuild,
            PackError,
        >(Rebuild::Nothing),
        rebuild_of(packs@) matches Ok(RebuildModel::Use(place)) ==> (plan matches Ok(
            Rebuild::Use(told),
        ) && told@ == place),
        rebuild_of(packs@) matches Ok(RebuildModel::Stack(base, names)) ==> (plan matches Ok(
            Rebuild::Stack(below, told),
        ) && below@ == base && told@.len() == names.len() && forall|i: int|
            0 <= i < names.len() ==> (#[trigger] told@[i])@ == names[i]),
{
    match rebuild_of(packs@) {
        Ok(RebuildModel::Stack(base, names)) => {
            match plan {
                Ok(Rebuild::Stack(below, told)) => {
                    assert forall|i: int| 0 <= i < names.len() implies (#[trigger] told@[i])@
                        == names[i] by {
                        assert(name_views(told@)[i] == told@[i]@);
                    }
                },
                _ => {},
            }
        },
        _ => {},
    }
}

/// A request that breaks off is none.
pub proof fn broken_requests_are_ignored(
    packs: PacksModel,
    body: Seq<u8>,
    url: Seq<char>,
    rest: Seq<u8>,
)
    ensures
        wire::take_string(body, 32767).0 is None ==> asked(packs, body) == packs,
        wire::take_string(body, 32767) == (Some(url), rest) && wire::take_string(rest, 40).0 is None
            ==> asked(packs, body) == packs,
        body.len() == 0 ==> removal_of(body) is None,
{
}

} // verus!
