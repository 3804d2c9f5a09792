//! How entities are drawn: what they look like, and which motions begin.

use vstd::prelude::*;

use crate::entities::{Entities, Entity};

verus! {

/// What is drawn for an entity.
#[derive(Clone, Copy, Debug, PartialEq, Eq, Structural)]
pub enum Looks {
    /// The block that falls, as large as it is.
    Block,
    /// A dropped item in the shape of its block.
    ItemBlock,
    /// A dropped item as its icon.
    ItemIcon,
    /// The model of its kind, or a box where there is none.
    Body(bool),
    /// Only what it wears.
    Hidden,
}

/// What is known of the item that an entity is.
#[derive(Clone, Copy, Debug, PartialEq, Eq, Structural)]
pub struct ItemLook {
    pub is_block: bool,
    pub has_icon: bool,
}

pub open spec fn body_of(entity: Entity, has_model: bool) -> Looks {
    if entity.invisible && !entity.glowing {
        Looks::Hidden
    } else {
        Looks::Body(has_model)
    }
}

/// The looks of an entity. The block and the item count where they are known.
pub open spec fn looks_of(
    entity: Entity,
    knows_block: bool,
    item: Option<ItemLook>,
    has_model: bool,
) -> Looks {
    if entity.block_state is Some && knows_block {
        Looks::Block
    } else if entity.item is Some && item is Some && item->0.is_block {
        Looks::ItemBlock
    } else if entity.item is Some && item is Some && item->0.has_icon {
        Looks::ItemIcon
    } else {
        body_of(entity, has_model)
    }
}

pub fn looks(entity: &Entity, knows_block: bool, item: Option<ItemLook>, has_model: bool) -> (r:
    Looks)
    ensures
        r == looks_of(*entity, knows_block, item, has_model),
{
    if entity.block_state.is_some() && knows_block {
        return Looks::Block;
    }
    if entity.item.is_some() {
        match item {
            Some(item) => {
                if item.is_block {
                    return Looks::ItemBlock;
                }
                if item.has_icon {
                    return Looks::ItemIcon;
                }
            },
            None => {},
        }
    }
    if entity.invisible && !entity.glowing {
        Looks::Hidden
    } else {
        Looks::Body(has_model)
    }
}

/// An invisible entity shows nothing of its body, unless it glows.
pub proof fn invisible_entities_are_hidden(
    entity: Entity,
    knows_block: bool,
    item: Option<ItemLook>,
    has_model: bool,
)
    requires
        entity.invisible,
        !entity.glowing,
    ensures
        !(looks_of(entity, knows_block, item, has_model) is Body),
{
}

/// The motions of an entity that were drawn last.
#[derive(Clone, Copy, Debug, PartialEq, Eq, Structural)]
pub struct Motions {
    pub swing: u64,
    pub hurt: u64,
}

pub open spec fn motions_of(entity: Entity) -> Motions {
    Motions { swing: entity.swing_sequence, hurt: entity.hurt_sequence }
}

impl Motions {
    pub fn of(entity: &Entity) -> (r: Self)
        ensures
            r == motions_of(*entity),
    {
        Motions { swing: entity.swing_sequence, hurt: entity.hurt_sequence }
    }

    /// Whether a swing begins, and whether a flinch does: where the entity made
    /// another one since.
    pub fn step(&mut self, entity: &Entity) -> (begun: (bool, bool))
        ensures
            *final(self) == motions_of(*entity),
            begun.0 == (old(self).swing != entity.swing_sequence),
            begun.1 == (old(self).hurt != entity.hurt_sequence),
    {
        let now = Motions::of(entity);
        let begun = (self.swing != now.swing, self.hurt != now.hurt);
        *self = now;
        begun
    }
}

impl Entities {
    /// The vehicle on whose seat an entity is drawn, where it is known.
    pub open spec fn mount(&self, entity: Entity) -> Option<Entity> {
        match entity.vehicle {
            Some(id) => if self.entities@.dom().contains(id) {
                Some(self.entities@[id])
            } else {
                None
            },
            None => None,
        }
    }

    pub fn mount_of(&self, entity: &Entity) -> (r: Option<&Entity>)
        requires
            self.wf(),
        ensures
            match r {
                Some(vehicle) => self.mount(*entity) == Some(*vehicle),
                None => self.mount(*entity) is None,
            },
    {
        match entity.vehicle {
            Some(id) => self.entities.get(&id),
            None => None,
        }
    }
}

/// A falling block is drawn as its block, a dropped item as its block or else its icon,
/// and anything else with its body, unless it is invisible and does not glow.
pub proof fn entities_look_like_what_they_are(
    entity: Entity,
    knows_block: bool,
    item: Option<ItemLook>,
    has_model: bool,
)
    ensures
        ({
            let shown = looks_of(entity, knows_block, item, has_model);
            let falls = entity.block_state is Some && knows_block;
            let lies = entity.item is Some && item is Some && (item->0.is_block
                || item->0.has_icon);
            &&& shown is Block <==> falls
            &&& shown is ItemBlock <==> !falls && lies && item->0.is_block
            &&& shown is ItemIcon <==> !falls && lies && !item->0.is_block
            &&& shown is Hidden <==> !falls && !lies && entity.invisible && !entity.glowing
            &&& shown is Body <==> !falls && !lies && (!entity.invisible || entity.glowing)
            &&& shown matches Looks::Body(model) ==> model == has_model
        }),
{
}

/// An entity that rides is drawn on its vehicle where that is known.
pub proof fn riders_sit_on_their_vehicle(entities: &Entities, entity: Entity)
    ensures
        entity.vehicle is None ==> entities.mount(entity) is None,
        entity.vehicle matches Some(id) ==> (entities.mount(entity) is Some
            <==> entities.entities@.dom().contains(id)),
        entities.mount(entity) matches Some(mount) ==> mount == entities.entities@[entity.vehicle->0],
        motions_of(entity).swing == entity.swing_sequence,
        motions_of(entity).hurt == entity.hurt_sequence,
{
}

/// A swing begins where an entity swung since it was drawn last, and a flinch where it was
/// hurt since.
pub proof fn motions_begin_once(motions: &mut Motions, entity: &Entity, begun: (bool, bool))
    requires
        call_ensures(Motions::step, (motions, entity), begun),
    ensures
        begun.0 <==> entity.swing_sequence != old(motions).swing,
        begun.1 <==> entity.hurt_sequence != old(motions).hurt,
        final(motions).swing == entity.swing_sequence,
        final(motions).hurt == entity.hurt_sequence,
{
}

} // verus!
