//! The analyser's state and the decisions it takes on each event of a demo.

use std::collections::{HashMap, HashSet};

use vstd::prelude::*;
use vstd::string::StringExecFns;

use crate::laws::{lands, lemma_ground_kept_without_landing};
use crate::dedup::{deduplicate, is_deduplication_of, survives};
use crate::highlight::{Height, Highlight, HighlightKind, HighlightView};
use crate::userinfo::{
    bytes_view, entity_text_overflows, entry_names_entity, parse_user_info, text_overflows_entity, text_view,
    user_info_entry,
};
use crate::text::{decimal, str_equal, u16_decimal};
use crate::weapons::{
    is_hitscan_class_name, is_hitscan_weapon_class, is_projectile_weapon,
    is_projectile_weapon_name,
};

verus! {

broadcast use vstd::std_specs::hash::group_hash_axioms;

/// Custom kill type of a headshot (sniper rifle).
pub const TF_CUSTOM_HEADSHOT: u16 = 1;

/// Player flag that is set while the player touches the ground.
pub const FL_ONGROUND: u32 = 1;

/// The bits of an entity handle that hold the entity index.
pub const ENTITY_HANDLE_INDEX_MASK: u32 = 0x7FF;

/// The name shown for a player whose user info was never seen: `<#id>`.
pub open spec fn placeholder_name(user_id: u16) -> Seq<char> {
    seq!['<', '#'] + decimal(user_id as nat) + seq!['>']
}

/// The name `<#id>` for a player whose user info was not seen.
fn placeholder(user_id: u16) -> (name: String)
    ensures
        name@ == placeholder_name(user_id),
{
    let digits = u16_decimal(user_id);
    let mut name = "<#".to_owned();
    name.append(digits.as_str());
    name.append(">");
    proof {
        reveal_strlit("<#");
        reveal_strlit(">");
        assert(name@ =~= placeholder_name(user_id));
    }
    name
}

/// A height is known and reaches the airshot minimum.
pub open spec fn reaches_airshot_min(height: Option<Height>) -> bool {
    match height {
        Some(h) => h.reaches_airshot_min,
        None => false,
    }
}

/// The flags are known and have the on-ground flag.
pub open spec fn on_ground_flags(flags: Option<i64>) -> bool {
    match flags {
        Some(f) => (f as u32) & FL_ONGROUND != 0,
        None => false,
    }
}

/// The server class name of player entities.
pub open spec fn is_player_class_name(class: Seq<char>) -> bool {
    class == "CTFPlayer"@
}

/// The properties of a player entity that an update may carry: the Z
/// coordinate of its origin (as the bit pattern of the `f32` value), its
/// flags, and the handle of its active weapon. Each is `None` when the update
/// does not carry it.
pub struct PlayerProps {
    pub origin_z: Option<u32>,
    pub flags: Option<i64>,
    pub active_weapon_handle: Option<i64>,
}

/// One entity of an entity update message: its index, the name of its server
/// class, and the player properties the update carries (none for entities
/// that are not players).
pub struct EntityUpdate<'a> {
    pub entity: u32,
    pub class_name: &'a str,
    pub props: PlayerProps,
}

/// The entities of `updates` whose class is a listed hitscan weapon class.
pub open spec fn hitscan_entities_of(updates: Seq<EntityUpdate>) -> Set<u32> {
    Set::new(
        |e: u32|
            exists|k: int|
                0 <= k < updates.len() && #[trigger] updates[k].entity == e
                    && is_hitscan_class_name(updates[k].class_name@),
    )
}

/// Some update of `updates` is a player update of entity `e`.
pub open spec fn updates_player(updates: Seq<EntityUpdate>, e: u32) -> bool {
    exists|k: int|
        0 <= k < updates.len() && #[trigger] updates[k].entity == e && is_player_class_name(
            updates[k].class_name@,
        )
}

/// Two maps hold the same entry, or none, for `e`.
pub open spec fn agree_at(m1: Map<u32, u32>, m2: Map<u32, u32>, e: u32) -> bool {
    &&& m1.contains_key(e) == m2.contains_key(e)
    &&& m1.contains_key(e) ==> m1[e] == m2[e]
}

/// The entity state that entity updates change: flags, origin Z, ground Z and
/// active weapon of player entities, and the known hitscan weapon entities.
#[verifier::ext_equal]
pub struct EntityTracking {
    pub flags: Map<u32, u32>,
    pub origin_z: Map<u32, u32>,
    pub ground_z: Map<u32, u32>,
    pub active_weapon: Map<u32, u32>,
    pub hitscan_weapons: Set<u32>,
}

/// The entity state after one update of `entity`, of server class `class`,
/// carrying `props`. A hitscan weapon class joins the hitscan weapons. A
/// player takes the origin Z, flags and active weapon (the index bits of the
/// handle) that the update carries; when the flags say it is on the ground,
/// its ground Z becomes its latest known origin Z.
pub open spec fn observe_step(
    s: EntityTracking,
    entity: u32,
    class: Seq<char>,
    props: PlayerProps,
) -> EntityTracking {
    let hitscan_weapons = if is_hitscan_class_name(class) {
        s.hitscan_weapons.insert(entity)
    } else {
        s.hitscan_weapons
    };
    if !is_player_class_name(class) {
        EntityTracking { hitscan_weapons, ..s }
    } else {
        let origin_z = match props.origin_z {
            Some(z) => s.origin_z.insert(entity, z),
            None => s.origin_z,
        };
        let flags = match props.flags {
            Some(f) => s.flags.insert(entity, f as u32),
            None => s.flags,
        };
        let ground_z = if on_ground_flags(props.flags) && origin_z.contains_key(entity) {
            s.ground_z.insert(entity, origin_z[entity])
        } else {
            s.ground_z
        };
        let active_weapon = match props.active_weapon_handle {
            Some(h) => s.active_weapon.insert(entity, (h as u32) & ENTITY_HANDLE_INDEX_MASK),
            None => s.active_weapon,
        };
        EntityTracking { flags, origin_z, ground_z, active_weapon, hitscan_weapons }
    }
}

/// The entity state after the updates of `updates`, taken in order.
pub open spec fn after_updates(s: EntityTracking, updates: Seq<EntityUpdate>) -> EntityTracking
    decreases updates.len(),
{
    if updates.len() == 0 {
        s
    } else {
        let u = updates.last();
        observe_step(after_updates(s, updates.drop_last()), u.entity, u.class_name@, u.props)
    }
}

/// Records highlights from the events of a demo, tracking the entity state
/// that decides them.
pub struct HighlightAnalyser {
    pub highlights: Vec<Highlight>,
    /// Player names by user id, from the user info string table.
    pub players: HashMap<u16, String>,
    /// The flags of each player entity, from entity updates.
    pub entity_flags: HashMap<u32, u32>,
    /// The entity index of each user id, from the user info string table.
    pub user_to_entity: HashMap<u16, u32>,
    /// The current origin Z of each player entity (bit pattern of the `f32`).
    pub entity_origin_z: HashMap<u32, u32>,
    /// The origin Z of each player entity when it last touched the ground
    /// (bit pattern of the `f32`).
    pub entity_ground_z: HashMap<u32, u32>,
    /// Entities whose server class is a listed hitscan weapon class.
    pub hitscan_weapon_entities: HashSet<u32>,
    /// The active weapon entity of each player entity.
    pub player_active_weapon: HashMap<u32, u32>,
}

/// `new_hs` is `old_hs` with the highlight `outcome` describes appended, or
/// `old_hs` unchanged when there is none.
pub open spec fn appends(
    old_hs: Seq<Highlight>,
    new_hs: Seq<Highlight>,
    outcome: Option<HighlightView>,
) -> bool {
    match outcome {
        None => new_hs == old_hs,
        Some(v) => {
            &&& new_hs.len() == old_hs.len() + 1
            &&& new_hs.take(old_hs.len() as int) == old_hs
            &&& new_hs.last()@ == v
        },
    }
}

impl HighlightAnalyser {
    /// No highlight recorded and nothing tracked.
    pub open spec fn is_fresh(&self) -> bool {
        &&& self.highlights@.len() == 0
        &&& self.players@ == Map::<u16, String>::empty()
        &&& self.entity_flags@ == Map::<u32, u32>::empty()
        &&& self.user_to_entity@ == Map::<u16, u32>::empty()
        &&& self.entity_origin_z@ == Map::<u32, u32>::empty()
        &&& self.entity_ground_z@ == Map::<u32, u32>::empty()
        &&& self.hitscan_weapon_entities@ == Set::<u32>::empty()
        &&& self.player_active_weapon@ == Map::<u32, u32>::empty()
    }

    /// `self` and `other` track the same players and entities.
    pub open spec fn same_tracking(&self, other: &Self) -> bool {
        &&& self.players@ == other.players@
        &&& self.entity_flags@ == other.entity_flags@
        &&& self.user_to_entity@ == other.user_to_entity@
        &&& self.entity_origin_z@ == other.entity_origin_z@
        &&& self.entity_ground_z@ == other.entity_ground_z@
        &&& self.hitscan_weapon_entities@ == other.hitscan_weapon_entities@
        &&& self.player_active_weapon@ == other.player_active_weapon@
    }

    /// `self` is `old` having taken in the user info `entry`, if any: the
    /// player's name and entity recorded by user id; nothing else changed.
    pub open spec fn took_user_entry(&self, old: &Self, entry: Option<(u16, Seq<char>, u32)>) -> bool {
        &&& self.highlights@ == old.highlights@
        &&& match entry {
            None => self.same_tracking(old),
            Some((user_id, name, entity)) => {
                &&& self.players@ == old.players@.insert(user_id, self.players@[user_id])
                &&& self.players@[user_id]@ == name
                &&& self.user_to_entity@ == old.user_to_entity@.insert(user_id, entity)
                &&& self.entity_flags@ == old.entity_flags@
                &&& self.entity_origin_z@ == old.entity_origin_z@
                &&& self.entity_ground_z@ == old.entity_ground_z@
                &&& self.hitscan_weapon_entities@ == old.hitscan_weapon_entities@
                &&& self.player_active_weapon@ == old.player_active_weapon@
            },
        }
    }

    /// The entity state that `self` tracks.
    pub open spec fn tracking(&self) -> EntityTracking {
        EntityTracking {
            flags: self.entity_flags@,
            origin_z: self.entity_origin_z@,
            ground_z: self.entity_ground_z@,
            active_weapon: self.player_active_weapon@,
            hitscan_weapons: self.hitscan_weapon_entities@,
        }
    }

    /// `self` and `other` track the same flags, origins, ground origins and
    /// active weapon for entity `e`.
    pub open spec fn player_state_agrees_at(&self, other: &Self, e: u32) -> bool {
        &&& agree_at(self.entity_flags@, other.entity_flags@, e)
        &&& agree_at(self.entity_origin_z@, other.entity_origin_z@, e)
        &&& agree_at(self.entity_ground_z@, other.entity_ground_z@, e)
        &&& agree_at(self.player_active_weapon@, other.player_active_weapon@, e)
    }

    /// The name shown for `user_id`: the player's name if known, else `<#id>`.
    pub open spec fn resolved_name(&self, user_id: u16) -> Seq<char> {
        if self.players@.contains_key(user_id) {
            self.players@[user_id]@
        } else {
            placeholder_name(user_id)
        }
    }

    /// The entity of `user_id`, if known.
    pub open spec fn entity_of(&self, user_id: u16) -> Option<u32> {
        if self.user_to_entity@.contains_key(user_id) {
            Some(self.user_to_entity@[user_id])
        } else {
            None
        }
    }

    /// The flags of `entity` are known and do not have the on-ground flag.
    pub open spec fn entity_airborne(&self, entity: u32) -> bool {
        self.entity_flags@.contains_key(entity) && self.entity_flags@[entity] & FL_ONGROUND == 0
    }

    /// The player `user_id` is known to be off the ground; unknown players
    /// count as grounded.
    pub open spec fn user_airborne(&self, user_id: u16) -> bool {
        match self.entity_of(user_id) {
            Some(e) => self.entity_airborne(e),
            None => false,
        }
    }

    /// The player `user_id` is known to hold a listed hitscan weapon class;
    /// an unknown player or weapon counts as not hitscan.
    pub open spec fn user_holds_hitscan(&self, user_id: u16) -> bool {
        match self.entity_of(user_id) {
            Some(e) => self.player_active_weapon@.contains_key(e)
                && self.hitscan_weapon_entities@.contains(self.player_active_weapon@[e]),
            None => false,
        }
    }

    /// The current and the last ground origin Z of `entity`, when both are known.
    pub open spec fn height_operands_of(&self, entity: u32) -> Option<(u32, u32)> {
        if self.entity_origin_z@.contains_key(entity) && self.entity_ground_z@.contains_key(
            entity,
        ) {
            Some((self.entity_origin_z@[entity], self.entity_ground_z@[entity]))
        } else {
            None
        }
    }

    /// The current and ground origin Z of the entity of `user_id`, when the
    /// entity and both origins are known.
    pub open spec fn victim_operands(&self, user_id: u16) -> Option<(u32, u32)> {
        match self.entity_of(user_id) {
            Some(e) => self.height_operands_of(e),
            None => None,
        }
    }

    /// The highlight that a kill or hit with these properties gives, if any:
    /// none for a self-hit; a headshot when the custom kill type says so; else
    /// an airshot when the victim is airborne, the weapon is a projectile
    /// weapon and the height reaches the airshot minimum.
    pub open spec fn detect_outcome(
        &self,
        tick: u32,
        attacker: u16,
        user_id: u16,
        weapon: Seq<char>,
        custom_kill: u16,
        is_airborne: bool,
        lethal: bool,
        height: Option<Height>,
    ) -> Option<HighlightView> {
        if attacker == user_id {
            None
        } else if custom_kill == TF_CUSTOM_HEADSHOT {
            Some(
                HighlightView {
                    tick,
                    kind: HighlightKind::Headshot,
                    killer: self.resolved_name(attacker),
                    victim: self.resolved_name(user_id),
                    victim_user_id: user_id,
                    weapon,
                    lethal,
                    height: None,
                    damage: None,
                },
            )
        } else if is_airborne && is_projectile_weapon_name(weapon) && reaches_airshot_min(height) {
            Some(
                HighlightView {
                    tick,
                    kind: HighlightKind::Airshot,
                    killer: self.resolved_name(attacker),
                    victim: self.resolved_name(user_id),
                    victim_user_id: user_id,
                    weapon,
                    lethal,
                    height,
                    damage: None,
                },
            )
        } else {
            None
        }
    }

    /// The highlight that a non-lethal hit gives, if any: an airshot when it is
    /// no self-hit, the victim is airborne, the attacker is not known to hold a
    /// hitscan weapon, and the height reaches the airshot minimum.
    pub open spec fn non_lethal_outcome(
        &self,
        tick: u32,
        attacker: u16,
        user_id: u16,
        damage: u16,
        height: Option<Height>,
    ) -> Option<HighlightView> {
        if attacker != user_id && self.user_airborne(user_id) && !self.user_holds_hitscan(
            attacker,
        ) && reaches_airshot_min(height) {
            Some(
                HighlightView {
                    tick,
                    kind: HighlightKind::Airshot,
                    killer: self.resolved_name(attacker),
                    victim: self.resolved_name(user_id),
                    victim_user_id: user_id,
                    weapon: Seq::empty(),
                    lethal: false,
                    height,
                    damage: Some(damage),
                },
            )
        } else {
            None
        }
    }

    /// An analyser with no highlight and nothing tracked.
    pub fn new() -> (a: Self)
        ensures
            a.is_fresh(),
    {
        HighlightAnalyser {
            highlights: Vec::new(),
            players: HashMap::new(),
            entity_flags: HashMap::new(),
            user_to_entity: HashMap::new(),
            entity_origin_z: HashMap::new(),
            entity_ground_z: HashMap::new(),
            hitscan_weapon_entities: HashSet::new(),
            player_active_weapon: HashMap::new(),
        }
    }

    /// The name of `user_id`, or `<#id>` for a player whose user info was not seen.
    pub fn resolve_name(&self, user_id: u16) -> (name: String)
        ensures
            name@ == self.resolved_name(user_id),
    {
        match self.players.get(&user_id) {
            Some(name) => name.clone(),
            None => placeholder(user_id),
        }
    }

    /// The entity of `user_id`, if known.
    pub fn entity_of_user(&self, user_id: u16) -> (e: Option<u32>)
        ensures
            e == self.entity_of(user_id),
    {
        match self.user_to_entity.get(&user_id) {
            Some(e) => Some(*e),
            None => None,
        }
    }

    /// Whether the player `user_id` is known to be off the ground.
    pub fn victim_is_airborne(&self, user_id: u16) -> (b: bool)
        ensures
            b == self.user_airborne(user_id),
    {
        match self.entity_of_user(user_id) {
            Some(e) => match self.entity_flags.get(&e) {
                Some(flags) => *flags & FL_ONGROUND == 0,
                None => false,
            },
            None => false,
        }
    }

    /// Whether the player `user_id` is known to hold a listed hitscan weapon.
    pub fn attacker_holds_hitscan(&self, user_id: u16) -> (b: bool)
        ensures
            b == self.user_holds_hitscan(user_id),
    {
        match self.entity_of_user(user_id) {
            Some(e) => match self.player_active_weapon.get(&e) {
                Some(w) => self.hitscan_weapon_entities.contains(w),
                None => false,
            },
            None => false,
        }
    }

    /// The current origin Z and the last ground origin Z of `entity` (as `f32`
    /// bit patterns), when both are known; the height above ground is their
    /// difference, clamped to zero.
    pub fn height_operands(&self, entity: u32) -> (r: Option<(u32, u32)>)
        ensures
            r == self.height_operands_of(entity),
    {
        match self.entity_origin_z.get(&entity) {
            Some(current) => match self.entity_ground_z.get(&entity) {
                Some(ground) => Some((*current, *ground)),
                None => None,
            },
            None => None,
        }
    }

    /// The height operands of the entity of `user_id`, when known.
    pub fn victim_height_operands(&self, user_id: u16) -> (r: Option<(u32, u32)>)
        ensures
            r == self.victim_operands(user_id),
    {
        match self.entity_of_user(user_id) {
            Some(e) => self.height_operands(e),
            None => None,
        }
    }

    /// Records a headshot or airshot for a kill (`lethal`) or hit, if it is one.
    pub fn detect(
        &mut self,
        tick: u32,
        attacker: u16,
        user_id: u16,
        weapon: &str,
        custom_kill: u16,
        is_airborne: bool,
        lethal: bool,
        height: Option<Height>,
    )
        ensures
            final(self).same_tracking(old(self)),
            appends(
                old(self).highlights@,
                final(self).highlights@,
                old(self).detect_outcome(
                    tick,
                    attacker,
                    user_id,
                    weapon@,
                    custom_kill,
                    is_airborne,
                    lethal,
                    height,
                ),
            ),
    {
        if attacker == user_id {
            return ;
        }
        let is_headshot = custom_kill == TF_CUSTOM_HEADSHOT;
        let is_airshot = is_airborne && is_projectile_weapon(weapon);
        if is_headshot || is_airshot {
            let killer = self.resolve_name(attacker);
            let victim = self.resolve_name(user_id);
            let weapon = weapon.to_owned();
            if is_headshot {
                self.highlights.push(
                    Highlight {
                        tick,
                        kind: HighlightKind::Headshot,
                        killer,
                        victim,
                        victim_user_id: user_id,
                        weapon,
                        lethal,
                        height: None,
                        damage: None,
                    },
                );
            } else {
                let high_enough = match height {
                    Some(h) => h.reaches_airshot_min,
                    None => false,
                };
                if high_enough {
                    self.highlights.push(
                        Highlight {
                            tick,
                            kind: HighlightKind::Airshot,
                            killer,
                            victim,
                            victim_user_id: user_id,
                            weapon,
                            lethal,
                            height,
                            damage: None,
                        },
                    );
                }
            }
        }
        proof {
            assert(self.highlights@.take(old(self).highlights@.len() as int)
                =~= old(self).highlights@);
        }
    }

    /// Records a lethal highlight for a player death: the victim's airborne
    /// state comes from the tracked flags of its entity, and `victim_height`
    /// is the victim's height as measured from its tracked origins (the
    /// difference of the two `victim_height_operands`, clamped to zero): known
    /// exactly when both origins are.
    pub fn on_player_death(
        &mut self,
        tick: u32,
        attacker: u16,
        user_id: u16,
        weapon: &str,
        custom_kill: u16,
        victim_height: Option<Height>,
    )
        requires
            victim_height is Some <==> old(self).victim_operands(user_id) is Some,
        ensures
            final(self).same_tracking(old(self)),
            appends(
                old(self).highlights@,
                final(self).highlights@,
                old(self).detect_outcome(
                    tick,
                    attacker,
                    user_id,
                    weapon@,
                    custom_kill,
                    old(self).user_airborne(user_id),
                    true,
                    victim_height,
                ),
            ),
    {
        let is_airborne = self.victim_is_airborne(user_id);
        self.detect(tick, attacker, user_id, weapon, custom_kill, is_airborne, true, victim_height);
    }

    /// Records a non-lethal airshot for a hit of `damage` on `user_id`, if it
    /// is one; `height` is the victim's height as measured from its tracked
    /// origins (the difference of the two `victim_height_operands`, clamped to
    /// zero): known exactly when both origins are.
    pub fn push_non_lethal_airshot(
        &mut self,
        tick: u32,
        attacker: u16,
        user_id: u16,
        damage: u16,
        height: Option<Height>,
    )
        requires
            height is Some <==> old(self).victim_operands(user_id) is Some,
        ensures
            final(self).same_tracking(old(self)),
            appends(
                old(self).highlights@,
                final(self).highlights@,
                old(self).non_lethal_outcome(tick, attacker, user_id, damage, height),
            ),
    {
        if attacker == user_id {
            return ;
        }
        if !self.victim_is_airborne(user_id) {
            return ;
        }
        if self.attacker_holds_hitscan(attacker) {
            return ;
        }
        let high_enough = match height {
            Some(h) => h.reaches_airshot_min,
            None => false,
        };
        if !high_enough {
            return ;
        }
        let killer = self.resolve_name(attacker);
        let victim = self.resolve_name(user_id);
        self.highlights.push(
            Highlight {
                tick,
                kind: HighlightKind::Airshot,
                killer,
                victim,
                victim_user_id: user_id,
                weapon: String::new(),
                lethal: false,
                height,
                damage: Some(damage),
            },
        );
        proof {
            assert(self.highlights@.take(old(self).highlights@.len() as int)
                =~= old(self).highlights@);
        }
    }

    /// Whether the player entity class is the one whose props are tracked.
    pub fn is_player_class(class_name: &str) -> (b: bool)
        ensures
            b == is_player_class_name(class_name@),
    {
        str_equal(class_name, "CTFPlayer")
    }

    /// Takes in an entity update: remembers hitscan weapon entities; for a
    /// player entity, updates its origin Z, its flags (and, when it is on the
    /// ground, its ground Z to its latest origin Z), and its active weapon.
    pub fn observe_entity(&mut self, entity: u32, class_name: &str, props: &PlayerProps)
        ensures
            final(self).highlights@ == old(self).highlights@,
            final(self).players@ == old(self).players@,
            final(self).user_to_entity@ == old(self).user_to_entity@,
            final(self).hitscan_weapon_entities@ == (if is_hitscan_class_name(class_name@) {
                old(self).hitscan_weapon_entities@.insert(entity)
            } else {
                old(self).hitscan_weapon_entities@
            }),
            !is_player_class_name(class_name@) ==> {
                &&& final(self).entity_origin_z@ == old(self).entity_origin_z@
                &&& final(self).entity_flags@ == old(self).entity_flags@
                &&& final(self).entity_ground_z@ == old(self).entity_ground_z@
                &&& final(self).player_active_weapon@ == old(self).player_active_weapon@
            },
            is_player_class_name(class_name@) ==> {
                &&& final(self).entity_origin_z@ == (match props.origin_z {
                    Some(z) => old(self).entity_origin_z@.insert(entity, z),
                    None => old(self).entity_origin_z@,
                })
                &&& final(self).entity_flags@ == (match props.flags {
                    Some(f) => old(self).entity_flags@.insert(entity, f as u32),
                    None => old(self).entity_flags@,
                })
                &&& final(self).entity_ground_z@ == (match props.flags {
                    Some(f) => if (f as u32) & FL_ONGROUND != 0
                        && final(self).entity_origin_z@.contains_key(entity) {
                        old(self).entity_ground_z@.insert(
                            entity,
                            final(self).entity_origin_z@[entity],
                        )
                    } else {
                        old(self).entity_ground_z@
                    },
                    None => old(self).entity_ground_z@,
                })
                &&& final(self).player_active_weapon@ == (match props.active_weapon_handle {
                    Some(h) => old(self).player_active_weapon@.insert(
                        entity,
                        (h as u32) & ENTITY_HANDLE_INDEX_MASK,
                    ),
                    None => old(self).player_active_weapon@,
                })
            },
            final(self).tracking() == observe_step(old(self).tracking(), entity, class_name@, *props),
            is_player_class_name(class_name@) && on_ground_flags(props.flags)
                && final(self).entity_origin_z@.contains_key(entity)
                ==> final(self).height_operands_of(entity) == Some(
                (final(self).entity_origin_z@[entity], final(self).entity_origin_z@[entity]),
            ),
    {
        if is_hitscan_weapon_class(class_name) {
            self.hitscan_weapon_entities.insert(entity);
        }
        if Self::is_player_class(class_name) {
            if let Some(z) = props.origin_z {
                self.entity_origin_z.insert(entity, z);
            }
            if let Some(f) = props.flags {
                let flags = f as u32;
                self.entity_flags.insert(entity, flags);
                if flags & FL_ONGROUND != 0 {
                    match self.entity_origin_z.get(&entity) {
                        Some(z) => {
                            let z = *z;
                            self.entity_ground_z.insert(entity, z);
                        },
                        None => {},
                    }
                }
            }
            if let Some(h) = props.active_weapon_handle {
                let weapon = (h as u32) & ENTITY_HANDLE_INDEX_MASK;
                self.player_active_weapon.insert(entity, weapon);
            }
        }
    }

    /// Takes in the entities of an entity update message, in order. The
    /// known hitscan weapon entities grow by those of the message, and only
    /// the entities that the message updates as players change their tracked
    /// flags, origins and active weapon.
    pub fn observe_entities(&mut self, updates: &Vec<EntityUpdate>)
        ensures
            final(self).highlights@ == old(self).highlights@,
            final(self).players@ == old(self).players@,
            final(self).user_to_entity@ == old(self).user_to_entity@,
            final(self).hitscan_weapon_entities@ == old(self).hitscan_weapon_entities@.union(
                hitscan_entities_of(updates@),
            ),
            final(self).tracking() == after_updates(old(self).tracking(), updates@),
            forall|e: u32|
                !updates_player(updates@, e) ==> #[trigger] final(self).player_state_agrees_at(
                    old(self),
                    e,
                ),
            forall|e: u32|
                (forall|k: int| 0 <= k < updates@.len() ==> !lands(#[trigger] updates@[k], e))
                    ==> #[trigger] agree_at(
                    final(self).entity_ground_z@,
                    old(self).entity_ground_z@,
                    e,
                ),
    {
        let ghost start = *self;
        let mut i: usize = 0;
        proof {
            assert(hitscan_entities_of(updates@.take(0)) =~= Set::<u32>::empty());
            assert(start.hitscan_weapon_entities@.union(Set::<u32>::empty())
                =~= start.hitscan_weapon_entities@);
        }
        while i < updates.len()
            invariant
                i <= updates.len(),
                self.highlights@ == start.highlights@,
                self.players@ == start.players@,
                self.user_to_entity@ == start.user_to_entity@,
                self.hitscan_weapon_entities@ == start.hitscan_weapon_entities@.union(
                    hitscan_entities_of(updates@.take(i as int)),
                ),
                self.tracking() == after_updates(start.tracking(), updates@.take(i as int)),
                forall|e: u32|
                    !updates_player(updates@.take(i as int), e)
                        ==> #[trigger] self.player_state_agrees_at(&start, e),
            decreases updates.len() - i,
        {
            let u = &updates[i];
            let ghost before = *self;
            self.observe_entity(u.entity, u.class_name, &u.props);
            proof {
                let pre = updates@.take(i as int);
                let post = updates@.take(i + 1);
                assert(post =~= pre.push(*u));
                assert(post.drop_last() =~= pre);
                assert(hitscan_entities_of(post) =~= if is_hitscan_class_name(u.class_name@) {
                    hitscan_entities_of(pre).insert(u.entity)
                } else {
                    hitscan_entities_of(pre)
                }) by {
                    assert forall|e: u32| #[trigger] hitscan_entities_of(post).contains(e)
                        == (hitscan_entities_of(pre).contains(e) || (is_hitscan_class_name(
                        u.class_name@) && e == u.entity)) by {
                        if hitscan_entities_of(pre).contains(e) {
                            let k = choose|k: int|
                                0 <= k < pre.len() && #[trigger] pre[k].entity == e
                                    && is_hitscan_class_name(pre[k].class_name@);
                            assert(post[k] == pre[k]);
                        }
                        if is_hitscan_class_name(u.class_name@) && e == u.entity {
                            assert(post[i as int] == *u);
                        }
                        if hitscan_entities_of(post).contains(e) {
                            let k = choose|k: int|
                                0 <= k < post.len() && #[trigger] post[k].entity == e
                                    && is_hitscan_class_name(post[k].class_name@);
                            if k < i {
                                assert(pre[k] == post[k]);
                            }
                        }
                    }
                }
                assert(self.hitscan_weapon_entities@ =~= start.hitscan_weapon_entities@.union(
                    hitscan_entities_of(post),
                ));
                assert forall|e: u32| !updates_player(post, e) implies #[trigger] self.player_state_agrees_at(
                    &start,
                    e,
                ) by {
                    assert(!updates_player(pre, e)) by {
                        if updates_player(pre, e) {
                            let k = choose|k: int|
                                0 <= k < pre.len() && #[trigger] pre[k].entity == e
                                    && is_player_class_name(pre[k].class_name@);
                            assert(post[k] == pre[k]);
                        }
                    }
                    assert(before.player_state_agrees_at(&start, e));
                    if is_player_class_name(u.class_name@) {
                        assert(post[i as int] == *u);
                        assert(e != u.entity);
                    }
                }
            }
            i = i + 1;
        }
        proof {
            assert(updates@.take(updates.len() as int) =~= updates@);
            assert forall|e: u32|
                (forall|k: int| 0 <= k < updates@.len() ==> !lands(#[trigger] updates@[k], e))
                    implies #[trigger] agree_at(
                    self.entity_ground_z@,
                    start.entity_ground_z@,
                    e,
                ) by {
                lemma_ground_kept_without_landing(start.tracking(), updates@, e);
            }
        }
    }

    /// Whether a string table is the user info table.
    pub fn is_userinfo_table(table: &str) -> (b: bool)
        ensures
            b == (table@ == "userinfo"@),
    {
        str_equal(table, "userinfo")
    }

    /// Takes in a user info entry: the player's name and entity, by user id.
    pub fn record_user(&mut self, user_id: u16, name: String, entity: u32)
        ensures
            final(self).players@ == old(self).players@.insert(user_id, name),
            final(self).user_to_entity@ == old(self).user_to_entity@.insert(user_id, entity),
            final(self).highlights@ == old(self).highlights@,
            final(self).entity_flags@ == old(self).entity_flags@,
            final(self).entity_origin_z@ == old(self).entity_origin_z@,
            final(self).entity_ground_z@ == old(self).entity_ground_z@,
            final(self).hitscan_weapon_entities@ == old(self).hitscan_weapon_entities@,
            final(self).player_active_weapon@ == old(self).player_active_weapon@,
    {
        self.players.insert(user_id, name);
        self.user_to_entity.insert(user_id, entity);
    }

    /// Takes in an entry of a string table: for the user info table, the
    /// player that the entry holds (by table index, text and extra data bytes).
    /// An entry whose text parses to `u32::MAX` names no representable entity
    /// and is skipped.
    pub fn handle_string_entry(
        &mut self,
        table: &str,
        index: usize,
        text: Option<&str>,
        data: Option<&[u8]>,
    )
        ensures
            final(self).took_user_entry(
                old(self),
                if table@ == "userinfo"@ && !entity_text_overflows(text_view(text)) {
                    user_info_entry(index as u16, text_view(text), bytes_view(data))
                } else {
                    None
                },
            ),
            table@ == "userinfo"@ && !entity_text_overflows(text_view(text)) ==> (match user_info_entry(
                index as u16,
                text_view(text),
                bytes_view(data),
            ) {
                Some(x) => entry_names_entity(index as u16, text_view(text), x.2),
                None => true,
            }),
    {
        if Self::is_userinfo_table(table) && !text_overflows_entity(text) {
            match parse_user_info(index as u16, text, data) {
                Some((user_id, name, entity)) => {
                    self.record_user(user_id, name, entity);
                },
                None => {},
            }
        }
    }

    /// The recorded highlights, without the non-lethal airshots that a lethal
    /// airshot of the same victim at the same tick covers, in tick order.
    pub fn deduplicated_highlights(self) -> (out: Vec<Highlight>)
        ensures
            is_deduplication_of(out@, self.highlights@),
            out@.len() == self.highlights@.filter(survives(self.highlights@)).len(),
    {
        deduplicate(self.highlights)
    }
}

impl Default for HighlightAnalyser {
    fn default() -> (a: Self)
        ensures
            a.is_fresh(),
    {
        Self::new()
    }
}

} // verus!
