//! Properties that hold across the analyser's operations.

use vstd::prelude::*;

use crate::analyser::{
    appends, after_updates, agree_at, on_ground_flags, placeholder_name, EntityTracking, EntityUpdate,
    HighlightAnalyser, ENTITY_HANDLE_INDEX_MASK, TF_CUSTOM_HEADSHOT, is_player_class_name,
    reaches_airshot_min,
};
use crate::dedup::{
    at_tick, is_deduplication_of, is_lethal_airshot, is_shadowed, sorted_by_tick, survives,
};
use crate::highlight::{Height, Highlight, HighlightKind, HighlightView};
use crate::report::{airshots, headshots, lethal_airshots, name_column_width, widest_name};
use crate::weapons::is_projectile_weapon_name;

verus! {

broadcast use {Seq::lemma_filter_contains_rev, Seq::lemma_filter_pred, Seq::lemma_filter_contains};

/// A player never scores a highlight on themselves, neither with a kill nor
/// with a non-lethal hit.
pub proof fn lemma_self_hits_are_never_recorded(
    a: HighlightAnalyser,
    tick: u32,
    user_id: u16,
    weapon: Seq<char>,
    custom_kill: u16,
    is_airborne: bool,
    lethal: bool,
    damage: u16,
    height: Option<Height>,
)
    ensures
        a.detect_outcome(tick, user_id, user_id, weapon, custom_kill, is_airborne, lethal, height)
            is None,
        a.non_lethal_outcome(tick, user_id, user_id, damage, height) is None,
{
}

/// A kill of another player with the headshot custom kill type is recorded as
/// a headshot, whatever its weapon, the victim's state and height; a headshot
/// carries no height.
pub proof fn lemma_headshots_take_precedence(
    a: HighlightAnalyser,
    tick: u32,
    attacker: u16,
    user_id: u16,
    weapon: Seq<char>,
    is_airborne: bool,
    lethal: bool,
    height: Option<Height>,
)
    requires
        attacker != user_id,
    ensures
        a.detect_outcome(
            tick,
            attacker,
            user_id,
            weapon,
            TF_CUSTOM_HEADSHOT,
            is_airborne,
            lethal,
            height,
        ) matches Some(v) && v.kind == HighlightKind::Headshot && v.height is None,
{
}

/// Every recorded airshot, lethal or not, was at least the airshot minimum
/// above ground, and its victim was off the ground.
pub proof fn lemma_airshots_need_height_and_air(
    a: HighlightAnalyser,
    tick: u32,
    attacker: u16,
    user_id: u16,
    weapon: Seq<char>,
    custom_kill: u16,
    is_airborne: bool,
    lethal: bool,
    damage: u16,
    height: Option<Height>,
)
    ensures
        a.detect_outcome(tick, attacker, user_id, weapon, custom_kill, is_airborne, lethal, height)
            matches Some(v) ==> (v.kind == HighlightKind::Airshot ==> is_airborne
            && reaches_airshot_min(height) && v.height == height),
        a.non_lethal_outcome(tick, attacker, user_id, damage, height) is Some ==> a.user_airborne(
            user_id,
        ) && !a.user_holds_hitscan(attacker) && reaches_airshot_min(height),
{
}

/// Deduplication only drops: every highlight it returns was recorded and is
/// not covered by a lethal airshot of the same victim at the same tick.
pub proof fn lemma_deduplication_returns_recorded_uncovered(
    inp: Seq<Highlight>,
    out: Seq<Highlight>,
)
    requires
        is_deduplication_of(out, inp),
    ensures
        forall|i: int| 0 <= i < out.len() ==> inp.contains(#[trigger] out[i]) && !is_shadowed(inp, out[i]),
{
    let kept = inp.filter(survives(inp));
    assert forall|i: int| 0 <= i < out.len() implies inp.contains(#[trigger] out[i]) && !is_shadowed(
        inp,
        out[i],
    ) by {
        let x = out[i];
        let q = at_tick(x.tick);
        assert(out.filter(q).contains(x));
        assert(out.filter(q) == kept.filter(q));
        assert(kept.contains(x));
        let k = choose|k: int| 0 <= k < kept.len() && kept[k] == x;
        assert(survives(inp)(kept[k]));
    }
}

/// Deduplication keeps every recorded highlight that no lethal airshot of the
/// same victim at the same tick covers: all headshots, all lethal airshots,
/// and the non-lethal airshots without a lethal counterpart.
pub proof fn lemma_deduplication_keeps_uncovered(inp: Seq<Highlight>, out: Seq<Highlight>)
    requires
        is_deduplication_of(out, inp),
    ensures
        forall|j: int| 0 <= j < inp.len() && !is_shadowed(inp, inp[j]) ==> out.contains(#[trigger] inp[j]),
        forall|j: int| 0 <= j < inp.len() && is_lethal_airshot(inp[j]) ==> out.contains(#[trigger] inp[j]),
{
    let kept = inp.filter(survives(inp));
    assert forall|j: int| 0 <= j < inp.len() && !is_shadowed(inp, inp[j]) implies out.contains(#[trigger] inp[j]) by {
        let x = inp[j];
        assert(survives(inp)(x));
        assert(kept.contains(x));
        let k = choose|k: int| 0 <= k < kept.len() && kept[k] == x;
        let q = at_tick(x.tick);
        assert(q(kept[k]));
        assert(kept.filter(q).contains(x));
        assert(out.filter(q) == kept.filter(q));
        assert(out.filter(q).contains(x));
    }
}

/// A filter whose predicate holds of every element keeps the sequence whole.
proof fn lemma_filter_all(s: Seq<Highlight>, p: spec_fn(Highlight) -> bool)
    requires
        forall|i: int| 0 <= i < s.len() ==> p(#[trigger] s[i]),
    ensures
        s.filter(p) == s,
    decreases s.len(),
{
    reveal(Seq::filter);
    if s.len() > 0 {
        lemma_filter_all(s.drop_last(), p);
        assert(s.drop_last().push(s.last()) =~= s);
    }
}

/// Two tick-sorted sequences that hold the same highlights, in the same order,
/// at every tick are equal.
pub proof fn lemma_tick_groups_determine_sorted(s: Seq<Highlight>, r: Seq<Highlight>)
    requires
        sorted_by_tick(s),
        sorted_by_tick(r),
        forall|t: u32| #[trigger] s.filter(at_tick(t)) == r.filter(at_tick(t)),
    ensures
        s == r,
    decreases s.len() + r.len(),
{
    reveal(Seq::filter);
    if s.len() == 0 || r.len() == 0 {
        if s.len() > 0 {
            let q = at_tick(s[0].tick);
            assert(s.filter(q).contains(s[0]));
            assert(r.filter(q) == r);
        }
        if r.len() > 0 {
            let q = at_tick(r[0].tick);
            assert(r.filter(q).contains(r[0]));
            assert(s.filter(q) == s);
        }
        assert(s =~= r);
    } else {
        let m = s.last().tick;
        let m2 = r.last().tick;
        let qm = at_tick(m);
        let qm2 = at_tick(m2);
        assert(s.filter(qm) == s.drop_last().filter(qm).push(s.last()));
        assert(r.filter(qm2) == r.drop_last().filter(qm2).push(r.last()));
        assert(s.filter(qm).contains(s.last()));
        assert(r.filter(qm).contains(s.last()));
        assert(r.contains(s.last()));
        let k = choose|k: int| 0 <= k < r.len() && r[k] == s.last();
        assert(r[k].tick <= r[r.len() - 1].tick);
        assert(r.filter(qm2).contains(r.last()));
        assert(s.filter(qm2).contains(r.last()));
        assert(s.contains(r.last()));
        let k2 = choose|k2: int| 0 <= k2 < s.len() && s[k2] == r.last();
        assert(s[k2].tick <= s[s.len() - 1].tick);
        assert(m == m2);
        assert(s.last() == r.last()) by {
            let fs = s.filter(qm);
            let fr = r.filter(qm);
            assert(fs[fs.len() - 1] == fr[fr.len() - 1]);
        }
        let s1 = s.drop_last();
        let r1 = r.drop_last();
        assert forall|t: u32| #[trigger] s1.filter(at_tick(t)) == r1.filter(at_tick(t)) by {
            let q = at_tick(t);
            assert(s.filter(q) == r.filter(q));
            if t == m {
                assert(s1.filter(q) == s.filter(q).drop_last());
                assert(r1.filter(q) == r.filter(q).drop_last());
            } else {
                assert(s1.filter(q) == s.filter(q));
                assert(r1.filter(q) == r.filter(q));
            }
        }
        assert(sorted_by_tick(s1));
        assert(sorted_by_tick(r1));
        lemma_tick_groups_determine_sorted(s1, r1);
        assert(s =~= s1.push(s.last()));
        assert(r =~= r1.push(r.last()));
    }
}

/// Deduplication has one result: two outputs for the same recorded
/// highlights are equal.
pub proof fn lemma_deduplication_is_unique(
    inp: Seq<Highlight>,
    out1: Seq<Highlight>,
    out2: Seq<Highlight>,
)
    requires
        is_deduplication_of(out1, inp),
        is_deduplication_of(out2, inp),
    ensures
        out1 == out2,
{
    lemma_tick_groups_determine_sorted(out1, out2);
}

/// Deduplicating an already deduplicated list changes nothing.
pub proof fn lemma_deduplication_is_idempotent(
    inp: Seq<Highlight>,
    out: Seq<Highlight>,
    again: Seq<Highlight>,
)
    requires
        is_deduplication_of(out, inp),
        is_deduplication_of(again, out),
    ensures
        again == out,
{
    lemma_deduplication_returns_recorded_uncovered(inp, out);
    assert forall|i: int| 0 <= i < out.len() implies #[trigger] survives(out)(out[i]) by {
        if is_shadowed(out, out[i]) {
            let j = choose|j: int|
                0 <= j < out.len() && #[trigger] is_lethal_airshot(out[j]) && out[j].tick
                    == out[i].tick && out[j].victim_user_id == out[i].victim_user_id;
            assert(inp.contains(out[j]));
            let k = choose|k: int| 0 <= k < inp.len() && inp[k] == out[j];
            assert(is_lethal_airshot(inp[k]));
            assert(is_shadowed(inp, out[i]));
        }
    }
    lemma_filter_all(out, survives(out));
    lemma_tick_groups_determine_sorted(again, out);
}

/// A player taken in from a user info entry is shown by the recorded name
/// and found at the recorded entity; every other player keeps their name and
/// entity.
pub proof fn lemma_recorded_player_is_resolved(
    before: HighlightAnalyser,
    after: HighlightAnalyser,
    user_id: u16,
    name: Seq<char>,
    entity: u32,
    other: u16,
)
    requires
        after.took_user_entry(&before, Some((user_id, name, entity))),
        other != user_id,
    ensures
        after.resolved_name(user_id) == name,
        after.entity_of(user_id) == Some(entity),
        after.resolved_name(other) == before.resolved_name(other),
        after.entity_of(other) == before.entity_of(other),
{
    assert(after.players@.contains_key(other) == before.players@.contains_key(other));
}

/// Updates of other entities leave the player state of an entity alone: after
/// the last update of entity `updates[k].entity`, its flags, origins and active
/// weapon stay what that update left.
proof fn lemma_later_updates_keep_entity(s: EntityTracking, updates: Seq<EntityUpdate>, k: int)
    requires
        0 <= k < updates.len(),
        forall|j: int| k < j < updates.len() ==> #[trigger] updates[j].entity != updates[k].entity,
    ensures
        ({
            let e = updates[k].entity;
            let r = after_updates(s, updates);
            let m = after_updates(s, updates.take(k + 1));
            &&& agree_at(r.flags, m.flags, e)
            &&& agree_at(r.origin_z, m.origin_z, e)
            &&& agree_at(r.ground_z, m.ground_z, e)
            &&& agree_at(r.active_weapon, m.active_weapon, e)
        }),
    decreases updates.len(),
{
    if updates.len() == k + 1 {
        assert(updates.take(k + 1) =~= updates);
    } else {
        let d = updates.drop_last();
        assert forall|j: int| k < j < d.len() implies #[trigger] d[j].entity != d[k].entity by {
            assert(d[j] == updates[j]);
        }
        lemma_later_updates_keep_entity(s, d, k);
        assert(d.take(k + 1) =~= updates.take(k + 1));
        assert(updates[updates.len() - 1].entity != updates[k].entity);
    }
}

/// After an entity update message, an entity whose last update in the message
/// is a player update holds what that update carries: its origin Z, its flags,
/// its active weapon (the index bits of the handle); and when those flags say
/// it is on the ground and its origin Z is known, its ground Z is that origin Z.
pub proof fn lemma_message_sets_player_state(
    s: EntityTracking,
    updates: Seq<EntityUpdate>,
    k: int,
)
    requires
        0 <= k < updates.len(),
        is_player_class_name(updates[k].class_name@),
        forall|j: int| k < j < updates.len() ==> #[trigger] updates[j].entity != updates[k].entity,
    ensures
        ({
            let e = updates[k].entity;
            let p = updates[k].props;
            let r = after_updates(s, updates);
            &&& p.origin_z matches Some(z) ==> r.origin_z.contains_key(e) && r.origin_z[e] == z
            &&& p.flags matches Some(f) ==> r.flags.contains_key(e) && r.flags[e] == f as u32
            &&& (match p.flags {
                Some(f) => (f as u32) & 1 != 0,
                None => false,
            }) && r.origin_z.contains_key(e) ==> r.ground_z.contains_key(e)
                && r.ground_z[e] == r.origin_z[e]
            &&& p.active_weapon_handle matches Some(h) ==> r.active_weapon.contains_key(e)
                && r.active_weapon[e] == (h as u32) & ENTITY_HANDLE_INDEX_MASK
        }),
{
    lemma_later_updates_keep_entity(s, updates, k);
    let t = updates.take(k + 1);
    assert(t.drop_last() =~= updates.take(k));
    assert(t.last() == updates[k]);
}

/// `u` is a player update of entity `e` whose flags have the on-ground bit.
pub open spec fn lands(u: EntityUpdate, e: u32) -> bool {
    u.entity == e && is_player_class_name(u.class_name@) && match u.props.flags {
        Some(f) => (f as u32) & 1 != 0,
        None => false,
    }
}

/// The ground Z of an entity is its last ground contact: a message none of
/// whose updates of the entity is a player update with the on-ground flag
/// leaves that entity's ground Z as it was before the message.
pub proof fn lemma_ground_kept_without_landing(
    s: EntityTracking,
    updates: Seq<EntityUpdate>,
    e: u32,
)
    requires
        forall|k: int| 0 <= k < updates.len() ==> !lands(#[trigger] updates[k], e),
    ensures
        agree_at(after_updates(s, updates).ground_z, s.ground_z, e),
    decreases updates.len(),
{
    if updates.len() > 0 {
        let d = updates.drop_last();
        assert forall|k: int| 0 <= k < d.len() implies !lands(#[trigger] d[k], e) by {
            assert(d[k] == updates[k]);
        }
        lemma_ground_kept_without_landing(s, d, e);
        assert(!lands(updates[updates.len() - 1], e));
    }
}

/// A player's airborne state depends on the on-ground bit of its flags alone:
/// two analysers that map the player to the same entity, whose flags for it
/// agree in that bit, agree on whether it is airborne, whatever its other
/// bits. Flags with the bit set mean grounded, flags without it airborne, and
/// unknown flags or an unknown entity grounded.
pub proof fn lemma_airborne_is_the_on_ground_bit(
    a: HighlightAnalyser,
    b: HighlightAnalyser,
    user_id: u16,
    e: u32,
)
    requires
        a.entity_of(user_id) == Some(e),
    ensures
        b.entity_of(user_id) == Some(e) && a.entity_flags@.contains_key(e)
            && b.entity_flags@.contains_key(e) && a.entity_flags@[e] & 1 == b.entity_flags@[e] & 1
            ==> a.user_airborne(user_id) == b.user_airborne(user_id),
        a.entity_flags@.contains_key(e) ==> (a.user_airborne(user_id) <==> a.entity_flags@[e] & 1
            == 0),
        !a.entity_flags@.contains_key(e) ==> !a.user_airborne(user_id),
{
}

/// A player whose entity is unknown counts as grounded.
pub proof fn lemma_unknown_player_is_grounded(a: HighlightAnalyser, user_id: u16)
    requires
        a.entity_of(user_id) is None,
    ensures
        !a.user_airborne(user_id),
{
}

/// The name shown for `user_id` in `a`: the known player name, else `<#id>`.
pub open spec fn shown_name(a: HighlightAnalyser, user_id: u16) -> Seq<char> {
    if a.players@.contains_key(user_id) {
        a.players@[user_id]@
    } else {
        placeholder_name(user_id)
    }
}

/// A recorded highlight names the attacker as killer and the hit or killed
/// player as victim, and keeps the victim's id and the tick.
pub proof fn lemma_highlights_name_attacker_and_victim(
    a: HighlightAnalyser,
    tick: u32,
    attacker: u16,
    user_id: u16,
    weapon: Seq<char>,
    custom_kill: u16,
    is_airborne: bool,
    lethal: bool,
    damage: u16,
    height: Option<Height>,
)
    ensures
        a.detect_outcome(tick, attacker, user_id, weapon, custom_kill, is_airborne, lethal, height)
            matches Some(v) ==> v.killer == shown_name(a, attacker) && v.victim == shown_name(
            a,
            user_id,
        ) && v.victim_user_id == user_id && v.tick == tick && v.lethal == lethal && v.weapon
            == weapon,
        a.non_lethal_outcome(tick, attacker, user_id, damage, height) matches Some(v)
            ==> v.killer == shown_name(a, attacker) && v.victim == shown_name(a, user_id)
            && v.victim_user_id == user_id && v.tick == tick && !v.lethal && v.damage == Some(
            damage,
        ) && v.kind == HighlightKind::Airshot,
{
}

/// Only the headshot custom kill type (1) makes a headshot: a kill of another
/// kind of custom kill (backstab, afterburn, ...) is recorded as an airshot or
/// not at all; and a kill with that type by another player always is one.
pub proof fn lemma_only_headshot_kill_type_is_headshot(
    a: HighlightAnalyser,
    tick: u32,
    attacker: u16,
    user_id: u16,
    weapon: Seq<char>,
    custom_kill: u16,
    is_airborne: bool,
    lethal: bool,
    height: Option<Height>,
)
    ensures
        custom_kill != 1 ==> match a.detect_outcome(
            tick,
            attacker,
            user_id,
            weapon,
            custom_kill,
            is_airborne,
            lethal,
            height,
        ) {
            Some(v) => v.kind == HighlightKind::Airshot,
            None => true,
        },
        custom_kill == 1 && attacker != user_id ==> match a.detect_outcome(
            tick,
            attacker,
            user_id,
            weapon,
            custom_kill,
            is_airborne,
            lethal,
            height,
        ) {
            Some(v) => v.kind == HighlightKind::Headshot,
            None => false,
        },
{
}

proof fn lemma_widest_name_bounds(hs: Seq<Highlight>)
    ensures
        forall|i: int|
            0 <= i < hs.len() ==> widest_name(hs) >= (#[trigger] hs[i]).killer@.len()
                && widest_name(hs) >= hs[i].victim@.len(),
        hs.len() > 0 ==> exists|i: int|
            0 <= i < hs.len() && (widest_name(hs) == (#[trigger] hs[i]).killer@.len()
                || widest_name(hs) == hs[i].victim@.len()),
    decreases hs.len(),
{
    if hs.len() > 0 {
        let d = hs.drop_last();
        lemma_widest_name_bounds(d);
        assert forall|i: int| 0 <= i < hs.len() implies widest_name(hs) >= (#[trigger] hs[i]).killer@.len()
            && widest_name(hs) >= hs[i].victim@.len() by {
            if i < d.len() {
                assert(hs[i] == d[i]);
            }
        }
        let last = hs.len() - 1;
        if widest_name(hs) == widest_name(d) && d.len() > 0 {
            let i = choose|i: int|
                0 <= i < d.len() && (widest_name(d) == (#[trigger] d[i]).killer@.len()
                    || widest_name(d) == d[i].victim@.len());
            assert(hs[i] == d[i]);
        } else {
            assert(widest_name(hs) == hs[last].killer@.len() || widest_name(hs)
                == hs[last].victim@.len());
        }
    }
}

/// The name columns are as wide as the widest killer or victim name of the
/// report: at least as wide as each of them, and as wide as one of them (10
/// characters when there is no highlight).
pub proof fn lemma_name_width_is_widest_name(hs: Seq<Highlight>)
    ensures
        forall|i: int|
            0 <= i < hs.len() ==> name_column_width(hs) >= (#[trigger] hs[i]).killer@.len()
                && name_column_width(hs) >= hs[i].victim@.len(),
        hs.len() > 0 ==> exists|i: int|
            0 <= i < hs.len() && (name_column_width(hs) == (#[trigger] hs[i]).killer@.len()
                || name_column_width(hs) == hs[i].victim@.len()),
        hs.len() == 0 ==> name_column_width(hs) == 10,
{
    lemma_widest_name_bounds(hs);
}

/// When a kill of another player without the headshot kill type records an
/// airshot: exactly when the victim is airborne, the weapon is a projectile
/// weapon, and a height is known that reaches the airshot minimum.
pub proof fn lemma_when_a_kill_is_an_airshot(
    a: HighlightAnalyser,
    tick: u32,
    attacker: u16,
    user_id: u16,
    weapon: Seq<char>,
    custom_kill: u16,
    is_airborne: bool,
    lethal: bool,
    height: Option<Height>,
)
    requires
        attacker != user_id,
        custom_kill != 1,
    ensures
        a.detect_outcome(tick, attacker, user_id, weapon, custom_kill, is_airborne, lethal, height)
            is Some <==> (is_airborne && is_projectile_weapon_name(weapon) && match height {
            Some(h) => h.reaches_airshot_min,
            None => false,
        }),
        a.detect_outcome(tick, attacker, user_id, weapon, custom_kill, is_airborne, lethal, height)
            matches Some(v) ==> v.height == height && v.damage is None,
{
}

/// When a non-lethal hit records an airshot: exactly when it is no self-hit,
/// the victim's entity is known with flags lacking the on-ground bit, the
/// attacker is not known to hold a weapon entity of the hitscan set, and a
/// height is known that reaches the airshot minimum.
pub proof fn lemma_when_a_hit_is_an_airshot(
    a: HighlightAnalyser,
    tick: u32,
    attacker: u16,
    user_id: u16,
    damage: u16,
    height: Option<Height>,
)
    ensures
        a.non_lethal_outcome(tick, attacker, user_id, damage, height) is Some <==> {
            &&& attacker != user_id
            &&& a.user_to_entity@.contains_key(user_id)
            &&& a.entity_flags@.contains_key(a.user_to_entity@[user_id])
            &&& a.entity_flags@[a.user_to_entity@[user_id]] & 1 == 0
            &&& !(a.user_to_entity@.contains_key(attacker) && a.player_active_weapon@.contains_key(
                a.user_to_entity@[attacker],
            ) && a.hitscan_weapon_entities@.contains(
                a.player_active_weapon@[a.user_to_entity@[attacker]],
            ))
            &&& match height {
                Some(h) => h.reaches_airshot_min,
                None => false,
            }
        },
        a.non_lethal_outcome(tick, attacker, user_id, damage, height) matches Some(v)
            ==> v.height == height && v.weapon.len() == 0,
{
}

/// The height of an entity is measured from its current origin Z (first) and
/// its last ground Z (second), both of which must be known.
pub proof fn lemma_height_operands_are_origin_then_ground(a: HighlightAnalyser, e: u32)
    ensures
        a.height_operands_of(e) is Some <==> a.entity_origin_z@.contains_key(e)
            && a.entity_ground_z@.contains_key(e),
        a.height_operands_of(e) matches Some(p) ==> p.0 == a.entity_origin_z@[e] && p.1
            == a.entity_ground_z@[e],
{
}

/// Recording a highlight keeps every earlier highlight in place and adds
/// exactly the one described, at the end; recording none changes nothing.
pub proof fn lemma_recording_appends_one(
    old_hs: Seq<Highlight>,
    new_hs: Seq<Highlight>,
    outcome: Option<HighlightView>,
)
    requires
        appends(old_hs, new_hs, outcome),
    ensures
        outcome is None ==> new_hs == old_hs,
        outcome matches Some(v) ==> new_hs.len() == old_hs.len() + 1 && new_hs[old_hs.len() as int]@
            == v && forall|i: int| 0 <= i < old_hs.len() ==> #[trigger] new_hs[i] == old_hs[i],
{
    if outcome is Some {
        assert forall|i: int| 0 <= i < old_hs.len() implies #[trigger] new_hs[i] == old_hs[i] by {
            assert(new_hs.take(old_hs.len() as int)[i] == new_hs[i]);
        }
    }
}

/// Every highlight is a headshot or an airshot, and lethal airshots are
/// airshots: the summary's headshot and airshot counts add up to the number
/// of highlights, and its lethal count is at most its airshot count.
pub proof fn lemma_summary_counts_add_up(hs: Seq<Highlight>)
    ensures
        hs.filter(headshots()).len() + hs.filter(airshots()).len() == hs.len(),
        hs.filter(lethal_airshots()).len() <= hs.filter(airshots()).len(),
    decreases hs.len(),
{
    reveal(Seq::filter);
    if hs.len() > 0 {
        lemma_summary_counts_add_up(hs.drop_last());
    }
}

} // verus!
