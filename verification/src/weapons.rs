//! Weapon classification by name.

use vstd::prelude::*;

use crate::text::{has_prefix, str_equal, str_starts_with};

verus! {

/// The non-projectile weapon server classes that the analyser knows: the
/// scatter gun, minigun, revolver, medigun and laser pointer, and the shotgun,
/// pistol and sniper rifle families (by class name prefix).
pub open spec fn is_hitscan_class_name(class: Seq<char>) -> bool {
    ||| class == "CTFScatterGun"@
    ||| class == "CTFMinigun"@
    ||| class == "CTFRevolver"@
    ||| class == "CTFMedigun"@
    ||| class == "CTFLaserPointer"@
    ||| has_prefix(class, "CTFShotgun"@)
    ||| has_prefix(class, "CTFPistol"@)
    ||| has_prefix(class, "CTFSniperRifle"@)
}

/// Weapon names reported for projectile weapons: the projectile entity's
/// class name, or one of a few item names.
pub open spec fn is_projectile_weapon_name(weapon: Seq<char>) -> bool {
    ||| has_prefix(weapon, "tf_projectile_"@)
    ||| weapon == "iron_bomber"@
    ||| weapon == "loose_cannon"@
    ||| weapon == "quickiebomb_launcher"@
    ||| weapon == "quake_rl"@
}

/// Returns true if `class` is one of the non-projectile weapon server classes
/// listed in `is_hitscan_class_name`.
///
/// Used to filter out non-lethal hits from weapons that cannot produce
/// airshots. Unknown weapon classes are not listed and count as allowed.
pub fn is_hitscan_weapon_class(class: &str) -> (b: bool)
    ensures
        b == is_hitscan_class_name(class@),
{
    str_equal(class, "CTFScatterGun") || str_equal(class, "CTFMinigun") || str_equal(
        class,
        "CTFRevolver",
    ) || str_equal(class, "CTFMedigun") || str_equal(class, "CTFLaserPointer")
        || str_starts_with(class, "CTFShotgun") || str_starts_with(class, "CTFPistol")
        || str_starts_with(class, "CTFSniperRifle")
}

/// Returns true if `weapon` is a projectile-firing weapon.
///
/// Demos report the killing weapon either as the projectile entity class name
/// (such as `tf_projectile_rocket`) or as the weapon's item name (such as
/// `iron_bomber`).
pub fn is_projectile_weapon(weapon: &str) -> (b: bool)
    ensures
        b == is_projectile_weapon_name(weapon@),
{
    str_starts_with(weapon, "tf_projectile_") || str_equal(weapon, "iron_bomber") || str_equal(
        weapon,
        "loose_cannon",
    ) || str_equal(weapon, "quickiebomb_launcher") || str_equal(weapon, "quake_rl")
}

} // verus!
