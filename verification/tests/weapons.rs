use tf2_demo_insights::weapons::{is_hitscan_weapon_class, is_projectile_weapon};

#[test]
fn projectile_weapons() {
    assert!(is_projectile_weapon("tf_projectile_rocket"));
    assert!(is_projectile_weapon("tf_projectile_pipe_remote"));
    assert!(is_projectile_weapon("tf_projectile_"));
    assert!(is_projectile_weapon("iron_bomber"));
    assert!(is_projectile_weapon("loose_cannon"));
    assert!(is_projectile_weapon("quickiebomb_launcher"));
    assert!(is_projectile_weapon("quake_rl"));
    assert!(!is_projectile_weapon("tf_projectile"));
    assert!(!is_projectile_weapon("quake_rl2"));
    assert!(!is_projectile_weapon("iron_bombe"));
    assert!(!is_projectile_weapon("sniperrifle"));
    assert!(!is_projectile_weapon(""));
}

#[test]
fn hitscan_weapon_classes() {
    for class in ["CTFScatterGun", "CTFMinigun", "CTFRevolver", "CTFMedigun", "CTFLaserPointer"] {
        assert!(is_hitscan_weapon_class(class), "{}", class);
    }
    for class in ["CTFShotgun", "CTFShotgun_Soldier", "CTFPistol_Scout", "CTFSniperRifleDecap"] {
        assert!(is_hitscan_weapon_class(class), "{}", class);
    }
    for class in ["CTFScatterGunX", "CTFMinigu", "ctfminigun", "CTFRocketLauncher", "CTFPipebombLauncher", ""] {
        assert!(!is_hitscan_weapon_class(class), "{}", class);
    }
}
