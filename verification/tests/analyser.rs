use tf2_demo_insights::analyser::{EntityUpdate, HighlightAnalyser, PlayerProps, FL_ONGROUND, TF_CUSTOM_HEADSHOT};
use tf2_demo_insights::highlight::{Height, Highlight, HighlightKind};
use tf2_demo_insights::userinfo::text_overflows_entity;

/// The minimum height of an airshot, in Source units.
const MIN_AIRSHOT_HEIGHT: f32 = 170.0;

/// A height measurement as the analyser takes it.
fn height(h: f32) -> Height {
    Height { bits: h.to_bits(), reaches_airshot_min: h >= MIN_AIRSHOT_HEIGHT }
}

/// The height of an entity above its last ground contact, clamped to zero.
fn compute_height(analyser: &HighlightAnalyser, entity: u32) -> Option<f32> {
    analyser
        .height_operands(entity)
        .map(|(current, ground)| (f32::from_bits(current) - f32::from_bits(ground)).max(0.0))
}

/// The measured height of the victim `user_id`, when its entity is known.
fn victim_height(analyser: &HighlightAnalyser, user_id: u16) -> Option<Height> {
    analyser
        .victim_height_operands(user_id)
        .map(|(current, ground)| height((f32::from_bits(current) - f32::from_bits(ground)).max(0.0)))
}

fn push_non_lethal(analyser: &mut HighlightAnalyser, tick: u32, attacker: u16, user_id: u16, damage: u16) {
    let h = victim_height(analyser, user_id);
    analyser.push_non_lethal_airshot(tick, attacker, user_id, damage, h);
}

fn set_z(analyser: &mut HighlightAnalyser, entity: u32, ground: f32, origin: f32) {
    analyser.entity_ground_z.insert(entity, ground.to_bits());
    analyser.entity_origin_z.insert(entity, origin.to_bits());
}

fn highlight(tick: u32, kind: HighlightKind, victim_user_id: u16, lethal: bool, damage: Option<u16>) -> Highlight {
    Highlight {
        tick,
        kind,
        killer: "A".to_string(),
        victim: "B".to_string(),
        victim_user_id,
        weapon: if lethal { "tf_projectile_rocket".to_string() } else { String::new() },
        lethal,
        height: None,
        damage,
    }
}

#[test]
fn test_headshot_detected() {
    let mut analyser = HighlightAnalyser::new();
    analyser.players.insert(1u16, "SniperAlex".to_string());
    analyser.players.insert(2u16, "ScoutBob".to_string());

    analyser.detect(100, 1, 2, "tf_sniper_rifle", TF_CUSTOM_HEADSHOT, false, true, None);

    assert_eq!(analyser.highlights.len(), 1);
    assert!(matches!(analyser.highlights[0].kind, HighlightKind::Headshot));
    assert_eq!(analyser.highlights[0].killer, "SniperAlex");
    assert_eq!(analyser.highlights[0].victim, "ScoutBob");
    assert_eq!(analyser.highlights[0].weapon, "tf_sniper_rifle");
}

#[test]
fn test_airshot_detected() {
    let mut analyser = HighlightAnalyser::new();
    analyser.players.insert(3u16, "SoldierCarla".to_string());
    analyser.players.insert(4u16, "MedicDave".to_string());

    analyser.detect(200, 3, 4, "tf_projectile_rocket", 0, true, true, Some(height(200.0)));

    assert_eq!(analyser.highlights.len(), 1);
    assert!(matches!(analyser.highlights[0].kind, HighlightKind::Airshot));
    assert_eq!(analyser.highlights[0].killer, "SoldierCarla");
    assert_eq!(analyser.highlights[0].victim, "MedicDave");
}

#[test]
fn test_non_highlight_not_detected() {
    let mut analyser = HighlightAnalyser::new();
    analyser.detect(300, 1, 2, "tf_pistol", 0, false, true, None);
    assert!(analyser.highlights.is_empty());
}

#[test]
fn test_unknown_player_fallback() {
    let analyser = HighlightAnalyser::new();
    let name = analyser.resolve_name(99u16);
    assert_eq!(name, "<#99>");
}

#[test]
fn test_lethal_flag_set_on_kill() {
    let mut analyser = HighlightAnalyser::new();
    analyser.players.insert(1u16, "A".to_string());
    analyser.players.insert(2u16, "B".to_string());
    analyser.detect(100, 1, 2, "tf_sniper_rifle", TF_CUSTOM_HEADSHOT, false, true, None);
    assert!(analyser.highlights[0].lethal);
}

#[test]
fn test_height_stored_on_highlight() {
    let mut analyser = HighlightAnalyser::new();
    analyser.players.insert(1u16, "A".to_string());
    analyser.players.insert(2u16, "B".to_string());
    analyser.detect(100, 1, 2, "tf_projectile_rocket", 0, true, true, Some(height(200.0)));
    assert_eq!(analyser.highlights[0].height.map(|h| f32::from_bits(h.bits)), Some(200.0));
}

#[test]
fn test_compute_height_above_ground() {
    let mut analyser = HighlightAnalyser::new();
    let eid = 5u32;
    set_z(&mut analyser, eid, 100.0, 184.5);
    assert_eq!(compute_height(&analyser, eid), Some(84.5));
}

#[test]
fn test_compute_height_below_ground_clamps_to_zero() {
    let mut analyser = HighlightAnalyser::new();
    let eid = 6u32;
    set_z(&mut analyser, eid, 200.0, 190.0);
    assert_eq!(compute_height(&analyser, eid), Some(0.0));
}

#[test]
fn test_compute_height_unknown_returns_none() {
    let analyser = HighlightAnalyser::new();
    let eid = 7u32;
    assert_eq!(compute_height(&analyser, eid), None);
}

#[test]
fn test_compute_height_missing_origin_returns_none() {
    let mut analyser = HighlightAnalyser::new();
    let eid = 8u32;
    analyser.entity_ground_z.insert(eid, 100.0f32.to_bits());
    // entity_origin_z not populated
    assert_eq!(compute_height(&analyser, eid), None);
}

#[test]
fn test_non_lethal_airshot_added_when_airborne() {
    let mut analyser = HighlightAnalyser::new();
    let eid = 4u32;
    // Victim airborne: FL_ONGROUND not set
    analyser.entity_flags.insert(eid, 0);
    set_z(&mut analyser, eid, 0.0, 200.0);
    analyser.user_to_entity.insert(2u16, eid);
    analyser.players.insert(1u16, "A".to_string());
    analyser.players.insert(2u16, "B".to_string());

    push_non_lethal(&mut analyser, 100, 1, 2, 75);
    assert_eq!(analyser.highlights.len(), 1);
    assert!(!analyser.highlights[0].lethal);
    assert_eq!(analyser.highlights[0].damage, Some(75));
}

#[test]
fn test_non_lethal_airshot_not_added_when_grounded() {
    let mut analyser = HighlightAnalyser::new();
    let eid = 5u32;
    // Victim on the ground: FL_ONGROUND set
    analyser.entity_flags.insert(eid, FL_ONGROUND);
    analyser.user_to_entity.insert(2u16, eid);
    analyser.players.insert(1u16, "A".to_string());
    analyser.players.insert(2u16, "B".to_string());

    push_non_lethal(&mut analyser, 100, 1, 2, 75);
    assert!(analyser.highlights.is_empty());
}

#[test]
fn test_deduplication_removes_non_lethal_when_lethal_exists() {
    let mut analyser = HighlightAnalyser::new();
    // One lethal and one non-lethal at the same tick for the same victim (user_id=2)
    analyser.highlights.push(highlight(100, HighlightKind::Airshot, 2, true, None));
    analyser.highlights.push(highlight(100, HighlightKind::Airshot, 2, false, Some(75)));

    let output = analyser.deduplicated_highlights();
    assert_eq!(output.len(), 1);
    assert!(output[0].lethal);
}

#[test]
fn test_deduplication_keeps_non_lethal_with_no_matching_lethal() {
    let mut analyser = HighlightAnalyser::new();
    analyser.highlights.push(highlight(200, HighlightKind::Airshot, 2, false, Some(50)));

    let output = analyser.deduplicated_highlights();
    assert_eq!(output.len(), 1);
    assert!(!output[0].lethal);
}

#[test]
fn test_self_airshot_not_recorded() {
    let mut analyser = HighlightAnalyser::new();
    analyser.players.insert(1u16, "A".to_string());
    analyser.detect(100, 1, 1, "tf_projectile_rocket", 0, true, true, Some(height(200.0)));
    assert!(analyser.highlights.is_empty());
}

#[test]
fn test_non_lethal_self_airshot_not_recorded() {
    let mut analyser = HighlightAnalyser::new();
    let eid = 4u32;
    analyser.entity_flags.insert(eid, 0);
    set_z(&mut analyser, eid, 0.0, 200.0);
    analyser.user_to_entity.insert(1u16, eid);
    analyser.players.insert(1u16, "A".to_string());
    push_non_lethal(&mut analyser, 100, 1, 1, 75);
    assert!(analyser.highlights.is_empty());
}

#[test]
fn test_airshot_below_height_threshold_not_recorded() {
    let mut analyser = HighlightAnalyser::new();
    analyser.players.insert(1u16, "A".to_string());
    analyser.players.insert(2u16, "B".to_string());
    analyser.detect(100, 1, 2, "tf_projectile_rocket", 0, true, true, Some(height(100.0)));
    assert!(analyser.highlights.is_empty());
}

#[test]
fn test_airshot_unknown_height_not_recorded() {
    let mut analyser = HighlightAnalyser::new();
    analyser.players.insert(1u16, "A".to_string());
    analyser.players.insert(2u16, "B".to_string());
    analyser.detect(100, 1, 2, "tf_projectile_rocket", 0, true, true, None);
    assert!(analyser.highlights.is_empty());
}

#[test]
fn test_non_lethal_airshot_below_threshold_not_added() {
    let mut analyser = HighlightAnalyser::new();
    let eid = 9u32;
    analyser.entity_flags.insert(eid, 0); // airborne
    set_z(&mut analyser, eid, 0.0, 50.0); // only 50 units high
    analyser.user_to_entity.insert(2u16, eid);
    analyser.players.insert(1u16, "A".to_string());
    analyser.players.insert(2u16, "B".to_string());

    push_non_lethal(&mut analyser, 100, 1, 2, 75);
    assert!(analyser.highlights.is_empty());
}

#[test]
fn test_non_lethal_airshot_unknown_entity_not_added() {
    let mut analyser = HighlightAnalyser::new();
    // No entity for user_id=2: unknown entity counts as grounded
    analyser.players.insert(1u16, "A".to_string());
    analyser.players.insert(2u16, "B".to_string());

    push_non_lethal(&mut analyser, 100, 1, 2, 75);
    assert!(analyser.highlights.is_empty());
}

#[test]
fn test_non_lethal_airshot_hitscan_weapon_rejected() {
    let mut analyser = HighlightAnalyser::new();
    let victim_eid = 10u32;
    let attacker_eid = 11u32;
    let weapon_eid = 20u32;

    // Victim airborne and high enough
    analyser.entity_flags.insert(victim_eid, 0);
    set_z(&mut analyser, victim_eid, 0.0, 200.0);
    analyser.user_to_entity.insert(2u16, victim_eid);

    // Attacker's active weapon is a scattergun (hitscan)
    analyser.user_to_entity.insert(1u16, attacker_eid);
    analyser.player_active_weapon.insert(attacker_eid, weapon_eid);
    analyser.hitscan_weapon_entities.insert(weapon_eid);

    analyser.players.insert(1u16, "A".to_string());
    analyser.players.insert(2u16, "B".to_string());

    push_non_lethal(&mut analyser, 100, 1, 2, 75);
    assert!(analyser.highlights.is_empty());
}

#[test]
fn test_non_lethal_airshot_unknown_weapon_allowed() {
    let mut analyser = HighlightAnalyser::new();
    let victim_eid = 10u32;
    let attacker_eid = 11u32;

    // Victim airborne and high enough
    analyser.entity_flags.insert(victim_eid, 0);
    set_z(&mut analyser, victim_eid, 0.0, 200.0);
    analyser.user_to_entity.insert(2u16, victim_eid);

    // Attacker entity known, active weapon not tracked
    analyser.user_to_entity.insert(1u16, attacker_eid);

    analyser.players.insert(1u16, "A".to_string());
    analyser.players.insert(2u16, "B".to_string());

    push_non_lethal(&mut analyser, 100, 1, 2, 75);
    assert_eq!(analyser.highlights.len(), 1);
}

// ---- further cases ----

#[test]
fn placeholder_names_are_decimal() {
    let analyser = HighlightAnalyser::new();
    assert_eq!(analyser.resolve_name(0), "<#0>");
    assert_eq!(analyser.resolve_name(7), "<#7>");
    assert_eq!(analyser.resolve_name(65535), "<#65535>");
}

#[test]
fn recorded_user_is_resolved_by_name() {
    let mut analyser = HighlightAnalyser::new();
    analyser.record_user(12, "mały".to_string(), 3);
    assert_eq!(analyser.resolve_name(12), "mały");
    assert_eq!(analyser.entity_of_user(12), Some(3));
    analyser.record_user(12, "renamed".to_string(), 4);
    assert_eq!(analyser.resolve_name(12), "renamed");
    assert_eq!(analyser.entity_of_user(12), Some(4));
    assert_eq!(analyser.entity_of_user(13), None);
}

#[test]
fn headshot_takes_precedence_over_airshot() {
    let mut analyser = HighlightAnalyser::new();
    analyser.detect(50, 1, 2, "tf_projectile_rocket", TF_CUSTOM_HEADSHOT, true, true, Some(height(300.0)));
    assert_eq!(analyser.highlights.len(), 1);
    assert_eq!(analyser.highlights[0].kind, HighlightKind::Headshot);
    assert_eq!(analyser.highlights[0].height, None);
    assert_eq!(analyser.highlights[0].killer, "<#1>");
    assert_eq!(analyser.highlights[0].victim, "<#2>");
}

#[test]
fn airshot_needs_airborne_victim_and_projectile_weapon() {
    let mut analyser = HighlightAnalyser::new();
    analyser.detect(50, 1, 2, "tf_projectile_rocket", 0, false, true, Some(height(300.0)));
    analyser.detect(51, 1, 2, "scattergun", 0, true, true, Some(height(300.0)));
    assert!(analyser.highlights.is_empty());
    analyser.detect(52, 1, 2, "quake_rl", 0, true, true, Some(height(170.0)));
    assert_eq!(analyser.highlights.len(), 1);
    assert_eq!(analyser.highlights[0].weapon, "quake_rl");
    assert_eq!(analyser.highlights[0].damage, None);
}

#[test]
fn recording_only_appends() {
    let mut analyser = HighlightAnalyser::new();
    analyser.detect(10, 1, 2, "sniperrifle", TF_CUSTOM_HEADSHOT, false, true, None);
    analyser.detect(5, 3, 4, "sniperrifle", TF_CUSTOM_HEADSHOT, false, true, None);
    analyser.detect(7, 4, 4, "sniperrifle", TF_CUSTOM_HEADSHOT, false, true, None);
    assert_eq!(analyser.highlights.len(), 2);
    assert_eq!(analyser.highlights[0].tick, 10);
    assert_eq!(analyser.highlights[1].tick, 5);
}

#[test]
fn player_death_uses_tracked_flags() {
    let mut analyser = HighlightAnalyser::new();
    analyser.record_user(2, "B".to_string(), 4);
    analyser.entity_flags.insert(4, 0);
    set_z(&mut analyser, 4, 10.0, 260.0);
    let h = victim_height(&analyser, 2);
    assert_eq!(h, Some(height(250.0)));
    analyser.on_player_death(30, 1, 2, "tf_projectile_pipe", 0, h);
    assert_eq!(analyser.highlights.len(), 1);
    assert_eq!(analyser.highlights[0].kind, HighlightKind::Airshot);
    assert!(analyser.highlights[0].lethal);
    assert_eq!(analyser.victim_is_airborne(2), true);

    analyser.entity_flags.insert(4, FL_ONGROUND | 2);
    analyser.on_player_death(31, 1, 2, "tf_projectile_pipe", 0, h);
    assert_eq!(analyser.highlights.len(), 1);
    assert_eq!(analyser.victim_is_airborne(2), false);
    assert_eq!(analyser.victim_is_airborne(9), false);
}

#[test]
fn observe_player_tracks_flags_ground_and_weapon() {
    let mut analyser = HighlightAnalyser::new();
    let props = PlayerProps {
        origin_z: Some(120.0f32.to_bits()),
        flags: Some(FL_ONGROUND as i64 | 0x100),
        active_weapon_handle: Some(0x12345),
    };
    analyser.observe_entity(3, "CTFPlayer", &props);
    assert_eq!(analyser.entity_origin_z.get(&3), Some(&120.0f32.to_bits()));
    assert_eq!(analyser.entity_ground_z.get(&3), Some(&120.0f32.to_bits()));
    assert_eq!(analyser.entity_flags.get(&3), Some(&0x101));
    assert_eq!(analyser.player_active_weapon.get(&3), Some(&0x345));

    // Airborne update: ground reference stays where it was.
    let props = PlayerProps { origin_z: Some(400.0f32.to_bits()), flags: Some(0), active_weapon_handle: None };
    analyser.observe_entity(3, "CTFPlayer", &props);
    assert_eq!(analyser.entity_origin_z.get(&3), Some(&400.0f32.to_bits()));
    assert_eq!(analyser.entity_ground_z.get(&3), Some(&120.0f32.to_bits()));
    assert_eq!(analyser.player_active_weapon.get(&3), Some(&0x345));
    assert_eq!(compute_height(&analyser, 3), Some(280.0));

    // Landing with only the flags in the update: ground is the last known origin.
    let props = PlayerProps { origin_z: None, flags: Some(1), active_weapon_handle: None };
    analyser.observe_entity(3, "CTFPlayer", &props);
    assert_eq!(analyser.entity_ground_z.get(&3), Some(&400.0f32.to_bits()));
    assert_eq!(compute_height(&analyser, 3), Some(0.0));
}

#[test]
fn observe_ground_flag_without_origin_sets_no_ground() {
    let mut analyser = HighlightAnalyser::new();
    let props = PlayerProps { origin_z: None, flags: Some(1), active_weapon_handle: None };
    analyser.observe_entity(8, "CTFPlayer", &props);
    assert_eq!(analyser.entity_flags.get(&8), Some(&1));
    assert_eq!(analyser.entity_ground_z.get(&8), None);
}

#[test]
fn observe_flags_are_truncated_to_32_bits() {
    let mut analyser = HighlightAnalyser::new();
    let props = PlayerProps { origin_z: None, flags: Some(-1), active_weapon_handle: Some(-1) };
    analyser.observe_entity(2, "CTFPlayer", &props);
    assert_eq!(analyser.entity_flags.get(&2), Some(&0xFFFF_FFFF));
    assert_eq!(analyser.player_active_weapon.get(&2), Some(&0x7FF));
}

#[test]
fn observe_weapon_entities() {
    let mut analyser = HighlightAnalyser::new();
    let props = PlayerProps { origin_z: Some(1), flags: Some(1), active_weapon_handle: Some(5) };
    analyser.observe_entity(20, "CTFScatterGun", &props);
    analyser.observe_entity(21, "CTFRocketLauncher", &props);
    analyser.observe_entity(22, "CTFShotgun_Soldier", &props);
    assert!(analyser.hitscan_weapon_entities.contains(&20));
    assert!(!analyser.hitscan_weapon_entities.contains(&21));
    assert!(analyser.hitscan_weapon_entities.contains(&22));
    // Props of non-player entities are not tracked.
    assert!(analyser.entity_flags.is_empty());
    assert!(analyser.entity_origin_z.is_empty());
    assert!(analyser.player_active_weapon.is_empty());
}

#[test]
fn userinfo_table_is_recognised() {
    assert!(HighlightAnalyser::is_userinfo_table("userinfo"));
    assert!(!HighlightAnalyser::is_userinfo_table("userinfo2"));
    assert!(!HighlightAnalyser::is_userinfo_table("user"));
    assert!(HighlightAnalyser::is_player_class("CTFPlayer"));
    assert!(!HighlightAnalyser::is_player_class("CTFPlayerResource"));
}

#[test]
fn deduplication_sorts_by_tick_and_keeps_order_of_equal_ticks() {
    let mut analyser = HighlightAnalyser::new();
    analyser.highlights.push(highlight(300, HighlightKind::Headshot, 1, true, None));
    analyser.highlights.push(highlight(100, HighlightKind::Airshot, 2, false, Some(10)));
    analyser.highlights.push(highlight(200, HighlightKind::Airshot, 3, false, Some(20)));
    analyser.highlights.push(highlight(100, HighlightKind::Airshot, 4, false, Some(30)));
    analyser.highlights.push(highlight(100, HighlightKind::Airshot, 2, true, None));
    analyser.highlights.push(highlight(100, HighlightKind::Airshot, 5, false, Some(40)));
    let output = analyser.deduplicated_highlights();
    let summary: Vec<(u32, u16, bool)> = output.iter().map(|h| (h.tick, h.victim_user_id, h.lethal)).collect();
    assert_eq!(
        summary,
        vec![(100, 4, false), (100, 2, true), (100, 5, false), (200, 3, false), (300, 1, true)]
    );
}

#[test]
fn deduplication_keys_on_victim_id_not_name() {
    let mut analyser = HighlightAnalyser::new();
    // Same name, different players.
    analyser.highlights.push(highlight(100, HighlightKind::Airshot, 2, true, None));
    analyser.highlights.push(highlight(100, HighlightKind::Airshot, 3, false, Some(75)));
    analyser.highlights.push(highlight(101, HighlightKind::Airshot, 2, false, Some(75)));
    let output = analyser.deduplicated_highlights();
    assert_eq!(output.len(), 3);
}

#[test]
fn deduplication_does_not_drop_headshots() {
    let mut analyser = HighlightAnalyser::new();
    analyser.highlights.push(highlight(100, HighlightKind::Airshot, 2, true, None));
    analyser.highlights.push(highlight(100, HighlightKind::Headshot, 2, false, None));
    let output = analyser.deduplicated_highlights();
    assert_eq!(output.len(), 2);
}

#[test]
fn deduplicating_twice_changes_nothing() {
    let mut analyser = HighlightAnalyser::new();
    analyser.highlights.push(highlight(9, HighlightKind::Airshot, 2, false, Some(1)));
    analyser.highlights.push(highlight(3, HighlightKind::Airshot, 2, true, None));
    analyser.highlights.push(highlight(9, HighlightKind::Airshot, 2, true, None));
    analyser.highlights.push(highlight(3, HighlightKind::Airshot, 7, false, Some(2)));
    let once = analyser.deduplicated_highlights();
    let mut again = HighlightAnalyser::new();
    again.highlights = once.clone();
    let twice = again.deduplicated_highlights();
    let key = |v: &Vec<Highlight>| v.iter().map(|h| (h.tick, h.victim_user_id, h.lethal)).collect::<Vec<_>>();
    assert_eq!(key(&once), vec![(3, 2, true), (3, 7, false), (9, 2, true)]);
    assert_eq!(key(&once), key(&twice));
}

#[test]
fn empty_analyser_has_no_highlights() {
    let analyser = HighlightAnalyser::default();
    assert!(analyser.deduplicated_highlights().is_empty());
}

/// The extra data of a user info entry: the player record as the demo stores it.
fn player_record(name: &str, user_id: u32, steam_id: &str) -> Vec<u8> {
    let mut bytes = Vec::new();
    let mut fixed = |s: &str, bytes: &mut Vec<u8>| {
        let mut field = s.as_bytes().to_vec();
        field.resize(32, 0);
        bytes.extend_from_slice(&field);
    };
    fixed(name, &mut bytes);
    bytes.extend_from_slice(&user_id.to_le_bytes());
    fixed(steam_id, &mut bytes);
    bytes.extend_from_slice(&0u32.to_le_bytes()); // extra
    bytes.extend_from_slice(&0u32.to_le_bytes()); // friends id
    fixed("", &mut bytes); // friends name
    bytes.extend_from_slice(&[0, 0, 0, 0]); // fake player, hltv, replay, more extra
    bytes.extend_from_slice(&[0u8; 16]); // custom files
    bytes.extend_from_slice(&0u32.to_le_bytes()); // files downloaded
    bytes
}

#[test]
fn userinfo_entry_records_player_and_entity() {
    let mut analyser = HighlightAnalyser::new();
    let record = player_record("SniperAlex", 7, "[U:1:123]");
    analyser.handle_string_entry("userinfo", 3, Some("4"), Some(&record));
    assert_eq!(analyser.resolve_name(7), "SniperAlex");
    assert_eq!(analyser.entity_of_user(7), Some(5));

    // Without text the entity follows the table index.
    let record = player_record("ScoutBob", 8, "[U:1:456]");
    analyser.handle_string_entry("userinfo", 3, None, Some(&record));
    assert_eq!(analyser.resolve_name(8), "ScoutBob");
    assert_eq!(analyser.entity_of_user(8), Some(4));
}

#[test]
fn other_tables_and_empty_entries_record_nothing() {
    let mut analyser = HighlightAnalyser::new();
    let record = player_record("SniperAlex", 7, "[U:1:123]");
    analyser.handle_string_entry("modelprecache", 3, Some("4"), Some(&record));
    analyser.handle_string_entry("userinfo", 3, Some("4"), None);
    // A record without a steam id holds no player.
    let record = player_record("Nobody", 9, "");
    analyser.handle_string_entry("userinfo", 3, Some("4"), Some(&record));
    assert!(analyser.players.is_empty());
    assert!(analyser.user_to_entity.is_empty());
    assert_eq!(analyser.resolve_name(7), "<#7>");
}

#[test]
fn userinfo_entry_naming_the_largest_entity_is_skipped() {
    let record = player_record("SniperAlex", 7, "[U:1:123]");
    for text in ["4294967295", "+4294967295", "004294967295"] {
        let mut analyser = HighlightAnalyser::new();
        analyser.handle_string_entry("userinfo", 3, Some(text), Some(&record));
        assert!(analyser.players.is_empty(), "{}", text);
        assert!(analyser.user_to_entity.is_empty(), "{}", text);
    }
    let mut analyser = HighlightAnalyser::new();
    analyser.handle_string_entry("userinfo", 3, Some("4294967294"), Some(&record));
    assert_eq!(analyser.entity_of_user(7), Some(4294967295));
    // Texts that do not parse as a u32 hold no player.
    let mut analyser = HighlightAnalyser::new();
    analyser.handle_string_entry("userinfo", 3, Some("42949672950"), Some(&record));
    analyser.handle_string_entry("userinfo", 3, Some("-1"), Some(&record));
    analyser.handle_string_entry("userinfo", 3, Some("+"), Some(&record));
    assert!(analyser.players.is_empty());
}

#[test]
fn overflowing_entity_texts() {
    assert!(text_overflows_entity(Some("4294967295")));
    assert!(text_overflows_entity(Some("+4294967295")));
    assert!(text_overflows_entity(Some("0004294967295")));
    assert!(!text_overflows_entity(Some("4294967294")));
    assert!(!text_overflows_entity(Some("42949672951")));
    assert!(!text_overflows_entity(Some("4294967295 ")));
    assert!(!text_overflows_entity(Some("++4294967295")));
    assert!(!text_overflows_entity(Some("+")));
    assert!(!text_overflows_entity(Some("")));
    assert!(!text_overflows_entity(None));
}

#[test]
fn entity_messages_track_weapons_and_players() {
    let mut analyser = HighlightAnalyser::new();
    analyser.entity_flags.insert(9, 1);
    let none = || PlayerProps { origin_z: None, flags: None, active_weapon_handle: None };
    let updates = vec![
        EntityUpdate { entity: 20, class_name: "CTFMinigun", props: none() },
        EntityUpdate { entity: 21, class_name: "CTFGrenadeLauncher", props: none() },
        EntityUpdate {
            entity: 3,
            class_name: "CTFPlayer",
            props: PlayerProps { origin_z: Some(50.0f32.to_bits()), flags: Some(0), active_weapon_handle: Some(20) },
        },
        EntityUpdate {
            entity: 3,
            class_name: "CTFPlayer",
            props: PlayerProps { origin_z: None, flags: Some(1), active_weapon_handle: None },
        },
        EntityUpdate { entity: 22, class_name: "CTFPistol_Scout", props: none() },
    ];
    analyser.observe_entities(&updates);
    let mut hitscan: Vec<u32> = analyser.hitscan_weapon_entities.iter().copied().collect();
    hitscan.sort();
    assert_eq!(hitscan, vec![20, 22]);
    assert_eq!(analyser.entity_flags.get(&3), Some(&1));
    assert_eq!(analyser.entity_ground_z.get(&3), Some(&50.0f32.to_bits()));
    assert_eq!(analyser.player_active_weapon.get(&3), Some(&20));
    // Entities not updated as players keep their state.
    assert_eq!(analyser.entity_flags.get(&9), Some(&1));
    assert!(analyser.entity_flags.get(&20).is_none());
    assert!(analyser.highlights.is_empty());
}

#[test]
fn dedup_orders_many_highlights_by_tick() {
    let mut analyser = HighlightAnalyser::new();
    let ticks = [50u32, 3, 50, 7, 3, 99, 0, 7, 50, 1];
    for (victim, tick) in ticks.iter().enumerate() {
        analyser.highlights.push(highlight(*tick, HighlightKind::Headshot, victim as u16, true, None));
    }
    let output = analyser.deduplicated_highlights();
    let got: Vec<(u32, u16)> = output.iter().map(|h| (h.tick, h.victim_user_id)).collect();
    assert_eq!(
        got,
        vec![(0, 6), (1, 9), (3, 1), (3, 4), (7, 3), (7, 7), (50, 0), (50, 2), (50, 8), (99, 5)]
    );
}
