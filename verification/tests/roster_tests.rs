use brawler_server::admission::{MatchManifest, MatchManifestBot, MatchManifestParticipant};
use brawler_server::balance_lab::roster::{
    from_manifest, player_view, BrawlerCatalogView, CatalogChoice, DecodedBuild, FighterProfileEntry,
    ParticipantTypeView, PassiveEntry, PassiveKind, ScalarModifierView, SlowModifierView, WeaponModifiersView,
};
use brawler_server::decimal::decimal_string;
use brawler_server::ids::{BrawlerId, LobbySessionId, NetcodeClientId, PeerId, PlayerId};
use brawler_server::wire::BuildSnapshot;

fn part(id: u16, key: &str, name: &str) -> CatalogChoice {
    CatalogChoice { id, key: key.to_string(), display_name: name.to_string() }
}

fn catalog() -> BrawlerCatalogView {
    BrawlerCatalogView {
        fighter_profiles: vec![FighterProfileEntry {
            choice: part(1, "standard", "Standard"),
            cold_capacity: 100,
            cold_resistance_basis_points: 1_000,
            poison_resistance_basis_points: 2_000,
            fire_resistance_basis_points: 5_000,
        }],
        weapon_bases: vec![part(1, "rifle", "Rifle"), part(2, "scatter", "Scatter")],
        ultimates: vec![part(1, "demolition", "Demolition Strike")],
        passives: vec![
            PassiveEntry { choice: part(3, "cryo", "Cryogenic Insulation"), kind: PassiveKind::CryogenicInsulation },
            PassiveEntry { choice: part(4, "heat", "Heat Shielding"), kind: PassiveKind::HeatShielding },
            PassiveEntry { choice: part(5, "swift", "Swift"), kind: PassiveKind::Other },
        ],
    }
}

fn scalar(flat: i32) -> ScalarModifierView {
    ScalarModifierView { flat, percent_basis_points: 0 }
}

fn modifiers() -> WeaponModifiersView {
    WeaponModifiersView {
        capacity: scalar(1),
        damage: scalar(2),
        fire_interval: scalar(0),
        refill_interval: scalar(0),
        reach_milliunits: scalar(-5),
        slow: Some(SlowModifierView { penalty_basis_points: 500, duration_ticks: 30 }),
        cold: None,
        poison: None,
        fire: None,
        heal: Some(3),
    }
}

fn build(weapon: u16, passives: [u16; 2]) -> DecodedBuild {
    DecodedBuild { fighter_profile_id: 1, weapon_base_id: weapon, ultimate_id: 1, passive_ids: passives, weapon_modifiers: modifiers() }
}

fn snapshot() -> BuildSnapshot {
    BuildSnapshot { brawler_id: BrawlerId::new(1).unwrap(), brawler_revision: 1, weapon_base_id: 1, ultimate_id: 1, passive_ids: [3, 4] }
}

fn participant(player: u64, team: u8, name: &str) -> MatchManifestParticipant {
    MatchManifestParticipant {
        lobby_session_id: LobbySessionId::new(u128::from(player)).unwrap(),
        player_id: PlayerId::new(player).unwrap(),
        netcode_client_id: NetcodeClientId::new(player).unwrap(),
        peer_id: PeerId::new(u128::from(player)).unwrap(),
        team,
        display_name: name.to_string(),
        recipe_fingerprint: 1,
        revision: 1,
        build_snapshot: snapshot(),
    }
}

fn bot(player: u64, team: u8, name: &str) -> MatchManifestBot {
    MatchManifestBot {
        player_id: PlayerId::new(player).unwrap(),
        team,
        display_name: name.to_string(),
        recipe_fingerprint: 2,
        revision: 1,
        build_snapshot: snapshot(),
    }
}

#[test]
fn player_view_names_parts_and_raises_resistances() {
    let view = player_view(42, "Ada", 1, ParticipantTypeView::Human, &Ok(build(2, [3, 4])), &catalog()).unwrap();
    assert_eq!(view.player_id, "42");
    assert_eq!(view.display_name, "Ada");
    assert_eq!(view.team, 1);
    assert_eq!(view.participant_type, ParticipantTypeView::Human);
    assert_eq!(view.fighter_profile.key, "standard");
    assert_eq!(view.weapon_base.display_name, "Scatter");
    assert_eq!(view.ultimate.id, 1);
    assert_eq!(view.passives[0].key, "cryo");
    assert_eq!(view.passives[1].key, "heat");
    assert_eq!(view.weapon_modifiers, modifiers());
    assert_eq!(view.cold_capacity, 100);
    assert_eq!(
        (
            view.cold_resistance_baseline_basis_points,
            view.poison_resistance_baseline_basis_points,
            view.fire_resistance_baseline_basis_points
        ),
        (1_000, 2_000, 5_000)
    );
    assert_eq!(view.cold_resistance_basis_points, 4_000);
    assert_eq!(view.poison_resistance_basis_points, 2_000);
    assert_eq!(view.fire_resistance_basis_points, 6_000);

    let plain = player_view(7, "Bot 1", 0, ParticipantTypeView::Bot, &Ok(build(1, [5, 5])), &catalog()).unwrap();
    assert_eq!(plain.cold_resistance_basis_points, 1_000);
    assert_eq!(plain.fire_resistance_basis_points, 5_000);
    assert_eq!(plain.passives[1].display_name, "Swift");
}

#[test]
fn player_view_refuses_unknown_parts_in_order() {
    let mut unknown_profile = build(1, [3, 4]);
    unknown_profile.fighter_profile_id = 9;
    unknown_profile.weapon_base_id = 9;
    let refused = player_view(1, "Ada", 0, ParticipantTypeView::Human, &Ok(unknown_profile), &catalog());
    assert_eq!(refused, Err("admitted player references an unknown fighter profile".to_string()));
    let refused = player_view(1, "Ada", 0, ParticipantTypeView::Human, &Ok(build(9, [3, 4])), &catalog());
    assert_eq!(refused, Err("admitted player references an unknown weapon base".to_string()));
    let mut unknown_ultimate = build(1, [3, 4]);
    unknown_ultimate.ultimate_id = 4;
    let refused = player_view(1, "Ada", 0, ParticipantTypeView::Human, &Ok(unknown_ultimate), &catalog());
    assert_eq!(refused, Err("admitted player references an unknown ultimate".to_string()));
    let refused = player_view(1, "Ada", 0, ParticipantTypeView::Human, &Ok(build(1, [3, 8])), &catalog());
    assert_eq!(refused, Err("admitted player references an unknown passive".to_string()));
    let refused = player_view(1, "Ada", 0, ParticipantTypeView::Human, &Err("undecodable build".to_string()), &catalog());
    assert_eq!(refused, Err("undecodable build".to_string()));
}

#[test]
fn manifest_roster_lists_players_by_team_then_player() {
    let manifest = MatchManifest {
        participants: vec![participant(9, 1, "Ada"), participant(7, 0, "Bo")],
        bots: vec![bot(u64::MAX, 0, "Bot 1"), bot(u64::MAX - 1, 1, "Bot 2")],
    };
    let builds = vec![Ok(build(1, [3, 4])), Ok(build(2, [5, 4])), Ok(build(1, [5, 5])), Ok(build(1, [5, 5]))];
    let roster = from_manifest(&manifest, &builds, &catalog()).unwrap();
    let order: Vec<(u8, &str, ParticipantTypeView)> =
        roster.iter().map(|player| (player.team, player.player_id.as_str(), player.participant_type)).collect();
    assert_eq!(
        order,
        vec![
            (0, "7", ParticipantTypeView::Human),
            (0, "18446744073709551615", ParticipantTypeView::Bot),
            (1, "9", ParticipantTypeView::Human),
            (1, "18446744073709551614", ParticipantTypeView::Bot),
        ]
    );
    assert_eq!(roster[0].display_name, "Bo");
    assert_eq!(roster[0].weapon_base.key, "scatter");

    let broken = vec![Ok(build(1, [3, 4])), Ok(build(7, [3, 4])), Ok(build(1, [3, 9])), Ok(build(1, [5, 5]))];
    assert_eq!(
        from_manifest(&manifest, &broken, &catalog()),
        Err("admitted player references an unknown weapon base".to_string())
    );
    let empty = MatchManifest { participants: Vec::new(), bots: Vec::new() };
    assert_eq!(from_manifest(&empty, &Vec::new(), &catalog()), Ok(Vec::new()));
}

#[test]
fn decimal_text_has_no_leading_zeros() {
    assert_eq!(decimal_string(0), "0");
    assert_eq!(decimal_string(7), "7");
    assert_eq!(decimal_string(10), "10");
    assert_eq!(decimal_string(65_024), "65024");
    assert_eq!(decimal_string(u64::MAX), "18446744073709551615");
}

fn embedded_catalog() -> BrawlerCatalogView {
    let profile = |id: u16, key: &str, name: &str| FighterProfileEntry {
        choice: part(id, key, name),
        cold_capacity: 100,
        cold_resistance_basis_points: 0,
        poison_resistance_basis_points: 0,
        fire_resistance_basis_points: 0,
    };
    BrawlerCatalogView {
        fighter_profiles: vec![
            profile(1, "standard", "Standard"),
            profile(2, "lightweight", "Lightweight"),
            profile(3, "reinforced", "Reinforced"),
        ],
        weapon_bases: vec![part(1, "pulse-sidearm", "Pulse Sidearm"), part(2, "scatter-cannon", "Scatter Cannon")],
        ultimates: vec![part(1, "dash", "Dash")],
        passives: vec![
            PassiveEntry { choice: part(3, "adrenal-response", "Adrenal Response"), kind: PassiveKind::Other },
            PassiveEntry { choice: part(4, "second-wind", "Second Wind"), kind: PassiveKind::Other },
        ],
    }
}

fn unmodified() -> WeaponModifiersView {
    WeaponModifiersView {
        capacity: scalar(0),
        damage: scalar(0),
        fire_interval: scalar(0),
        refill_interval: scalar(0),
        reach_milliunits: scalar(0),
        slow: None,
        cold: None,
        poison: None,
        fire: None,
        heal: None,
    }
}

fn admitted_brawler(fighter_profile_id: u16, weapon_base_id: u16) -> DecodedBuild {
    DecodedBuild {
        fighter_profile_id,
        weapon_base_id,
        ultimate_id: 1,
        passive_ids: [3, 4],
        weapon_modifiers: unmodified(),
    }
}

#[test]
fn roster_projection_exposes_human_and_bot_loadouts_with_catalog_names() {
    let human = admitted_brawler(2, 1);
    let bot_build = admitted_brawler(3, 2);
    let manifest = MatchManifest {
        participants: vec![participant(7, 0, "Operator")],
        bots: vec![bot(9, 1, "Bot 1")],
    };
    let players = from_manifest(&manifest, &vec![Ok(human), Ok(bot_build)], &embedded_catalog()).unwrap();

    assert_eq!(players[0].display_name, "Operator");
    assert_eq!(players[0].participant_type, ParticipantTypeView::Human);
    assert_eq!(players[0].team, 0);
    assert_eq!(players[0].fighter_profile.display_name, "Lightweight");
    assert_eq!(players[0].weapon_base.display_name, "Pulse Sidearm");
    assert_eq!(players[0].ultimate.display_name, "Dash");
    assert_eq!(players[0].passives[0].display_name, "Adrenal Response");
    assert_eq!(players[1].display_name, "Bot 1");
    assert_eq!(players[1].participant_type, ParticipantTypeView::Bot);
    assert_eq!(players[1].team, 1);
    assert_eq!(players[1].fighter_profile.display_name, "Reinforced");
    assert_eq!(players[1].weapon_base.display_name, "Scatter Cannon");
    assert_eq!(players[1].weapon_modifiers.capacity.flat, 0);
}
