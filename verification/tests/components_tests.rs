use dota::abilities::AbilitiesError;
use dota::abilities::AbilityID;
use dota::abilities::parse_ability_id;
use dota::buildings::BuildingInformation;
use dota::buildings::Buildings;
use dota::gamestate::Auth;
use dota::gamestate::DotaGameRulesState;
use dota::gamestate::GameMap;
use dota::gamestate::GameState;
use dota::gamestate::Provider;
use dota::heroes::GameHeroes;
use dota::heroes::Hero;
use dota::items::GameItems;
use dota::items::ItemContainer;
use dota::items::ItemEntry;
use dota::items::Items;
use dota::items::ItemsError;
use dota::items::Rune;
use dota::items::find_first_numeric;
use dota::players::GamePlayers;
use dota::players::PlayerActivity;
use dota::players::PlayerID;
use dota::players::PlayersError;
use dota::players::parse_player_id;
use dota::team::Team;
use dota::wearables::Wearable;
use dota::wearables::WearableSlot;
use dota::wearables::Wearables;
use dota::wearables::WearablesError;

#[test]
fn test_team_from_str() {
    assert!(matches!(Team::from("radiant".to_string()), Team::Radiant));
    assert!(matches!(Team::from("dire".to_string()), Team::Dire));
}

#[test]
fn test_team_from_alternate_names() {
    assert!(matches!(Team::from("team2".to_string()), Team::Radiant));
    assert!(matches!(Team::from("team3".to_string()), Team::Dire));
    assert!(matches!(Team::from("none".to_string()), Team::NoTeam));
    match Team::from("observers".to_string()) {
        Team::Undefined(s) => assert_eq!(s, "observers"),
        other => panic!("expected an undefined team, got {:?}", other),
    }
}

#[test]
fn test_team_equality() {
    assert_eq!(Team::Radiant, Team::Radiant);
    assert_ne!(Team::Radiant, Team::Dire);
    assert_eq!(
        Team::Undefined("observers".to_string()),
        Team::Undefined("observers".to_string())
    );
    assert_ne!(
        Team::Undefined("observers".to_string()),
        Team::Undefined("casters".to_string())
    );
}

#[test]
fn test_player_activity_from_str() {
    assert!(matches!(
        PlayerActivity::from("menu".to_string()),
        PlayerActivity::Menu
    ));
    assert!(matches!(
        PlayerActivity::from("playing".to_string()),
        PlayerActivity::Playing
    ));
}

#[test]
fn test_player_activity_undefined() {
    assert!(matches!(
        PlayerActivity::from("idle".to_string()),
        PlayerActivity::Undefined(_)
    ));
}

#[test]
fn test_parse_player_id() {
    assert_eq!(parse_player_id("player0".to_string()), Ok(PlayerID(0)));
    assert_eq!(parse_player_id("player9".to_string()), Ok(PlayerID(9)));
    assert!(matches!(
        parse_player_id("spectator1".to_string()),
        Err(PlayersError::ParseIDError(_))
    ));
    assert!(matches!(
        parse_player_id("player".to_string()),
        Err(PlayersError::ParseIDError(_))
    ));
    assert!(matches!(
        parse_player_id("player999".to_string()),
        Err(PlayersError::ParseIDError(_))
    ));
}

#[test]
fn test_parse_ability_id() {
    assert_eq!(parse_ability_id("ability4".to_string()), Ok(AbilityID(4)));
    assert!(matches!(
        parse_ability_id("talent1".to_string()),
        Err(AbilitiesError::ParseIDError(_))
    ));
}

#[test]
fn test_rune_from_str() {
    assert!(matches!(Rune::from("regen".to_string()), Rune::Regeneration));
    assert!(matches!(Rune::from("double_damage".to_string()), Rune::DoubleDamage));
    assert!(matches!(Rune::from("empty".to_string()), Rune::Empty));
    assert!(matches!(Rune::from("unknown_rune".to_string()), Rune::Undefined(_)));
}

#[test]
fn test_rules_state_from_str() {
    assert!(matches!(
        DotaGameRulesState::from("DOTA_GAMERULES_STATE_INIT".to_string()),
        DotaGameRulesState::Starting
    ));
    assert!(matches!(
        DotaGameRulesState::from("DOTA_GAMERULES_STATE_GAME_IN_PROGRESS".to_string()),
        DotaGameRulesState::InProgress
    ));
    assert!(matches!(
        DotaGameRulesState::from("DOTA_GAMERULES_STATE_STRATEGY_TIME".to_string()),
        DotaGameRulesState::StrategyTime
    ));
    assert!(matches!(
        DotaGameRulesState::from("DOTA_GAMERULES_STATE_SOMETHING_NEW".to_string()),
        DotaGameRulesState::Undefined(_)
    ));
}

#[test]
fn test_buildings_deserialize() {
    let names: [&str; 16] = [
        "bad_rax_melee_bot",
        "bad_rax_melee_mid",
        "bad_rax_melee_top",
        "bad_rax_range_bot",
        "bad_rax_range_mid",
        "bad_rax_range_top",
        "dota_badguys_fort",
        "dota_badguys_tower1_bot",
        "dota_badguys_tower2_bot",
        "dota_badguys_tower2_mid",
        "dota_badguys_tower2_top",
        "dota_badguys_tower3_bot",
        "dota_badguys_tower3_mid",
        "dota_badguys_tower3_top",
        "dota_badguys_tower4_bot",
        "dota_badguys_tower4_top",
    ];
    let mut entries: Vec<(String, BuildingInformation)> = Vec::new();
    for name in names {
        entries.push((name.to_string(), BuildingInformation::new(2200, 2200)));
    }
    let buildings = Buildings::from_entries(entries);

    assert!(buildings.contains_building("dota_badguys_tower3_mid"));
    assert!(!buildings.contains_building("dota_goodguys_tower3_mid"));
    assert_eq!(buildings.len(), 16);
    assert!(!buildings.is_empty());
    assert!(buildings.get_building_information("dota_badguys_fort").is_some());
    assert!(buildings.get_building_information("missing").is_none());
}

#[test]
fn test_item_container_parsing() {
    assert_eq!(
        ItemContainer::try_from("slot3".to_string()),
        Ok(ItemContainer::Inventory(3))
    );
    assert_eq!(
        ItemContainer::try_from("stash0".to_string()),
        Ok(ItemContainer::Stash(0))
    );
    assert_eq!(
        ItemContainer::try_from("teleport0".to_string()),
        Ok(ItemContainer::Teleport)
    );
    assert_eq!(
        ItemContainer::try_from("neutral0".to_string()),
        Ok(ItemContainer::Neutral)
    );
    assert_eq!(
        ItemContainer::try_from("preserved_neutral10".to_string()),
        Ok(ItemContainer::PreservedNeutral)
    );

    assert!(matches!(
        ItemContainer::try_from("slot".to_string()),
        Err(ItemsError::MissingSlotInContainer(_))
    ));
    assert!(matches!(
        ItemContainer::try_from("slot999".to_string()),
        Err(ItemsError::ParseSlotError)
    ));
    match ItemContainer::try_from("backpack2".to_string()) {
        Err(ItemsError::UnknownItemContainer(prefix)) => assert_eq!(prefix, "backpack"),
        other => panic!("expected an unknown container, got {:?}", other),
    }

    assert_eq!(ItemContainer::Inventory(5).index(), 5);
    assert_eq!(ItemContainer::Stash(2).index(), 2);
    assert_eq!(ItemContainer::Teleport.index(), 0);
}

#[test]
fn test_find_first_numeric() {
    assert_eq!(find_first_numeric("slot3"), Some(4));
    assert_eq!(find_first_numeric("preserved_neutral10"), Some(17));
    assert_eq!(find_first_numeric("teleport"), None);
    assert_eq!(find_first_numeric("7up"), Some(0));
}

fn empty_entry() -> ItemEntry {
    ItemEntry {
        name: "empty".to_string(),
        purchaser: None,
        item_level: None,
        contains_rune: None,
        can_cast: None,
        cooldown: None,
        passive: None,
        item_charges: None,
        charges: None,
    }
}

#[test]
fn test_items_deserialize() {
    let mut entries: Vec<(String, ItemEntry)> = Vec::new();
    for i in 0..9u8 {
        entries.push((format!("slot{}", i), empty_entry()));
    }
    for i in 0..6u8 {
        entries.push((format!("stash{}", i), empty_entry()));
    }
    entries.push((
        "teleport0".to_string(),
        ItemEntry {
            name: "item_tpscroll".to_string(),
            purchaser: Some(0),
            item_level: Some(1),
            contains_rune: None,
            can_cast: Some(false),
            cooldown: Some(96),
            passive: Some(false),
            item_charges: Some(1),
            charges: Some(1),
        },
    ));
    entries.push(("neutral0".to_string(), empty_entry()));
    entries.push(("neutral1".to_string(), empty_entry()));
    for i in 6..11u8 {
        entries.push((format!("preserved_neutral{}", i), empty_entry()));
    }

    let items = Items::from_entries(entries).expect("Failed to deserialize items");

    assert!(matches!(
        items.teleport(),
        dota::items::ItemSlot::Full { index: 0, item: _ }
    ));
    assert!(!items.is_teleport_empty());
    assert!(items.is_inventory_empty());
    assert!(items.is_stash_empty());
    assert!(items.is_neutrals_empty());
    assert!(items.is_preserved_neutrals_empty());
}

#[test]
fn test_items_missing_required_field() {
    let entries = vec![(
        "slot0".to_string(),
        ItemEntry {
            name: "item_manta".to_string(),
            purchaser: None,
            item_level: None,
            contains_rune: None,
            can_cast: Some(true),
            cooldown: Some(0),
            passive: Some(false),
            item_charges: None,
            charges: None,
        },
    )];
    match Items::from_entries(entries) {
        Err(ItemsError::MissingRequiredField(field, container)) => {
            assert_eq!(field, "purchaser");
            assert_eq!(container, ItemContainer::Inventory(0));
        }
        other => panic!("expected a missing required field, got {:?}", other),
    }
}

#[test]
fn test_wearables_deserialize() {
    let pairs: Vec<(String, u32)> = vec![
        ("wearable0".to_string(), 8863),
        ("wearable1".to_string(), 8865),
        ("wearable2".to_string(), 18582),
        ("wearable3".to_string(), 8869),
        ("wearable4".to_string(), 8871),
        ("style4".to_string(), 2),
        ("wearable5".to_string(), 4764),
        ("wearable6".to_string(), 5105),
        ("wearable7".to_string(), 8632),
        ("wearable8".to_string(), 790),
        ("style8".to_string(), 1),
        ("wearable9".to_string(), 791),
        ("wearable10".to_string(), 14912),
        ("style10".to_string(), 3),
    ];
    let wearables = Wearables::from_pairs(pairs).expect("Failed to deserialize Wearables");

    let wearable_4 = wearables.get(&WearableSlot::from(4)).unwrap();
    let wearable_10 = wearables.get(&WearableSlot::from(10)).unwrap();
    let wearable_8 = wearables.get(&WearableSlot::from(8)).unwrap();
    let wearable_1 = wearables.get(&WearableSlot::from(1)).unwrap();

    assert_eq!(wearables.len(), 11);

    assert!(wearable_4.id.is_some());
    assert!(wearable_4.style.is_some());
    assert_eq!(wearable_4.style.unwrap(), 2);
    assert_eq!(wearable_4.id.unwrap(), 8871);

    assert!(wearable_10.id.is_some());
    assert!(wearable_10.style.is_some());
    assert_eq!(wearable_10.style.unwrap(), 3);
    assert_eq!(wearable_10.id.unwrap(), 14912);

    assert!(wearable_8.id.is_some());
    assert!(wearable_8.style.is_some());
    assert_eq!(wearable_8.style.unwrap(), 1);
    assert_eq!(wearable_8.id.unwrap(), 790);

    assert!(wearable_1.id.is_some());
    assert!(wearable_1.style.is_none());
    assert_eq!(wearable_1.id.unwrap(), 8865);
}

#[test]
fn test_wearables_deserialize_no_styles() {
    let pairs: Vec<(String, u32)> = vec![
        ("wearable0".to_string(), 8863),
        ("wearable1".to_string(), 8865),
        ("wearable2".to_string(), 18582),
        ("wearable3".to_string(), 8869),
        ("wearable4".to_string(), 8871),
        ("wearable5".to_string(), 4764),
        ("wearable6".to_string(), 5105),
        ("wearable7".to_string(), 8632),
        ("wearable8".to_string(), 790),
        ("wearable9".to_string(), 791),
        ("wearable10".to_string(), 14912),
    ];
    let wearables = Wearables::from_pairs(pairs).expect("Failed to deserialize Wearables");

    let wearable_4 = wearables.get(&WearableSlot::from(4)).unwrap();
    let wearable_10 = wearables.get(&WearableSlot::from(10)).unwrap();
    let wearable_8 = wearables.get(&WearableSlot::from(8)).unwrap();
    let wearable_1 = wearables.get(&WearableSlot::from(1)).unwrap();

    assert_eq!(wearables.len(), 11);

    assert!(wearable_4.id.is_some());
    assert!(wearable_4.style.is_none());
    assert_eq!(wearable_4.id.unwrap(), 8871);

    assert!(wearable_10.id.is_some());
    assert!(wearable_10.style.is_none());
    assert_eq!(wearable_10.id.unwrap(), 14912);

    assert!(wearable_8.id.is_some());
    assert!(wearable_8.style.is_none());
    assert_eq!(wearable_8.id.unwrap(), 790);

    assert!(wearable_1.id.is_some());
    assert!(wearable_1.style.is_none());
    assert_eq!(wearable_1.id.unwrap(), 8865);
}

#[test]
fn test_wearables_bad_key() {
    let pairs = vec![("hat7".to_string(), 1)];
    assert!(matches!(
        Wearables::from_pairs(pairs),
        Err(WearablesError::ParseSlotError(_))
    ));
}

#[test]
fn test_wearable_new() {
    let w = Wearable::new(Some(8871), Some(2));
    assert_eq!(w.id, Some(8871));
    assert_eq!(w.style, Some(2));
}

fn bare_hero(id: i16) -> Hero {
    Hero {
        xpos: None,
        ypos: None,
        id,
        name: None,
        level: None,
        xp: None,
        alive: None,
        respawn_seconds: None,
        buyback_cost: None,
        buyback_cooldown: None,
        health: None,
        max_health: None,
        health_percent: None,
        mana: None,
        max_mana: None,
        mana_percent: None,
        silenced: None,
        stunned: None,
        disarmed: None,
        magicimmune: None,
        hexed: None,
        muted: None,
        break_active: None,
        aghanims_scepter: None,
        aghanims_shard: None,
        smoked: None,
        has_debuff: None,
        talent_1: None,
        talent_2: None,
        talent_3: None,
        talent_4: None,
        talent_5: None,
        talent_6: None,
        talent_7: None,
        talent_8: None,
    }
}

fn snapshot(heroes: Option<GameHeroes>, items: Option<GameItems>) -> GameState {
    GameState {
        provider: Provider {
            name: "Dota 2".to_string(),
            app_id: 570,
            version: 47,
            timestamp: 1688514013,
        },
        buildings: None,
        map: None,
        players: None,
        heroes,
        abilities: None,
        items,
        draft: None,
        wearables: None,
    }
}

#[test]
fn test_gamestate_playing_getters() {
    let gs = snapshot(Some(GameHeroes::Playing(bare_hero(42))), None);

    let hero = gs.get_hero().expect("the playing hero should be visible");
    assert_eq!(hero.id, 42);
    assert!(gs.get_heroes().is_some());
    assert!(gs.get_players().is_some());
    assert!(gs.get_items().is_none());
}

#[test]
fn test_gamestate_spectating_lookups() {
    let radiant_heroes = vec![(PlayerID(0), bare_hero(7)), (PlayerID(1), bare_hero(8))];
    let dire_heroes = vec![(PlayerID(5), bare_hero(9))];
    let table = vec![(Team::Radiant, radiant_heroes), (Team::Dire, dire_heroes)];
    let gs = snapshot(Some(GameHeroes::Spectating(table)), None);

    let hero = gs
        .get_team_player_hero(&Team::Radiant, &PlayerID(1))
        .expect("the spectated hero should be visible");
    assert_eq!(hero.id, 8);
    let hero = gs
        .get_team_player_hero(&Team::Dire, &PlayerID(5))
        .expect("the spectated hero should be visible");
    assert_eq!(hero.id, 9);
    assert!(gs.get_team_player_hero(&Team::Dire, &PlayerID(0)).is_none());
    assert!(gs.get_team_player_hero(&Team::NoTeam, &PlayerID(0)).is_none());
    assert!(gs.get_hero().is_none());
    assert!(gs.get_team_player_items(&Team::Radiant, &PlayerID(0)).is_none());
}

#[test]
fn test_gamestate_spectating_items_lookup() {
    let items = Items::from_entries(vec![("slot0".to_string(), empty_entry())])
        .expect("items should build");
    let table = vec![(Team::Radiant, vec![(PlayerID(2), items)])];
    let gs = snapshot(None, Some(GameItems::Spectating(table)));

    let found = gs
        .get_team_player_items(&Team::Radiant, &PlayerID(2))
        .expect("the spectated items should be visible");
    assert!(found.is_inventory_empty());
    assert!(gs.get_team_player_items(&Team::Radiant, &PlayerID(3)).is_none());
    assert!(gs.get_items().is_none());
}

#[test]
fn test_map_and_auth_hold_their_readings() {
    let map = GameMap {
        name: "hero_demo_main".to_string(),
        match_id: "0".to_string(),
        game_time: 5,
        clock_time: 4,
        daytime: true,
        nightstalker_night: false,
        game_state: DotaGameRulesState::from("DOTA_GAMERULES_STATE_GAME_IN_PROGRESS".to_string()),
        paused: false,
        win_team: Team::from("none".to_string()),
        customgamename: "common/dota 2 beta/game/dota_addons/hero_demo".to_string(),
        ward_purchase_cooldown: Some(0),
    };
    assert_eq!(map.name, "hero_demo_main");
    assert_eq!(map.match_id, "0");
    assert_eq!(map.game_time, 5);
    assert_eq!(map.clock_time, 4);
    assert!(map.daytime);
    assert!(!map.nightstalker_night);
    assert!(matches!(map.game_state, DotaGameRulesState::InProgress));
    assert!(!map.paused);
    assert!(matches!(map.win_team, Team::NoTeam));

    let auth = Auth { token: Some("hello1234".to_string()) };
    assert_eq!(auth.token.as_deref(), Some("hello1234"));
}

#[test]
fn test_playing_players_hold_their_statistics() {
    let info = dota::players::PlayerInformation {
        steamid: "76561197996881999".to_string(),
        name: "watcher".to_string(),
        activity: PlayerActivity::from("playing".to_string()),
        kills: 2,
        deaths: 1,
        assists: 5,
        last_hits: 8,
        denies: 3,
        kill_streak: 0,
        kill_list: vec![("victimid_5".to_string(), 2)],
        commands_issued: 2138,
        team_name: Team::from("radiant".to_string()),
        gold: 318,
        gold_reliable: 102,
        gold_unreliable: 216,
        gold_from_hero_kills: 574,
        gold_from_creep_kills: 288,
        gold_from_income: 1351,
        gold_from_shared: 252,
        net_worth: Some(2333),
        gpm: 202,
        xpm: 248,
    };
    let players = GamePlayers::Playing(info);
    match players {
        GamePlayers::Playing(p) => {
            assert_eq!(p.kills, 2);
            assert!(matches!(p.activity, PlayerActivity::Playing));
            assert!(matches!(p.team_name, Team::Radiant));
            assert_eq!(p.kill_list, vec![("victimid_5".to_string(), 2)]);
        }
        GamePlayers::Spectating(_) => panic!("expected the playing shape"),
    }
}
