use riot_rust_api::error::RiotError;
use riot_rust_api::json::{Double, Json};
use riot_rust_api::parquet_extract::{
    as_f64, as_i32, clamp_i32, clamp_i64, extract_parquet, extract_player_parquet,
    extract_team_parquet, find_role_champion, narrow_i32, objective_first, objective_kills,
    per_min, player_rows, role_of, sum_counter, sum_creeps, team_objectives, team_rows, team_side,
    wrap_i32, Level, Rate, Skip,
};
use riot_rust_api::tables::{
    build_dataframe, build_team_dataframe, player_columns, team_columns,
};

const MATCH: &str = r#"{
  "metadata": {"matchId": "EUW1_7", "platformId": "EUW1", "participants": ["a", "b", "c", "d"]},
  "info": {
    "gameCreation": 1700000000000, "gameDuration": 1800, "queueId": 420, "gameVersion": "13.20.1",
    "participants": [
      {"teamId": 100, "puuid": "a", "championId": 1, "championName": "Annie", "teamPosition": "TOP",
       "win": true, "kills": 3, "deaths": 1, "assists": 4, "champLevel": 15, "goldEarned": 10000,
       "goldSpent": 9000, "totalMinionsKilled": 150, "neutralMinionsKilled": 10,
       "totalDamageDealtToChampions": 20000, "damageDealtToObjectives": 3000,
       "damageDealtToTurrets": 2000, "turretTakedowns": 2, "inhibitorTakedowns": 1,
       "visionScore": 20, "wardsPlaced": 8, "wardsKilled": 2, "visionWardsBoughtInGame": 3,
       "challenges": {"damagePerMinute": 666.5, "goldPerMinute": 333, "kda": 7.0,
                      "killParticipation": 0.5, "teamDamagePercentage": 0.25,
                      "visionScorePerMinute": 0.75, "laneMinionsFirst10Minutes": 70,
                      "jungleCsBefore10Minutes": 0.0}},
      {"teamId": 100, "puuid": "b", "championId": 2, "championName": "Olaf", "teamPosition": "",
       "individualPosition": "JUNGLE", "win": true, "kills": 5, "deaths": 2, "assists": 6,
       "goldEarned": 11000, "totalMinionsKilled": 20, "neutralMinionsKilled": 120,
       "totalDamageDealtToChampions": 15000, "visionScore": 30},
      {"teamId": 200, "puuid": "c", "championId": 3, "championName": "Galio", "teamPosition": "top",
       "win": false, "kills": 1, "deaths": 4, "assists": 0, "goldEarned": 8000,
       "totalMinionsKilled": 140, "neutralMinionsKilled": 0,
       "totalDamageDealtToChampions": 9000, "visionScore": 10},
      {"teamId": 200, "puuid": "d", "championId": 4294967297, "championName": "X",
       "teamPosition": "JUNGLE", "win": false, "kills": 9999999999, "deaths": "2"}
    ],
    "teams": [
      {"teamId": 100, "win": true, "objectives": {
         "tower": {"kills": 9, "first": true, "plates": 4}, "inhibitor": {"kills": 1, "first": true},
         "dragon": {"kills": 3, "first": false}, "baron": {"kills": 1, "first": true},
         "riftHerald": {"kills": 1, "first": true}, "champion": {"kills": 8, "first": true}}},
      {"win": true},
      {"teamId": 200, "win": false, "objectives": {"tower": {"kills": 2, "first": false}}}
    ]
  }
}"#;

fn double(value: f64) -> Double {
    Double { bits: value.to_bits() }
}

fn doc() -> Json {
    Json::parse(MATCH).expect("valid JSON")
}

fn participants(doc: &Json) -> &Vec<Json> {
    doc.get("info").unwrap().get_array("participants").unwrap()
}

#[test]
fn player_rows_follow_the_participants() {
    let rows = player_rows(&doc(), None).unwrap();
    assert_eq!(rows.len(), 4);
    let a = &rows[0];
    assert_eq!(a.match_id, "EUW1_7");
    assert_eq!(a.game_creation, 1_700_000_000_000);
    assert_eq!(a.game_duration, 1800);
    assert_eq!(a.queue_id, 420);
    assert_eq!(a.game_version, "13.20.1");
    assert_eq!(a.team_id, 100);
    assert_eq!(a.puuid, "a");
    assert_eq!(a.champion_id, 1);
    assert_eq!(a.champion_name, "Annie");
    assert_eq!(a.role, "TOP");
    assert!(a.win);
    assert_eq!((a.kills, a.deaths, a.assists), (3, 1, 4));
    assert_eq!(a.champ_level, 15);
    assert_eq!((a.gold_earned, a.gold_spent), (10000, 9000));
    assert_eq!((a.total_minions_killed, a.neutral_minions_killed, a.total_cs), (150, 10, 160));
    assert_eq!(a.damage_to_champions, 20000);
    assert_eq!(a.damage_to_objectives, 3000);
    assert_eq!(a.damage_to_turrets, 2000);
    assert_eq!((a.turret_takedowns, a.inhibitor_takedowns), (2, 1));
    assert_eq!(a.vision_score, 20);
    assert_eq!((a.wards_placed, a.wards_killed, a.control_wards_placed), (8, 2, 3));
    assert_eq!(a.damage_per_min, Some(double(666.5)));
    assert_eq!(a.gold_per_min, Some(double(333.0)));
    assert_eq!(a.kda, Some(double(7.0)));
    assert_eq!(a.kill_participation, Some(double(0.5)));
    assert_eq!(a.team_damage_percentage, Some(double(0.25)));
    assert_eq!(a.vision_score_per_min, Some(double(0.75)));
    assert_eq!(a.lane_minions_first10, Some(double(70.0)));
    assert_eq!(a.jungle_cs_before10, Some(double(0.0)));
    // The role falls back to the individual position; missing figures are zero or absent.
    let b = &rows[1];
    assert_eq!(b.role, "JUNGLE");
    assert_eq!(b.champ_level, 0);
    assert_eq!(b.total_cs, 140);
    assert_eq!(b.damage_per_min, None);
    // A counter that no 32-bit number holds is zero; an id is cut to its low 32 bits.
    let d = &rows[3];
    assert_eq!(d.kills, 0);
    assert_eq!(d.deaths, 0);
    assert_eq!(d.champion_id, 1);
}

#[test]
fn documents_without_their_sections_are_skipped() {
    let rows = |text: &str, stem: Option<&str>| extract_player_parquet(text, stem);
    assert!(matches!(rows("{", None), Err(Skip::InvalidJson(_))));
    assert_eq!(rows(r#"{"info": {}}"#, None).unwrap_err(), Skip::MissingMetadata);
    assert_eq!(rows(r#"{"metadata": {}}"#, None).unwrap_err(), Skip::MissingInfo);
    assert_eq!(
        rows(r#"{"metadata": {}, "info": {"participants": 5}}"#, Some("x")).unwrap_err(),
        Skip::MissingParticipants
    );
    assert_eq!(
        rows(r#"{"metadata": {}, "info": {"participants": []}}"#, None).unwrap_err(),
        Skip::MissingMatchId
    );
    let named = rows(r#"{"metadata": {}, "info": {"participants": [{}]}}"#, Some("FILE_1"));
    assert_eq!(named.unwrap()[0].match_id, "FILE_1");
    let teams = |text: &str, stem: Option<&str>| extract_team_parquet(text, stem);
    assert!(matches!(teams("nope", None), Err(Skip::InvalidJson(_))));
    assert_eq!(
        teams(r#"{"metadata": {}, "info": {"participants": []}}"#, Some("x")).unwrap_err(),
        Skip::MissingTeams
    );
    assert_eq!(
        teams(r#"{"metadata": {}, "info": {"participants": [], "teams": []}}"#, None).unwrap_err(),
        Skip::MissingMatchId
    );
    assert_eq!(teams(r#"{"metadata": {}}"#, None).unwrap_err(), Skip::MissingInfo);
    assert_eq!(teams(r#"[]"#, None).unwrap_err(), Skip::MissingMetadata);
}

#[test]
fn team_rows_sum_over_the_members() {
    let rows = team_rows(&doc(), None).unwrap();
    // The team record without an id yields no row.
    assert_eq!(rows.len(), 2);
    let blue = &rows[0];
    assert_eq!(blue.match_id, "EUW1_7");
    assert_eq!(blue.platform_id.as_deref(), Some("EUW1"));
    assert_eq!(blue.team_id, 100);
    assert_eq!(blue.team_side, "blue");
    assert_eq!(blue.team_win, 1);
    assert_eq!(blue.queue_id, 420);
    assert_eq!(blue.game_duration, 1800);
    assert_eq!(blue.team_kills, 8);
    assert_eq!(blue.team_deaths, 3);
    assert_eq!(blue.team_assists, 10);
    assert_eq!(blue.team_gold_earned, 21000);
    assert_eq!(blue.team_damage_to_champions, 35000);
    assert_eq!(blue.team_vision_score, 50);
    assert_eq!(blue.team_cs_total, 300);
    assert_eq!(blue.team_gold_per_min, Some(Rate { total: 21000, duration_secs: 1800 }));
    assert_eq!(blue.team_damage_per_min, Some(Rate { total: 35000, duration_secs: 1800 }));
    assert_eq!(blue.team_vision_score_per_min, Some(Rate { total: 50, duration_secs: 1800 }));
    assert_eq!(blue.team_cs_per_min, Some(Rate { total: 300, duration_secs: 1800 }));
    assert_eq!(blue.top_champion_id, Some(1));
    assert_eq!(blue.jungle_champion_id, None);
    assert_eq!(blue.middle_champion_id, None);
    assert_eq!(blue.team_towers_destroyed, 9);
    assert_eq!(blue.team_inhibitors_destroyed, 1);
    assert_eq!(blue.team_dragons, 3);
    assert_eq!(blue.team_barons, 1);
    assert_eq!(blue.team_heralds, 1);
    assert_eq!(blue.team_plates, Some(4));
    assert_eq!(blue.first_blood, Some(true));
    assert_eq!(blue.first_tower, Some(true));
    assert_eq!(blue.first_dragon, Some(false));
    let red = &rows[1];
    assert_eq!(red.team_id, 200);
    assert_eq!(red.team_side, "red");
    assert_eq!(red.team_win, 0);
    assert_eq!(red.team_kills, 1);
    assert_eq!(red.team_deaths, 4);
    assert_eq!(red.top_champion_id, Some(3));
    assert_eq!(red.jungle_champion_id, Some(1));
    assert_eq!(red.team_towers_destroyed, 2);
    assert_eq!(red.team_dragons, 0);
    assert_eq!(red.team_plates, None);
    assert_eq!(red.first_blood, None);
    assert_eq!(red.first_tower, Some(false));
}

#[test]
fn team_totals_are_the_sums_of_the_player_rows() {
    let document = doc();
    let players = player_rows(&document, None).unwrap();
    let teams = team_rows(&document, None).unwrap();
    for team in &teams {
        let members: Vec<_> =
            players.iter().filter(|p| p.team_id == team.team_id as i32).collect();
        assert_eq!(team.team_kills, members.iter().map(|p| p.kills).sum::<i32>());
        assert_eq!(team.team_deaths, members.iter().map(|p| p.deaths).sum::<i32>());
        assert_eq!(team.team_assists, members.iter().map(|p| p.assists).sum::<i32>());
        assert_eq!(
            team.team_gold_earned,
            members.iter().map(|p| p.gold_earned as i64).sum::<i64>()
        );
        assert_eq!(
            team.team_damage_to_champions,
            members.iter().map(|p| p.damage_to_champions as i64).sum::<i64>()
        );
        assert_eq!(
            team.team_vision_score,
            members.iter().map(|p| p.vision_score as i64).sum::<i64>()
        );
        assert_eq!(
            team.team_cs_total,
            members
                .iter()
                .map(|p| p.total_minions_killed + p.neutral_minions_killed)
                .sum::<i32>()
        );
        assert_eq!(team.team_side == "blue", team.team_id == 100);
    }
}

#[test]
fn sums_that_a_column_cannot_hold_are_clamped() {
    let text = r#"{"metadata": {"matchId": "M"}, "info": {"participants": [
        {"teamId": 100, "kills": 2147483647, "totalMinionsKilled": 2147483647,
         "neutralMinionsKilled": 2147483647},
        {"teamId": 100, "kills": 1}], "teams": [{"teamId": 100}]}}"#;
    let document = Json::parse(text).unwrap();
    let team = &team_rows(&document, None).unwrap()[0];
    assert_eq!(team.team_kills, i32::MAX);
    assert_eq!(team.team_cs_total, i32::MAX);
    let player = &player_rows(&document, None).unwrap()[0];
    assert_eq!(player.total_cs, i32::MAX);
    let members = participants(&document);
    assert_eq!(sum_counter(members, 100, "kills"), 2147483648);
    assert_eq!(sum_creeps(members, 100), 4294967294);
    assert_eq!(sum_counter(members, 200, "kills"), 0);
}

#[test]
fn per_minute_is_absent_exactly_without_duration() {
    assert_eq!(per_min(100, 0), None);
    assert_eq!(per_min(100, -5), None);
    assert_eq!(per_min(0, 1), Some(Rate { total: 0, duration_secs: 1 }));
    assert_eq!(per_min(-7, 90), Some(Rate { total: -7, duration_secs: 90 }));
    let text = r#"{"metadata": {"matchId": "M"}, "info": {"gameDuration": 0, "participants": [
        {"teamId": 200, "goldEarned": 5}], "teams": [{"teamId": 200}]}}"#;
    let team = &team_rows(&Json::parse(text).unwrap(), None).unwrap()[0];
    assert_eq!(team.team_gold_earned, 5);
    assert_eq!(team.team_gold_per_min, None);
    assert_eq!(team.team_damage_per_min, None);
    assert_eq!(team.team_vision_score_per_min, None);
    assert_eq!(team.team_cs_per_min, None);
}

#[test]
fn side_is_blue_for_team_100_only() {
    assert_eq!(team_side(100), "blue");
    assert_eq!(team_side(200), "red");
    assert_eq!(team_side(0), "red");
    assert_eq!(team_side(-100), "red");
}

#[test]
fn readers_default_and_narrow() {
    let p = Json::parse(r#"{"a": 5, "b": 2147483648, "c": -2147483648, "d": "5", "e": 1.0}"#)
        .unwrap();
    assert_eq!(as_i32(&p, "a"), 5);
    assert_eq!(as_i32(&p, "b"), 0);
    assert_eq!(as_i32(&p, "c"), i32::MIN);
    assert_eq!(as_i32(&p, "d"), 0);
    assert_eq!(as_i32(&p, "e"), 0);
    assert_eq!(as_i32(&p, "missing"), 0);
    assert_eq!(narrow_i32(2147483647), i32::MAX);
    assert_eq!(narrow_i32(-2147483649), 0);
    assert_eq!(wrap_i32(4294967297), 1);
    assert_eq!(wrap_i32(2147483648), i32::MIN);
    assert_eq!(wrap_i32(-1), -1);
    assert_eq!(clamp_i32(2147483648), i32::MAX);
    assert_eq!(clamp_i32(-2147483649), i32::MIN);
    assert_eq!(clamp_i32(17), 17);
    assert_eq!(clamp_i64(i128::MAX), i64::MAX);
    assert_eq!(clamp_i64(i128::MIN), i64::MIN);
    assert_eq!(clamp_i64(-3), -3);
    assert_eq!(as_f64(&p, "a"), None);
    let q = Json::parse(r#"{"challenges": {"x": 2, "y": -2, "z": 0.5, "w": "1"}}"#).unwrap();
    assert_eq!(as_f64(&q, "x"), Some(double(2.0)));
    assert_eq!(as_f64(&q, "y"), Some(double(-2.0)));
    assert_eq!(as_f64(&q, "z"), Some(double(0.5)));
    assert_eq!(as_f64(&q, "w"), None);
    assert_eq!(as_f64(&q, "missing"), None);
}

#[test]
fn roles_and_champions_are_found_by_position() {
    let document = doc();
    let members = participants(&document);
    assert_eq!(role_of(&members[0]), "TOP");
    assert_eq!(role_of(&members[1]), "JUNGLE");
    assert_eq!(role_of(&Json::parse("{}").unwrap()), "");
    assert_eq!(find_role_champion(members, 100, "TOP"), Some(1));
    assert_eq!(find_role_champion(members, 200, "TOP"), Some(3));
    assert_eq!(find_role_champion(members, 200, "top"), Some(3));
    assert_eq!(find_role_champion(members, 100, "JUNGLE"), None);
    assert_eq!(find_role_champion(members, 300, "TOP"), None);
    // The first member in the position decides, with or without a champion.
    let two = Json::parse(
        r#"[{"teamId": 1, "teamPosition": "TOP"}, {"teamId": 1, "teamPosition": "TOP", "championId": 9}]"#,
    )
    .unwrap();
    assert_eq!(find_role_champion(two.as_array().unwrap(), 1, "TOP"), None);
}

#[test]
fn objectives_are_read_by_name() {
    let document = doc();
    let teams = document.get("info").unwrap().get_array("teams").unwrap();
    assert_eq!(objective_kills(&teams[0], "dragon"), 3);
    assert_eq!(objective_kills(&teams[0], "elder"), 0);
    assert_eq!(objective_kills(&teams[1], "dragon"), 0);
    assert_eq!(objective_first(&teams[0], "dragon"), Some(false));
    assert_eq!(objective_first(&teams[0], "elder"), None);
    let goals = team_objectives(&teams[0]);
    assert_eq!(goals.towers, 9);
    assert_eq!(goals.heralds, 1);
    assert_eq!(goals.plates, Some(4));
    assert_eq!(goals.first_blood, Some(true));
    assert_eq!(goals.first_herald, Some(true));
    let none = team_objectives(&teams[1]);
    assert_eq!(none.towers, 0);
    assert_eq!(none.plates, None);
    assert_eq!(none.first_baron, None);
}

#[test]
fn levels_are_player_and_team() {
    assert_eq!(extract_parquet("player").unwrap(), Level::Player);
    assert_eq!(extract_parquet("team").unwrap(), Level::Team);
    assert_eq!(
        extract_parquet("Player").unwrap_err(),
        RiotError::UnsupportedLevel("Player".to_string())
    );
    assert_eq!(extract_parquet("").unwrap_err(), RiotError::UnsupportedLevel(String::new()));
}

#[test]
fn tables_have_their_columns_in_order() {
    let players = player_columns();
    assert_eq!(players.len(), 37);
    assert_eq!(
        players,
        vec![
            "match_id", "game_creation", "game_duration", "queue_id", "game_version", "team_id",
            "puuid", "champion_id", "champion_name", "role", "win", "kills", "deaths", "assists",
            "champ_level", "gold_earned", "gold_spent", "total_minions_killed",
            "neutral_minions_killed", "total_cs", "damage_to_champions", "damage_to_objectives",
            "damage_to_turrets", "turret_takedowns", "inhibitor_takedowns", "vision_score",
            "wards_placed", "wards_killed", "control_wards_placed", "damage_per_min",
            "gold_per_min", "team_damage_percentage", "kill_participation", "kda",
            "vision_score_per_min", "lane_minions_first10", "jungle_cs_before10",
        ]
    );
    assert_eq!(
        team_columns(),
        vec![
            "match_id", "platform_id", "queue_id", "game_version", "game_creation",
            "game_duration", "team_id", "team_side", "team_win", "top_champion_id",
            "jungle_champion_id", "middle_champion_id", "bottom_champion_id",
            "utility_champion_id", "team_kills", "team_deaths", "team_assists",
            "team_gold_earned", "team_damage_to_champions", "team_vision_score", "team_cs_total",
            "team_gold_per_min", "team_damage_per_min", "team_vision_score_per_min",
            "team_cs_per_min", "team_towers_destroyed", "team_inhibitors_destroyed",
            "team_dragons", "team_barons", "team_heralds", "team_plates", "first_blood",
            "first_tower", "first_inhibitor", "first_baron", "first_dragon", "first_herald",
        ]
    );
}

#[test]
fn tables_hold_the_rows_column_by_column() {
    let document = doc();
    let rows = player_rows(&document, None).unwrap();
    let table = build_dataframe(rows.clone());
    assert_eq!(table.match_id, vec!["EUW1_7"; 4]);
    assert_eq!(table.puuid, vec!["a", "b", "c", "d"]);
    assert_eq!(table.kills, vec![3, 5, 1, 0]);
    assert_eq!(table.total_cs, vec![160, 140, 140, 0]);
    assert_eq!(table.win, vec![true, true, false, false]);
    assert_eq!(table.jungle_cs_before10.len(), 4);
    assert_eq!(table.gold_per_min[0], Some(double(333.0)));
    assert_eq!(table.gold_per_min[1], None);
    for (i, row) in rows.iter().enumerate() {
        assert_eq!(table.role[i], row.role);
        assert_eq!(table.champion_id[i], row.champion_id);
        assert_eq!(table.vision_score[i], row.vision_score);
    }
    let teams = build_team_dataframe(team_rows(&document, None).unwrap());
    assert_eq!(teams.team_id, vec![100, 200]);
    assert_eq!(teams.team_side, vec!["blue", "red"]);
    assert_eq!(teams.platform_id, vec![Some("EUW1".to_string()), Some("EUW1".to_string())]);
    assert_eq!(teams.team_kills, vec![8, 1]);
    assert_eq!(teams.first_herald, vec![Some(true), None]);
    let empty = build_dataframe(Vec::new());
    assert!(empty.match_id.is_empty());
    assert!(empty.jungle_cs_before10.is_empty());
}

#[test]
fn side_goes_by_the_team_id_that_the_row_stores() {
    let text = r#"{"metadata": {"matchId": "M"}, "info": {"participants": [
        {"teamId": 65636, "kills": 2}, {"teamId": 100, "kills": 5}],
        "teams": [{"teamId": 65636}, {"teamId": 100}, {"teamId": 32868}]}}"#;
    let rows = team_rows(&Json::parse(text).unwrap(), None).unwrap();
    assert_eq!(rows.len(), 3);
    // An id that 16 bits cannot hold is stored cut, and the side is that of the stored id.
    assert_eq!((rows[0].team_id, rows[0].team_side.as_str(), rows[0].team_kills), (100, "blue", 2));
    assert_eq!((rows[1].team_id, rows[1].team_side.as_str(), rows[1].team_kills), (100, "blue", 5));
    assert_eq!((rows[2].team_id, rows[2].team_side.as_str()), (-32668, "red"));
    for row in &rows {
        assert_eq!(row.team_side == "blue", row.team_id == 100);
    }
}
