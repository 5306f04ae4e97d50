use riot_rust_api::kraken_prepare_ml::kraken_build_player_profile;
use riot_rust_api::parquet_extract::PlayerRow;
use riot_rust_api::player_profile::{
    build_player_profiles, build_profiles, entry_of, lane_diff_sum, window_sum, Column,
    LaneColumn, Matchup, Selection, DEFAULT_HISTORY_SIZE, DEFAULT_MIN_MATCHES,
};

fn game(match_id: &str, created: i64, team_id: i32, puuid: &str, role: &str) -> PlayerRow {
    PlayerRow {
        match_id: match_id.to_string(),
        game_creation: created,
        game_duration: 1800,
        queue_id: 420,
        game_version: String::new(),
        team_id,
        puuid: puuid.to_string(),
        champion_id: 1,
        champion_name: format!("champ-{}", match_id),
        role: role.to_string(),
        win: false,
        kills: 0,
        deaths: 0,
        assists: 0,
        champ_level: 0,
        gold_earned: 0,
        gold_spent: 0,
        total_minions_killed: 0,
        neutral_minions_killed: 0,
        total_cs: 0,
        damage_to_champions: 0,
        damage_to_objectives: 0,
        damage_to_turrets: 0,
        turret_takedowns: 0,
        inhibitor_takedowns: 0,
        vision_score: 0,
        wards_placed: 0,
        wards_killed: 0,
        control_wards_placed: 0,
        damage_per_min: None,
        gold_per_min: None,
        team_damage_percentage: None,
        kill_participation: None,
        kda: None,
        vision_score_per_min: None,
        lane_minions_first10: None,
        jungle_cs_before10: None,
    }
}

fn alone(row: usize) -> Matchup {
    Matchup { row, opponent: None }
}

#[test]
fn defaults_are_twenty_games_and_five_matches() {
    assert_eq!(DEFAULT_HISTORY_SIZE, 20);
    assert_eq!(DEFAULT_MIN_MATCHES, 5);
}

#[test]
fn window_keeps_the_most_recent_games() {
    let players: Vec<PlayerRow> =
        [30, 10, 50, 20, 40].iter().map(|t| game(&format!("M{}", t), *t, 100, "p", "TOP")).collect();
    let profiles = build_player_profiles(&players, 3, 1);
    assert_eq!(profiles.len(), 1);
    let profile = &profiles[0];
    assert_eq!(profile.puuid, "p");
    assert_eq!(profile.role, "TOP");
    assert_eq!(profile.games_available, 5);
    assert_eq!(profile.games_used, 3);
    assert_eq!(profile.window, vec![alone(0), alone(2), alone(4)]);
    assert_eq!(profile.main_champion_name, "champ-M30");
}

#[test]
fn games_used_is_the_smaller_of_history_and_games() {
    let players: Vec<PlayerRow> =
        (0..7).map(|t| game(&format!("M{}", t), 100 + t, 100, "p", "MIDDLE")).collect();
    for history in 0..10usize {
        let profiles = build_player_profiles(&players, history, 0);
        assert_eq!(profiles.len(), 1);
        assert_eq!(profiles[0].games_used, history.min(7));
        assert_eq!(profiles[0].games_available, 7);
        assert_eq!(profiles[0].window.len(), profiles[0].games_used);
    }
}

#[test]
fn players_below_the_minimum_are_left_out() {
    let mut players = Vec::new();
    for t in 0..5 {
        players.push(game(&format!("A{}", t), t, 100, "a", "TOP"));
    }
    for t in 0..4 {
        players.push(game(&format!("B{}", t), t, 100, "b", "TOP"));
    }
    for t in 0..6 {
        players.push(game(&format!("C{}", t), t, 100, "a", "JUNGLE"));
    }
    let profiles = build_player_profiles(&players, 20, 5);
    let keys: Vec<(&str, &str, usize)> = profiles
        .iter()
        .map(|p| (p.puuid.as_str(), p.role.as_str(), p.games_used))
        .collect();
    assert_eq!(keys, vec![("a", "TOP", 5), ("a", "JUNGLE", 6)]);
    for profile in &profiles {
        assert!(profile.games_used >= 5);
    }
    // The window counts against the minimum, not the games there are.
    assert!(build_player_profiles(&players, 4, 5).is_empty());
}

#[test]
fn games_of_one_instant_share_a_rank() {
    let players: Vec<PlayerRow> =
        [5, 7, 7, 3].iter().enumerate().map(|(i, t)| game(&format!("M{}", i), *t, 100, "p", "TOP")).collect();
    let one = build_player_profiles(&players, 1, 0);
    assert_eq!(one[0].window, vec![alone(1), alone(2)]);
    assert_eq!(one[0].games_used, 2);
    let two = build_player_profiles(&players, 2, 0);
    assert_eq!(two[0].window, vec![alone(0), alone(1), alone(2)]);
}

#[test]
fn only_ranked_games_in_canonical_roles_count() {
    let mut players = vec![
        game("M1", 1, 100, "p", "TOP"),
        game("M2", 2, 100, "p", "top"),
        game("M3", 3, 100, "p", ""),
        game("M4", 4, 100, "p", "TOP"),
        game("M5", 5, 100, "p", "SUPPORT"),
    ];
    players[3].queue_id = 440;
    let strict = build_player_profiles(&players, 20, 0);
    assert_eq!(strict.len(), 1);
    assert_eq!(strict[0].window, vec![alone(0)]);
    // The plain profile keeps to the canonical roles as well; it only leaves the lane join out.
    let plain = kraken_build_player_profile(&players, 20, 0);
    assert_eq!(plain.len(), 1);
    assert_eq!(plain[0].role, "TOP");
    assert_eq!(plain[0].window, vec![alone(0)]);
    assert_eq!(plain[0].games_used, 1);
}

#[test]
fn plain_profile_has_no_row_for_an_empty_role() {
    let players = vec![game("M1", 1, 100, "p", "")];
    assert!(kraken_build_player_profile(&players, 1, 0).is_empty());
    assert!(kraken_build_player_profile(&players, 20, 1).is_empty());
    let mixed = vec![
        game("M1", 1, 100, "p", "UTILITY"),
        game("M1", 1, 200, "q", "UTILITY"),
        game("M2", 2, 100, "p", "utility"),
        game("M3", 3, 100, "p", "UTILITY"),
    ];
    let profiles = kraken_build_player_profile(&mixed, 5, 2);
    assert_eq!(profiles.len(), 1);
    assert_eq!(profiles[0].puuid, "p");
    assert_eq!(profiles[0].role, "UTILITY");
    assert_eq!(profiles[0].games_used, 2);
    // No lane join: the opponent of the first game does not double it.
    assert_eq!(profiles[0].window, vec![alone(0), alone(3)]);
}

#[test]
fn windows_name_rows_of_the_table() {
    let mut players = Vec::new();
    for t in 0..6 {
        players.push(game(&format!("M{}", t), t, 100, "a", "TOP"));
        players.push(game(&format!("M{}", t), t, 200, "b", "TOP"));
    }
    for history in 0..8usize {
        let mut all = build_player_profiles(&players, history, 0);
        all.extend(kraken_build_player_profile(&players, history, 0));
        for profile in &all {
            assert_eq!(profile.games_used, history.min(profile.games_available));
            assert_eq!(profile.window.len(), profile.games_used);
            for m in &profile.window {
                assert!(m.row < players.len());
                assert!(m.opponent.map_or(true, |o| o < players.len()));
            }
        }
    }
}

#[test]
fn lane_opponents_are_joined_by_match_role_and_side() {
    let mut players = vec![
        game("M1", 1, 100, "p", "TOP"),
        game("M1", 1, 200, "q", "TOP"),
        game("M1", 1, 200, "r", "JUNGLE"),
        game("M2", 2, 200, "p", "TOP"),
        game("M2", 2, 100, "s", "TOP"),
        game("M2", 2, 100, "t", "TOP"),
        game("M3", 3, 100, "p", "TOP"),
    ];
    players[0].gold_earned = 1000;
    players[1].gold_earned = 700;
    players[3].gold_earned = 500;
    players[4].gold_earned = 900;
    players[5].gold_earned = 100;
    players[6].gold_earned = 50;
    let profiles = build_player_profiles(&players, 20, 0);
    let p = &profiles[0];
    assert_eq!(p.puuid, "p");
    // The game with two opponents counts twice, the one without counts once.
    assert_eq!(
        p.window,
        vec![
            Matchup { row: 0, opponent: Some(1) },
            Matchup { row: 3, opponent: Some(4) },
            Matchup { row: 3, opponent: Some(5) },
            alone(6),
        ]
    );
    assert_eq!(p.games_available, 4);
    assert_eq!(p.games_used, 4);
    assert_eq!(lane_diff_sum(&players, &p.window, LaneColumn::GoldEarned), (300 - 400 + 400, 3));
    assert_eq!(window_sum(&players, &p.window, Column::GoldEarned), 1000 + 500 + 500 + 50);
    // Without the join every game counts once.
    let plain = build_profiles(
        &players,
        Selection { canonical_roles_only: true, lane_opponents: false },
        20,
        0,
    );
    assert_eq!(plain[0].window, vec![alone(0), alone(3), alone(6)]);
}

#[test]
fn sums_run_over_the_window() {
    let mut players: Vec<PlayerRow> =
        (0..4).map(|t| game(&format!("M{}", t), t, 100, "p", "BOTTOM")).collect();
    for (i, row) in players.iter_mut().enumerate() {
        row.win = i % 2 == 0;
        row.kills = i as i32;
        row.deaths = 2;
        row.assists = 10;
        row.total_cs = 100 * i as i32;
        row.vision_score = -1;
    }
    let profiles = build_player_profiles(&players, 3, 0);
    let window = &profiles[0].window;
    assert_eq!(window, &vec![alone(1), alone(2), alone(3)]);
    assert_eq!(window_sum(&players, window, Column::Wins), 1);
    assert_eq!(window_sum(&players, window, Column::Kills), 6);
    assert_eq!(window_sum(&players, window, Column::Deaths), 6);
    assert_eq!(window_sum(&players, window, Column::Assists), 30);
    assert_eq!(window_sum(&players, window, Column::TotalCs), 600);
    assert_eq!(window_sum(&players, window, Column::VisionScore), -3);
    assert_eq!(window_sum(&players, &Vec::new(), Column::Kills), 0);
    assert_eq!(lane_diff_sum(&players, window, LaneColumn::TotalCs), (0, 0));
    assert_eq!(entry_of(&players[0], Column::Wins), 1);
    assert_eq!(entry_of(&players[1], Column::Wins), 0);
    assert_eq!(entry_of(&players[3], Column::TotalCs), 300);
}

#[test]
fn empty_table_has_no_profiles() {
    assert!(build_player_profiles(&Vec::new(), 20, 5).is_empty());
    assert!(kraken_build_player_profile(&Vec::new(), 20, 0).is_empty());
}
