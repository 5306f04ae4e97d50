//! Recent-form profiles: for each player and role, the most recent ranked games.

use crate::parquet_extract::{PlayerRow, RANKED_SOLO_QUEUE};
use std::path::Path;
use vstd::prelude::*;

verus! {

/// Games per profile unless told otherwise.
pub const DEFAULT_HISTORY_SIZE: usize = 20;

/// Games a profile needs unless told otherwise.
pub const DEFAULT_MIN_MATCHES: usize = 5;

/// The options of a profile build.
pub struct PlayerProfileArgs<'a> {
    pub player_parquet: &'a Path,
    pub out_parquet: &'a Path,
    pub history_size: usize,
    pub min_matches: usize,
}

/// Which rows a profile is built from.
#[derive(Clone, Copy, Debug, PartialEq, Eq, Structural)]
pub struct Selection {
    /// Whether rows outside the five canonical roles are left out.
    pub canonical_roles_only: bool,
    /// Whether each row is joined with its lane opponents.
    pub lane_opponents: bool,
}

/// A row of the player table, by its index, with one lane opponent or none.
#[derive(Clone, Copy, Debug, PartialEq, Eq, Structural)]
pub struct Matchup {
    pub row: usize,
    pub opponent: Option<usize>,
}

/// The profile of one player in one role.
#[derive(Debug)]
pub struct PlayerProfile {
    pub puuid: String,
    pub role: String,
    /// The games of the player in the role.
    pub games_available: usize,
    /// The games of the window.
    pub games_used: usize,
    /// The champion of the first game of the window.
    pub main_champion_name: String,
    /// The games of the window, in the order of the table.
    pub window: Vec<Matchup>,
}

/// A profile as mathematics.
pub struct ProfileView {
    pub puuid: Seq<char>,
    pub role: Seq<char>,
    pub games_available: nat,
    pub games_used: nat,
    pub main_champion_name: Seq<char>,
    pub window: Seq<Matchup>,
}

impl View for PlayerProfile {
    type V = ProfileView;

    open spec fn view(&self) -> ProfileView {
        ProfileView {
            puuid: self.puuid@,
            role: self.role@,
            games_available: self.games_available as nat,
            games_used: self.games_used as nat,
            main_champion_name: self.main_champion_name@,
            window: self.window@,
        }
    }
}

/// The views of a sequence of profiles.
pub open spec fn profile_views(profiles: Seq<PlayerProfile>) -> Seq<ProfileView> {
    profiles.map_values(|p: PlayerProfile| p@)
}

/// Whether `role` is one of the five canonical roles.
pub open spec fn canonical_role(role: Seq<char>) -> bool {
    role == "TOP"@ || role == "JUNGLE"@ || role == "MIDDLE"@ || role == "BOTTOM"@ || role
        == "UTILITY"@
}

/// Whether a row counts: a ranked solo game, in a canonical role where the selection asks so.
pub open spec fn eligible(row: PlayerRow, rule: Selection) -> bool {
    row.queue_id == RANKED_SOLO_QUEUE && (rule.canonical_roles_only ==> canonical_role(row.role@))
}

/// The team opposite to `team_id`.
pub open spec fn opposite(team_id: i32) -> i32 {
    if team_id == 100 {
        200
    } else {
        100
    }
}

/// Whether `b` is a lane opponent of `a`: the same match and role, on the opposite team.
pub open spec fn faces(a: PlayerRow, b: PlayerRow, rule: Selection) -> bool {
    eligible(b, rule) && b.match_id@ == a.match_id@ && b.role@ == a.role@ && b.team_id == opposite(
        a.team_id,
    )
}

/// The row `i` with each of its lane opponents among the first `m` rows, in their order.
pub open spec fn opponents(players: Seq<PlayerRow>, rule: Selection, i: int, m: int) -> Seq<Matchup>
    decreases m,
{
    if m <= 0 {
        Seq::<Matchup>::empty()
    } else {
        let before = opponents(players, rule, i, m - 1);
        if faces(players[i], players[m - 1], rule) {
            before.push(Matchup { row: i as usize, opponent: Some((m - 1) as usize) })
        } else {
            before
        }
    }
}

/// The row `i` joined with its lane opponents: once with each, or once with none where it
/// has none or the selection asks for none.
pub open spec fn matchups(players: Seq<PlayerRow>, rule: Selection, i: int) -> Seq<Matchup> {
    let found = opponents(players, rule, i, players.len() as int);
    if !rule.lane_opponents || found.len() == 0 {
        seq![Matchup { row: i as usize, opponent: None }]
    } else {
        found
    }
}

/// The eligible rows among the first `n`, each joined with its lane opponents.
pub open spec fn joined(players: Seq<PlayerRow>, rule: Selection, n: int) -> Seq<Matchup>
    decreases n,
{
    if n <= 0 {
        Seq::<Matchup>::empty()
    } else if eligible(players[n - 1], rule) {
        joined(players, rule, n - 1) + matchups(players, rule, n - 1)
    } else {
        joined(players, rule, n - 1)
    }
}

/// Whether two rows are of the same player in the same role.
pub open spec fn same_player(a: PlayerRow, b: PlayerRow) -> bool {
    a.puuid@ == b.puuid@ && a.role@ == b.role@
}

/// Whether every matchup names rows of a table of `n` rows.
pub open spec fn in_bounds(rows: Seq<Matchup>, n: int) -> bool {
    forall|k: int|
        0 <= k < rows.len() ==> (#[trigger] rows[k]).row < n && (rows[k].opponent is Some
            ==> rows[k].opponent->0 < n)
}

/// The matchups among the first `n` of `rows` that are of the player and role of the row `of`.
pub open spec fn partition(players: Seq<PlayerRow>, rows: Seq<Matchup>, of: int, n: int) -> Seq<
    Matchup,
>
    decreases n,
{
    if n <= 0 {
        Seq::<Matchup>::empty()
    } else {
        let before = partition(players, rows, of, n - 1);
        if same_player(players[rows[n - 1].row as int], players[of]) {
            before.push(rows[n - 1])
        } else {
            before
        }
    }
}

/// The creation times later than `than` among the first `n` of `part`, each once.
pub open spec fn later_times(players: Seq<PlayerRow>, part: Seq<Matchup>, than: i64, n: int) -> Seq<
    i64,
>
    decreases n,
{
    if n <= 0 {
        Seq::<i64>::empty()
    } else {
        let before = later_times(players, part, than, n - 1);
        let time = players[part[n - 1].row as int].game_creation;
        if time > than && !before.contains(time) {
            before.push(time)
        } else {
            before
        }
    }
}

/// The dense rank of a game created at `time` among the games of `part`, latest first: one
/// more than there are distinct later creation times.
pub open spec fn recency_rank(players: Seq<PlayerRow>, part: Seq<Matchup>, time: i64) -> nat {
    later_times(players, part, time, part.len() as int).len() + 1
}

/// The matchups among the first `n` of `part` whose rank is at most `history_size`.
pub open spec fn window(
    players: Seq<PlayerRow>,
    part: Seq<Matchup>,
    history_size: usize,
    n: int,
) -> Seq<Matchup>
    decreases n,
{
    if n <= 0 {
        Seq::<Matchup>::empty()
    } else {
        let before = window(players, part, history_size, n - 1);
        if recency_rank(players, part, players[part[n - 1].row as int].game_creation)
            <= history_size {
            before.push(part[n - 1])
        } else {
            before
        }
    }
}

/// Whether the matchup `k` is the first of its player and role.
pub open spec fn leads(players: Seq<PlayerRow>, rows: Seq<Matchup>, k: int) -> bool {
    forall|j: int|
        0 <= j < k ==> !same_player(
            players[(#[trigger] rows[j]).row as int],
            players[rows[k].row as int],
        )
}

/// The profile of the player and role of the matchup `k`.
pub open spec fn profile_at(
    players: Seq<PlayerRow>,
    rows: Seq<Matchup>,
    history_size: usize,
    k: int,
) -> ProfileView {
    let of = rows[k].row as int;
    let part = partition(players, rows, of, rows.len() as int);
    let used = window(players, part, history_size, part.len() as int);
    ProfileView {
        puuid: players[of].puuid@,
        role: players[of].role@,
        games_available: part.len(),
        games_used: used.len(),
        main_champion_name: if used.len() > 0 {
            players[used[0].row as int].champion_name@
        } else {
            Seq::<char>::empty()
        },
        window: used,
    }
}

/// The profiles of the players and roles that the first `n` matchups introduce, those with
/// fewer than `min_matches` games in their window left out.
pub open spec fn profiles_upto(
    players: Seq<PlayerRow>,
    rows: Seq<Matchup>,
    history_size: usize,
    min_matches: usize,
    n: int,
) -> Seq<ProfileView>
    decreases n,
{
    if n <= 0 {
        Seq::<ProfileView>::empty()
    } else {
        let before = profiles_upto(players, rows, history_size, min_matches, n - 1);
        let profile = profile_at(players, rows, history_size, n - 1);
        if leads(players, rows, n - 1) && profile.games_used >= min_matches {
            before.push(profile)
        } else {
            before
        }
    }
}

/// The profiles of a player table: for each player and role in the order of first
/// appearance, the games whose dense rank by creation time, latest first, is at most
/// `history_size`, provided there are `min_matches` of them.
pub open spec fn profiles(
    players: Seq<PlayerRow>,
    rule: Selection,
    history_size: usize,
    min_matches: usize,
) -> Seq<ProfileView> {
    let rows = joined(players, rule, players.len() as int);
    profiles_upto(players, rows, history_size, min_matches, rows.len() as int)
}

fn is_canonical(role: &str) -> (out: bool)
    ensures
        out == canonical_role(role@),
{
    role.eq("TOP") || role.eq("JUNGLE") || role.eq("MIDDLE") || role.eq("BOTTOM") || role.eq(
        "UTILITY",
    )
}

fn is_eligible(row: &PlayerRow, rule: Selection) -> (out: bool)
    ensures
        out == eligible(*row, rule),
{
    row.queue_id == RANKED_SOLO_QUEUE && (!rule.canonical_roles_only || is_canonical(
        row.role.as_str(),
    ))
}

fn opposite_team(team_id: i32) -> (out: i32)
    ensures
        out == opposite(team_id),
{
    if team_id == 100 {
        200
    } else {
        100
    }
}

fn is_facing(a: &PlayerRow, b: &PlayerRow, rule: Selection) -> (out: bool)
    ensures
        out == faces(*a, *b, rule),
{
    is_eligible(b, rule) && b.match_id.as_str().eq(a.match_id.as_str()) && b.role.as_str().eq(
        a.role.as_str(),
    ) && b.team_id == opposite_team(a.team_id)
}

fn is_same_player(a: &PlayerRow, b: &PlayerRow) -> (out: bool)
    ensures
        out == same_player(*a, *b),
{
    a.puuid.as_str().eq(b.puuid.as_str()) && a.role.as_str().eq(b.role.as_str())
}

proof fn lemma_opponents_in_bounds(players: Seq<PlayerRow>, rule: Selection, i: int, m: int)
    requires
        0 <= i < players.len(),
        0 <= m <= players.len(),
        players.len() <= usize::MAX,
    ensures
        in_bounds(opponents(players, rule, i, m), players.len() as int),
    decreases m,
{
    if m > 0 {
        lemma_opponents_in_bounds(players, rule, i, m - 1);
    }
}

/// Joins one row with its lane opponents.
fn find_matchups(players: &Vec<PlayerRow>, i: usize, rule: Selection) -> (out: Vec<Matchup>)
    requires
        i < players.len(),
    ensures
        out@ == matchups(players@, rule, i as int),
        in_bounds(out@, players.len() as int),
{
    let mut found: Vec<Matchup> = Vec::new();
    if rule.lane_opponents {
        let mut j: usize = 0;
        while j < players.len()
            invariant
                j <= players.len(),
                i < players.len(),
                found@ == opponents(players@, rule, i as int, j as int),
            decreases players.len() - j,
        {
            if is_facing(&players[i], &players[j], rule) {
                found.push(Matchup { row: i, opponent: Some(j) });
            }
            j += 1;
        }
        proof {
            lemma_opponents_in_bounds(players@, rule, i as int, players.len() as int);
        }
    }
    if found.len() == 0 {
        found.push(Matchup { row: i, opponent: None });
        assert(found@ =~= seq![Matchup { row: i, opponent: None }]);
    }
    found
}

/// Joins every eligible row with its lane opponents.
fn join_rows(players: &Vec<PlayerRow>, rule: Selection) -> (out: Vec<Matchup>)
    ensures
        out@ == joined(players@, rule, players.len() as int),
        in_bounds(out@, players.len() as int),
{
    let mut rows: Vec<Matchup> = Vec::new();
    let mut i: usize = 0;
    while i < players.len()
        invariant
            i <= players.len(),
            rows@ == joined(players@, rule, i as int),
            in_bounds(rows@, players.len() as int),
        decreases players.len() - i,
    {
        if is_eligible(&players[i], rule) {
            let mut found = find_matchups(players, i, rule);
            let ghost before = rows@;
            let ghost extra = found@;
            rows.append(&mut found);
            assert(rows@ =~= before + extra);
        }
        i += 1;
    }
    rows
}

proof fn lemma_partition_in_bounds(players: Seq<PlayerRow>, rows: Seq<Matchup>, of: int, n: int)
    requires
        0 <= n <= rows.len(),
        in_bounds(rows, players.len() as int),
    ensures
        in_bounds(partition(players, rows, of, n), players.len() as int),
        partition(players, rows, of, n).len() <= n,
    decreases n,
{
    if n > 0 {
        lemma_partition_in_bounds(players, rows, of, n - 1);
    }
}

/// Picks the matchups of one player and role.
fn take_partition(players: &Vec<PlayerRow>, rows: &Vec<Matchup>, of: usize) -> (out: Vec<Matchup>)
    requires
        of < players.len(),
        in_bounds(rows@, players.len() as int),
    ensures
        out@ == partition(players@, rows@, of as int, rows.len() as int),
        in_bounds(out@, players.len() as int),
{
    let mut part: Vec<Matchup> = Vec::new();
    let mut k: usize = 0;
    while k < rows.len()
        invariant
            k <= rows.len(),
            of < players.len(),
            in_bounds(rows@, players.len() as int),
            part@ == partition(players@, rows@, of as int, k as int),
        decreases rows.len() - k,
    {
        let m = rows[k];
        if is_same_player(&players[m.row], &players[of]) {
            part.push(m);
        }
        k += 1;
    }
    proof {
        lemma_partition_in_bounds(players@, rows@, of as int, rows.len() as int);
    }
    part
}

/// Counts the distinct creation times in `part` that are later than `than`.
fn count_later(players: &Vec<PlayerRow>, part: &Vec<Matchup>, than: i64) -> (out: usize)
    requires
        in_bounds(part@, players.len() as int),
    ensures
        out == later_times(players@, part@, than, part.len() as int).len(),
{
    let mut later: Vec<i64> = Vec::new();
    let mut k: usize = 0;
    while k < part.len()
        invariant
            k <= part.len(),
            in_bounds(part@, players.len() as int),
            later@ == later_times(players@, part@, than, k as int),
        decreases part.len() - k,
    {
        let time: i64 = players[part[k].row].game_creation;
        if time > than && !has_time(&later, time) {
            later.push(time);
        }
        k += 1;
    }
    later.len()
}

fn has_time(times: &Vec<i64>, time: i64) -> (out: bool)
    ensures
        out == times@.contains(time),
{
    let mut k: usize = 0;
    while k < times.len()
        invariant
            k <= times.len(),
            forall|j: int| 0 <= j < k ==> times@[j] != time,
        decreases times.len() - k,
    {
        if times[k] == time {
            return true;
        }
        k += 1;
    }
    false
}

proof fn lemma_window_in_bounds(
    players: Seq<PlayerRow>,
    part: Seq<Matchup>,
    history_size: usize,
    n: int,
)
    requires
        0 <= n <= part.len(),
        in_bounds(part, players.len() as int),
    ensures
        in_bounds(window(players, part, history_size, n), players.len() as int),
        window(players, part, history_size, n).len() <= n,
    decreases n,
{
    if n > 0 {
        lemma_window_in_bounds(players, part, history_size, n - 1);
    }
}

/// Picks the most recent games of one player and role.
fn take_window(players: &Vec<PlayerRow>, part: &Vec<Matchup>, history_size: usize) -> (out: Vec<
    Matchup,
>)
    requires
        in_bounds(part@, players.len() as int),
    ensures
        out@ == window(players@, part@, history_size, part.len() as int),
        in_bounds(out@, players.len() as int),
{
    let mut used: Vec<Matchup> = Vec::new();
    let mut k: usize = 0;
    while k < part.len()
        invariant
            k <= part.len(),
            in_bounds(part@, players.len() as int),
            used@ == window(players@, part@, history_size, k as int),
        decreases part.len() - k,
    {
        let m = part[k];
        let later: usize = count_later(players, part, players[m.row].game_creation);
        if later < history_size {
            used.push(m);
        }
        k += 1;
    }
    proof {
        lemma_window_in_bounds(players@, part@, history_size, part.len() as int);
    }
    used
}

fn is_leader(players: &Vec<PlayerRow>, rows: &Vec<Matchup>, k: usize) -> (out: bool)
    requires
        k < rows.len(),
        in_bounds(rows@, players.len() as int),
    ensures
        out == leads(players@, rows@, k as int),
{
    let mut j: usize = 0;
    while j < k
        invariant
            j <= k,
            k < rows.len(),
            in_bounds(rows@, players.len() as int),
            forall|i: int|
                0 <= i < j ==> !same_player(
                    players@[(#[trigger] rows@[i]).row as int],
                    players@[rows@[k as int].row as int],
                ),
        decreases k - j,
    {
        if is_same_player(&players[rows[j].row], &players[rows[k].row]) {
            return false;
        }
        j += 1;
    }
    true
}

/// What holds of every profile of a table of `rows` rows: its window has `min_matches` games
/// at least and no more than the player has in the role, and it names rows of the table only.
pub open spec fn is_sound(p: ProfileView, rows: int, min_matches: usize) -> bool {
    &&& p.games_used >= min_matches
    &&& p.games_used <= p.games_available
    &&& p.games_used == p.window.len()
    &&& in_bounds(p.window, rows)
}

/// Whether a profile uses as many games as the history allows, or all the games of the player
/// in the role where those are fewer.
pub open spec fn fills_history(p: ProfileView, history_size: usize) -> bool {
    p.games_used == if history_size <= p.games_available {
        history_size as nat
    } else {
        p.games_available
    }
}

/// Whether the games of a table are told apart by their time: no two games that count, of one
/// player in one role, were created at the same time, and no game has two lane opponents.
pub open spec fn games_apart(players: Seq<PlayerRow>, rule: Selection) -> bool {
    &&& forall|i: int, j: int|
        0 <= i < j < players.len() && eligible(#[trigger] players[i], rule) && eligible(
            #[trigger] players[j],
            rule,
        ) && same_player(players[i], players[j]) ==> players[i].game_creation
            != players[j].game_creation
    &&& rule.lane_opponents ==> forall|i: int|
        0 <= i < players.len() ==> (#[trigger] opponents(
            players,
            rule,
            i,
            players.len() as int,
        )).len() <= 1
}

/// Builds the profiles of a player table.
pub fn build_profiles(
    players: &Vec<PlayerRow>,
    rule: Selection,
    history_size: usize,
    min_matches: usize,
) -> (out: Vec<PlayerProfile>)
    ensures
        profile_views(out@) == profiles(players@, rule, history_size, min_matches),
        forall|i: int|
            0 <= i < out@.len() ==> is_sound(
                (#[trigger] out@[i])@,
                players.len() as int,
                min_matches,
            ),
        games_apart(players@, rule) ==> forall|i: int|
            0 <= i < out@.len() ==> fills_history((#[trigger] out@[i])@, history_size),
{
    let rows = join_rows(players, rule);
    let mut out: Vec<PlayerProfile> = Vec::new();
    let mut k: usize = 0;
    assert(profile_views(out@) =~= Seq::<ProfileView>::empty());
    while k < rows.len()
        invariant
            k <= rows.len(),
            in_bounds(rows@, players.len() as int),
            profile_views(out@) == profiles_upto(
                players@,
                rows@,
                history_size,
                min_matches,
                k as int,
            ),
        decreases rows.len() - k,
    {
        if is_leader(players, &rows, k) {
            let of: usize = rows[k].row;
            let part = take_partition(players, &rows, of);
            let used = take_window(players, &part, history_size);
            if used.len() >= min_matches {
                let champion: String = if used.len() > 0 {
                    players[used[0].row].champion_name.clone()
                } else {
                    String::new()
                };
                let profile = PlayerProfile {
                    puuid: players[of].puuid.clone(),
                    role: players[of].role.clone(),
                    games_available: part.len(),
                    games_used: used.len(),
                    main_champion_name: champion,
                    window: used,
                };
                assert(profile@ == profile_at(players@, rows@, history_size, k as int));
                let ghost before = out@;
                out.push(profile);
                assert(profile_views(out@) =~= profile_views(before).push(
                    profile_at(players@, rows@, history_size, k as int),
                ));
            }
        }
        k += 1;
    }
    proof {
        lemma_profiles_sound(players@, rows@, history_size, min_matches, rows.len() as int);
        assert forall|i: int| 0 <= i < out@.len() implies is_sound(
            (#[trigger] out@[i])@,
            players.len() as int,
            min_matches,
        ) by {
            assert(profile_views(out@)[i] == out@[i]@);
        }
        if games_apart(players@, rule) {
            lemma_profiles_fill_history(players@, rule, history_size, min_matches);
            let all = profiles(players@, rule, history_size, min_matches);
            assert(profile_views(out@) == all);
            assert forall|i: int| 0 <= i < out@.len() implies fills_history(
                (#[trigger] out@[i])@,
                history_size,
            ) by {
                assert(profile_views(out@)[i] == out@[i]@);
                assert(fills_history(all[i], history_size));
            }
        }
    }
    out
}

/// The profiles of ranked solo games in the canonical roles, each game joined with its lane
/// opponents.
pub fn build_player_profiles(players: &Vec<PlayerRow>, history_size: usize, min_matches: usize) -> (out:
    Vec<PlayerProfile>)
    ensures
        profile_views(out@) == profiles(
            players@,
            Selection { canonical_roles_only: true, lane_opponents: true },
            history_size,
            min_matches,
        ),
        forall|i: int|
            0 <= i < out@.len() ==> is_sound(
                (#[trigger] out@[i])@,
                players.len() as int,
                min_matches,
            ),
        games_apart(players@, Selection { canonical_roles_only: true, lane_opponents: true })
            ==> forall|i: int|
            0 <= i < out@.len() ==> fills_history((#[trigger] out@[i])@, history_size),
{
    build_profiles(
        players,
        Selection { canonical_roles_only: true, lane_opponents: true },
        history_size,
        min_matches,
    )
}

/// A whole-number column of the player table.
#[derive(Clone, Copy, Debug, PartialEq, Eq, Structural)]
pub enum Column {
    /// One for a game won, zero for a game lost.
    Wins,
    Kills,
    Deaths,
    Assists,
    GoldEarned,
    DamageToChampions,
    TotalCs,
    VisionScore,
    TurretTakedowns,
    InhibitorTakedowns,
}

/// A column in which a row is compared with its lane opponent.
#[derive(Clone, Copy, Debug, PartialEq, Eq, Structural)]
pub enum LaneColumn {
    GoldEarned,
    TotalCs,
    VisionScore,
}

/// The entry of a row in a column.
pub open spec fn entry(row: PlayerRow, column: Column) -> int {
    match column {
        Column::Wins => if row.win {
            1
        } else {
            0
        },
        Column::Kills => row.kills as int,
        Column::Deaths => row.deaths as int,
        Column::Assists => row.assists as int,
        Column::GoldEarned => row.gold_earned as int,
        Column::DamageToChampions => row.damage_to_champions as int,
        Column::TotalCs => row.total_cs as int,
        Column::VisionScore => row.vision_score as int,
        Column::TurretTakedowns => row.turret_takedowns as int,
        Column::InhibitorTakedowns => row.inhibitor_takedowns as int,
    }
}

/// The entry of a row in a lane column.
pub open spec fn lane_entry(row: PlayerRow, column: LaneColumn) -> int {
    match column {
        LaneColumn::GoldEarned => row.gold_earned as int,
        LaneColumn::TotalCs => row.total_cs as int,
        LaneColumn::VisionScore => row.vision_score as int,
    }
}

/// By how much a row is ahead of its lane opponent in a column; nothing without an opponent.
pub open spec fn lead(players: Seq<PlayerRow>, m: Matchup, column: LaneColumn) -> Option<int> {
    match m.opponent {
        Some(o) => Some(
            lane_entry(players[m.row as int], column) - lane_entry(players[o as int], column),
        ),
        None => None,
    }
}

/// The sum of a column over the first `n` games of a window.
pub open spec fn total(players: Seq<PlayerRow>, games: Seq<Matchup>, column: Column, n: int) -> int
    decreases n,
{
    if n <= 0 {
        0
    } else {
        total(players, games, column, n - 1) + entry(players[games[n - 1].row as int], column)
    }
}

/// The sum of the leads in a column over the first `n` games of a window, and the number of
/// games that have one.
pub open spec fn total_lead(
    players: Seq<PlayerRow>,
    games: Seq<Matchup>,
    column: LaneColumn,
    n: int,
) -> (int, nat)
    decreases n,
{
    if n <= 0 {
        (0, 0)
    } else {
        let before = total_lead(players, games, column, n - 1);
        match lead(players, games[n - 1], column) {
            Some(d) => (before.0 + d, before.1 + 1),
            None => before,
        }
    }
}

/// Reads the entry of a row in a column.
pub fn entry_of(row: &PlayerRow, column: Column) -> (out: i32)
    ensures
        out == entry(*row, column),
{
    match column {
        Column::Wins => if row.win {
            1
        } else {
            0
        },
        Column::Kills => row.kills,
        Column::Deaths => row.deaths,
        Column::Assists => row.assists,
        Column::GoldEarned => row.gold_earned,
        Column::DamageToChampions => row.damage_to_champions,
        Column::TotalCs => row.total_cs,
        Column::VisionScore => row.vision_score,
        Column::TurretTakedowns => row.turret_takedowns,
        Column::InhibitorTakedowns => row.inhibitor_takedowns,
    }
}

fn lane_entry_of(row: &PlayerRow, column: LaneColumn) -> (out: i32)
    ensures
        out == lane_entry(*row, column),
{
    match column {
        LaneColumn::GoldEarned => row.gold_earned,
        LaneColumn::TotalCs => row.total_cs,
        LaneColumn::VisionScore => row.vision_score,
    }
}

/// Adds a column up over the games of a window. The mean of the column is this sum over the
/// number of games.
pub fn window_sum(players: &Vec<PlayerRow>, games: &Vec<Matchup>, column: Column) -> (out: i128)
    requires
        in_bounds(games@, players.len() as int),
    ensures
        out == total(players@, games@, column, games.len() as int),
{
    let mut sum: i128 = 0;
    let mut k: usize = 0;
    while k < games.len()
        invariant
            k <= games.len(),
            in_bounds(games@, players.len() as int),
            sum == total(players@, games@, column, k as int),
            -0x8000_0000 * k <= sum <= 0x8000_0000 * k,
        decreases games.len() - k,
    {
        sum = sum + entry_of(&players[games[k].row], column) as i128;
        k += 1;
    }
    sum
}

/// Adds the leads over the lane opponents up over the games of a window, and counts the games
/// that have one. The mean lead is the sum over the count.
pub fn lane_diff_sum(players: &Vec<PlayerRow>, games: &Vec<Matchup>, column: LaneColumn) -> (out: (
    i128,
    usize,
))
    requires
        in_bounds(games@, players.len() as int),
    ensures
        out.0 == total_lead(players@, games@, column, games.len() as int).0,
        out.1 == total_lead(players@, games@, column, games.len() as int).1,
{
    let mut sum: i128 = 0;
    let mut count: usize = 0;
    let mut k: usize = 0;
    while k < games.len()
        invariant
            k <= games.len(),
            in_bounds(games@, players.len() as int),
            sum == total_lead(players@, games@, column, k as int).0,
            count == total_lead(players@, games@, column, k as int).1,
            count <= k,
            -0x1_0000_0000 * k <= sum <= 0x1_0000_0000 * k,
        decreases games.len() - k,
    {
        let m = games[k];
        match m.opponent {
            Some(o) => {
                sum = sum + (lane_entry_of(&players[m.row], column) as i128 - lane_entry_of(
                    &players[o],
                    column,
                ) as i128);
                count += 1;
            },
            None => {},
        }
        k += 1;
    }
    (sum, count)
}

/// Every profile has at least `min_matches` games in its window and no more than the player
/// has in the role, and names rows of the table only.
pub proof fn lemma_profiles_sound(
    players: Seq<PlayerRow>,
    rows: Seq<Matchup>,
    history_size: usize,
    min_matches: usize,
    n: int,
)
    requires
        0 <= n <= rows.len(),
        in_bounds(rows, players.len() as int),
    ensures
        forall|i: int|
            0 <= i < profiles_upto(players, rows, history_size, min_matches, n).len() ==> is_sound(
                #[trigger] profiles_upto(players, rows, history_size, min_matches, n)[i],
                players.len() as int,
                min_matches,
            ),
    decreases n,
{
    if n > 0 {
        lemma_profiles_sound(players, rows, history_size, min_matches, n - 1);
        let of = rows[n - 1].row as int;
        let part = partition(players, rows, of, rows.len() as int);
        lemma_partition_in_bounds(players, rows, of, rows.len() as int);
        lemma_window_in_bounds(players, part, history_size, part.len() as int);
        let before = profiles_upto(players, rows, history_size, min_matches, n - 1);
        let all = profiles_upto(players, rows, history_size, min_matches, n);
        assert forall|i: int| 0 <= i < all.len() implies is_sound(
            #[trigger] all[i],
            players.len() as int,
            min_matches,
        ) by {
            if i < before.len() {
                assert(all[i] == before[i]);
            } else {
                assert(all[i] == profile_at(players, rows, history_size, n - 1));
            }
        }
    }
}

/// The creation times of the games of `part`, in their order.
pub open spec fn times_of(players: Seq<PlayerRow>, part: Seq<Matchup>) -> Seq<i64> {
    Seq::new(part.len(), |k: int| players[part[k].row as int].game_creation)
}

/// Whether no two of `times` are the same.
pub open spec fn all_distinct(times: Seq<i64>) -> bool {
    forall|i: int, j: int| 0 <= i < j < times.len() ==> times[i] != times[j]
}

/// How many of the first `n` of `times` are later than `t`.
pub open spec fn above(times: Seq<i64>, t: i64, n: int) -> nat
    decreases n,
{
    if n <= 0 {
        0
    } else {
        above(times, t, n - 1) + if times[n - 1] > t {
            1nat
        } else {
            0nat
        }
    }
}

/// How many of the first `n` of `s` have fewer than `h` of `among` later than themselves.
pub open spec fn kept(s: Seq<i64>, among: Seq<i64>, h: int, n: int) -> nat
    decreases n,
{
    if n <= 0 {
        0
    } else {
        kept(s, among, h, n - 1) + if above(among, s[n - 1], among.len() as int) < h {
            1nat
        } else {
            0nat
        }
    }
}

proof fn lemma_later_times_counted(
    players: Seq<PlayerRow>,
    part: Seq<Matchup>,
    than: i64,
    n: int,
)
    requires
        all_distinct(times_of(players, part)),
        0 <= n <= part.len(),
    ensures
        later_times(players, part, than, n).len() == above(times_of(players, part), than, n),
        forall|x: i64| #[trigger]
            later_times(players, part, than, n).contains(x) ==> exists|j: int|
                0 <= j < n && times_of(players, part)[j] == x,
    decreases n,
{
    if n > 0 {
        lemma_later_times_counted(players, part, than, n - 1);
        let times = times_of(players, part);
        let before = later_times(players, part, than, n - 1);
        let time = players[part[n - 1].row as int].game_creation;
        assert(times[n - 1] == time);
        if before.contains(time) {
            let j = choose|j: int| 0 <= j < n - 1 && times[j] == time;
            assert(times[j] != times[n - 1]);
        }
        let now = later_times(players, part, than, n);
        assert forall|x: i64| #[trigger] now.contains(x) implies exists|j: int|
            0 <= j < n && times[j] == x by {
            let k = choose|k: int| 0 <= k < now.len() && now[k] == x;
            if k < before.len() {
                assert(before[k] == x);
                assert(before.contains(x));
                let j = choose|j: int| 0 <= j < n - 1 && times[j] == x;
                assert(0 <= j < n && times[j] == x);
            } else {
                assert(times[n - 1] == x);
            }
        }
    }
}

proof fn lemma_window_counted(
    players: Seq<PlayerRow>,
    part: Seq<Matchup>,
    history_size: usize,
    n: int,
)
    requires
        all_distinct(times_of(players, part)),
        0 <= n <= part.len(),
    ensures
        window(players, part, history_size, n).len() == kept(
            times_of(players, part),
            times_of(players, part),
            history_size as int,
            n,
        ),
    decreases n,
{
    if n > 0 {
        lemma_window_counted(players, part, history_size, n - 1);
        let times = times_of(players, part);
        lemma_later_times_counted(players, part, times[n - 1], part.len() as int);
    }
}

proof fn lemma_above_without(s: Seq<i64>, m: int, t: i64, n: int)
    requires
        0 <= m < s.len(),
        0 <= n <= s.len(),
    ensures
        above(s, t, n) == above(
            s.remove(m),
            t,
            if n <= m {
                n
            } else {
                n - 1
            },
        ) + if n > m && s[m] > t {
            1nat
        } else {
            0nat
        },
    decreases n,
{
    if n > 0 {
        lemma_above_without(s, m, t, n - 1);
        if n - 1 < m {
            assert(s.remove(m)[n - 1] == s[n - 1]);
        } else if n - 1 > m {
            assert(s.remove(m)[n - 2] == s[n - 1]);
        }
    }
}

proof fn lemma_kept_without(s: Seq<i64>, among: Seq<i64>, h: int, m: int, n: int)
    requires
        0 <= m < s.len(),
        0 <= n <= s.len(),
    ensures
        kept(s, among, h, n) == kept(
            s.remove(m),
            among,
            h,
            if n <= m {
                n
            } else {
                n - 1
            },
        ) + if n > m && above(among, s[m], among.len() as int) < h {
            1nat
        } else {
            0nat
        },
    decreases n,
{
    if n > 0 {
        lemma_kept_without(s, among, h, m, n - 1);
        if n - 1 < m {
            assert(s.remove(m)[n - 1] == s[n - 1]);
        } else if n - 1 > m {
            assert(s.remove(m)[n - 2] == s[n - 1]);
        }
    }
}

proof fn lemma_kept_same(s: Seq<i64>, a: Seq<i64>, ha: int, b: Seq<i64>, hb: int, n: int)
    requires
        0 <= n <= s.len(),
        forall|k: int|
            0 <= k < n ==> (above(a, #[trigger] s[k], a.len() as int) < ha) == (above(
                b,
                s[k],
                b.len() as int,
            ) < hb),
    ensures
        kept(s, a, ha, n) == kept(s, b, hb, n),
    decreases n,
{
    if n > 0 {
        lemma_kept_same(s, a, ha, b, hb, n - 1);
        assert((above(a, s[n - 1], a.len() as int) < ha) == (above(b, s[n - 1], b.len() as int)
            < hb));
    }
}

proof fn lemma_latest(s: Seq<i64>, n: int) -> (m: int)
    requires
        0 < n <= s.len(),
    ensures
        0 <= m < n,
        forall|j: int| 0 <= j < n ==> s[j] <= s[m],
    decreases n,
{
    if n == 1 {
        0
    } else {
        let m = lemma_latest(s, n - 1);
        if s[n - 1] > s[m] {
            n - 1
        } else {
            m
        }
    }
}

proof fn lemma_none_above(s: Seq<i64>, t: i64, n: int)
    requires
        0 <= n <= s.len(),
        forall|j: int| 0 <= j < n ==> s[j] <= t,
    ensures
        above(s, t, n) == 0,
    decreases n,
{
    if n > 0 {
        lemma_none_above(s, t, n - 1);
    }
}

proof fn lemma_kept_none(s: Seq<i64>, among: Seq<i64>, h: int, n: int)
    requires
        h <= 0,
        0 <= n <= s.len(),
    ensures
        kept(s, among, h, n) == 0,
    decreases n,
{
    if n > 0 {
        lemma_kept_none(s, among, h, n - 1);
    }
}

proof fn lemma_kept_distinct(s: Seq<i64>, h: int)
    requires
        all_distinct(s),
        h >= 0,
    ensures
        kept(s, s, h, s.len() as int) == if h <= s.len() {
            h
        } else {
            s.len() as int
        },
    decreases s.len(),
{
    let n = s.len() as int;
    if n == 0 {
    } else if h == 0 {
        lemma_kept_none(s, s, h, n);
    } else {
        let m = lemma_latest(s, n);
        let rest = s.remove(m);
        assert(rest.len() == n - 1);
        assert forall|i: int, j: int| 0 <= i < j < rest.len() implies rest[i] != rest[j] by {
            let a = if i < m {
                i
            } else {
                i + 1
            };
            let b = if j < m {
                j
            } else {
                j + 1
            };
            assert(rest[i] == s[a] && rest[j] == s[b]);
        }
        lemma_kept_without(s, s, h, m, n);
        lemma_none_above(s, s[m], n);
        assert forall|k: int| 0 <= k < n - 1 implies (above(s, #[trigger] rest[k], n) < h) == (
        above(rest, rest[k], n - 1) < h - 1) by {
            let a = if k < m {
                k
            } else {
                k + 1
            };
            assert(rest[k] == s[a]);
            assert(s[a] != s[m]);
            assert(s[a] <= s[m]);
            lemma_above_without(s, m, rest[k], n);
        }
        lemma_kept_same(rest, s, h, rest, h - 1, n - 1);
        lemma_kept_distinct(rest, h - 1);
    }
}

/// Where the games of a player in a role were all created at different times, the window
/// holds `history_size` of them, or all of them where there are fewer.
pub proof fn lemma_window_size(players: Seq<PlayerRow>, part: Seq<Matchup>, history_size: usize)
    requires
        all_distinct(times_of(players, part)),
    ensures
        window(players, part, history_size, part.len() as int).len() == if history_size
            <= part.len() {
            history_size as nat
        } else {
            part.len()
        },
{
    lemma_window_counted(players, part, history_size, part.len() as int);
    lemma_kept_distinct(times_of(players, part), history_size as int);
}

/// The games that a profile uses are as many as the history allows, or all the games of the
/// player in the role where those are fewer, as long as no two of them were created at the
/// same time.
pub proof fn lemma_games_used(
    players: Seq<PlayerRow>,
    rows: Seq<Matchup>,
    history_size: usize,
    k: int,
)
    requires
        0 <= k < rows.len(),
        all_distinct(
            times_of(
                players,
                partition(players, rows, rows[k].row as int, rows.len() as int),
            ),
        ),
    ensures
        ({
            let p = profile_at(players, rows, history_size, k);
            p.games_used == if history_size <= p.games_available {
                history_size as nat
            } else {
                p.games_available
            }
        }),
{
    lemma_window_size(
        players,
        partition(players, rows, rows[k].row as int, rows.len() as int),
        history_size,
    );
}

proof fn lemma_opponents_rows(players: Seq<PlayerRow>, rule: Selection, i: int, m: int)
    requires
        0 <= i < players.len(),
        players.len() <= usize::MAX,
    ensures
        forall|a: int|
            0 <= a < opponents(players, rule, i, m).len() ==> (#[trigger] opponents(
                players,
                rule,
                i,
                m,
            )[a]).row == i,
    decreases m,
{
    if m > 0 {
        lemma_opponents_rows(players, rule, i, m - 1);
    }
}

/// Whether the matchups stand in the order of the table, each row once, and every one of
/// them is of a game that counts.
spec fn in_table_order(players: Seq<PlayerRow>, rule: Selection, rows: Seq<Matchup>) -> bool {
    &&& forall|a: int, b: int|
        0 <= a < b < rows.len() ==> (#[trigger] rows[a]).row < (#[trigger] rows[b]).row
    &&& forall|a: int|
        0 <= a < rows.len() ==> (#[trigger] rows[a]).row < players.len() && eligible(
            players[rows[a].row as int],
            rule,
        )
}

proof fn lemma_joined_in_order(players: Seq<PlayerRow>, rule: Selection, n: int)
    requires
        games_apart(players, rule),
        0 <= n <= players.len(),
        players.len() <= usize::MAX,
    ensures
        in_table_order(players, rule, joined(players, rule, n)),
        forall|a: int|
            0 <= a < joined(players, rule, n).len() ==> (#[trigger] joined(players, rule, n)[a]).row
                < n,
    decreases n,
{
    if n > 0 {
        lemma_joined_in_order(players, rule, n - 1);
        if eligible(players[n - 1], rule) {
            let before = joined(players, rule, n - 1);
            let extra = matchups(players, rule, n - 1);
            let found = opponents(players, rule, n - 1, players.len() as int);
            lemma_opponents_rows(players, rule, n - 1, players.len() as int);
            assert(rule.lane_opponents ==> found.len() <= 1);
            assert(extra.len() == 1);
            assert(extra[0].row == n - 1) by {
                if rule.lane_opponents && found.len() != 0 {
                    assert(found[0].row == n - 1);
                }
            }
            let all = joined(players, rule, n);
            assert(all =~= before + extra);
            assert forall|a: int| 0 <= a < all.len() implies (#[trigger] all[a]).row < n
                && all[a].row < players.len() && eligible(players[all[a].row as int], rule) by {
                if a < before.len() {
                    assert(all[a] == before[a]);
                } else {
                    assert(all[a] == extra[0]);
                }
            }
            assert forall|a: int, b: int| 0 <= a < b < all.len() implies (#[trigger] all[a]).row < (
            #[trigger] all[b]).row by {
                if b < before.len() {
                    assert(all[a] == before[a] && all[b] == before[b]);
                } else {
                    assert(all[a] == before[a]);
                    assert(all[b] == extra[0]);
                }
            }
        }
    }
}

proof fn lemma_partition_in_order(
    players: Seq<PlayerRow>,
    rule: Selection,
    rows: Seq<Matchup>,
    of: int,
    n: int,
)
    requires
        in_table_order(players, rule, rows),
        0 <= n <= rows.len(),
    ensures
        in_table_order(players, rule, partition(players, rows, of, n)),
        forall|a: int|
            0 <= a < partition(players, rows, of, n).len() ==> {
                let m = #[trigger] partition(players, rows, of, n)[a];
                &&& same_player(players[m.row as int], players[of])
                &&& n > 0 && m.row <= rows[n - 1].row
            },
    decreases n,
{
    if n > 0 {
        lemma_partition_in_order(players, rule, rows, of, n - 1);
        let before = partition(players, rows, of, n - 1);
        let all = partition(players, rows, of, n);
        assert forall|a: int| 0 <= a < before.len() implies (#[trigger] before[a]).row < rows[n
            - 1].row by {
            assert(before[a].row <= rows[n - 2].row);
            assert(rows[n - 2].row < rows[n - 1].row);
        }
        assert forall|a: int| 0 <= a < all.len() implies {
            let m = #[trigger] all[a];
            &&& same_player(players[m.row as int], players[of])
            &&& m.row <= rows[n - 1].row
            &&& m.row < players.len()
            &&& eligible(players[m.row as int], rule)
        } by {
            if a < before.len() {
                assert(all[a] == before[a]);
            } else {
                assert(all[a] == rows[n - 1]);
            }
        }
        assert forall|a: int, b: int| 0 <= a < b < all.len() implies (#[trigger] all[a]).row < (
        #[trigger] all[b]).row by {
            if b < before.len() {
                assert(all[a] == before[a] && all[b] == before[b]);
            } else {
                assert(all[a] == before[a]);
                assert(all[b] == rows[n - 1]);
            }
        }
    }
}

proof fn lemma_partition_times_apart(players: Seq<PlayerRow>, rule: Selection, of: int)
    requires
        games_apart(players, rule),
        players.len() <= usize::MAX,
    ensures
        all_distinct(
            times_of(
                players,
                partition(
                    players,
                    joined(players, rule, players.len() as int),
                    of,
                    joined(players, rule, players.len() as int).len() as int,
                ),
            ),
        ),
{
    let rows = joined(players, rule, players.len() as int);
    lemma_joined_in_order(players, rule, players.len() as int);
    lemma_partition_in_order(players, rule, rows, of, rows.len() as int);
    let part = partition(players, rows, of, rows.len() as int);
    let times = times_of(players, part);
    assert forall|a: int, b: int| 0 <= a < b < times.len() implies times[a] != times[b] by {
        let x = part[a];
        let y = part[b];
        assert(x.row < y.row);
        assert(same_player(players[x.row as int], players[of]));
        assert(same_player(players[y.row as int], players[of]));
        assert(eligible(players[x.row as int], rule) && eligible(players[y.row as int], rule));
        assert(same_player(players[x.row as int], players[y.row as int]));
    }
}

proof fn lemma_profiles_upto_fill(
    players: Seq<PlayerRow>,
    rule: Selection,
    history_size: usize,
    min_matches: usize,
    n: int,
)
    requires
        games_apart(players, rule),
        players.len() <= usize::MAX,
        0 <= n <= joined(players, rule, players.len() as int).len(),
    ensures
        forall|i: int|
            0 <= i < profiles_upto(
                players,
                joined(players, rule, players.len() as int),
                history_size,
                min_matches,
                n,
            ).len() ==> fills_history(
                #[trigger] profiles_upto(
                    players,
                    joined(players, rule, players.len() as int),
                    history_size,
                    min_matches,
                    n,
                )[i],
                history_size,
            ),
    decreases n,
{
    if n > 0 {
        let rows = joined(players, rule, players.len() as int);
        lemma_profiles_upto_fill(players, rule, history_size, min_matches, n - 1);
        lemma_partition_times_apart(players, rule, rows[n - 1].row as int);
        lemma_games_used(players, rows, history_size, n - 1);
        let before = profiles_upto(players, rows, history_size, min_matches, n - 1);
        let all = profiles_upto(players, rows, history_size, min_matches, n);
        assert forall|i: int| 0 <= i < all.len() implies fills_history(
            #[trigger] all[i],
            history_size,
        ) by {
            if i < before.len() {
                assert(all[i] == before[i]);
            } else {
                assert(all[i] == profile_at(players, rows, history_size, n - 1));
            }
        }
    }
}

/// Every profile of a table uses as many games as the history allows, or all the ranked games
/// of the player in the role where those are fewer, as long as the games of the table are told
/// apart by their time.
pub proof fn lemma_profiles_fill_history(
    players: Seq<PlayerRow>,
    rule: Selection,
    history_size: usize,
    min_matches: usize,
)
    requires
        games_apart(players, rule),
        players.len() <= usize::MAX,
    ensures
        forall|i: int|
            0 <= i < profiles(players, rule, history_size, min_matches).len() ==> fills_history(
                #[trigger] profiles(players, rule, history_size, min_matches)[i],
                history_size,
            ),
{
    lemma_profiles_upto_fill(
        players,
        rule,
        history_size,
        min_matches,
        joined(players, rule, players.len() as int).len() as int,
    );
}

} // verus!