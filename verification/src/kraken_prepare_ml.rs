//! Training tables: team outcomes, and lobbies with both rosters side by side.

use crate::error::RiotError;
use crate::parquet_extract::{PlayerRow, TeamRow, RANKED_SOLO_QUEUE};
use crate::player_profile::{build_profiles, fills_history, games_apart, is_sound, profile_views,
    profiles, PlayerProfile, ProfileView, Selection};
use crate::text::{chain, views};
use vstd::prelude::*;

verus! {

/// What the preparer can build.
#[derive(Clone, Copy, Debug, PartialEq, Eq, Structural)]
pub enum Preparation {
    TeamOutcome,
    PlayerProfileOnly,
    LobbyOutcome,
}

/// What the preparer builds for a variant, given which tables it was handed: the team table
/// for `team-outcome`, the player table for `player-profile-only`, both for `lobby-outcome`,
/// where the player table is asked for first.
pub open spec fn preparation(variant: Seq<char>, has_player: bool, has_team: bool) -> Result<
    Preparation,
    (Seq<char>, Seq<char>),
> {
    if variant == "team-outcome"@ {
        if has_team {
            Ok(Preparation::TeamOutcome)
        } else {
            Err(("--team-parquet"@, variant))
        }
    } else if variant == "player-profile-only"@ {
        if has_player {
            Ok(Preparation::PlayerProfileOnly)
        } else {
            Err(("--player-parquet"@, variant))
        }
    } else if variant == "lobby-outcome"@ {
        if !has_player {
            Err(("--player-parquet"@, variant))
        } else if !has_team {
            Err(("--team-parquet"@, variant))
        } else {
            Ok(Preparation::LobbyOutcome)
        }
    } else {
        Err((Seq::<char>::empty(), variant))
    }
}

/// Whether `variant` names something the preparer can build.
pub open spec fn known_variant(variant: Seq<char>) -> bool {
    variant == "team-outcome"@ || variant == "player-profile-only"@ || variant
        == "lobby-outcome"@
}

fn missing(option: &str, variant: &str) -> (out: RiotError)
    ensures
        out is MissingInput,
        out->MissingInput_0@ == option@,
        out->MissingInput_1@ == variant@,
{
    RiotError::MissingInput(option.to_owned(), variant.to_owned())
}

/// Decides what to build for a variant.
pub fn kraken_prepare_ml_dispatch(variant: &str, has_player_parquet: bool, has_team_parquet: bool) -> (out:
    Result<Preparation, RiotError>)
    ensures
        match preparation(variant@, has_player_parquet, has_team_parquet) {
            Ok(p) => out == Ok::<Preparation, RiotError>(p),
            Err((option, name)) => out is Err && if known_variant(variant@) {
                &&& out->Err_0 is MissingInput
                &&& out->Err_0->MissingInput_0@ == option
                &&& out->Err_0->MissingInput_1@ == name
            } else {
                out->Err_0 is UnsupportedVariant && out->Err_0->UnsupportedVariant_0@ == name
            },
        },
{
    if variant.eq("team-outcome") {
        if has_team_parquet {
            Ok(Preparation::TeamOutcome)
        } else {
            Err(missing("--team-parquet", variant))
        }
    } else if variant.eq("player-profile-only") {
        if has_player_parquet {
            Ok(Preparation::PlayerProfileOnly)
        } else {
            Err(missing("--player-parquet", variant))
        }
    } else if variant.eq("lobby-outcome") {
        if !has_player_parquet {
            Err(missing("--player-parquet", variant))
        } else if !has_team_parquet {
            Err(missing("--team-parquet", variant))
        } else {
            Ok(Preparation::LobbyOutcome)
        }
    } else {
        Err(RiotError::UnsupportedVariant(variant.to_owned()))
    }
}

/// The name of the file that a preparation writes.
pub fn output_file(preparation: Preparation) -> (out: &'static str)
    ensures
        out@ == match preparation {
            Preparation::TeamOutcome => "ml_team_outcome.parquet"@,
            Preparation::PlayerProfileOnly => "player_profile.parquet"@,
            Preparation::LobbyOutcome => "ml_lobby_outcome.parquet"@,
        },
{
    match preparation {
        Preparation::TeamOutcome => "ml_team_outcome.parquet",
        Preparation::PlayerProfileOnly => "player_profile.parquet",
        Preparation::LobbyOutcome => "ml_lobby_outcome.parquet",
    }
}

/// The profiles of the ranked solo games in the canonical roles, without lane opponents: for
/// each player and role the latest `history_size` games, where there are `min_matches` of
/// them.
pub fn kraken_build_player_profile(
    players: &Vec<PlayerRow>,
    history_size: usize,
    min_matches: usize,
) -> (out: Vec<PlayerProfile>)
    ensures
        profile_views(out@) == profiles(
            players@,
            Selection { canonical_roles_only: true, lane_opponents: false },
            history_size,
            min_matches,
        ),
        forall|i: int|
            0 <= i < out@.len() ==> is_sound(
                (#[trigger] out@[i])@,
                players.len() as int,
                min_matches,
            ),
        games_apart(players@, Selection { canonical_roles_only: true, lane_opponents: false })
            ==> forall|i: int|
            0 <= i < out@.len() ==> fills_history((#[trigger] out@[i])@, history_size),
{
    build_profiles(
        players,
        Selection { canonical_roles_only: true, lane_opponents: false },
        history_size,
        min_matches,
    )
}

/// The indices of the ranked solo rows among the first `n` rows of the team table.
pub open spec fn ranked_teams(teams: Seq<TeamRow>, n: int) -> Seq<usize>
    decreases n,
{
    if n <= 0 {
        Seq::<usize>::empty()
    } else if teams[n - 1].queue_id == RANKED_SOLO_QUEUE {
        ranked_teams(teams, n - 1).push((n - 1) as usize)
    } else {
        ranked_teams(teams, n - 1)
    }
}

/// Picks the rows of the team-outcome table: the ranked solo rows of the team table, by
/// index and in order.
pub fn kraken_build_ml_team_outcome(teams: &Vec<TeamRow>) -> (out: Vec<usize>)
    ensures
        out@ == ranked_teams(teams@, teams.len() as int),
        forall|k: int| 0 <= k < out@.len() ==> (#[trigger] out@[k]) < teams.len(),
{
    let mut out: Vec<usize> = Vec::new();
    let mut i: usize = 0;
    while i < teams.len()
        invariant
            i <= teams.len(),
            out@ == ranked_teams(teams@, i as int),
            forall|k: int| 0 <= k < out@.len() ==> (#[trigger] out@[k]) < i,
        decreases teams.len() - i,
    {
        if teams[i].queue_id == RANKED_SOLO_QUEUE {
            out.push(i);
        }
        i += 1;
    }
    out
}

/// The columns of the team-outcome table, in order.
pub fn team_outcome_columns() -> (out: Vec<&'static str>)
    ensures
        out@.len() == 28,
        out@[0]@ == "match_id"@,
        out@[1]@ == "queue_id"@,
        out@[2]@ == "team_id"@,
        out@[3]@ == "team_side"@,
        out@[4]@ == "team_win"@,
        out@[5]@ == "top_champion_id"@,
        out@[6]@ == "jungle_champion_id"@,
        out@[7]@ == "middle_champion_id"@,
        out@[8]@ == "bottom_champion_id"@,
        out@[9]@ == "utility_champion_id"@,
        out@[10]@ == "game_duration"@,
        out@[11]@ == "team_kills"@,
        out@[12]@ == "team_deaths"@,
        out@[13]@ == "team_assists"@,
        out@[14]@ == "team_gold_earned"@,
        out@[15]@ == "team_gold_per_min"@,
        out@[16]@ == "team_damage_to_champions"@,
        out@[17]@ == "team_damage_per_min"@,
        out@[18]@ == "team_vision_score"@,
        out@[19]@ == "team_vision_score_per_min"@,
        out@[20]@ == "team_cs_total"@,
        out@[21]@ == "team_cs_per_min"@,
        out@[22]@ == "team_towers_destroyed"@,
        out@[23]@ == "team_inhibitors_destroyed"@,
        out@[24]@ == "team_dragons"@,
        out@[25]@ == "team_barons"@,
        out@[26]@ == "team_heralds"@,
        out@[27]@ == "team_plates"@,
{
    vec![
        "match_id",
        "queue_id",
        "team_id",
        "team_side",
        "team_win",
        "top_champion_id",
        "jungle_champion_id",
        "middle_champion_id",
        "bottom_champion_id",
        "utility_champion_id",
        "game_duration",
        "team_kills",
        "team_deaths",
        "team_assists",
        "team_gold_earned",
        "team_gold_per_min",
        "team_damage_to_champions",
        "team_damage_per_min",
        "team_vision_score",
        "team_vision_score_per_min",
        "team_cs_total",
        "team_cs_per_min",
        "team_towers_destroyed",
        "team_inhibitors_destroyed",
        "team_dragons",
        "team_barons",
        "team_heralds",
        "team_plates",
    ]
}

/// The number of roles on a team.
pub const ROLE_COUNT: usize = 5;

/// The canonical role at position `k` of a roster.
pub open spec fn role_at(k: int) -> Seq<char> {
    if k == 0 {
        "TOP"@
    } else if k == 1 {
        "JUNGLE"@
    } else if k == 2 {
        "MIDDLE"@
    } else if k == 3 {
        "BOTTOM"@
    } else {
        "UTILITY"@
    }
}

/// Names the canonical role at position `k` of a roster.
pub fn role_name(k: usize) -> (out: &'static str)
    ensures
        out@ == role_at(k as int),
{
    if k == 0 {
        "TOP"
    } else if k == 1 {
        "JUNGLE"
    } else if k == 2 {
        "MIDDLE"
    } else if k == 3 {
        "BOTTOM"
    } else {
        "UTILITY"
    }
}

/// One role on one side of a lobby.
#[derive(Clone, Copy, Debug, PartialEq, Eq, Structural)]
pub struct Slot {
    /// The row of the player table that gives the champion and the player of the role.
    pub player: Option<usize>,
    /// The row of the profile table that gives the player's recent form.
    pub profile: Option<usize>,
}

/// One team of one match with its own roster and the opposing one.
#[derive(Debug)]
pub struct LobbyRow {
    /// The row of the team table that gives the match, the team and its outcome.
    pub team: usize,
    /// The team's roster, one slot for each canonical role in their order.
    pub allies: Vec<Slot>,
    /// The opposing roster, likewise.
    pub enemies: Vec<Slot>,
}

/// A lobby row as mathematics.
pub struct LobbyView {
    pub team: usize,
    pub allies: Seq<Slot>,
    pub enemies: Seq<Slot>,
}

impl View for LobbyRow {
    type V = LobbyView;

    open spec fn view(&self) -> LobbyView {
        LobbyView { team: self.team, allies: self.allies@, enemies: self.enemies@ }
    }
}

/// The views of a sequence of lobby rows.
pub open spec fn lobby_views(rows: Seq<LobbyRow>) -> Seq<LobbyView> {
    rows.map_values(|r: LobbyRow| r@)
}

/// Whether a row of the player table is of a ranked solo game of the team `team_id` in the
/// match `match_id`.
pub open spec fn on_team(row: PlayerRow, match_id: Seq<char>, team_id: int) -> bool {
    row.queue_id == RANKED_SOLO_QUEUE && row.match_id@ == match_id && row.team_id == team_id
}

/// Whether the player table holds a row of the team.
pub open spec fn has_roster(players: Seq<PlayerRow>, match_id: Seq<char>, team_id: int) -> bool {
    exists|i: int| 0 <= i < players.len() && on_team(#[trigger] players[i], match_id, team_id)
}

/// The first row of the team in the role `role`, from the row `from` on.
pub open spec fn first_in_role(
    players: Seq<PlayerRow>,
    match_id: Seq<char>,
    team_id: int,
    role: Seq<char>,
    from: int,
) -> Option<usize>
    decreases players.len() - from,
{
    if from < 0 || from >= players.len() {
        None
    } else if on_team(players[from], match_id, team_id) && players[from].role@ == role {
        Some(from as usize)
    } else {
        first_in_role(players, match_id, team_id, role, from + 1)
    }
}

/// The roster of a team: for each canonical role, in their order, the first player of the
/// team in the role, with no profile attached yet.
pub open spec fn roster(players: Seq<PlayerRow>, match_id: Seq<char>, team_id: int) -> Seq<Slot> {
    Seq::new(
        ROLE_COUNT as nat,
        |k: int|
            Slot { player: first_in_role(players, match_id, team_id, role_at(k), 0), profile: None },
    )
}

/// The team that a team plays against.
pub open spec fn enemy_of(team_id: int) -> int {
    300 - team_id
}

/// The lobby row of the row `k` of the team table, before any profile is attached: the team's
/// own roster and the opposing one.
pub open spec fn lobby_of(players: Seq<PlayerRow>, teams: Seq<TeamRow>, k: int) -> LobbyView {
    LobbyView {
        team: k as usize,
        allies: roster(players, teams[k].match_id@, teams[k].team_id as int),
        enemies: roster(players, teams[k].match_id@, enemy_of(teams[k].team_id as int)),
    }
}

/// Whether the row `k` of the team table has a lobby row: it is of a ranked solo game, and the
/// player table holds a row of its team.
pub open spec fn in_lobby(players: Seq<PlayerRow>, teams: Seq<TeamRow>, k: int) -> bool {
    teams[k].queue_id == RANKED_SOLO_QUEUE && has_roster(
        players,
        teams[k].match_id@,
        teams[k].team_id as int,
    )
}

/// The number of joins that attach profiles: one for each role and side, role by role, the
/// ally before the enemy.
pub const JOIN_COUNT: usize = 10;

/// The slot that the join `s` fills.
pub open spec fn slot_at(row: LobbyView, s: int) -> Slot {
    if s % 2 == 0 {
        row.allies[s / 2]
    } else {
        row.enemies[s / 2]
    }
}

/// A lobby row with `profile` attached to the slot of the join `s`.
pub open spec fn with_profile(row: LobbyView, s: int, profile: Option<usize>) -> LobbyView {
    let filled = Slot { player: slot_at(row, s).player, profile };
    if s % 2 == 0 {
        LobbyView { team: row.team, allies: row.allies.update(s / 2, filled), enemies: row.enemies }
    } else {
        LobbyView { team: row.team, allies: row.allies, enemies: row.enemies.update(s / 2, filled) }
    }
}

/// The profiles of the player `puuid` in the role `role` among the first `n` of the table, by
/// index and in the order of the table.
pub open spec fn matching(profiles: Seq<ProfileView>, puuid: Seq<char>, role: Seq<char>, n: int) -> Seq<
    Option<usize>,
>
    decreases n,
{
    if n <= 0 {
        Seq::<Option<usize>>::empty()
    } else if profiles[n - 1].puuid == puuid && profiles[n - 1].role == role {
        matching(profiles, puuid, role, n - 1).push(Some((n - 1) as usize))
    } else {
        matching(profiles, puuid, role, n - 1)
    }
}

/// What the join `s` attaches to a lobby row, as a left join does: every profile of the
/// slot's player in the slot's role, in the order of the profile table; and nothing, once,
/// where the table has none or the slot has no player.
pub open spec fn candidates(
    players: Seq<PlayerRow>,
    profiles: Seq<ProfileView>,
    row: LobbyView,
    s: int,
) -> Seq<Option<usize>> {
    match slot_at(row, s).player {
        None => seq![None],
        Some(i) => {
            let found = matching(
                profiles,
                players[i as int].puuid@,
                role_at(s / 2),
                profiles.len() as int,
            );
            if found.len() == 0 {
                seq![None]
            } else {
                found
            }
        },
    }
}

/// The lobby row once for each of the first `n` of `attach`, with that one attached.
pub open spec fn variants(row: LobbyView, s: int, attach: Seq<Option<usize>>, n: int) -> Seq<
    LobbyView,
>
    decreases n,
{
    if n <= 0 {
        Seq::<LobbyView>::empty()
    } else {
        variants(row, s, attach, n - 1).push(with_profile(row, s, attach[n - 1]))
    }
}

/// The first `n` of `rows` after the join `s`: each row in its place, once for each profile
/// that the join attaches to it.
pub open spec fn joined_slot(
    players: Seq<PlayerRow>,
    profiles: Seq<ProfileView>,
    rows: Seq<LobbyView>,
    s: int,
    n: int,
) -> Seq<LobbyView>
    decreases n,
{
    if n <= 0 {
        Seq::<LobbyView>::empty()
    } else {
        let attach = candidates(players, profiles, rows[n - 1], s);
        joined_slot(players, profiles, rows, s, n - 1) + variants(
            rows[n - 1],
            s,
            attach,
            attach.len() as int,
        )
    }
}

/// The rows that the first `s` joins make of the lobby row `base`.
pub open spec fn attached(
    players: Seq<PlayerRow>,
    profiles: Seq<ProfileView>,
    base: LobbyView,
    s: int,
) -> Seq<LobbyView>
    decreases s,
{
    if s <= 0 {
        seq![base]
    } else {
        let before = attached(players, profiles, base, s - 1);
        joined_slot(players, profiles, before, s - 1, before.len() as int)
    }
}

/// The lobby rows of the row `k` of the team table: the one row of its two rosters, and with
/// a profile table what the ten left joins make of it. With no more than one profile for each
/// player and role that is one row again.
pub open spec fn lobby_rows(
    players: Seq<PlayerRow>,
    teams: Seq<TeamRow>,
    profiles: Option<Seq<ProfileView>>,
    k: int,
) -> Seq<LobbyView> {
    match profiles {
        Some(table) => attached(players, table, lobby_of(players, teams, k), JOIN_COUNT as int),
        None => seq![lobby_of(players, teams, k)],
    }
}

/// The lobby rows of the first `n` rows of the team table.
pub open spec fn lobbies(
    players: Seq<PlayerRow>,
    teams: Seq<TeamRow>,
    profiles: Option<Seq<ProfileView>>,
    n: int,
) -> Seq<LobbyView>
    decreases n,
{
    if n <= 0 {
        Seq::<LobbyView>::empty()
    } else if in_lobby(players, teams, n - 1) {
        lobbies(players, teams, profiles, n - 1) + lobby_rows(players, teams, profiles, n - 1)
    } else {
        lobbies(players, teams, profiles, n - 1)
    }
}

/// The views of an optional profile table.
pub open spec fn opt_profile_views(profiles: Option<&Vec<PlayerProfile>>) -> Option<
    Seq<ProfileView>,
> {
    match profiles {
        Some(table) => Some(profile_views(table@)),
        None => None,
    }
}

/// Whether a lobby row has a slot for each role on both sides and names rows of a player
/// table of `rows` rows only.
pub open spec fn shaped(row: LobbyView, rows: int) -> bool {
    &&& row.allies.len() == ROLE_COUNT
    &&& row.enemies.len() == ROLE_COUNT
    &&& forall|j: int|
        0 <= j < ROLE_COUNT ==> ((#[trigger] row.allies[j]).player is Some ==> row.allies[j].player->0
            < rows)
    &&& forall|j: int|
        0 <= j < ROLE_COUNT ==> ((#[trigger] row.enemies[j]).player is Some
            ==> row.enemies[j].player->0 < rows)
}

fn is_on_team(row: &PlayerRow, match_id: &str, team_id: i64) -> (out: bool)
    ensures
        out == on_team(*row, match_id@, team_id as int),
{
    row.queue_id == RANKED_SOLO_QUEUE && row.match_id.as_str().eq(match_id) && row.team_id as i64
        == team_id
}

fn find_roster(players: &Vec<PlayerRow>, match_id: &str, team_id: i64) -> (out: bool)
    ensures
        out == has_roster(players@, match_id@, team_id as int),
{
    let mut i: usize = 0;
    while i < players.len()
        invariant
            i <= players.len(),
            forall|j: int| 0 <= j < i ==> !on_team(#[trigger] players@[j], match_id@, team_id as int),
        decreases players.len() - i,
    {
        if is_on_team(&players[i], match_id, team_id) {
            return true;
        }
        i += 1;
    }
    false
}

fn find_in_role(players: &Vec<PlayerRow>, match_id: &str, team_id: i64, role: &str) -> (out: Option<
    usize,
>)
    ensures
        out == first_in_role(players@, match_id@, team_id as int, role@, 0),
        out is Some ==> out->0 < players.len(),
{
    let mut i: usize = 0;
    while i < players.len()
        invariant
            i <= players.len(),
            first_in_role(players@, match_id@, team_id as int, role@, 0) == first_in_role(
                players@,
                match_id@,
                team_id as int,
                role@,
                i as int,
            ),
        decreases players.len() - i,
    {
        if is_on_team(&players[i], match_id, team_id) && players[i].role.as_str().eq(role) {
            return Some(i);
        }
        i += 1;
    }
    None
}

fn build_roster(players: &Vec<PlayerRow>, match_id: &str, team_id: i64) -> (out: Vec<Slot>)
    ensures
        out@ == roster(players@, match_id@, team_id as int),
        forall|j: int|
            0 <= j < ROLE_COUNT ==> ((#[trigger] out@[j]).player is Some ==> out@[j].player->0
                < players.len()),
{
    let mut out: Vec<Slot> = Vec::new();
    let mut k: usize = 0;
    while k < ROLE_COUNT
        invariant
            k <= ROLE_COUNT,
            out@.len() == k,
            forall|j: int|
                0 <= j < k ==> (#[trigger] out@[j]) == (Slot {
                    player: first_in_role(players@, match_id@, team_id as int, role_at(j), 0),
                    profile: None,
                }) && (out@[j].player is Some ==> out@[j].player->0 < players.len()),
        decreases ROLE_COUNT - k,
    {
        let player = find_in_role(players, match_id, team_id, role_name(k));
        out.push(Slot { player, profile: None });
        k += 1;
    }
    assert(out@ =~= roster(players@, match_id@, team_id as int));
    out
}

fn find_profiles(profiles: &Vec<PlayerProfile>, puuid: &str, role: &str) -> (out: Vec<Option<usize>>)
    ensures
        out@ == matching(profile_views(profiles@), puuid@, role@, profiles.len() as int),
{
    let mut out: Vec<Option<usize>> = Vec::new();
    let mut i: usize = 0;
    while i < profiles.len()
        invariant
            i <= profiles.len(),
            out@ == matching(profile_views(profiles@), puuid@, role@, i as int),
        decreases profiles.len() - i,
    {
        assert(profile_views(profiles@)[i as int] == profiles@[i as int]@);
        if profiles[i].puuid.as_str().eq(puuid) && profiles[i].role.as_str().eq(role) {
            out.push(Some(i));
        }
        i += 1;
    }
    out
}

fn copy_slots(slots: &Vec<Slot>) -> (out: Vec<Slot>)
    ensures
        out@ == slots@,
{
    let mut out: Vec<Slot> = Vec::new();
    let mut i: usize = 0;
    while i < slots.len()
        invariant
            i <= slots.len(),
            out@ == slots@.take(i as int),
        decreases slots.len() - i,
    {
        out.push(slots[i]);
        assert(out@ =~= slots@.take(i as int + 1));
        i += 1;
    }
    assert(slots@.take(slots@.len() as int) =~= slots@);
    out
}

fn slot_of(row: &LobbyRow, s: usize) -> (out: Slot)
    requires
        s < JOIN_COUNT,
        row@.allies.len() == ROLE_COUNT,
        row@.enemies.len() == ROLE_COUNT,
    ensures
        out == slot_at(row@, s as int),
{
    if s % 2 == 0 {
        row.allies[s / 2]
    } else {
        row.enemies[s / 2]
    }
}

fn fill(row: &LobbyRow, s: usize, profile: Option<usize>) -> (out: LobbyRow)
    requires
        s < JOIN_COUNT,
        row@.allies.len() == ROLE_COUNT,
        row@.enemies.len() == ROLE_COUNT,
    ensures
        out@ == with_profile(row@, s as int, profile),
{
    let filled = Slot { player: slot_of(row, s).player, profile };
    let mut allies = copy_slots(&row.allies);
    let mut enemies = copy_slots(&row.enemies);
    if s % 2 == 0 {
        allies.set(s / 2, filled);
    } else {
        enemies.set(s / 2, filled);
    }
    LobbyRow { team: row.team, allies, enemies }
}

fn candidates_for(
    players: &Vec<PlayerRow>,
    profiles: &Vec<PlayerProfile>,
    row: &LobbyRow,
    s: usize,
) -> (out: Vec<Option<usize>>)
    requires
        s < JOIN_COUNT,
        shaped(row@, players.len() as int),
    ensures
        out@ == candidates(players@, profile_views(profiles@), row@, s as int),
{
    assert(profile_views(profiles@).len() == profiles.len());
    match slot_of(row, s).player {
        None => vec![None],
        Some(i) => {
            assert(row@.allies[(s / 2) as int].player is Some ==> row@.allies[(s / 2) as int].player->0
                < players.len());
            assert(row@.enemies[(s / 2) as int].player is Some ==> row@.enemies[(s
                / 2) as int].player->0 < players.len());
            let found = find_profiles(profiles, players[i].puuid.as_str(), role_name(s / 2));
            if found.len() == 0 {
                vec![None]
            } else {
                found
            }
        },
    }
}

proof fn lemma_with_profile_shaped(row: LobbyView, s: int, profile: Option<usize>, rows: int)
    requires
        shaped(row, rows),
        0 <= s < JOIN_COUNT,
    ensures
        shaped(with_profile(row, s, profile), rows),
{
    let out = with_profile(row, s, profile);
    assert forall|j: int| 0 <= j < ROLE_COUNT implies ((#[trigger] out.allies[j]).player is Some
        ==> out.allies[j].player->0 < rows) by {
        assert(out.allies[j].player == row.allies[j].player);
    }
    assert forall|j: int| 0 <= j < ROLE_COUNT implies ((#[trigger] out.enemies[j]).player is Some
        ==> out.enemies[j].player->0 < rows) by {
        assert(out.enemies[j].player == row.enemies[j].player);
    }
}

fn join_slot(
    players: &Vec<PlayerRow>,
    profiles: &Vec<PlayerProfile>,
    rows: &Vec<LobbyRow>,
    s: usize,
) -> (out: Vec<LobbyRow>)
    requires
        s < JOIN_COUNT,
        forall|i: int| 0 <= i < rows@.len() ==> shaped((#[trigger] rows@[i])@, players.len() as int),
    ensures
        lobby_views(out@) == joined_slot(
            players@,
            profile_views(profiles@),
            lobby_views(rows@),
            s as int,
            rows.len() as int,
        ),
        forall|i: int| 0 <= i < out@.len() ==> shaped((#[trigger] out@[i])@, players.len() as int),
{
    let mut out: Vec<LobbyRow> = Vec::new();
    let mut i: usize = 0;
    assert(lobby_views(out@) =~= Seq::<LobbyView>::empty());
    while i < rows.len()
        invariant
            i <= rows.len(),
            s < JOIN_COUNT,
            forall|j: int|
                0 <= j < rows@.len() ==> shaped((#[trigger] rows@[j])@, players.len() as int),
            lobby_views(out@) == joined_slot(
                players@,
                profile_views(profiles@),
                lobby_views(rows@),
                s as int,
                i as int,
            ),
            forall|j: int|
                0 <= j < out@.len() ==> shaped((#[trigger] out@[j])@, players.len() as int),
        decreases rows.len() - i,
    {
        let row = &rows[i];
        assert(lobby_views(rows@)[i as int] == row@);
        assert(shaped(rows@[i as int]@, players.len() as int));
        let attach = candidates_for(players, profiles, row, s);
        let mut a: usize = 0;
        let ghost before = lobby_views(out@);
        assert(before + Seq::<LobbyView>::empty() =~= before);
        while a < attach.len()
            invariant
                a <= attach.len(),
                s < JOIN_COUNT,
                shaped(row@, players.len() as int),
                lobby_views(out@) == before + variants(row@, s as int, attach@, a as int),
                forall|j: int|
                    0 <= j < out@.len() ==> shaped((#[trigger] out@[j])@, players.len() as int),
            decreases attach.len() - a,
        {
            let next = fill(row, s, attach[a]);
            proof {
                lemma_with_profile_shaped(row@, s as int, attach@[a as int], players.len() as int);
            }
            let ghost old_out = out@;
            out.push(next);
            assert(lobby_views(out@) =~= lobby_views(old_out).push(
                with_profile(row@, s as int, attach@[a as int]),
            ));
            assert(lobby_views(out@) =~= before + variants(row@, s as int, attach@, a as int + 1));
            assert forall|j: int| 0 <= j < out@.len() implies shaped(
                (#[trigger] out@[j])@,
                players.len() as int,
            ) by {
                if j < old_out.len() {
                    assert(out@[j] == old_out[j]);
                }
            }
            a += 1;
        }
        i += 1;
    }
    out
}

fn attach_profiles(players: &Vec<PlayerRow>, profiles: &Vec<PlayerProfile>, base: LobbyRow) -> (out:
    Vec<LobbyRow>)
    requires
        shaped(base@, players.len() as int),
    ensures
        lobby_views(out@) == attached(
            players@,
            profile_views(profiles@),
            base@,
            JOIN_COUNT as int,
        ),
{
    let ghost start = base@;
    let mut rows: Vec<LobbyRow> = vec![base];
    assert(lobby_views(rows@) =~= seq![start]);
    let mut s: usize = 0;
    while s < JOIN_COUNT
        invariant
            s <= JOIN_COUNT,
            lobby_views(rows@) == attached(players@, profile_views(profiles@), start, s as int),
            forall|i: int|
                0 <= i < rows@.len() ==> shaped((#[trigger] rows@[i])@, players.len() as int),
        decreases JOIN_COUNT - s,
    {
        assert(lobby_views(rows@).len() == rows.len());
        rows = join_slot(players, profiles, &rows, s);
        s += 1;
    }
    rows
}

/// Builds the lobby table. Every ranked solo row of the team table whose team has rows in
/// the player table gives a lobby row: the first player in each canonical role on its own
/// side and on the opposing side, the team `300 - team_id`. Where a profile table is given,
/// the profiles are attached by ten left joins, role by role, the ally before the enemy: on
/// the player's id, within the profiles of the role. A player with one profile in the role
/// has it attached, a player with none has nothing attached, and a lobby row with a player
/// who has several stands once for each of them.
pub fn kraken_build_ml_lobby_outcome(
    players: &Vec<PlayerRow>,
    teams: &Vec<TeamRow>,
    profiles: Option<&Vec<PlayerProfile>>,
) -> (out: Vec<LobbyRow>)
    ensures
        lobby_views(out@) == lobbies(
            players@,
            teams@,
            opt_profile_views(profiles),
            teams.len() as int,
        ),
        sides_apart(players@) ==> forall|i: int|
            0 <= i < out@.len() ==> sides_differ(
                players@,
                opt_profile_views(profiles),
                (#[trigger] out@[i])@,
            ),
{
    let mut out: Vec<LobbyRow> = Vec::new();
    let mut k: usize = 0;
    assert(lobby_views(out@) =~= Seq::<LobbyView>::empty());
    while k < teams.len()
        invariant
            k <= teams.len(),
            lobby_views(out@) == lobbies(players@, teams@, opt_profile_views(profiles), k as int),
        decreases teams.len() - k,
    {
        let team = &teams[k];
        let team_id: i64 = team.team_id as i64;
        if team.queue_id == RANKED_SOLO_QUEUE && find_roster(
            players,
            team.match_id.as_str(),
            team_id,
        ) {
            let base = LobbyRow {
                team: k,
                allies: build_roster(players, team.match_id.as_str(), team_id),
                enemies: build_roster(players, team.match_id.as_str(), 300 - team_id),
            };
            assert(base@ == lobby_of(players@, teams@, k as int));
            let mut rows: Vec<LobbyRow> = match profiles {
                Some(table) => attach_profiles(players, table, base),
                None => {
                    let one: Vec<LobbyRow> = vec![base];
                    assert(lobby_views(one@) =~= seq![lobby_of(players@, teams@, k as int)]);
                    one
                },
            };
            let ghost before = out@;
            let ghost extra = rows@;
            out.append(&mut rows);
            assert(lobby_views(out@) =~= lobby_views(before) + lobby_views(extra));
        }
        k += 1;
    }
    proof {
        if sides_apart(players@) {
            let table = opt_profile_views(profiles);
            assert(players@.len() == players.len());
            assert(profiles is Some ==> profile_views(profiles->0@).len() == profiles->0.len());
            lemma_lobby_rows_differ(players@, teams@, table, teams.len() as int);
            let all = lobbies(players@, teams@, table, teams.len() as int);
            assert forall|i: int| 0 <= i < out@.len() implies sides_differ(
                players@,
                table,
                (#[trigger] out@[i])@,
            ) by {
                assert(lobby_views(out@)[i] == out@[i]@);
                assert(sides_differ(players@, table, all[i]));
            }
        }
    }
    out
}

/// What `first_in_role` finds is a row of the team in the role.
pub proof fn lemma_first_in_role(
    players: Seq<PlayerRow>,
    match_id: Seq<char>,
    team_id: int,
    role: Seq<char>,
    from: int,
)
    requires
        0 <= from,
        players.len() <= usize::MAX,
    ensures
        match first_in_role(players, match_id, team_id, role, from) {
            Some(i) => from <= i < players.len() && on_team(players[i as int], match_id, team_id)
                && players[i as int].role@ == role,
            None => true,
        },
    decreases players.len() - from,
{
    if from < players.len() && !(on_team(players[from], match_id, team_id) && players[from].role@
        == role) {
        lemma_first_in_role(players, match_id, team_id, role, from + 1);
    }
}

/// Whether no player is on two teams of one match, and no team is its own enemy.
pub open spec fn sides_apart(players: Seq<PlayerRow>) -> bool {
    &&& forall|i: int, j: int|
        0 <= i < players.len() && 0 <= j < players.len() && (#[trigger] players[i]).match_id@ == (
        #[trigger] players[j]).match_id@ && players[i].puuid@ == players[j].puuid@
            ==> players[i].team_id == players[j].team_id
    &&& forall|i: int| 0 <= i < players.len() ==> (#[trigger] players[i]).team_id != 150
}

/// In a lobby row the two players of a role are different players: where no player is on two
/// teams of one match, the ally and the enemy of a role never have the same player id.
pub proof fn lemma_lobby_sides_differ(
    players: Seq<PlayerRow>,
    match_id: Seq<char>,
    team_id: int,
    k: int,
)
    requires
        sides_apart(players),
        players.len() <= usize::MAX,
        0 <= k < ROLE_COUNT,
    ensures
        ({
            let ally = roster(players, match_id, team_id)[k].player;
            let enemy = roster(players, match_id, enemy_of(team_id))[k].player;
            ally is Some && enemy is Some ==> players[ally->0 as int].puuid@
                != players[enemy->0 as int].puuid@
        }),
{
    lemma_first_in_role(players, match_id, team_id, role_at(k), 0);
    lemma_first_in_role(players, match_id, enemy_of(team_id), role_at(k), 0);
}

/// The two lobby rows of a match mirror each other: the allies of one team are the enemies
/// of the team it plays against.
pub proof fn lemma_lobby_mirror(players: Seq<PlayerRow>, match_id: Seq<char>, team_id: int)
    ensures
        roster(players, match_id, team_id) == roster(
            players,
            match_id,
            enemy_of(enemy_of(team_id)),
        ),
{
}

/// The lower-case name of the canonical role at position `k`, as column names carry it.
pub open spec fn role_slug(k: int) -> Seq<char> {
    if k == 0 {
        "top"@
    } else if k == 1 {
        "jungle"@
    } else if k == 2 {
        "middle"@
    } else if k == 3 {
        "bottom"@
    } else {
        "utility"@
    }
}

fn role_slug_name(k: usize) -> (out: &'static str)
    ensures
        out@ == role_slug(k as int),
{
    if k == 0 {
        "top"
    } else if k == 1 {
        "jungle"
    } else if k == 2 {
        "middle"
    } else if k == 3 {
        "bottom"
    } else {
        "utility"
    }
}

/// The name of the column of `side` and the role at position `k` that ends in `suffix`.
pub open spec fn slot_column(side: Seq<char>, k: int, suffix: Seq<char>) -> Seq<char> {
    side + "_"@ + role_slug(k) + suffix
}

/// The names of the roster columns of `side` for the first `n` roles: champion and player.
pub open spec fn roster_columns(side: Seq<char>, n: int) -> Seq<Seq<char>>
    decreases n,
{
    if n <= 0 {
        Seq::<Seq<char>>::empty()
    } else {
        roster_columns(side, n - 1) + seq![
            slot_column(side, n - 1, "_champion_id"@),
            slot_column(side, n - 1, "_puuid"@),
        ]
    }
}

/// The names of the recent-form columns of `side` for the role at position `k`.
pub open spec fn form_columns(side: Seq<char>, k: int) -> Seq<Seq<char>> {
    seq![
        slot_column(side, k, "_recent_games"@),
        slot_column(side, k, "_recent_winrate"@),
        slot_column(side, k, "_recent_gold_per_min"@),
        slot_column(side, k, "_recent_damage_per_min"@),
        slot_column(side, k, "_recent_vision_per_min"@),
    ]
}

/// The names of the recent-form columns for the first `n` roles: for each role those of the
/// ally, then those of the enemy.
pub open spec fn all_form_columns(n: int) -> Seq<Seq<char>>
    decreases n,
{
    if n <= 0 {
        Seq::<Seq<char>>::empty()
    } else {
        all_form_columns(n - 1) + form_columns("ally"@, n - 1) + form_columns("enemy"@, n - 1)
    }
}

/// The names of the columns that the lobby table takes from the team table.
pub open spec fn lobby_team_columns() -> Seq<Seq<char>> {
    seq!["match_id"@, "queue_id"@, "team_id"@, "team_side"@, "team_win"@]
}

/// The names of the columns of the lobby table, in order: those of the team, the two
/// rosters, and the recent form of each slot where profiles are attached.
pub open spec fn lobby_column_names(with_profiles: bool) -> Seq<Seq<char>> {
    lobby_team_columns() + roster_columns("ally"@, ROLE_COUNT as int) + roster_columns(
        "enemy"@,
        ROLE_COUNT as int,
    ) + if with_profiles {
        all_form_columns(ROLE_COUNT as int)
    } else {
        Seq::<Seq<char>>::empty()
    }
}

fn slot_column_name(side: &str, k: usize, suffix: &str) -> (out: String)
    ensures
        out@ == slot_column(side@, k as int, suffix@),
{
    let a = chain(side, "_");
    let b = chain(a.as_str(), role_slug_name(k));
    chain(b.as_str(), suffix)
}

fn push_roster_columns(out: &mut Vec<String>, side: &str)
    ensures
        views(final(out)@) == views(old(out)@) + roster_columns(side@, ROLE_COUNT as int),
{
    let mut k: usize = 0;
    assert(views(out@) + Seq::<Seq<char>>::empty() =~= views(out@));
    while k < ROLE_COUNT
        invariant
            k <= ROLE_COUNT,
            views(out@) == views(old(out)@) + roster_columns(side@, k as int),
        decreases ROLE_COUNT - k,
    {
        let ghost before = out@;
        let champion = slot_column_name(side, k, "_champion_id");
        let player = slot_column_name(side, k, "_puuid");
        let ghost names = seq![champion@, player@];
        out.push(champion);
        out.push(player);
        assert(views(out@) =~= views(before) + names);
        assert(views(out@) =~= views(old(out)@) + roster_columns(side@, k as int + 1));
        k += 1;
    }
}

fn push_form_columns(out: &mut Vec<String>, side: &str, k: usize)
    ensures
        views(final(out)@) == views(old(out)@) + form_columns(side@, k as int),
{
    let ghost before = out@;
    out.push(slot_column_name(side, k, "_recent_games"));
    out.push(slot_column_name(side, k, "_recent_winrate"));
    out.push(slot_column_name(side, k, "_recent_gold_per_min"));
    out.push(slot_column_name(side, k, "_recent_damage_per_min"));
    out.push(slot_column_name(side, k, "_recent_vision_per_min"));
    assert(views(out@) =~= views(before) + form_columns(side@, k as int));
}

/// Names the columns of the lobby table.
pub fn lobby_columns(with_profiles: bool) -> (out: Vec<String>)
    ensures
        views(out@) == lobby_column_names(with_profiles),
{
    let mut out: Vec<String> = vec![
        "match_id".to_owned(),
        "queue_id".to_owned(),
        "team_id".to_owned(),
        "team_side".to_owned(),
        "team_win".to_owned(),
    ];
    assert(views(out@) =~= lobby_team_columns());
    push_roster_columns(&mut out, "ally");
    push_roster_columns(&mut out, "enemy");
    let ghost rosters = views(out@);
    if with_profiles {
        let mut k: usize = 0;
        assert(views(out@) + Seq::<Seq<char>>::empty() =~= views(out@));
        while k < ROLE_COUNT
            invariant
                k <= ROLE_COUNT,
                views(out@) == rosters + all_form_columns(k as int),
            decreases ROLE_COUNT - k,
        {
            let ghost before = views(out@);
            push_form_columns(&mut out, "ally", k);
            push_form_columns(&mut out, "enemy", k);
            assert(views(out@) =~= rosters + all_form_columns(k as int + 1)) by {
                assert(views(out@) == before + form_columns("ally"@, k as int) + form_columns(
                    "enemy"@,
                    k as int,
                ));
                assert(rosters + all_form_columns(k as int + 1) =~= rosters + all_form_columns(
                    k as int,
                ) + form_columns("ally"@, k as int) + form_columns("enemy"@, k as int));
            }
            k += 1;
        }
    } else {
        assert(views(out@) + Seq::<Seq<char>>::empty() =~= views(out@));
    }
    out
}


/// Whether the two sides of a lobby row are apart: in every role the ally and the enemy are
/// different players, and the recent form attached to them is that of different players.
pub open spec fn sides_differ(
    players: Seq<PlayerRow>,
    profiles: Option<Seq<ProfileView>>,
    row: LobbyView,
) -> bool {
    forall|k: int|
        0 <= k < ROLE_COUNT ==> {
            let ally = #[trigger] row.allies[k];
            let enemy = row.enemies[k];
            &&& ally.player is Some && enemy.player is Some ==> players[ally.player->0 as int].puuid@
                != players[enemy.player->0 as int].puuid@
            &&& profiles is Some && ally.profile is Some && enemy.profile is Some
                ==> profiles->0[ally.profile->0 as int].puuid
                != profiles->0[enemy.profile->0 as int].puuid
        }
}

/// Whether a slot is the slot `of` with a profile attached or none: the same player, and a
/// profile of that player in the role at position `k`.
pub open spec fn slot_fits(
    players: Seq<PlayerRow>,
    profiles: Seq<ProfileView>,
    of: Slot,
    slot: Slot,
    k: int,
) -> bool {
    &&& slot.player == of.player
    &&& slot.profile is Some ==> {
        &&& slot.player is Some
        &&& slot.profile->0 < profiles.len()
        &&& profiles[slot.profile->0 as int].puuid == players[slot.player->0 as int].puuid@
        &&& profiles[slot.profile->0 as int].role == role_at(k)
    }
}

/// Whether a lobby row is the row `base` with profiles attached.
pub open spec fn fits(
    players: Seq<PlayerRow>,
    profiles: Seq<ProfileView>,
    base: LobbyView,
    row: LobbyView,
) -> bool {
    &&& row.team == base.team
    &&& row.allies.len() == ROLE_COUNT
    &&& row.enemies.len() == ROLE_COUNT
    &&& base.allies.len() == ROLE_COUNT
    &&& base.enemies.len() == ROLE_COUNT
    &&& forall|k: int|
        0 <= k < ROLE_COUNT ==> slot_fits(
            players,
            profiles,
            base.allies[k],
            #[trigger] row.allies[k],
            k,
        )
    &&& forall|k: int|
        0 <= k < ROLE_COUNT ==> slot_fits(
            players,
            profiles,
            base.enemies[k],
            #[trigger] row.enemies[k],
            k,
        )
}

proof fn lemma_matching_fits(profiles: Seq<ProfileView>, puuid: Seq<char>, role: Seq<char>, n: int)
    requires
        0 <= n <= profiles.len(),
        profiles.len() <= usize::MAX,
    ensures
        forall|a: int|
            0 <= a < matching(profiles, puuid, role, n).len() ==> {
                let found = #[trigger] matching(profiles, puuid, role, n)[a];
                &&& found is Some
                &&& found->0 < n
                &&& profiles[found->0 as int].puuid == puuid
                &&& profiles[found->0 as int].role == role
            },
    decreases n,
{
    if n > 0 {
        lemma_matching_fits(profiles, puuid, role, n - 1);
    }
}

proof fn lemma_with_profile_fits(
    players: Seq<PlayerRow>,
    profiles: Seq<ProfileView>,
    base: LobbyView,
    row: LobbyView,
    s: int,
    a: int,
)
    requires
        fits(players, profiles, base, row),
        profiles.len() <= usize::MAX,
        0 <= s < JOIN_COUNT,
        0 <= a < candidates(players, profiles, row, s).len(),
    ensures
        fits(
            players,
            profiles,
            base,
            with_profile(row, s, candidates(players, profiles, row, s)[a]),
        ),
{
    let attach = candidates(players, profiles, row, s);
    let out = with_profile(row, s, attach[a]);
    let k = s / 2;
    if slot_at(row, s).player is Some {
        let i = slot_at(row, s).player->0;
        lemma_matching_fits(
            profiles,
            players[i as int].puuid@,
            role_at(k),
            profiles.len() as int,
        );
    }
    assert forall|j: int| 0 <= j < ROLE_COUNT implies slot_fits(
        players,
        profiles,
        base.allies[j],
        #[trigger] out.allies[j],
        j,
    ) by {
        assert(slot_fits(players, profiles, base.allies[j], row.allies[j], j));
    }
    assert forall|j: int| 0 <= j < ROLE_COUNT implies slot_fits(
        players,
        profiles,
        base.enemies[j],
        #[trigger] out.enemies[j],
        j,
    ) by {
        assert(slot_fits(players, profiles, base.enemies[j], row.enemies[j], j));
    }
}

proof fn lemma_variants_fit(
    players: Seq<PlayerRow>,
    profiles: Seq<ProfileView>,
    base: LobbyView,
    row: LobbyView,
    s: int,
    n: int,
)
    requires
        fits(players, profiles, base, row),
        profiles.len() <= usize::MAX,
        0 <= s < JOIN_COUNT,
        0 <= n <= candidates(players, profiles, row, s).len(),
    ensures
        forall|a: int|
            0 <= a < variants(row, s, candidates(players, profiles, row, s), n).len() ==> fits(
                players,
                profiles,
                base,
                #[trigger] variants(row, s, candidates(players, profiles, row, s), n)[a],
            ),
    decreases n,
{
    if n > 0 {
        lemma_variants_fit(players, profiles, base, row, s, n - 1);
        lemma_with_profile_fits(players, profiles, base, row, s, n - 1);
        let attach = candidates(players, profiles, row, s);
        let before = variants(row, s, attach, n - 1);
        let all = variants(row, s, attach, n);
        assert forall|a: int| 0 <= a < all.len() implies fits(
            players,
            profiles,
            base,
            #[trigger] all[a],
        ) by {
            if a < before.len() {
                assert(all[a] == before[a]);
            }
        }
    }
}

proof fn lemma_joined_fit(
    players: Seq<PlayerRow>,
    profiles: Seq<ProfileView>,
    base: LobbyView,
    rows: Seq<LobbyView>,
    s: int,
    n: int,
)
    requires
        forall|i: int| 0 <= i < rows.len() ==> fits(players, profiles, base, #[trigger] rows[i]),
        profiles.len() <= usize::MAX,
        0 <= s < JOIN_COUNT,
        0 <= n <= rows.len(),
    ensures
        forall|i: int|
            0 <= i < joined_slot(players, profiles, rows, s, n).len() ==> fits(
                players,
                profiles,
                base,
                #[trigger] joined_slot(players, profiles, rows, s, n)[i],
            ),
    decreases n,
{
    if n > 0 {
        lemma_joined_fit(players, profiles, base, rows, s, n - 1);
        let attach = candidates(players, profiles, rows[n - 1], s);
        lemma_variants_fit(players, profiles, base, rows[n - 1], s, attach.len() as int);
        let before = joined_slot(players, profiles, rows, s, n - 1);
        let extra = variants(rows[n - 1], s, attach, attach.len() as int);
        let all = joined_slot(players, profiles, rows, s, n);
        assert forall|i: int| 0 <= i < all.len() implies fits(
            players,
            profiles,
            base,
            #[trigger] all[i],
        ) by {
            if i < before.len() {
                assert(all[i] == before[i]);
            } else {
                assert(all[i] == extra[i - before.len()]);
            }
        }
    }
}

proof fn lemma_attached_fit(
    players: Seq<PlayerRow>,
    profiles: Seq<ProfileView>,
    base: LobbyView,
    s: int,
)
    requires
        fits(players, profiles, base, base),
        profiles.len() <= usize::MAX,
        0 <= s <= JOIN_COUNT,
    ensures
        forall|i: int|
            0 <= i < attached(players, profiles, base, s).len() ==> fits(
                players,
                profiles,
                base,
                #[trigger] attached(players, profiles, base, s)[i],
            ),
    decreases s,
{
    if s > 0 {
        lemma_attached_fit(players, profiles, base, s - 1);
        let before = attached(players, profiles, base, s - 1);
        lemma_joined_fit(players, profiles, base, before, s - 1, before.len() as int);
    }
}

/// In every row of the lobby table the two sides are apart, as long as no player is on two
/// teams of one match.
pub proof fn lemma_lobby_rows_differ(
    players: Seq<PlayerRow>,
    teams: Seq<TeamRow>,
    profiles: Option<Seq<ProfileView>>,
    n: int,
)
    requires
        sides_apart(players),
        players.len() <= usize::MAX,
        profiles is Some ==> profiles->0.len() <= usize::MAX,
        0 <= n <= teams.len(),
    ensures
        forall|i: int|
            0 <= i < lobbies(players, teams, profiles, n).len() ==> sides_differ(
                players,
                profiles,
                #[trigger] lobbies(players, teams, profiles, n)[i],
            ),
    decreases n,
{
    if n > 0 {
        lemma_lobby_rows_differ(players, teams, profiles, n - 1);
        let before = lobbies(players, teams, profiles, n - 1);
        let all = lobbies(players, teams, profiles, n);
        let base = lobby_of(players, teams, n - 1);
        let extra = lobby_rows(players, teams, profiles, n - 1);
        let match_id = teams[n - 1].match_id@;
        let team_id = teams[n - 1].team_id as int;
        assert forall|k: int| 0 <= k < ROLE_COUNT implies {
            let ally = #[trigger] base.allies[k];
            let enemy = base.enemies[k];
            &&& ally.profile is None
            &&& enemy.profile is None
            &&& ally.player is Some && enemy.player is Some ==> players[ally.player->0 as int].puuid@
                != players[enemy.player->0 as int].puuid@
        } by {
            lemma_lobby_sides_differ(players, match_id, team_id, k);
        }
        if profiles is Some {
            let table = profiles->0;
            assert(fits(players, table, base, base));
            lemma_attached_fit(players, table, base, JOIN_COUNT as int);
        }
        assert forall|i: int| 0 <= i < extra.len() implies sides_differ(
            players,
            profiles,
            #[trigger] extra[i],
        ) by {
            let row = extra[i];
            if profiles is Some {
                let table = profiles->0;
                assert(fits(players, table, base, row));
                assert forall|k: int| 0 <= k < ROLE_COUNT implies {
                    let ally = #[trigger] row.allies[k];
                    let enemy = row.enemies[k];
                    &&& ally.player is Some && enemy.player is Some ==> players[ally.player->0 as int].puuid@
                        != players[enemy.player->0 as int].puuid@
                    &&& ally.profile is Some && enemy.profile is Some
                        ==> table[ally.profile->0 as int].puuid != table[enemy.profile->0 as int].puuid
                } by {
                    assert(slot_fits(players, table, base.allies[k], row.allies[k], k));
                    assert(slot_fits(players, table, base.enemies[k], row.enemies[k], k));
                }
            } else {
                assert(row == base);
            }
        }
        assert forall|i: int| 0 <= i < all.len() implies sides_differ(
            players,
            profiles,
            #[trigger] all[i],
        ) by {
            if in_lobby(players, teams, n - 1) {
                if i < before.len() {
                    assert(all[i] == before[i]);
                } else {
                    assert(all[i] == extra[i - before.len()]);
                }
            }
        }
    }
}

/// With no more than one profile for each player and role, a join attaches to a lobby row
/// the profile of its player or nothing, and leaves it one row.
pub proof fn lemma_single_profile_single_row(
    players: Seq<PlayerRow>,
    profiles: Seq<ProfileView>,
    row: LobbyView,
    s: int,
)
    requires
        forall|i: int, j: int|
            0 <= i < j < profiles.len() ==> !((#[trigger] profiles[i]).puuid == (
            #[trigger] profiles[j]).puuid && profiles[i].role == profiles[j].role),
        profiles.len() <= usize::MAX,
    ensures
        candidates(players, profiles, row, s).len() == 1,
{
    if slot_at(row, s).player is Some {
        let i = slot_at(row, s).player->0;
        lemma_matching_single(
            profiles,
            players[i as int].puuid@,
            role_at(s / 2),
            profiles.len() as int,
        );
    }
}

proof fn lemma_matching_single(profiles: Seq<ProfileView>, puuid: Seq<char>, role: Seq<char>, n: int)
    requires
        forall|i: int, j: int|
            0 <= i < j < profiles.len() ==> !((#[trigger] profiles[i]).puuid == (
            #[trigger] profiles[j]).puuid && profiles[i].role == profiles[j].role),
        0 <= n <= profiles.len(),
        profiles.len() <= usize::MAX,
    ensures
        matching(profiles, puuid, role, n).len() <= 1,
    decreases n,
{
    if n > 0 {
        lemma_matching_single(profiles, puuid, role, n - 1);
        lemma_matching_fits(profiles, puuid, role, n - 1);
        let before = matching(profiles, puuid, role, n - 1);
        if before.len() > 0 && profiles[n - 1].puuid == puuid && profiles[n - 1].role == role {
            let found = before[0];
            assert(profiles[found->0 as int].puuid == profiles[n - 1].puuid);
        }
    }
}

} // verus!
