//! Rows of the player table and of the team table, read from match documents.

use crate::error::RiotError;
use crate::json::{parsed, Double, Json};
use crate::text::{eq_ignore_ascii_case, opt_view};
use vstd::prelude::*;

verus! {

/// The queue of ranked solo games.
pub const RANKED_SOLO_QUEUE: i32 = 420;

/// The team id of the blue side.
pub const BLUE_TEAM: i64 = 100;

/// One participant of one match.
#[derive(Clone, Debug)]
pub struct PlayerRow {
    pub match_id: String,
    pub game_creation: i64,
    pub game_duration: i32,
    pub queue_id: i32,
    pub game_version: String,
    pub team_id: i32,
    pub puuid: String,
    pub champion_id: i32,
    pub champion_name: String,
    pub role: String,
    pub win: bool,
    pub kills: i32,
    pub deaths: i32,
    pub assists: i32,
    pub champ_level: i32,
    pub gold_earned: i32,
    pub gold_spent: i32,
    pub total_minions_killed: i32,
    pub neutral_minions_killed: i32,
    pub total_cs: i32,
    pub damage_to_champions: i32,
    pub damage_to_objectives: i32,
    pub damage_to_turrets: i32,
    pub turret_takedowns: i32,
    pub inhibitor_takedowns: i32,
    pub vision_score: i32,
    pub wards_placed: i32,
    pub wards_killed: i32,
    pub control_wards_placed: i32,
    pub damage_per_min: Option<Double>,
    pub gold_per_min: Option<Double>,
    pub team_damage_percentage: Option<Double>,
    pub kill_participation: Option<Double>,
    pub kda: Option<Double>,
    pub vision_score_per_min: Option<Double>,
    pub lane_minions_first10: Option<Double>,
    pub jungle_cs_before10: Option<Double>,
}

/// Why a document yields no rows.
#[derive(Clone, Debug, PartialEq, Eq)]
pub enum Skip {
    /// The text is not JSON; the parser's message.
    InvalidJson(String),
    MissingMetadata,
    MissingInfo,
    MissingParticipants,
    MissingTeams,
    /// Neither the document nor the file's name gives a match id.
    MissingMatchId,
}

/// The integer under `key`, zero when there is none.
pub open spec fn int_or_zero(v: Json, key: Seq<char>) -> i64 {
    match v.int_at(key) {
        Some(n) => n,
        None => 0,
    }
}

/// The low 32 bits of `v`, read as a signed number.
pub open spec fn wrapped(v: i64) -> i32 {
    v as i32
}

/// `v` where an `i32` holds it, zero elsewhere.
pub open spec fn narrowed(v: i64) -> i32 {
    if i32::MIN <= v <= i32::MAX {
        v as i32
    } else {
        0
    }
}

/// The nearest `i32` to `v`.
pub open spec fn clamped(v: int) -> i32 {
    if v < i32::MIN {
        i32::MIN
    } else if v > i32::MAX {
        i32::MAX
    } else {
        v as i32
    }
}

/// The nearest `i64` to `v`.
pub open spec fn clamped_wide(v: int) -> i64 {
    if v < i64::MIN {
        i64::MIN
    } else if v > i64::MAX {
        i64::MAX
    } else {
        v as i64
    }
}

/// The counter under `key`: zero when it is missing or no `i32` holds it.
pub open spec fn counter(v: Json, key: Seq<char>) -> i32 {
    narrowed(int_or_zero(v, key))
}

/// The string under `key`, empty when there is none.
pub open spec fn text_or_empty(v: Json, key: Seq<char>) -> Seq<char> {
    match v.str_at(key) {
        Some(s) => s,
        None => Seq::<char>::empty(),
    }
}

/// The role of a participant: its team position unless that is missing or empty, then its
/// individual position, then the empty string.
pub open spec fn role_hint(participant: Json) -> Seq<char> {
    match participant.str_at("teamPosition"@) {
        Some(s) if s.len() > 0 => s,
        _ => text_or_empty(participant, "individualPosition"@),
    }
}

/// The double of the number under `key` in the participant's challenges record.
pub open spec fn challenge(participant: Json, key: Seq<char>) -> Option<Double> {
    match participant.field("challenges"@) {
        Some(c) => c.double_at(key),
        None => None,
    }
}

/// The creeps a participant killed, lane and jungle together.
pub open spec fn creep_score(participant: Json) -> int {
    counter(participant, "totalMinionsKilled"@) + counter(participant, "neutralMinionsKilled"@)
}

/// The id of the match: the document's own, else the name of its file.
pub open spec fn match_id_of(metadata: Json, file_stem: Option<Seq<char>>) -> Option<Seq<char>> {
    match metadata.str_at("matchId"@) {
        Some(id) => Some(id),
        None => file_stem,
    }
}

/// Whether `row` is the player-table row of `participant` in the match `match_id` with the
/// game record `info`.
pub open spec fn is_player_row(
    row: PlayerRow,
    match_id: Seq<char>,
    info: Json,
    participant: Json,
) -> bool {
    &&& row.match_id@ == match_id
    &&& row.game_creation == int_or_zero(info, "gameCreation"@)
    &&& row.game_duration == wrapped(int_or_zero(info, "gameDuration"@))
    &&& row.queue_id == wrapped(int_or_zero(info, "queueId"@))
    &&& row.game_version@ == text_or_empty(info, "gameVersion"@)
    &&& row.team_id == wrapped(int_or_zero(participant, "teamId"@))
    &&& row.puuid@ == text_or_empty(participant, "puuid"@)
    &&& row.champion_id == wrapped(int_or_zero(participant, "championId"@))
    &&& row.champion_name@ == text_or_empty(participant, "championName"@)
    &&& row.role@ == role_hint(participant)
    &&& row.win == (participant.bool_at("win"@) == Some(true))
    &&& row.kills == counter(participant, "kills"@)
    &&& row.deaths == counter(participant, "deaths"@)
    &&& row.assists == counter(participant, "assists"@)
    &&& row.champ_level == counter(participant, "champLevel"@)
    &&& row.gold_earned == counter(participant, "goldEarned"@)
    &&& row.gold_spent == counter(participant, "goldSpent"@)
    &&& row.total_minions_killed == counter(participant, "totalMinionsKilled"@)
    &&& row.neutral_minions_killed == counter(participant, "neutralMinionsKilled"@)
    &&& row.total_cs == clamped(creep_score(participant))
    &&& row.damage_to_champions == counter(participant, "totalDamageDealtToChampions"@)
    &&& row.damage_to_objectives == counter(participant, "damageDealtToObjectives"@)
    &&& row.damage_to_turrets == counter(participant, "damageDealtToTurrets"@)
    &&& row.turret_takedowns == counter(participant, "turretTakedowns"@)
    &&& row.inhibitor_takedowns == counter(participant, "inhibitorTakedowns"@)
    &&& row.vision_score == counter(participant, "visionScore"@)
    &&& row.wards_placed == counter(participant, "wardsPlaced"@)
    &&& row.wards_killed == counter(participant, "wardsKilled"@)
    &&& row.control_wards_placed == counter(participant, "visionWardsBoughtInGame"@)
    &&& row.damage_per_min == challenge(participant, "damagePerMinute"@)
    &&& row.gold_per_min == challenge(participant, "goldPerMinute"@)
    &&& row.team_damage_percentage == challenge(participant, "teamDamagePercentage"@)
    &&& row.kill_participation == challenge(participant, "killParticipation"@)
    &&& row.kda == challenge(participant, "kda"@)
    &&& row.vision_score_per_min == challenge(participant, "visionScorePerMinute"@)
    &&& row.lane_minions_first10 == challenge(participant, "laneMinionsFirst10Minutes"@)
    &&& row.jungle_cs_before10 == challenge(participant, "jungleCsBefore10Minutes"@)
}

/// What a document must hold to yield player rows, or the reason why it yields none.
pub open spec fn player_source(doc: Json, file_stem: Option<Seq<char>>) -> Result<
    (Seq<char>, Json, Seq<Json>),
    Skip,
> {
    match (doc.field("metadata"@), doc.field("info"@)) {
        (None, _) => Err(Skip::MissingMetadata),
        (Some(_), None) => Err(Skip::MissingInfo),
        (Some(metadata), Some(info)) => match (
            info.items_at("participants"@),
            match_id_of(metadata, file_stem),
        ) {
            (None, _) => Err(Skip::MissingParticipants),
            (Some(_), None) => Err(Skip::MissingMatchId),
            (Some(participants), Some(id)) => Ok((id, info, participants)),
        },
    }
}

/// Cuts a number down to its low 32 bits.
pub fn wrap_i32(v: i64) -> (out: i32)
    ensures
        out == wrapped(v),
{
    #[verifier::truncate]
    (v as i32)
}

/// Narrows a number to 32 bits, or to zero where it does not fit.
pub fn narrow_i32(v: i64) -> (out: i32)
    ensures
        out == narrowed(v),
{
    if v >= i32::MIN as i64 && v <= i32::MAX as i64 {
        v as i32
    } else {
        0
    }
}

/// Brings a number into the range of 32 bits.
pub fn clamp_i32(v: i128) -> (out: i32)
    ensures
        out == clamped(v as int),
{
    if v < i32::MIN as i128 {
        i32::MIN
    } else if v > i32::MAX as i128 {
        i32::MAX
    } else {
        v as i32
    }
}

/// Brings a number into the range of 64 bits.
pub fn clamp_i64(v: i128) -> (out: i64)
    ensures
        out == clamped_wide(v as int),
{
    if v < i64::MIN as i128 {
        i64::MIN
    } else if v > i64::MAX as i128 {
        i64::MAX
    } else {
        v as i64
    }
}

/// Reads the integer under `key`, zero when there is none.
pub fn get_int_or_zero(v: &Json, key: &str) -> (out: i64)
    ensures
        out == int_or_zero(*v, key@),
{
    match v.get_i64(key) {
        Some(n) => n,
        None => 0,
    }
}

/// Reads a counter of a participant or a team.
pub fn as_i32(v: &Json, key: &str) -> (out: i32)
    ensures
        out == counter(*v, key@),
{
    narrow_i32(get_int_or_zero(v, key))
}

/// Reads the string under `key`, empty when there is none.
pub fn get_text_or_empty(v: &Json, key: &str) -> (out: String)
    ensures
        out@ == text_or_empty(*v, key@),
{
    match v.get_str(key) {
        Some(s) => s.to_owned(),
        None => String::new(),
    }
}

/// Reads the role of a participant.
pub fn role_of(participant: &Json) -> (out: String)
    ensures
        out@ == role_hint(*participant),
{
    match participant.get_str("teamPosition") {
        Some(s) => {
            if !s.is_empty() {
                return s.to_owned();
            }
        },
        None => {},
    }
    get_text_or_empty(participant, "individualPosition")
}

/// Reads one of the per-minute figures that the upstream record carries for a participant.
pub fn as_f64(participant: &Json, key: &str) -> (out: Option<Double>)
    ensures
        out == challenge(*participant, key@),
{
    match participant.get("challenges") {
        Some(c) => c.get_double(key),
        None => None,
    }
}

fn player_row(match_id: &str, info: &Json, participant: &Json) -> (out: PlayerRow)
    ensures
        is_player_row(out, match_id@, *info, *participant),
{
    let total_minions_killed: i32 = as_i32(participant, "totalMinionsKilled");
    let neutral_minions_killed: i32 = as_i32(participant, "neutralMinionsKilled");
    PlayerRow {
        match_id: match_id.to_owned(),
        game_creation: get_int_or_zero(info, "gameCreation"),
        game_duration: wrap_i32(get_int_or_zero(info, "gameDuration")),
        queue_id: wrap_i32(get_int_or_zero(info, "queueId")),
        game_version: get_text_or_empty(info, "gameVersion"),
        team_id: wrap_i32(get_int_or_zero(participant, "teamId")),
        puuid: get_text_or_empty(participant, "puuid"),
        champion_id: wrap_i32(get_int_or_zero(participant, "championId")),
        champion_name: get_text_or_empty(participant, "championName"),
        role: role_of(participant),
        win: match participant.get_bool("win") {
            Some(w) => w,
            None => false,
        },
        kills: as_i32(participant, "kills"),
        deaths: as_i32(participant, "deaths"),
        assists: as_i32(participant, "assists"),
        champ_level: as_i32(participant, "champLevel"),
        gold_earned: as_i32(participant, "goldEarned"),
        gold_spent: as_i32(participant, "goldSpent"),
        total_minions_killed,
        neutral_minions_killed,
        total_cs: clamp_i32(total_minions_killed as i128 + neutral_minions_killed as i128),
        damage_to_champions: as_i32(participant, "totalDamageDealtToChampions"),
        damage_to_objectives: as_i32(participant, "damageDealtToObjectives"),
        damage_to_turrets: as_i32(participant, "damageDealtToTurrets"),
        turret_takedowns: as_i32(participant, "turretTakedowns"),
        inhibitor_takedowns: as_i32(participant, "inhibitorTakedowns"),
        vision_score: as_i32(participant, "visionScore"),
        wards_placed: as_i32(participant, "wardsPlaced"),
        wards_killed: as_i32(participant, "wardsKilled"),
        control_wards_placed: as_i32(participant, "visionWardsBoughtInGame"),
        damage_per_min: as_f64(participant, "damagePerMinute"),
        gold_per_min: as_f64(participant, "goldPerMinute"),
        team_damage_percentage: as_f64(participant, "teamDamagePercentage"),
        kill_participation: as_f64(participant, "killParticipation"),
        kda: as_f64(participant, "kda"),
        vision_score_per_min: as_f64(participant, "visionScorePerMinute"),
        lane_minions_first10: as_f64(participant, "laneMinionsFirst10Minutes"),
        jungle_cs_before10: as_f64(participant, "jungleCsBefore10Minutes"),
    }
}

/// The player-table rows of one document, one for each participant and in their order.
pub fn player_rows(doc: &Json, file_stem: Option<&str>) -> (out: Result<Vec<PlayerRow>, Skip>)
    ensures
        match player_source(
            *doc,
            match file_stem {
                Some(s) => Some(s@),
                None => None,
            },
        ) {
            Err(skip) => out == Err::<Vec<PlayerRow>, Skip>(skip),
            Ok((match_id, info, participants)) => {
                &&& out is Ok
                &&& out->Ok_0@.len() == participants.len()
                &&& forall|i: int|
                    0 <= i < participants.len() ==> is_player_row(
                        #[trigger] out->Ok_0@[i],
                        match_id,
                        info,
                        participants[i],
                    )
            },
        },
{
    let Some(metadata) = doc.get("metadata") else {
        return Err(Skip::MissingMetadata);
    };
    let Some(info) = doc.get("info") else {
        return Err(Skip::MissingInfo);
    };
    let Some(participants) = info.get_array("participants") else {
        return Err(Skip::MissingParticipants);
    };
    let match_id: String = match metadata.get_str("matchId") {
        Some(id) => id.to_owned(),
        None => match file_stem {
            Some(stem) => stem.to_owned(),
            None => {
                return Err(Skip::MissingMatchId);
            },
        },
    };
    let mut rows: Vec<PlayerRow> = Vec::new();
    let mut i: usize = 0;
    while i < participants.len()
        invariant
            i <= participants.len(),
            rows@.len() == i,
            forall|j: int|
                0 <= j < i ==> is_player_row(
                    #[trigger] rows@[j],
                    match_id@,
                    *info,
                    participants@[j],
                ),
        decreases participants.len() - i,
    {
        rows.push(player_row(match_id.as_str(), info, &participants[i]));
        i += 1;
    }
    Ok(rows)
}

/// A total over a game, to be read per minute of its duration: `total / (duration_secs / 60)`.
#[derive(Clone, Copy, Debug, PartialEq, Eq, Structural)]
pub struct Rate {
    pub total: i64,
    /// Always positive.
    pub duration_secs: i32,
}

/// One team of one match.
#[derive(Clone, Debug)]
pub struct TeamRow {
    pub match_id: String,
    pub platform_id: Option<String>,
    pub queue_id: i32,
    pub game_version: String,
    pub game_creation: i64,
    pub game_duration: i32,
    pub team_id: i16,
    pub team_side: String,
    pub team_win: i8,
    pub top_champion_id: Option<i32>,
    pub jungle_champion_id: Option<i32>,
    pub middle_champion_id: Option<i32>,
    pub bottom_champion_id: Option<i32>,
    pub utility_champion_id: Option<i32>,
    pub team_kills: i32,
    pub team_deaths: i32,
    pub team_assists: i32,
    pub team_gold_earned: i64,
    pub team_damage_to_champions: i64,
    pub team_vision_score: i64,
    pub team_cs_total: i32,
    pub team_gold_per_min: Option<Rate>,
    pub team_damage_per_min: Option<Rate>,
    pub team_vision_score_per_min: Option<Rate>,
    pub team_cs_per_min: Option<Rate>,
    pub team_towers_destroyed: i32,
    pub team_inhibitors_destroyed: i32,
    pub team_dragons: i32,
    pub team_barons: i32,
    pub team_heralds: i32,
    pub team_plates: Option<i32>,
    pub first_blood: Option<bool>,
    pub first_tower: Option<bool>,
    pub first_inhibitor: Option<bool>,
    pub first_baron: Option<bool>,
    pub first_dragon: Option<bool>,
    pub first_herald: Option<bool>,
}

/// The objectives a team took.
#[derive(Clone, Copy, Debug, PartialEq, Eq, Structural)]
pub struct Objectives {
    pub towers: i32,
    pub inhibitors: i32,
    pub dragons: i32,
    pub barons: i32,
    pub heralds: i32,
    pub plates: Option<i32>,
    pub first_blood: Option<bool>,
    pub first_tower: Option<bool>,
    pub first_inhibitor: Option<bool>,
    pub first_baron: Option<bool>,
    pub first_dragon: Option<bool>,
    pub first_herald: Option<bool>,
}

/// The per-minute reading of `total` over a game of `duration_secs` seconds; there is none
/// for a game without duration.
pub open spec fn rate(total: i64, duration_secs: i32) -> Option<Rate> {
    if duration_secs <= 0 {
        None
    } else {
        Some(Rate { total, duration_secs })
    }
}

/// The side a team plays on.
pub open spec fn side(team_id: i64) -> Seq<char> {
    if team_id == BLUE_TEAM {
        "blue"@
    } else {
        "red"@
    }
}

/// Whether a participant belongs to the team `team_id`.
pub open spec fn plays_for(participant: Json, team_id: i64) -> bool {
    participant.int_at("teamId"@) == Some(team_id)
}

/// The sum of the counter `key` over the members of the team `team_id`.
pub open spec fn team_sum(participants: Seq<Json>, team_id: i64, key: Seq<char>) -> int
    decreases participants.len(),
{
    if participants.len() == 0 {
        0
    } else {
        let rest = team_sum(participants.drop_last(), team_id, key);
        if plays_for(participants.last(), team_id) {
            rest + counter(participants.last(), key)
        } else {
            rest
        }
    }
}

/// The creeps killed by the members of the team `team_id`, lane and jungle together.
pub open spec fn team_creeps(participants: Seq<Json>, team_id: i64) -> int
    decreases participants.len(),
{
    if participants.len() == 0 {
        0
    } else {
        let rest = team_creeps(participants.drop_last(), team_id);
        if plays_for(participants.last(), team_id) {
            rest + creep_score(participants.last())
        } else {
            rest
        }
    }
}

/// Whether a participant's team position is `role`, whatever the case of its letters.
pub open spec fn holds_position(participant: Json, role: Seq<char>) -> bool {
    match participant.str_at("teamPosition"@) {
        Some(s) => crate::text::same_ignoring_ascii_case(s, role),
        None => false,
    }
}

/// The champion of the first member of the team `team_id` in the position `role`.
pub open spec fn role_champion(participants: Seq<Json>, team_id: i64, role: Seq<char>) -> Option<
    i32,
>
    decreases participants.len(),
{
    if participants.len() == 0 {
        None
    } else if plays_for(participants[0], team_id) && holds_position(participants[0], role) {
        match participants[0].int_at("championId"@) {
            Some(id) => Some(wrapped(id)),
            None => None,
        }
    } else {
        role_champion(participants.drop_first(), team_id, role)
    }
}

/// The record of the objective `name` of a team.
pub open spec fn objective(team: Json, name: Seq<char>) -> Option<Json> {
    match team.field("objectives"@) {
        Some(o) => o.field(name),
        None => None,
    }
}

/// How often a team took the objective `name`.
pub open spec fn objective_count(team: Json, name: Seq<char>) -> i32 {
    match objective(team, name) {
        Some(o) => wrapped(int_or_zero(o, "kills"@)),
        None => 0,
    }
}

/// Whether a team took the objective `name` first.
pub open spec fn objective_lead(team: Json, name: Seq<char>) -> Option<bool> {
    match objective(team, name) {
        Some(o) => o.bool_at("first"@),
        None => None,
    }
}

/// The tower plates a team took.
pub open spec fn plates(team: Json) -> Option<i32> {
    match objective(team, "tower"@) {
        Some(o) => match o.int_at("plates"@) {
            Some(n) => Some(wrapped(n)),
            None => None,
        },
        None => None,
    }
}

/// The objectives of a team record.
pub open spec fn objectives_of(team: Json) -> Objectives {
    Objectives {
        towers: objective_count(team, "tower"@),
        inhibitors: objective_count(team, "inhibitor"@),
        dragons: objective_count(team, "dragon"@),
        barons: objective_count(team, "baron"@),
        heralds: objective_count(team, "riftHerald"@),
        plates: plates(team),
        first_blood: objective_lead(team, "champion"@),
        first_tower: objective_lead(team, "tower"@),
        first_inhibitor: objective_lead(team, "inhibitor"@),
        first_baron: objective_lead(team, "baron"@),
        first_dragon: objective_lead(team, "dragon"@),
        first_herald: objective_lead(team, "riftHerald"@),
    }
}

/// The platform of a match: the one its metadata names, else the one its game record names.
pub open spec fn platform_of(metadata: Json, info: Json) -> Option<Seq<char>> {
    match metadata.str_at("platformId"@) {
        Some(s) => Some(s),
        None => info.str_at("platformId"@),
    }
}

/// The low 16 bits of `v`, read as a signed number.
pub open spec fn wrapped_short(v: i64) -> i16 {
    v as i16
}

/// Whether `row` is the team-table row of the team record `team`, which has the id `team_id`,
/// in a match with these participants. The row stores the id cut to 16 bits, and its side is
/// the side of the id it stores; its totals run over the participants that name the id in
/// full.
pub open spec fn is_team_row(
    row: TeamRow,
    match_id: Seq<char>,
    platform_id: Option<Seq<char>>,
    info: Json,
    participants: Seq<Json>,
    team: Json,
    team_id: i64,
) -> bool {
    let duration = wrapped(int_or_zero(info, "gameDuration"@));
    let goals = objectives_of(team);
    &&& row.match_id@ == match_id
    &&& opt_view(row.platform_id) == platform_id
    &&& row.queue_id == wrapped(int_or_zero(info, "queueId"@))
    &&& row.game_version@ == text_or_empty(info, "gameVersion"@)
    &&& row.game_creation == int_or_zero(info, "gameCreation"@)
    &&& row.game_duration == duration
    &&& row.team_id == wrapped_short(team_id)
    &&& row.team_side@ == side(row.team_id as i64)
    &&& row.team_win == if team.bool_at("win"@) == Some(true) {
        1i8
    } else {
        0i8
    }
    &&& row.top_champion_id == role_champion(participants, team_id, "TOP"@)
    &&& row.jungle_champion_id == role_champion(participants, team_id, "JUNGLE"@)
    &&& row.middle_champion_id == role_champion(participants, team_id, "MIDDLE"@)
    &&& row.bottom_champion_id == role_champion(participants, team_id, "BOTTOM"@)
    &&& row.utility_champion_id == role_champion(participants, team_id, "UTILITY"@)
    &&& row.team_kills == clamped(team_sum(participants, team_id, "kills"@))
    &&& row.team_deaths == clamped(team_sum(participants, team_id, "deaths"@))
    &&& row.team_assists == clamped(team_sum(participants, team_id, "assists"@))
    &&& row.team_gold_earned == clamped_wide(team_sum(participants, team_id, "goldEarned"@))
    &&& row.team_damage_to_champions == clamped_wide(
        team_sum(participants, team_id, "totalDamageDealtToChampions"@),
    )
    &&& row.team_vision_score == clamped_wide(team_sum(participants, team_id, "visionScore"@))
    &&& row.team_cs_total == clamped(team_creeps(participants, team_id))
    &&& row.team_gold_per_min == rate(row.team_gold_earned, duration)
    &&& row.team_damage_per_min == rate(row.team_damage_to_champions, duration)
    &&& row.team_vision_score_per_min == rate(row.team_vision_score, duration)
    &&& row.team_cs_per_min == rate(row.team_cs_total as i64, duration)
    &&& row.team_towers_destroyed == goals.towers
    &&& row.team_inhibitors_destroyed == goals.inhibitors
    &&& row.team_dragons == goals.dragons
    &&& row.team_barons == goals.barons
    &&& row.team_heralds == goals.heralds
    &&& row.team_plates == goals.plates
    &&& row.first_blood == goals.first_blood
    &&& row.first_tower == goals.first_tower
    &&& row.first_inhibitor == goals.first_inhibitor
    &&& row.first_baron == goals.first_baron
    &&& row.first_dragon == goals.first_dragon
    &&& row.first_herald == goals.first_herald
}

/// The team records that carry a team id, in their order.
pub open spec fn teams_with_id(teams: Seq<Json>) -> Seq<Json>
    decreases teams.len(),
{
    if teams.len() == 0 {
        Seq::<Json>::empty()
    } else if teams.last().int_at("teamId"@) is Some {
        teams_with_id(teams.drop_last()).push(teams.last())
    } else {
        teams_with_id(teams.drop_last())
    }
}

/// What a document must hold to yield team rows, or the reason why it yields none.
pub open spec fn team_source(doc: Json, file_stem: Option<Seq<char>>) -> Result<
    (Seq<char>, Json, Json, Seq<Json>, Seq<Json>),
    Skip,
> {
    match (doc.field("metadata"@), doc.field("info"@)) {
        (None, _) => Err(Skip::MissingMetadata),
        (Some(_), None) => Err(Skip::MissingInfo),
        (Some(metadata), Some(info)) => match (
            info.items_at("participants"@),
            info.items_at("teams"@),
            match_id_of(metadata, file_stem),
        ) {
            (None, _, _) => Err(Skip::MissingParticipants),
            (Some(_), None, _) => Err(Skip::MissingTeams),
            (Some(_), Some(_), None) => Err(Skip::MissingMatchId),
            (Some(participants), Some(teams), Some(id)) => Ok(
                (id, metadata, info, participants, teams),
            ),
        },
    }
}

/// Reads a total per minute of game; `None` for a game without duration.
pub fn per_min(total: i64, duration_secs: i32) -> (out: Option<Rate>)
    ensures
        out == rate(total, duration_secs),
        out is None <==> duration_secs <= 0,
{
    if duration_secs <= 0 {
        return None;
    }
    Some(Rate { total, duration_secs })
}

/// Names the side of a team: blue for the team 100, red for any other.
pub fn team_side(team_id: i64) -> (out: String)
    ensures
        out@ == side(team_id),
        out@ == "blue"@ <==> team_id == BLUE_TEAM,
{
    proof {
        reveal_strlit("blue");
        reveal_strlit("red");
    }
    if team_id == BLUE_TEAM {
        "blue".to_owned()
    } else {
        "red".to_owned()
    }
}

fn is_member(participant: &Json, team_id: i64) -> (out: bool)
    ensures
        out == plays_for(*participant, team_id),
{
    match participant.get_i64("teamId") {
        Some(id) => id == team_id,
        None => false,
    }
}

proof fn lemma_team_sum_bounds(participants: Seq<Json>, team_id: i64, key: Seq<char>)
    ensures
        -0x8000_0000 * participants.len() <= team_sum(participants, team_id, key) <= 0x8000_0000
            * participants.len(),
    decreases participants.len(),
{
    if participants.len() > 0 {
        lemma_team_sum_bounds(participants.drop_last(), team_id, key);
    }
}

proof fn lemma_team_creeps_bounds(participants: Seq<Json>, team_id: i64)
    ensures
        -0x1_0000_0000 * participants.len() <= team_creeps(participants, team_id) <= 0x1_0000_0000
            * participants.len(),
    decreases participants.len(),
{
    if participants.len() > 0 {
        lemma_team_creeps_bounds(participants.drop_last(), team_id);
    }
}

/// Adds the counter `key` up over the members of a team.
pub fn sum_counter(participants: &Vec<Json>, team_id: i64, key: &str) -> (out: i128)
    ensures
        out == team_sum(participants@, team_id, key@),
{
    let mut total: i128 = 0;
    let mut i: usize = 0;
    assert(participants@.take(0) =~= Seq::<Json>::empty());
    while i < participants.len()
        invariant
            i <= participants.len(),
            total == team_sum(participants@.take(i as int), team_id, key@),
        decreases participants.len() - i,
    {
        proof {
            lemma_team_sum_bounds(participants@.take(i as int), team_id, key@);
            assert(participants@.take(i as int + 1).drop_last() =~= participants@.take(i as int));
        }
        if is_member(&participants[i], team_id) {
            total = total + as_i32(&participants[i], key) as i128;
        }
        i += 1;
    }
    assert(participants@.take(participants@.len() as int) =~= participants@);
    total
}

/// Adds the creep scores up over the members of a team.
pub fn sum_creeps(participants: &Vec<Json>, team_id: i64) -> (out: i128)
    ensures
        out == team_creeps(participants@, team_id),
{
    let mut total: i128 = 0;
    let mut i: usize = 0;
    assert(participants@.take(0) =~= Seq::<Json>::empty());
    while i < participants.len()
        invariant
            i <= participants.len(),
            total == team_creeps(participants@.take(i as int), team_id),
        decreases participants.len() - i,
    {
        proof {
            lemma_team_creeps_bounds(participants@.take(i as int), team_id);
            assert(participants@.take(i as int + 1).drop_last() =~= participants@.take(i as int));
        }
        if is_member(&participants[i], team_id) {
            total = total + as_i32(&participants[i], "totalMinionsKilled") as i128 + as_i32(
                &participants[i],
                "neutralMinionsKilled",
            ) as i128;
        }
        i += 1;
    }
    assert(participants@.take(participants@.len() as int) =~= participants@);
    total
}

/// Finds the champion that a team fields in a position.
pub fn find_role_champion(participants: &Vec<Json>, team_id: i64, role: &str) -> (out: Option<i32>)
    ensures
        out == role_champion(participants@, team_id, role@),
{
    let mut i: usize = 0;
    assert(participants@.skip(0) =~= participants@);
    while i < participants.len()
        invariant
            i <= participants.len(),
            role_champion(participants@, team_id, role@) == role_champion(
                participants@.skip(i as int),
                team_id,
                role@,
            ),
        decreases participants.len() - i,
    {
        let p = &participants[i];
        assert(participants@.skip(i as int)[0] == participants@[i as int]);
        let in_position: bool = match p.get_str("teamPosition") {
            Some(s) => eq_ignore_ascii_case(s, role),
            None => false,
        };
        if is_member(p, team_id) && in_position {
            return match p.get_i64("championId") {
                Some(id) => Some(wrap_i32(id)),
                None => None,
            };
        }
        assert(participants@.skip(i as int).drop_first() =~= participants@.skip(i as int + 1));
        i += 1;
    }
    None
}

fn get_objective<'a>(team: &'a Json, name: &str) -> (out: Option<&'a Json>)
    ensures
        out.is_some() == objective(*team, name@).is_some(),
        out.is_some() ==> *out.unwrap() == objective(*team, name@).unwrap(),
{
    match team.get("objectives") {
        Some(o) => o.get(name),
        None => None,
    }
}

/// Reads how often a team took an objective.
pub fn objective_kills(team: &Json, name: &str) -> (out: i32)
    ensures
        out == objective_count(*team, name@),
{
    match get_objective(team, name) {
        Some(o) => wrap_i32(get_int_or_zero(o, "kills")),
        None => 0,
    }
}

/// Reads whether a team took an objective first.
pub fn objective_first(team: &Json, name: &str) -> (out: Option<bool>)
    ensures
        out == objective_lead(*team, name@),
{
    match get_objective(team, name) {
        Some(o) => o.get_bool("first"),
        None => None,
    }
}

/// Reads the objectives of a team record.
pub fn team_objectives(team: &Json) -> (out: Objectives)
    ensures
        out == objectives_of(*team),
{
    let plates: Option<i32> = match get_objective(team, "tower") {
        Some(o) => match o.get_i64("plates") {
            Some(n) => Some(wrap_i32(n)),
            None => None,
        },
        None => None,
    };
    Objectives {
        towers: objective_kills(team, "tower"),
        inhibitors: objective_kills(team, "inhibitor"),
        dragons: objective_kills(team, "dragon"),
        barons: objective_kills(team, "baron"),
        heralds: objective_kills(team, "riftHerald"),
        plates,
        first_blood: objective_first(team, "champion"),
        first_tower: objective_first(team, "tower"),
        first_inhibitor: objective_first(team, "inhibitor"),
        first_baron: objective_first(team, "baron"),
        first_dragon: objective_first(team, "dragon"),
        first_herald: objective_first(team, "riftHerald"),
    }
}

fn clone_opt(s: &Option<String>) -> (out: Option<String>)
    ensures
        opt_view(out) == opt_view(*s),
{
    match s {
        Some(s) => Some(s.clone()),
        None => None,
    }
}

fn team_row(
    match_id: &str,
    platform_id: &Option<String>,
    info: &Json,
    participants: &Vec<Json>,
    team: &Json,
    team_id: i64,
) -> (out: TeamRow)
    ensures
        is_team_row(out, match_id@, opt_view(*platform_id), *info, participants@, *team, team_id),
{
    let game_duration: i32 = wrap_i32(get_int_or_zero(info, "gameDuration"));
    let stored_id: i16 = #[verifier::truncate]
    (team_id as i16);
    let team_gold_earned: i64 = clamp_i64(sum_counter(participants, team_id, "goldEarned"));
    let team_damage_to_champions: i64 = clamp_i64(
        sum_counter(participants, team_id, "totalDamageDealtToChampions"),
    );
    let team_vision_score: i64 = clamp_i64(sum_counter(participants, team_id, "visionScore"));
    let team_cs_total: i32 = clamp_i32(sum_creeps(participants, team_id));
    let goals = team_objectives(team);
    let won: bool = match team.get_bool("win") {
        Some(w) => w,
        None => false,
    };
    TeamRow {
        match_id: match_id.to_owned(),
        platform_id: clone_opt(platform_id),
        queue_id: wrap_i32(get_int_or_zero(info, "queueId")),
        game_version: get_text_or_empty(info, "gameVersion"),
        game_creation: get_int_or_zero(info, "gameCreation"),
        game_duration,
        team_id: stored_id,
        team_side: team_side(stored_id as i64),
        team_win: if won {
            1
        } else {
            0
        },
        top_champion_id: find_role_champion(participants, team_id, "TOP"),
        jungle_champion_id: find_role_champion(participants, team_id, "JUNGLE"),
        middle_champion_id: find_role_champion(participants, team_id, "MIDDLE"),
        bottom_champion_id: find_role_champion(participants, team_id, "BOTTOM"),
        utility_champion_id: find_role_champion(participants, team_id, "UTILITY"),
        team_kills: clamp_i32(sum_counter(participants, team_id, "kills")),
        team_deaths: clamp_i32(sum_counter(participants, team_id, "deaths")),
        team_assists: clamp_i32(sum_counter(participants, team_id, "assists")),
        team_gold_earned,
        team_damage_to_champions,
        team_vision_score,
        team_cs_total,
        team_gold_per_min: per_min(team_gold_earned, game_duration),
        team_damage_per_min: per_min(team_damage_to_champions, game_duration),
        team_vision_score_per_min: per_min(team_vision_score, game_duration),
        team_cs_per_min: per_min(team_cs_total as i64, game_duration),
        team_towers_destroyed: goals.towers,
        team_inhibitors_destroyed: goals.inhibitors,
        team_dragons: goals.dragons,
        team_barons: goals.barons,
        team_heralds: goals.heralds,
        team_plates: goals.plates,
        first_blood: goals.first_blood,
        first_tower: goals.first_tower,
        first_inhibitor: goals.first_inhibitor,
        first_baron: goals.first_baron,
        first_dragon: goals.first_dragon,
        first_herald: goals.first_herald,
    }
}

/// The team-table rows of one document: one for each team record that carries a team id, in
/// their order.
pub fn team_rows(doc: &Json, file_stem: Option<&str>) -> (out: Result<Vec<TeamRow>, Skip>)
    ensures
        match team_source(
            *doc,
            match file_stem {
                Some(s) => Some(s@),
                None => None,
            },
        ) {
            Err(skip) => out == Err::<Vec<TeamRow>, Skip>(skip),
            Ok((match_id, metadata, info, participants, teams)) => {
                &&& out is Ok
                &&& out->Ok_0@.len() == teams_with_id(teams).len()
                &&& forall|i: int|
                    0 <= i < teams_with_id(teams).len() ==> is_team_row(
                        #[trigger] out->Ok_0@[i],
                        match_id,
                        platform_of(metadata, info),
                        info,
                        participants,
                        teams_with_id(teams)[i],
                        teams_with_id(teams)[i].int_at("teamId"@).unwrap(),
                    )
            },
        },
{
    let Some(metadata) = doc.get("metadata") else {
        return Err(Skip::MissingMetadata);
    };
    let Some(info) = doc.get("info") else {
        return Err(Skip::MissingInfo);
    };
    let Some(participants) = info.get_array("participants") else {
        return Err(Skip::MissingParticipants);
    };
    let Some(teams) = info.get_array("teams") else {
        return Err(Skip::MissingTeams);
    };
    let match_id: String = match metadata.get_str("matchId") {
        Some(id) => id.to_owned(),
        None => match file_stem {
            Some(stem) => stem.to_owned(),
            None => {
                return Err(Skip::MissingMatchId);
            },
        },
    };
    let platform_id: Option<String> = match metadata.get_str("platformId") {
        Some(s) => Some(s.to_owned()),
        None => match info.get_str("platformId") {
            Some(s) => Some(s.to_owned()),
            None => None,
        },
    };
    let mut rows: Vec<TeamRow> = Vec::new();
    let mut i: usize = 0;
    assert(teams@.take(0) =~= Seq::<Json>::empty());
    while i < teams.len()
        invariant
            i <= teams.len(),
            opt_view(platform_id) == platform_of(*metadata, *info),
            rows@.len() == teams_with_id(teams@.take(i as int)).len(),
            forall|j: int|
                0 <= j < rows@.len() ==> is_team_row(
                    #[trigger] rows@[j],
                    match_id@,
                    platform_of(*metadata, *info),
                    *info,
                    participants@,
                    teams_with_id(teams@.take(i as int))[j],
                    teams_with_id(teams@.take(i as int))[j].int_at("teamId"@).unwrap(),
                ),
        decreases teams.len() - i,
    {
        assert(teams@.take(i as int + 1).drop_last() =~= teams@.take(i as int));
        match teams[i].get_i64("teamId") {
            Some(team_id) => {
                rows.push(
                    team_row(match_id.as_str(), &platform_id, info, participants, &teams[i], team_id),
                );
            },
            None => {},
        }
        i += 1;
    }
    assert(teams@.take(teams@.len() as int) =~= teams@);
    Ok(rows)
}

/// The level of a table.
#[derive(Clone, Copy, Debug, PartialEq, Eq, Structural)]
pub enum Level {
    /// One row for each participant of each match.
    Player,
    /// One row for each team of each match.
    Team,
}

/// The level that a word names.
pub open spec fn level_named(word: Seq<char>) -> Option<Level> {
    if word == "player"@ {
        Some(Level::Player)
    } else if word == "team"@ {
        Some(Level::Team)
    } else {
        None
    }
}

/// Reads the level of an extraction; only `player` and `team` are levels.
pub fn extract_parquet(level: &str) -> (out: Result<Level, RiotError>)
    ensures
        match level_named(level@) {
            Some(l) => out == Ok::<Level, RiotError>(l),
            None => out is Err && out->Err_0 is UnsupportedLevel
                && out->Err_0->UnsupportedLevel_0@ == level@,
        },
{
    if level.eq("player") {
        Ok(Level::Player)
    } else if level.eq("team") {
        Ok(Level::Team)
    } else {
        Err(RiotError::UnsupportedLevel(level.to_owned()))
    }
}

/// The player-table rows of the document that `text` holds; `file_stem` is the name of its
/// file without the extension.
pub fn extract_player_parquet(text: &str, file_stem: Option<&str>) -> (out: Result<
    Vec<PlayerRow>,
    Skip,
>)
    ensures
        match parsed(text@) {
            None => out is Err && out->Err_0 is InvalidJson,
            Some(doc) => match player_source(
                doc,
                match file_stem {
                    Some(s) => Some(s@),
                    None => None,
                },
            ) {
                Err(skip) => out == Err::<Vec<PlayerRow>, Skip>(skip),
                Ok((match_id, info, participants)) => {
                    &&& out is Ok
                    &&& out->Ok_0@.len() == participants.len()
                    &&& forall|i: int|
                        0 <= i < participants.len() ==> is_player_row(
                            #[trigger] out->Ok_0@[i],
                            match_id,
                            info,
                            participants[i],
                        )
                },
            },
        },
{
    match Json::parse(text) {
        Ok(doc) => player_rows(&doc, file_stem),
        Err(error) => Err(Skip::InvalidJson(error.message)),
    }
}

/// The team-table rows of the document that `text` holds; `file_stem` is the name of its
/// file without the extension.
pub fn extract_team_parquet(text: &str, file_stem: Option<&str>) -> (out: Result<Vec<TeamRow>, Skip>)
    ensures
        match parsed(text@) {
            None => out is Err && out->Err_0 is InvalidJson,
            Some(doc) => match team_source(
                doc,
                match file_stem {
                    Some(s) => Some(s@),
                    None => None,
                },
            ) {
                Err(skip) => out == Err::<Vec<TeamRow>, Skip>(skip),
                Ok((match_id, metadata, info, participants, teams)) => {
                    &&& out is Ok
                    &&& out->Ok_0@.len() == teams_with_id(teams).len()
                    &&& forall|i: int|
                        0 <= i < teams_with_id(teams).len() ==> is_team_row(
                            #[trigger] out->Ok_0@[i],
                            match_id,
                            platform_of(metadata, info),
                            info,
                            participants,
                            teams_with_id(teams)[i],
                            teams_with_id(teams)[i].int_at("teamId"@).unwrap(),
                        )
                },
            },
        },
{
    match Json::parse(text) {
        Ok(doc) => team_rows(&doc, file_stem),
        Err(error) => Err(Skip::InvalidJson(error.message)),
    }
}

} // verus!