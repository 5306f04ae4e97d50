//! The player table and the team table as columns.

use crate::json::Double;
use crate::parquet_extract::{PlayerRow, Rate, TeamRow};
use vstd::prelude::*;

verus! {

/// The player table, column by column. All columns have the same height, and the entries at
/// one index make up one row.
#[derive(Debug)]
pub struct PlayerTable {
    pub match_id: Vec<String>,
    pub game_creation: Vec<i64>,
    pub game_duration: Vec<i32>,
    pub queue_id: Vec<i32>,
    pub game_version: Vec<String>,
    pub team_id: Vec<i32>,
    pub puuid: Vec<String>,
    pub champion_id: Vec<i32>,
    pub champion_name: Vec<String>,
    pub role: Vec<String>,
    pub win: Vec<bool>,
    pub kills: Vec<i32>,
    pub deaths: Vec<i32>,
    pub assists: Vec<i32>,
    pub champ_level: Vec<i32>,
    pub gold_earned: Vec<i32>,
    pub gold_spent: Vec<i32>,
    pub total_minions_killed: Vec<i32>,
    pub neutral_minions_killed: Vec<i32>,
    pub total_cs: Vec<i32>,
    pub damage_to_champions: Vec<i32>,
    pub damage_to_objectives: Vec<i32>,
    pub damage_to_turrets: Vec<i32>,
    pub turret_takedowns: Vec<i32>,
    pub inhibitor_takedowns: Vec<i32>,
    pub vision_score: Vec<i32>,
    pub wards_placed: Vec<i32>,
    pub wards_killed: Vec<i32>,
    pub control_wards_placed: Vec<i32>,
    pub damage_per_min: Vec<Option<Double>>,
    pub gold_per_min: Vec<Option<Double>>,
    pub team_damage_percentage: Vec<Option<Double>>,
    pub kill_participation: Vec<Option<Double>>,
    pub kda: Vec<Option<Double>>,
    pub vision_score_per_min: Vec<Option<Double>>,
    pub lane_minions_first10: Vec<Option<Double>>,
    pub jungle_cs_before10: Vec<Option<Double>>,
}

impl PlayerTable {
    /// The number of rows.
    pub open spec fn height(self) -> nat {
        self.match_id@.len()
    }

    /// Whether all columns have the same height.
    pub open spec fn well_formed(self) -> bool {
        &&& self.game_creation@.len() == self.height()
        &&& self.game_duration@.len() == self.height()
        &&& self.queue_id@.len() == self.height()
        &&& self.game_version@.len() == self.height()
        &&& self.team_id@.len() == self.height()
        &&& self.puuid@.len() == self.height()
        &&& self.champion_id@.len() == self.height()
        &&& self.champion_name@.len() == self.height()
        &&& self.role@.len() == self.height()
        &&& self.win@.len() == self.height()
        &&& self.kills@.len() == self.height()
        &&& self.deaths@.len() == self.height()
        &&& self.assists@.len() == self.height()
        &&& self.champ_level@.len() == self.height()
        &&& self.gold_earned@.len() == self.height()
        &&& self.gold_spent@.len() == self.height()
        &&& self.total_minions_killed@.len() == self.height()
        &&& self.neutral_minions_killed@.len() == self.height()
        &&& self.total_cs@.len() == self.height()
        &&& self.damage_to_champions@.len() == self.height()
        &&& self.damage_to_objectives@.len() == self.height()
        &&& self.damage_to_turrets@.len() == self.height()
        &&& self.turret_takedowns@.len() == self.height()
        &&& self.inhibitor_takedowns@.len() == self.height()
        &&& self.vision_score@.len() == self.height()
        &&& self.wards_placed@.len() == self.height()
        &&& self.wards_killed@.len() == self.height()
        &&& self.control_wards_placed@.len() == self.height()
        &&& self.damage_per_min@.len() == self.height()
        &&& self.gold_per_min@.len() == self.height()
        &&& self.team_damage_percentage@.len() == self.height()
        &&& self.kill_participation@.len() == self.height()
        &&& self.kda@.len() == self.height()
        &&& self.vision_score_per_min@.len() == self.height()
        &&& self.lane_minions_first10@.len() == self.height()
        &&& self.jungle_cs_before10@.len() == self.height()
    }

    /// The row at index `i`.
    pub open spec fn row(self, i: int) -> PlayerRow {
        PlayerRow {
            match_id: self.match_id@[i],
            game_creation: self.game_creation@[i],
            game_duration: self.game_duration@[i],
            queue_id: self.queue_id@[i],
            game_version: self.game_version@[i],
            team_id: self.team_id@[i],
            puuid: self.puuid@[i],
            champion_id: self.champion_id@[i],
            champion_name: self.champion_name@[i],
            role: self.role@[i],
            win: self.win@[i],
            kills: self.kills@[i],
            deaths: self.deaths@[i],
            assists: self.assists@[i],
            champ_level: self.champ_level@[i],
            gold_earned: self.gold_earned@[i],
            gold_spent: self.gold_spent@[i],
            total_minions_killed: self.total_minions_killed@[i],
            neutral_minions_killed: self.neutral_minions_killed@[i],
            total_cs: self.total_cs@[i],
            damage_to_champions: self.damage_to_champions@[i],
            damage_to_objectives: self.damage_to_objectives@[i],
            damage_to_turrets: self.damage_to_turrets@[i],
            turret_takedowns: self.turret_takedowns@[i],
            inhibitor_takedowns: self.inhibitor_takedowns@[i],
            vision_score: self.vision_score@[i],
            wards_placed: self.wards_placed@[i],
            wards_killed: self.wards_killed@[i],
            control_wards_placed: self.control_wards_placed@[i],
            damage_per_min: self.damage_per_min@[i],
            gold_per_min: self.gold_per_min@[i],
            team_damage_percentage: self.team_damage_percentage@[i],
            kill_participation: self.kill_participation@[i],
            kda: self.kda@[i],
            vision_score_per_min: self.vision_score_per_min@[i],
            lane_minions_first10: self.lane_minions_first10@[i],
            jungle_cs_before10: self.jungle_cs_before10@[i],
        }
    }
}

/// The names of the columns of the player table, in the order of the table.
pub fn player_columns() -> (out: Vec<&'static str>)
    ensures
        out@.len() == 37,
        out@[0]@ == "match_id"@,
        out@[1]@ == "game_creation"@,
        out@[2]@ == "game_duration"@,
        out@[3]@ == "queue_id"@,
        out@[4]@ == "game_version"@,
        out@[5]@ == "team_id"@,
        out@[6]@ == "puuid"@,
        out@[7]@ == "champion_id"@,
        out@[8]@ == "champion_name"@,
        out@[9]@ == "role"@,
        out@[10]@ == "win"@,
        out@[11]@ == "kills"@,
        out@[12]@ == "deaths"@,
        out@[13]@ == "assists"@,
        out@[14]@ == "champ_level"@,
        out@[15]@ == "gold_earned"@,
        out@[16]@ == "gold_spent"@,
        out@[17]@ == "total_minions_killed"@,
        out@[18]@ == "neutral_minions_killed"@,
        out@[19]@ == "total_cs"@,
        out@[20]@ == "damage_to_champions"@,
        out@[21]@ == "damage_to_objectives"@,
        out@[22]@ == "damage_to_turrets"@,
        out@[23]@ == "turret_takedowns"@,
        out@[24]@ == "inhibitor_takedowns"@,
        out@[25]@ == "vision_score"@,
        out@[26]@ == "wards_placed"@,
        out@[27]@ == "wards_killed"@,
        out@[28]@ == "control_wards_placed"@,
        out@[29]@ == "damage_per_min"@,
        out@[30]@ == "gold_per_min"@,
        out@[31]@ == "team_damage_percentage"@,
        out@[32]@ == "kill_participation"@,
        out@[33]@ == "kda"@,
        out@[34]@ == "vision_score_per_min"@,
        out@[35]@ == "lane_minions_first10"@,
        out@[36]@ == "jungle_cs_before10"@,
{
    vec![
        "match_id",
        "game_creation",
        "game_duration",
        "queue_id",
        "game_version",
        "team_id",
        "puuid",
        "champion_id",
        "champion_name",
        "role",
        "win",
        "kills",
        "deaths",
        "assists",
        "champ_level",
        "gold_earned",
        "gold_spent",
        "total_minions_killed",
        "neutral_minions_killed",
        "total_cs",
        "damage_to_champions",
        "damage_to_objectives",
        "damage_to_turrets",
        "turret_takedowns",
        "inhibitor_takedowns",
        "vision_score",
        "wards_placed",
        "wards_killed",
        "control_wards_placed",
        "damage_per_min",
        "gold_per_min",
        "team_damage_percentage",
        "kill_participation",
        "kda",
        "vision_score_per_min",
        "lane_minions_first10",
        "jungle_cs_before10",
    ]
}

/// Turns rows into columns.
pub fn build_dataframe(rows: Vec<PlayerRow>) -> (out: PlayerTable)
    ensures
        out.well_formed(),
        out.height() == rows@.len(),
        forall|i: int| 0 <= i < rows@.len() ==> #[trigger] out.row(i) == rows@[i],
{
    let mut out = PlayerTable {
        match_id: Vec::new(),
        game_creation: Vec::new(),
        game_duration: Vec::new(),
        queue_id: Vec::new(),
        game_version: Vec::new(),
        team_id: Vec::new(),
        puuid: Vec::new(),
        champion_id: Vec::new(),
        champion_name: Vec::new(),
        role: Vec::new(),
        win: Vec::new(),
        kills: Vec::new(),
        deaths: Vec::new(),
        assists: Vec::new(),
        champ_level: Vec::new(),
        gold_earned: Vec::new(),
        gold_spent: Vec::new(),
        total_minions_killed: Vec::new(),
        neutral_minions_killed: Vec::new(),
        total_cs: Vec::new(),
        damage_to_champions: Vec::new(),
        damage_to_objectives: Vec::new(),
        damage_to_turrets: Vec::new(),
        turret_takedowns: Vec::new(),
        inhibitor_takedowns: Vec::new(),
        vision_score: Vec::new(),
        wards_placed: Vec::new(),
        wards_killed: Vec::new(),
        control_wards_placed: Vec::new(),
        damage_per_min: Vec::new(),
        gold_per_min: Vec::new(),
        team_damage_percentage: Vec::new(),
        kill_participation: Vec::new(),
        kda: Vec::new(),
        vision_score_per_min: Vec::new(),
        lane_minions_first10: Vec::new(),
        jungle_cs_before10: Vec::new(),
    };
    let mut i: usize = 0;
    while i < rows.len()
        invariant
            i <= rows.len(),
            out.well_formed(),
            out.height() == i,
            forall|j: int| 0 <= j < i ==> #[trigger] out.row(j) == rows@[j],
        decreases rows.len() - i,
    {
        let ghost before = out;
        let row = &rows[i];
        out.match_id.push(row.match_id.clone());
        out.game_creation.push(row.game_creation);
        out.game_duration.push(row.game_duration);
        out.queue_id.push(row.queue_id);
        out.game_version.push(row.game_version.clone());
        out.team_id.push(row.team_id);
        out.puuid.push(row.puuid.clone());
        out.champion_id.push(row.champion_id);
        out.champion_name.push(row.champion_name.clone());
        out.role.push(row.role.clone());
        out.win.push(row.win);
        out.kills.push(row.kills);
        out.deaths.push(row.deaths);
        out.assists.push(row.assists);
        out.champ_level.push(row.champ_level);
        out.gold_earned.push(row.gold_earned);
        out.gold_spent.push(row.gold_spent);
        out.total_minions_killed.push(row.total_minions_killed);
        out.neutral_minions_killed.push(row.neutral_minions_killed);
        out.total_cs.push(row.total_cs);
        out.damage_to_champions.push(row.damage_to_champions);
        out.damage_to_objectives.push(row.damage_to_objectives);
        out.damage_to_turrets.push(row.damage_to_turrets);
        out.turret_takedowns.push(row.turret_takedowns);
        out.inhibitor_takedowns.push(row.inhibitor_takedowns);
        out.vision_score.push(row.vision_score);
        out.wards_placed.push(row.wards_placed);
        out.wards_killed.push(row.wards_killed);
        out.control_wards_placed.push(row.control_wards_placed);
        out.damage_per_min.push(row.damage_per_min);
        out.gold_per_min.push(row.gold_per_min);
        out.team_damage_percentage.push(row.team_damage_percentage);
        out.kill_participation.push(row.kill_participation);
        out.kda.push(row.kda);
        out.vision_score_per_min.push(row.vision_score_per_min);
        out.lane_minions_first10.push(row.lane_minions_first10);
        out.jungle_cs_before10.push(row.jungle_cs_before10);
        assert forall|j: int| 0 <= j < i + 1 implies #[trigger] out.row(j) == rows@[j] by {
            if j < i {
                assert(out.row(j) == before.row(j));
            }
        }
        i += 1;
    }
    out
}

fn copy_opt(s: &Option<String>) -> (out: Option<String>)
    ensures
        out == *s,
{
    match s {
        Some(s) => Some(s.clone()),
        None => None,
    }
}

/// The team table, column by column. All columns have the same height, and the entries at
/// one index make up one row.
#[derive(Debug)]
pub struct TeamTable {
    pub match_id: Vec<String>,
    pub platform_id: Vec<Option<String>>,
    pub queue_id: Vec<i32>,
    pub game_version: Vec<String>,
    pub game_creation: Vec<i64>,
    pub game_duration: Vec<i32>,
    pub team_id: Vec<i16>,
    pub team_side: Vec<String>,
    pub team_win: Vec<i8>,
    pub top_champion_id: Vec<Option<i32>>,
    pub jungle_champion_id: Vec<Option<i32>>,
    pub middle_champion_id: Vec<Option<i32>>,
    pub bottom_champion_id: Vec<Option<i32>>,
    pub utility_champion_id: Vec<Option<i32>>,
    pub team_kills: Vec<i32>,
    pub team_deaths: Vec<i32>,
    pub team_assists: Vec<i32>,
    pub team_gold_earned: Vec<i64>,
    pub team_damage_to_champions: Vec<i64>,
    pub team_vision_score: Vec<i64>,
    pub team_cs_total: Vec<i32>,
    pub team_gold_per_min: Vec<Option<Rate>>,
    pub team_damage_per_min: Vec<Option<Rate>>,
    pub team_vision_score_per_min: Vec<Option<Rate>>,
    pub team_cs_per_min: Vec<Option<Rate>>,
    pub team_towers_destroyed: Vec<i32>,
    pub team_inhibitors_destroyed: Vec<i32>,
    pub team_dragons: Vec<i32>,
    pub team_barons: Vec<i32>,
    pub team_heralds: Vec<i32>,
    pub team_plates: Vec<Option<i32>>,
    pub first_blood: Vec<Option<bool>>,
    pub first_tower: Vec<Option<bool>>,
    pub first_inhibitor: Vec<Option<bool>>,
    pub first_baron: Vec<Option<bool>>,
    pub first_dragon: Vec<Option<bool>>,
    pub first_herald: Vec<Option<bool>>,
}

impl TeamTable {
    /// The number of rows.
    pub open spec fn height(self) -> nat {
        self.match_id@.len()
    }

    /// Whether all columns have the same height.
    pub open spec fn well_formed(self) -> bool {
        &&& self.platform_id@.len() == self.height()
        &&& self.queue_id@.len() == self.height()
        &&& self.game_version@.len() == self.height()
        &&& self.game_creation@.len() == self.height()
        &&& self.game_duration@.len() == self.height()
        &&& self.team_id@.len() == self.height()
        &&& self.team_side@.len() == self.height()
        &&& self.team_win@.len() == self.height()
        &&& self.top_champion_id@.len() == self.height()
        &&& self.jungle_champion_id@.len() == self.height()
        &&& self.middle_champion_id@.len() == self.height()
        &&& self.bottom_champion_id@.len() == self.height()
        &&& self.utility_champion_id@.len() == self.height()
        &&& self.team_kills@.len() == self.height()
        &&& self.team_deaths@.len() == self.height()
        &&& self.team_assists@.len() == self.height()
        &&& self.team_gold_earned@.len() == self.height()
        &&& self.team_damage_to_champions@.len() == self.height()
        &&& self.team_vision_score@.len() == self.height()
        &&& self.team_cs_total@.len() == self.height()
        &&& self.team_gold_per_min@.len() == self.height()
        &&& self.team_damage_per_min@.len() == self.height()
        &&& self.team_vision_score_per_min@.len() == self.height()
        &&& self.team_cs_per_min@.len() == self.height()
        &&& self.team_towers_destroyed@.len() == self.height()
        &&& self.team_inhibitors_destroyed@.len() == self.height()
        &&& self.team_dragons@.len() == self.height()
        &&& self.team_barons@.len() == self.height()
        &&& self.team_heralds@.len() == self.height()
        &&& self.team_plates@.len() == self.height()
        &&& self.first_blood@.len() == self.height()
        &&& self.first_tower@.len() == self.height()
        &&& self.first_inhibitor@.len() == self.height()
        &&& self.first_baron@.len() == self.height()
        &&& self.first_dragon@.len() == self.height()
        &&& self.first_herald@.len() == self.height()
    }

    /// The row at index `i`.
    pub open spec fn row(self, i: int) -> TeamRow {
        TeamRow {
            match_id: self.match_id@[i],
            platform_id: self.platform_id@[i],
            queue_id: self.queue_id@[i],
            game_version: self.game_version@[i],
            game_creation: self.game_creation@[i],
            game_duration: self.game_duration@[i],
            team_id: self.team_id@[i],
            team_side: self.team_side@[i],
            team_win: self.team_win@[i],
            top_champion_id: self.top_champion_id@[i],
            jungle_champion_id: self.jungle_champion_id@[i],
            middle_champion_id: self.middle_champion_id@[i],
            bottom_champion_id: self.bottom_champion_id@[i],
            utility_champion_id: self.utility_champion_id@[i],
            team_kills: self.team_kills@[i],
            team_deaths: self.team_deaths@[i],
            team_assists: self.team_assists@[i],
            team_gold_earned: self.team_gold_earned@[i],
            team_damage_to_champions: self.team_damage_to_champions@[i],
            team_vision_score: self.team_vision_score@[i],
            team_cs_total: self.team_cs_total@[i],
            team_gold_per_min: self.team_gold_per_min@[i],
            team_damage_per_min: self.team_damage_per_min@[i],
            team_vision_score_per_min: self.team_vision_score_per_min@[i],
            team_cs_per_min: self.team_cs_per_min@[i],
            team_towers_destroyed: self.team_towers_destroyed@[i],
            team_inhibitors_destroyed: self.team_inhibitors_destroyed@[i],
            team_dragons: self.team_dragons@[i],
            team_barons: self.team_barons@[i],
            team_heralds: self.team_heralds@[i],
            team_plates: self.team_plates@[i],
            first_blood: self.first_blood@[i],
            first_tower: self.first_tower@[i],
            first_inhibitor: self.first_inhibitor@[i],
            first_baron: self.first_baron@[i],
            first_dragon: self.first_dragon@[i],
            first_herald: self.first_herald@[i],
        }
    }
}

/// The names of the columns of the team table, in the order of the table.
pub fn team_columns() -> (out: Vec<&'static str>)
    ensures
        out@.len() == 37,
        out@[0]@ == "match_id"@,
        out@[1]@ == "platform_id"@,
        out@[2]@ == "queue_id"@,
        out@[3]@ == "game_version"@,
        out@[4]@ == "game_creation"@,
        out@[5]@ == "game_duration"@,
        out@[6]@ == "team_id"@,
        out@[7]@ == "team_side"@,
        out@[8]@ == "team_win"@,
        out@[9]@ == "top_champion_id"@,
        out@[10]@ == "jungle_champion_id"@,
        out@[11]@ == "middle_champion_id"@,
        out@[12]@ == "bottom_champion_id"@,
        out@[13]@ == "utility_champion_id"@,
        out@[14]@ == "team_kills"@,
        out@[15]@ == "team_deaths"@,
        out@[16]@ == "team_assists"@,
        out@[17]@ == "team_gold_earned"@,
        out@[18]@ == "team_damage_to_champions"@,
        out@[19]@ == "team_vision_score"@,
        out@[20]@ == "team_cs_total"@,
        out@[21]@ == "team_gold_per_min"@,
        out@[22]@ == "team_damage_per_min"@,
        out@[23]@ == "team_vision_score_per_min"@,
        out@[24]@ == "team_cs_per_min"@,
        out@[25]@ == "team_towers_destroyed"@,
        out@[26]@ == "team_inhibitors_destroyed"@,
        out@[27]@ == "team_dragons"@,
        out@[28]@ == "team_barons"@,
        out@[29]@ == "team_heralds"@,
        out@[30]@ == "team_plates"@,
        out@[31]@ == "first_blood"@,
        out@[32]@ == "first_tower"@,
        out@[33]@ == "first_inhibitor"@,
        out@[34]@ == "first_baron"@,
        out@[35]@ == "first_dragon"@,
        out@[36]@ == "first_herald"@,
{
    vec![
        "match_id",
        "platform_id",
        "queue_id",
        "game_version",
        "game_creation",
        "game_duration",
        "team_id",
        "team_side",
        "team_win",
        "top_champion_id",
        "jungle_champion_id",
        "middle_champion_id",
        "bottom_champion_id",
        "utility_champion_id",
        "team_kills",
        "team_deaths",
        "team_assists",
        "team_gold_earned",
        "team_damage_to_champions",
        "team_vision_score",
        "team_cs_total",
        "team_gold_per_min",
        "team_damage_per_min",
        "team_vision_score_per_min",
        "team_cs_per_min",
        "team_towers_destroyed",
        "team_inhibitors_destroyed",
        "team_dragons",
        "team_barons",
        "team_heralds",
        "team_plates",
        "first_blood",
        "first_tower",
        "first_inhibitor",
        "first_baron",
        "first_dragon",
        "first_herald",
    ]
}

/// Turns rows into columns.
pub fn build_team_dataframe(rows: Vec<TeamRow>) -> (out: TeamTable)
    ensures
        out.well_formed(),
        out.height() == rows@.len(),
        forall|i: int| 0 <= i < rows@.len() ==> #[trigger] out.row(i) == rows@[i],
{
    let mut out = TeamTable {
        match_id: Vec::new(),
        platform_id: Vec::new(),
        queue_id: Vec::new(),
        game_version: Vec::new(),
        game_creation: Vec::new(),
        game_duration: Vec::new(),
        team_id: Vec::new(),
        team_side: Vec::new(),
        team_win: Vec::new(),
        top_champion_id: Vec::new(),
        jungle_champion_id: Vec::new(),
        middle_champion_id: Vec::new(),
        bottom_champion_id: Vec::new(),
        utility_champion_id: Vec::new(),
        team_kills: Vec::new(),
        team_deaths: Vec::new(),
        team_assists: Vec::new(),
        team_gold_earned: Vec::new(),
        team_damage_to_champions: Vec::new(),
        team_vision_score: Vec::new(),
        team_cs_total: Vec::new(),
        team_gold_per_min: Vec::new(),
        team_damage_per_min: Vec::new(),
        team_vision_score_per_min: Vec::new(),
        team_cs_per_min: Vec::new(),
        team_towers_destroyed: Vec::new(),
        team_inhibitors_destroyed: Vec::new(),
        team_dragons: Vec::new(),
        team_barons: Vec::new(),
        team_heralds: Vec::new(),
        team_plates: Vec::new(),
        first_blood: Vec::new(),
        first_tower: Vec::new(),
        first_inhibitor: Vec::new(),
        first_baron: Vec::new(),
        first_dragon: Vec::new(),
        first_herald: Vec::new(),
    };
    let mut i: usize = 0;
    while i < rows.len()
        invariant
            i <= rows.len(),
            out.well_formed(),
            out.height() == i,
            forall|j: int| 0 <= j < i ==> #[trigger] out.row(j) == rows@[j],
        decreases rows.len() - i,
    {
        let ghost before = out;
        let row = &rows[i];
        out.match_id.push(row.match_id.clone());
        out.platform_id.push(copy_opt(&row.platform_id));
        out.queue_id.push(row.queue_id);
        out.game_version.push(row.game_version.clone());
        out.game_creation.push(row.game_creation);
        out.game_duration.push(row.game_duration);
        out.team_id.push(row.team_id);
        out.team_side.push(row.team_side.clone());
        out.team_win.push(row.team_win);
        out.top_champion_id.push(row.top_champion_id);
        out.jungle_champion_id.push(row.jungle_champion_id);
        out.middle_champion_id.push(row.middle_champion_id);
        out.bottom_champion_id.push(row.bottom_champion_id);
        out.utility_champion_id.push(row.utility_champion_id);
        out.team_kills.push(row.team_kills);
        out.team_deaths.push(row.team_deaths);
        out.team_assists.push(row.team_assists);
        out.team_gold_earned.push(row.team_gold_earned);
        out.team_damage_to_champions.push(row.team_damage_to_champions);
        out.team_vision_score.push(row.team_vision_score);
        out.team_cs_total.push(row.team_cs_total);
        out.team_gold_per_min.push(row.team_gold_per_min);
        out.team_damage_per_min.push(row.team_damage_per_min);
        out.team_vision_score_per_min.push(row.team_vision_score_per_min);
        out.team_cs_per_min.push(row.team_cs_per_min);
        out.team_towers_destroyed.push(row.team_towers_destroyed);
        out.team_inhibitors_destroyed.push(row.team_inhibitors_destroyed);
        out.team_dragons.push(row.team_dragons);
        out.team_barons.push(row.team_barons);
        out.team_heralds.push(row.team_heralds);
        out.team_plates.push(row.team_plates);
        out.first_blood.push(row.first_blood);
        out.first_tower.push(row.first_tower);
        out.first_inhibitor.push(row.first_inhibitor);
        out.first_baron.push(row.first_baron);
        out.first_dragon.push(row.first_dragon);
        out.first_herald.push(row.first_herald);
        assert forall|j: int| 0 <= j < i + 1 implies #[trigger] out.row(j) == rows@[j] by {
            if j < i {
                assert(out.row(j) == before.row(j));
            }
        }
        i += 1;
    }
    out
}

} // verus!
