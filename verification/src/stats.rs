//! The basic figures of one player's games, one row for each match.

use crate::json::{parsed, Json};
use crate::text::{decimal, opt_view, signed_decimal, to_decimal, to_signed_decimal, views};
use vstd::string::StringExecFns;
use crate::parquet_extract::{clamp_i64, clamped_wide, get_int_or_zero, get_text_or_empty,
    int_or_zero, match_id_of, text_or_empty};
use vstd::prelude::*;

verus! {

/// One match of the player.
#[derive(Clone, Debug)]
pub struct BasicStatsRow {
    pub match_id: String,
    pub game_creation: i64,
    pub queue_id: i64,
    pub champion_name: String,
    pub role: String,
    pub win: u8,
    pub kills: i64,
    pub deaths: i64,
    pub assists: i64,
    pub cs_total: i64,
    pub gold_earned: i64,
    pub game_duration: i64,
}

/// The names of the columns, in order.
pub fn basic_stats_columns() -> (out: Vec<&'static str>)
    ensures
        out@.len() == 12,
        out@[0]@ == "match_id"@,
        out@[1]@ == "game_creation"@,
        out@[2]@ == "queue_id"@,
        out@[3]@ == "champion_name"@,
        out@[4]@ == "role"@,
        out@[5]@ == "win"@,
        out@[6]@ == "kills"@,
        out@[7]@ == "deaths"@,
        out@[8]@ == "assists"@,
        out@[9]@ == "cs_total"@,
        out@[10]@ == "gold_earned"@,
        out@[11]@ == "game_duration"@,
{
    vec![
        "match_id",
        "game_creation",
        "queue_id",
        "champion_name",
        "role",
        "win",
        "kills",
        "deaths",
        "assists",
        "cs_total",
        "gold_earned",
        "game_duration",
    ]
}

/// The first of `participants`, from `from` on, that is the player `puuid`.
pub open spec fn find_player(participants: Seq<Json>, puuid: Seq<char>, from: int) -> Option<Json>
    decreases participants.len() - from,
{
    if from < 0 || from >= participants.len() {
        None
    } else if participants[from].str_at("puuid"@) == Some(puuid) {
        Some(participants[from])
    } else {
        find_player(participants, puuid, from + 1)
    }
}

/// The id of a match: the one its metadata names, else the name of its file.
pub open spec fn match_id_in(doc: Json, file_stem: Option<Seq<char>>) -> Option<Seq<char>> {
    match doc.field("metadata"@) {
        Some(metadata) => match_id_of(metadata, file_stem),
        None => file_stem,
    }
}

/// What the row of `puuid` is read from: the id of the match, its game record and the
/// player's participant record. There is none where the document has no game record or no
/// list of participants, where the player took no part, and where the match has no id.
pub open spec fn stats_source(doc: Json, puuid: Seq<char>, file_stem: Option<Seq<char>>) -> Option<
    (Seq<char>, Json, Json),
> {
    match doc.field("info"@) {
        None => None,
        Some(info) => match info.items_at("participants"@) {
            None => None,
            Some(participants) => match (
                find_player(participants, puuid, 0),
                match_id_in(doc, file_stem),
            ) {
                (Some(participant), Some(id)) => Some((id, info, participant)),
                _ => None,
            },
        },
    }
}

/// Whether `row` is the row of `participant` in the match `match_id` with the game record
/// `info`.
pub open spec fn is_stats_row(
    row: BasicStatsRow,
    match_id: Seq<char>,
    info: Json,
    participant: Json,
) -> bool {
    &&& row.match_id@ == match_id
    &&& row.game_creation == int_or_zero(info, "gameCreation"@)
    &&& row.queue_id == int_or_zero(info, "queueId"@)
    &&& row.champion_name@ == text_or_empty(participant, "championName"@)
    &&& row.role@ == text_or_empty(participant, "teamPosition"@)
    &&& row.win == if participant.bool_at("win"@) == Some(true) {
        1u8
    } else {
        0u8
    }
    &&& row.kills == int_or_zero(participant, "kills"@)
    &&& row.deaths == int_or_zero(participant, "deaths"@)
    &&& row.assists == int_or_zero(participant, "assists"@)
    &&& row.cs_total == clamped_wide(
        int_or_zero(participant, "totalMinionsKilled"@) + int_or_zero(
            participant,
            "neutralMinionsKilled"@,
        ),
    )
    &&& row.gold_earned == int_or_zero(participant, "goldEarned"@)
    &&& row.game_duration == int_or_zero(info, "gameDuration"@)
}

fn find_participant<'a>(participants: &'a Vec<Json>, puuid: &str) -> (out: Option<&'a Json>)
    ensures
        out.is_some() == find_player(participants@, puuid@, 0).is_some(),
        out.is_some() ==> *out.unwrap() == find_player(participants@, puuid@, 0).unwrap(),
{
    let mut i: usize = 0;
    while i < participants.len()
        invariant
            i <= participants.len(),
            find_player(participants@, puuid@, 0) == find_player(participants@, puuid@, i as int),
        decreases participants.len() - i,
    {
        let found: bool = match participants[i].get_str("puuid") {
            Some(s) => s.eq(puuid),
            None => false,
        };
        if found {
            return Some(&participants[i]);
        }
        i += 1;
    }
    None
}

/// The row of the player `puuid` in a document.
pub fn basic_stats_row(doc: &Json, puuid: &str, file_stem: Option<&str>) -> (out: Option<
    BasicStatsRow,
>)
    ensures
        match stats_source(
            *doc,
            puuid@,
            match file_stem {
                Some(s) => Some(s@),
                None => None,
            },
        ) {
            Some((match_id, info, participant)) => out is Some && is_stats_row(
                out->Some_0,
                match_id,
                info,
                participant,
            ),
            None => out is None,
        },
{
    let Some(info) = doc.get("info") else {
        return None;
    };
    let Some(participants) = info.get_array("participants") else {
        return None;
    };
    let Some(participant) = find_participant(participants, puuid) else {
        return None;
    };
    let named: Option<&str> = match doc.get("metadata") {
        Some(metadata) => metadata.get_str("matchId"),
        None => None,
    };
    let match_id: String = match named {
        Some(id) => id.to_owned(),
        None => match file_stem {
            Some(stem) => stem.to_owned(),
            None => {
                return None;
            },
        },
    };
    let won: bool = match participant.get_bool("win") {
        Some(w) => w,
        None => false,
    };
    Some(
        BasicStatsRow {
            match_id,
            game_creation: get_int_or_zero(info, "gameCreation"),
            queue_id: get_int_or_zero(info, "queueId"),
            champion_name: get_text_or_empty(participant, "championName"),
            role: get_text_or_empty(participant, "teamPosition"),
            win: if won {
                1
            } else {
                0
            },
            kills: get_int_or_zero(participant, "kills"),
            deaths: get_int_or_zero(participant, "deaths"),
            assists: get_int_or_zero(participant, "assists"),
            cs_total: clamp_i64(
                get_int_or_zero(participant, "totalMinionsKilled") as i128 + get_int_or_zero(
                    participant,
                    "neutralMinionsKilled",
                ) as i128,
            ),
            gold_earned: get_int_or_zero(participant, "goldEarned"),
            game_duration: get_int_or_zero(info, "gameDuration"),
        },
    )
}

/// The row of the player `puuid` in the document that `text` holds; there is none where the
/// text is not JSON.
pub fn extract_basic_stats_for_puuid(puuid: &str, text: &str, file_stem: Option<&str>) -> (out:
    Option<BasicStatsRow>)
    ensures
        match parsed(text@) {
            None => out is None,
            Some(doc) => match stats_source(
                doc,
                puuid@,
                match file_stem {
                    Some(s) => Some(s@),
                    None => None,
                },
            ) {
                Some((match_id, info, participant)) => out is Some && is_stats_row(
                    out->Some_0,
                    match_id,
                    info,
                    participant,
                ),
                None => out is None,
            },
        },
{
    match Json::parse(text) {
        Ok(doc) => basic_stats_row(&doc, puuid, file_stem),
        Err(_) => None,
    }
}

/// One record of comma-separated values: the fields with commas between them, quoted where
/// they must be, and a line break at the end. There is none where the fields cannot be
/// written.
pub uninterp spec fn csv_record(fields: Seq<Seq<char>>) -> Option<Seq<char>>;

/// Calls `csv::Writer::from_writer` on an empty buffer, `Writer::write_record` with the fields
/// and `Writer::into_inner` for the buffer, which holds the one record. What comes back
/// depends on the fields alone: `csv_record` is the name of that result, and nothing else is
/// claimed of it.
#[verifier::external_body]
fn write_record(fields: &Vec<String>) -> (out: Option<String>)
    ensures
        opt_view(out) == csv_record(views(fields@)),
{
    let mut writer = csv::Writer::from_writer(Vec::new());
    writer.write_record(fields).ok()?;
    String::from_utf8(writer.into_inner().ok()?).ok()
}

/// The names of the columns.
pub open spec fn header_fields() -> Seq<Seq<char>> {
    seq![
        "match_id"@,
        "game_creation"@,
        "queue_id"@,
        "champion_name"@,
        "role"@,
        "win"@,
        "kills"@,
        "deaths"@,
        "assists"@,
        "cs_total"@,
        "gold_earned"@,
        "game_duration"@,
    ]
}

/// The fields of a row: the strings as they are, the numbers in decimal.
pub open spec fn row_fields(row: BasicStatsRow) -> Seq<Seq<char>> {
    seq![
        row.match_id@,
        signed_decimal(row.game_creation as int),
        signed_decimal(row.queue_id as int),
        row.champion_name@,
        row.role@,
        decimal(row.win as nat),
        signed_decimal(row.kills as int),
        signed_decimal(row.deaths as int),
        signed_decimal(row.assists as int),
        signed_decimal(row.cs_total as int),
        signed_decimal(row.gold_earned as int),
        signed_decimal(row.game_duration as int),
    ]
}

/// The records of the first `n` rows, one after the other; a row that cannot be written is
/// left out.
pub open spec fn records(rows: Seq<BasicStatsRow>, n: int) -> Seq<char>
    decreases n,
{
    if n <= 0 {
        Seq::<char>::empty()
    } else {
        match csv_record(row_fields(rows[n - 1])) {
            Some(line) => records(rows, n - 1) + line,
            None => records(rows, n - 1),
        }
    }
}

/// The text of the table: the record of the column names, then the records of the rows.
/// Without a record of a row there is no text at all, and none without the record of the
/// names.
pub open spec fn csv_text(rows: Seq<BasicStatsRow>) -> Seq<char> {
    let body = records(rows, rows.len() as int);
    match csv_record(header_fields()) {
        Some(header) if body.len() > 0 => header + body,
        _ => Seq::<char>::empty(),
    }
}

fn fields_of(row: &BasicStatsRow) -> (out: Vec<String>)
    ensures
        views(out@) == row_fields(*row),
{
    let out: Vec<String> = vec![
        row.match_id.clone(),
        to_signed_decimal(row.game_creation),
        to_signed_decimal(row.queue_id),
        row.champion_name.clone(),
        row.role.clone(),
        to_decimal(row.win as u64),
        to_signed_decimal(row.kills),
        to_signed_decimal(row.deaths),
        to_signed_decimal(row.assists),
        to_signed_decimal(row.cs_total),
        to_signed_decimal(row.gold_earned),
        to_signed_decimal(row.game_duration),
    ];
    assert(views(out@) =~= row_fields(*row));
    out
}

/// Writes the table as comma-separated values.
pub fn basic_stats_csv(rows: &Vec<BasicStatsRow>) -> (out: String)
    ensures
        out@ == csv_text(rows@),
{
    let mut body: String = String::new();
    let mut i: usize = 0;
    while i < rows.len()
        invariant
            i <= rows.len(),
            body@ == records(rows@, i as int),
        decreases rows.len() - i,
    {
        match write_record(&fields_of(&rows[i])) {
            Some(line) => {
                body.append(line.as_str());
            },
            None => {},
        }
        i += 1;
    }
    let names: Vec<String> = vec![
        "match_id".to_owned(),
        "game_creation".to_owned(),
        "queue_id".to_owned(),
        "champion_name".to_owned(),
        "role".to_owned(),
        "win".to_owned(),
        "kills".to_owned(),
        "deaths".to_owned(),
        "assists".to_owned(),
        "cs_total".to_owned(),
        "gold_earned".to_owned(),
        "game_duration".to_owned(),
    ];
    assert(views(names@) =~= header_fields());
    match write_record(&names) {
        Some(header) => {
            if body.as_str().is_empty() {
                String::new()
            } else {
                let mut out = header;
                out.append(body.as_str());
                out
            }
        },
        None => String::new(),
    }
}

} // verus!