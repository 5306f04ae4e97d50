//! The crawler: what it is told, what it reads off a match document, and whom it admits to
//! its frontier.

use crate::json::Json;
use crate::rate_limiter::{elapsed, elapsed_between};
use crate::text::{contains_str, lemma_holds_views, lowercase, opt_view, split, tag_list, tags,
    to_lower, to_upper, trim, trimmed, uppercase, views};
use std::collections::VecDeque;
use std::path::PathBuf;
use vstd::prelude::*;

verus! {

/// A player with fewer recorded matches than this goes to the front of the frontier.
pub const PRIORITY_BELOW: usize = 10;

/// Matches older than this many days are dropped.
pub const MAX_AGE_DAYS: i64 = 90;

/// Milliseconds in a day.
pub const MILLIS_PER_DAY: i64 = 86_400_000;

/// The queue id of ranked solo games.
pub const RANKED_SOLO: i64 = 420;

/// How many match ids are asked for per player.
pub const IDS_PER_PLAYER: usize = 100;

/// How far the crawl reaches beyond its seeds.
#[derive(Clone, Copy, Debug, PartialEq, Eq, Structural)]
pub enum KrakenMode {
    /// Every newly seen co-participant is a candidate for the frontier.
    Explore,
    /// At most a fixed number of co-participants per match enter the frontier.
    Focus,
    /// Nobody but the seeds enters the frontier.
    SeedOnly,
}

/// The options of a crawl.
#[derive(Clone, Debug)]
pub struct KrakenAbsorbArgs {
    pub seed_puuid: Option<String>,
    pub seed_file: Option<PathBuf>,
    pub duration_mins: u64,
    pub out_dir: PathBuf,
    pub max_req_per_2min: usize,
    pub max_matches_per_player: usize,
    pub max_matches_total: Option<usize>,
    pub idle_exit_after_mins: Option<u64>,
    pub mode: String,
    pub role_focus: Option<String>,
    pub allow_ranks: Option<String>,
    pub log_interval_secs: u64,
}

/// The options of a short crawl with fixed settings.
#[derive(Clone, Debug)]
pub struct KrakenEatArgs {
    pub seed_puuid: String,
    pub out_dir: PathBuf,
    pub duration_mins: Option<u64>,
}

/// The mode that a word names; any word but `focus` and `seed-only` names `Explore`.
pub open spec fn mode_named(word: Seq<char>) -> KrakenMode {
    if lowercase(word) == "focus"@ {
        KrakenMode::Focus
    } else if lowercase(word) == "seed-only"@ {
        KrakenMode::SeedOnly
    } else {
        KrakenMode::Explore
    }
}

/// Reads a mode off its name, whatever the case of its letters.
pub fn parse_mode(word: &str) -> (out: KrakenMode)
    ensures
        out == mode_named(word@),
{
    let lower = to_lower(word);
    if lower.as_str().eq("focus") {
        KrakenMode::Focus
    } else if lower.as_str().eq("seed-only") {
        KrakenMode::SeedOnly
    } else {
        KrakenMode::Explore
    }
}

/// How many co-participants of one match may enter the frontier.
pub open spec fn new_per_match(mode: KrakenMode) -> usize {
    match mode {
        KrakenMode::Explore => 10,
        KrakenMode::Focus => 5,
        KrakenMode::SeedOnly => 0,
    }
}

/// Tells how many co-participants of one match may enter the frontier.
pub fn max_new_focus(mode: KrakenMode) -> (out: usize)
    ensures
        out == new_per_match(mode),
{
    match mode {
        KrakenMode::Explore => 10,
        KrakenMode::Focus => 5,
        KrakenMode::SeedOnly => 0,
    }
}

/// Whether a match created at `game_creation` is at most `max_age_days` old at `now_millis`,
/// both in milliseconds since the Unix epoch.
pub open spec fn recent_enough(game_creation: i64, now_millis: i64, max_age_days: i64) -> bool {
    game_creation >= now_millis - max_age_days * MILLIS_PER_DAY
}

/// Whether a document is recent: one without a creation time counts as recent.
pub open spec fn recent_match(doc: Json, now_millis: i64, max_age_days: i64) -> bool {
    match doc.field("info"@) {
        Some(info) => match info.int_at("gameCreation"@) {
            Some(created) => recent_enough(created, now_millis, max_age_days),
            None => true,
        },
        None => true,
    }
}

/// Whether a document is a ranked solo game.
pub open spec fn ranked_match(doc: Json) -> bool {
    match doc.field("info"@) {
        Some(info) => info.int_at("queueId"@) == Some(RANKED_SOLO),
        None => false,
    }
}

/// Tells whether a document is recent enough at `now_millis`.
pub fn is_recent_match(doc: &Json, now_millis: i64, max_age_days: i64) -> (out: bool)
    ensures
        out == recent_match(*doc, now_millis, max_age_days),
{
    match doc.get("info") {
        Some(info) => match info.get_i64("gameCreation") {
            Some(created) => {
                assert(-0x8000_0000_0000_0000 * 86_400_000 <= max_age_days * MILLIS_PER_DAY
                    <= 0x8000_0000_0000_0000 * 86_400_000) by (nonlinear_arith)
                    requires
                        -0x8000_0000_0000_0000 <= max_age_days <= 0x8000_0000_0000_0000,
                        MILLIS_PER_DAY == 86_400_000,
                ;
                let cutoff: i128 = now_millis as i128 - max_age_days as i128 * MILLIS_PER_DAY as i128;
                created as i128 >= cutoff
            },
            None => true,
        },
        None => true,
    }
}

/// Tells whether a document is a ranked solo game.
pub fn is_ranked_match(doc: &Json) -> (out: bool)
    ensures
        out == ranked_match(*doc),
{
    match doc.get("info") {
        Some(info) => match info.get_i64("queueId") {
            Some(queue) => queue == RANKED_SOLO,
            None => false,
        },
        None => false,
    }
}

/// The position that the role filter reads off a participant: the team position where the
/// record has one, empty or not, and the individual position where it has none.
pub open spec fn position(participant: Json) -> Option<Seq<char>> {
    match participant.str_at("teamPosition"@) {
        Some(s) => Some(s),
        None => participant.str_at("individualPosition"@),
    }
}

/// Whether one of `participants` has a position that is a role of `focus`, whatever the case
/// of its letters.
pub open spec fn some_role_in(participants: Seq<Json>, focus: Seq<Seq<char>>) -> bool {
    exists|i: int|
        0 <= i < participants.len() && (#[trigger] position(participants[i])) is Some
            && focus.contains(uppercase(position(participants[i])->0))
}

/// Whether a document may be written under a role focus: always without one, else when one of
/// its participants plays a role of the focus.
pub open spec fn passes_roles(doc: Json, focus: Option<Seq<Seq<char>>>) -> bool {
    match focus {
        None => true,
        Some(roles) => match doc.field("info"@) {
            Some(info) => match info.items_at("participants"@) {
                Some(participants) => some_role_in(participants, roles),
                None => false,
            },
            None => false,
        },
    }
}

/// The views of an optional list of strings.
pub open spec fn opt_views(list: Option<Vec<String>>) -> Option<Seq<Seq<char>>> {
    match list {
        Some(l) => Some(views(l@)),
        None => None,
    }
}

/// Reads the position that the role filter goes by.
pub fn position_of(participant: &Json) -> (out: Option<&str>)
    ensures
        out.is_some() == position(*participant).is_some(),
        out.is_some() ==> out.unwrap()@ == position(*participant).unwrap(),
{
    match participant.get_str("teamPosition") {
        Some(s) => Some(s),
        None => participant.get_str("individualPosition"),
    }
}

/// Tells whether a document may be written under a role focus.
pub fn kraken_match_passes_roles(doc: &Json, role_focus: &Option<Vec<String>>) -> (out: bool)
    ensures
        out == passes_roles(*doc, opt_views(*role_focus)),
{
    let Some(focus) = role_focus else {
        return true;
    };
    let Some(info) = doc.get("info") else {
        return false;
    };
    let Some(participants) = info.get_array("participants") else {
        return false;
    };
    let mut i: usize = 0;
    while i < participants.len()
        invariant
            i <= participants.len(),
            passes_roles(*doc, opt_views(*role_focus)) == some_role_in(
                participants@,
                views(focus@),
            ),
            forall|j: int|
                0 <= j < i ==> !((#[trigger] position(participants@[j])) is Some && views(
                    focus@,
                ).contains(uppercase(position(participants@[j])->0))),
        decreases participants.len() - i,
    {
        match position_of(&participants[i]) {
            Some(role) => {
                let upper = to_upper(role);
                proof {
                    lemma_holds_views(focus@, upper@);
                }
                if contains_str(focus, upper.as_str()) {
                    return true;
                }
            },
            None => {},
        }
        i += 1;
    }
    false
}

/// The strings among `items`, in their order.
pub open spec fn strings_among(items: Seq<Json>) -> Seq<Seq<char>>
    decreases items.len(),
{
    if items.len() == 0 {
        Seq::<Seq<char>>::empty()
    } else {
        match items.last().str_value() {
            Some(s) => strings_among(items.drop_last()).push(s),
            None => strings_among(items.drop_last()),
        }
    }
}

/// The players that a document lists in its metadata, in the document's order.
pub open spec fn listed_players(doc: Json) -> Seq<Seq<char>> {
    match doc.field("metadata"@) {
        Some(metadata) => match metadata.items_at("participants"@) {
            Some(items) => strings_among(items),
            None => Seq::<Seq<char>>::empty(),
        },
        None => Seq::<Seq<char>>::empty(),
    }
}

/// Lists the players of a document.
pub fn participants_of(doc: &Json) -> (out: Vec<String>)
    ensures
        views(out@) == listed_players(*doc),
{
    let mut out: Vec<String> = Vec::new();
    assert(views(out@) =~= Seq::<Seq<char>>::empty());
    let Some(metadata) = doc.get("metadata") else {
        return out;
    };
    let Some(items) = metadata.get_array("participants") else {
        return out;
    };
    let mut i: usize = 0;
    assert(items@.take(0) =~= Seq::<Json>::empty());
    while i < items.len()
        invariant
            i <= items.len(),
            views(out@) == strings_among(items@.take(i as int)),
        decreases items.len() - i,
    {
        assert(items@.take(i as int + 1).drop_last() =~= items@.take(i as int));
        match items[i].as_str() {
            Some(s) => {
                let ghost before = out@;
                out.push(s.to_owned());
                assert(views(out@) =~= views(before).push(s@));
            },
            None => {},
        }
        i += 1;
    }
    assert(items@.take(items@.len() as int) =~= items@);
    out
}

/// What becomes of a candidate for the frontier.
#[derive(Clone, Copy, Debug, PartialEq, Eq, Structural)]
pub enum Verdict {
    /// The player has been seen before: nothing changes.
    AlreadySeen,
    /// The player's tier decides and is not known yet: nothing changes until it is.
    NeedsTier,
    /// The player is marked as seen and stays out of the frontier.
    Rejected,
    /// The player is marked as seen and goes to the front of the frontier.
    Front,
    /// The player is marked as seen and goes to the back of the frontier.
    Back,
}

impl Verdict {
    /// Whether the player entered the frontier.
    pub open spec fn admits(self) -> bool {
        self == Verdict::Front || self == Verdict::Back
    }

    /// Whether the player is marked as seen by this verdict.
    pub open spec fn marks_seen(self) -> bool {
        self == Verdict::Rejected || self == Verdict::Front || self == Verdict::Back
    }

    /// Tells whether the player entered the frontier.
    pub fn enqueued(&self) -> (out: bool)
        ensures
            out == self.admits(),
    {
        match self {
            Verdict::Front => true,
            Verdict::Back => true,
            _ => false,
        }
    }
}

/// The known tiers: each looked-up player with the tier found, `None` for a player without.
///
/// A list of pairs, searched in order, stands where a hash map keyed by the player would:
/// of a hash map with strings for keys nothing can be proved, since the specification of the
/// standard hash map holds only for keys that are known to hash as they compare, and strings
/// are not among them.
pub type TierCache = Vec<(String, Option<String>)>;

/// The number of matches downloaded for each processed player; a list of pairs for the same
/// reason, in which no player is listed twice.
pub type MatchCounts = Vec<(String, usize)>;

/// The view of a cached tier.
pub open spec fn tier_view(entry: (String, Option<String>)) -> (Seq<char>, Option<Seq<char>>) {
    (entry.0@, opt_view(entry.1))
}

/// The views of the cached tiers.
pub open spec fn tier_views(cache: Seq<(String, Option<String>)>) -> Seq<
    (Seq<char>, Option<Seq<char>>),
> {
    cache.map_values(|e: (String, Option<String>)| tier_view(e))
}

/// The views of the match counts.
pub open spec fn count_views(counts: Seq<(String, usize)>) -> Seq<(Seq<char>, usize)> {
    counts.map_values(|e: (String, usize)| (e.0@, e.1))
}

/// What the cache holds for a player: `None` when the player was never looked up.
pub open spec fn tier_of(tiers: Seq<(Seq<char>, Option<Seq<char>>)>, puuid: Seq<char>) -> Option<
    Option<Seq<char>>,
>
    decreases tiers.len(),
{
    if tiers.len() == 0 {
        None
    } else if tiers[0].0 == puuid {
        Some(tiers[0].1)
    } else {
        tier_of(tiers.drop_first(), puuid)
    }
}

/// The number of matches recorded for a player; zero for a player without a record.
pub open spec fn count_of(counts: Seq<(Seq<char>, usize)>, puuid: Seq<char>) -> usize
    decreases counts.len(),
{
    if counts.len() == 0 {
        0
    } else if counts[0].0 == puuid {
        counts[0].1
    } else {
        count_of(counts.drop_first(), puuid)
    }
}

/// The counts with `value` recorded for `puuid`, in place of an earlier record if there is one.
pub open spec fn with_count(counts: Seq<(Seq<char>, usize)>, puuid: Seq<char>, value: usize) -> Seq<
    (Seq<char>, usize),
>
    decreases counts.len(),
{
    if counts.len() == 0 {
        seq![(puuid, value)]
    } else if counts[0].0 == puuid {
        counts.update(0, (puuid, value))
    } else {
        seq![counts[0]] + with_count(counts.drop_first(), puuid, value)
    }
}

/// The verdict on the candidate `puuid`. In this order: a player seen before changes nothing;
/// under a list of allowed tiers the player's tier is needed, and a tier outside the list
/// rejects the player, while a player without a tier passes; in `Focus` mode a match without
/// slots left rejects the player; everybody else enters the frontier, at the front with fewer
/// than ten matches on record and at the back otherwise.
pub open spec fn admission(
    puuid: Seq<char>,
    seen: Seq<Seq<char>>,
    allowed: Option<Seq<Seq<char>>>,
    tiers: Seq<(Seq<char>, Option<Seq<char>>)>,
    mode: KrakenMode,
    slots: Option<usize>,
    count: usize,
) -> Verdict {
    if seen.contains(puuid) {
        Verdict::AlreadySeen
    } else if allowed is Some && tier_of(tiers, puuid) is None {
        Verdict::NeedsTier
    } else if allowed is Some && tier_of(tiers, puuid)->0 is Some && !allowed->0.contains(
        tier_of(tiers, puuid)->0->0,
    ) {
        Verdict::Rejected
    } else if slots == Some(0usize) && mode == KrakenMode::Focus {
        Verdict::Rejected
    } else if count < PRIORITY_BELOW {
        Verdict::Front
    } else {
        Verdict::Back
    }
}

/// The seen players after a verdict on `puuid`.
pub open spec fn seen_after(seen: Seq<Seq<char>>, puuid: Seq<char>, verdict: Verdict) -> Seq<
    Seq<char>,
> {
    if verdict.marks_seen() {
        seen.push(puuid)
    } else {
        seen
    }
}

/// The frontier after a verdict on `puuid`.
pub open spec fn frontier_after(frontier: Seq<Seq<char>>, puuid: Seq<char>, verdict: Verdict) -> Seq<
    Seq<char>,
> {
    match verdict {
        Verdict::Front => seq![puuid] + frontier,
        Verdict::Back => frontier.push(puuid),
        _ => frontier,
    }
}

/// Looks a player up in the tier cache.
pub fn cached_tier<'a>(cache: &'a TierCache, puuid: &str) -> (out: Option<&'a Option<String>>)
    ensures
        out.is_some() == tier_of(tier_views(cache@), puuid@).is_some(),
        out.is_some() ==> opt_view(*out.unwrap()) == tier_of(
            tier_views(cache@),
            puuid@,
        ).unwrap(),
{
    let mut i: usize = 0;
    assert(tier_views(cache@).skip(0) =~= tier_views(cache@));
    while i < cache.len()
        invariant
            i <= cache.len(),
            tier_of(tier_views(cache@), puuid@) == tier_of(
                tier_views(cache@).skip(i as int),
                puuid@,
            ),
        decreases cache.len() - i,
    {
        assert(tier_views(cache@).skip(i as int)[0] == tier_view(cache@[i as int]));
        if cache[i].0.as_str().eq(puuid) {
            return Some(&cache[i].1);
        }
        assert(tier_views(cache@).skip(i as int).drop_first() =~= tier_views(cache@).skip(
            i as int + 1,
        ));
        i += 1;
    }
    None
}

/// Reads the number of matches recorded for a player.
pub fn matches_of(counts: &MatchCounts, puuid: &str) -> (out: usize)
    ensures
        out == count_of(count_views(counts@), puuid@),
{
    let mut i: usize = 0;
    assert(count_views(counts@).skip(0) =~= count_views(counts@));
    while i < counts.len()
        invariant
            i <= counts.len(),
            count_of(count_views(counts@), puuid@) == count_of(
                count_views(counts@).skip(i as int),
                puuid@,
            ),
        decreases counts.len() - i,
    {
        assert(count_views(counts@).skip(i as int)[0] == (counts@[i as int].0@, counts@[i as int].1));
        if counts[i].0.as_str().eq(puuid) {
            return counts[i].1;
        }
        assert(count_views(counts@).skip(i as int).drop_first() =~= count_views(counts@).skip(
            i as int + 1,
        ));
        i += 1;
    }
    0
}

proof fn lemma_with_count_split(counts: Seq<(Seq<char>, usize)>, puuid: Seq<char>, value: usize, i: int)
    requires
        0 <= i <= counts.len(),
        forall|j: int| 0 <= j < i ==> counts[j].0 != puuid,
    ensures
        with_count(counts, puuid, value) == counts.take(i) + with_count(
            counts.skip(i),
            puuid,
            value,
        ),
    decreases i,
{
    if i == 0 {
        assert(counts.take(0) + with_count(counts.skip(0), puuid, value) =~= with_count(
            counts.skip(0),
            puuid,
            value,
        ));
        assert(counts.skip(0) =~= counts);
    } else {
        lemma_with_count_split(counts, puuid, value, i - 1);
        let rest = counts.skip(i - 1);
        assert(rest[0] == counts[i - 1]);
        assert(rest.drop_first() =~= counts.skip(i));
        assert(counts.take(i - 1) + (seq![rest[0]] + with_count(counts.skip(i), puuid, value))
            =~= counts.take(i) + with_count(counts.skip(i), puuid, value));
    }
}

/// Records the number of matches downloaded for a player.
pub fn record_matches(counts: &mut MatchCounts, puuid: &str, value: usize)
    ensures
        count_views(final(counts)@) == with_count(count_views(old(counts)@), puuid@, value),
{
    let ghost before = count_views(counts@);
    let mut i: usize = 0;
    while i < counts.len()
        invariant
            i <= counts.len(),
            counts@ == old(counts)@,
            before == count_views(counts@),
            forall|j: int| 0 <= j < i ==> before[j].0 != puuid@,
        decreases counts.len() - i,
    {
        if counts[i].0.as_str().eq(puuid) {
            proof {
                lemma_with_count_split(before, puuid@, value, i as int);
                assert(before.skip(i as int)[0] == before[i as int]);
            }
            counts.set(i, (puuid.to_owned(), value));
            assert(count_views(counts@) =~= before.take(i as int) + before.skip(i as int).update(
                0,
                (puuid@, value),
            ));
            return ;
        }
        i += 1;
    }
    proof {
        lemma_with_count_split(before, puuid@, value, before.len() as int);
        assert(before.skip(before.len() as int) =~= Seq::<(Seq<char>, usize)>::empty());
        assert(before.take(before.len() as int) =~= before);
    }
    counts.push((puuid.to_owned(), value));
    assert(count_views(counts@) =~= before + seq![(puuid@, value)]);
}

/// Decides on a candidate for the frontier and carries the verdict out on the seen players and
/// the frontier. Nothing is looked up here: where the tier is needed and not cached, the
/// verdict says so and nothing changes.
pub fn kraken_maybe_enqueue_player(
    puuid: &str,
    seen_puuids: &mut Vec<String>,
    queue: &mut VecDeque<String>,
    allowed_ranks: &Option<Vec<String>>,
    rank_cache: &TierCache,
    mode: KrakenMode,
    remaining_focus_slots: Option<usize>,
    current_match_count: usize,
) -> (out: Verdict)
    ensures
        out == admission(
            puuid@,
            views(old(seen_puuids)@),
            opt_views(*allowed_ranks),
            tier_views(rank_cache@),
            mode,
            remaining_focus_slots,
            current_match_count,
        ),
        views(final(seen_puuids)@) == seen_after(views(old(seen_puuids)@), puuid@, out),
        views(final(queue)@) == frontier_after(views(old(queue)@), puuid@, out),
{
    proof {
        lemma_holds_views(seen_puuids@, puuid@);
    }
    if contains_str(seen_puuids, puuid) {
        return Verdict::AlreadySeen;
    }
    let ghost seen_before = seen_puuids@;
    let ghost queue_before = queue@;
    match allowed_ranks {
        Some(allowed) => {
            match cached_tier(rank_cache, puuid) {
                None => {
                    return Verdict::NeedsTier;
                },
                Some(tier) => match tier {
                    Some(t) => {
                        proof {
                            lemma_holds_views(allowed@, t@);
                        }
                        if !contains_str(allowed, t.as_str()) {
                            seen_puuids.push(puuid.to_owned());
                            assert(views(seen_puuids@) =~= views(seen_before).push(puuid@));
                            return Verdict::Rejected;
                        }
                    },
                    None => {},
                },
            }
        },
        None => {},
    }
    let out_of_slots: bool = match remaining_focus_slots {
        Some(limit) => limit == 0,
        None => false,
    };
    seen_puuids.push(puuid.to_owned());
    assert(views(seen_puuids@) =~= views(seen_before).push(puuid@));
    if out_of_slots && mode == KrakenMode::Focus {
        return Verdict::Rejected;
    }
    if current_match_count < PRIORITY_BELOW {
        queue.push_front(puuid.to_owned());
        assert(views(queue@) =~= seq![puuid@] + views(queue_before));
        Verdict::Front
    } else {
        queue.push_back(puuid.to_owned());
        assert(views(queue@) =~= views(queue_before).push(puuid@));
        Verdict::Back
    }
}

/// What a crawl has covered.
#[derive(Clone, Copy, Debug, PartialEq, Eq, Structural)]
pub struct Coverage {
    /// Players with a record of downloaded matches.
    pub total_players: usize,
    pub profiles_5plus: usize,
    pub profiles_10plus: usize,
    pub profiles_20plus: usize,
    /// The matches downloaded, summed over the players; their average is this over the players.
    pub matches_sum: u128,
    /// Matches written.
    pub total_matches: usize,
}

/// The number of players with at least `floor` matches on record.
pub open spec fn at_least(counts: Seq<(Seq<char>, usize)>, floor: usize) -> nat
    decreases counts.len(),
{
    if counts.len() == 0 {
        0
    } else {
        at_least(counts.drop_last(), floor) + if counts.last().1 >= floor {
            1nat
        } else {
            0nat
        }
    }
}

/// The matches on record, summed over the players.
pub open spec fn matches_sum(counts: Seq<(Seq<char>, usize)>) -> nat
    decreases counts.len(),
{
    if counts.len() == 0 {
        0
    } else {
        matches_sum(counts.drop_last()) + counts.last().1 as nat
    }
}

/// The coverage that the counts and the number of written matches amount to.
pub open spec fn coverage_of(counts: Seq<(Seq<char>, usize)>, written: usize) -> Coverage {
    Coverage {
        total_players: counts.len() as usize,
        profiles_5plus: at_least(counts, 5) as usize,
        profiles_10plus: at_least(counts, 10) as usize,
        profiles_20plus: at_least(counts, 20) as usize,
        matches_sum: matches_sum(counts) as u128,
        total_matches: written,
    }
}

/// Counts the players with at least `floor` matches on record.
pub fn count_at_least(counts: &MatchCounts, floor: usize) -> (out: usize)
    ensures
        out == at_least(count_views(counts@), floor),
{
    let mut out: usize = 0;
    let mut i: usize = 0;
    assert(count_views(counts@).take(0) =~= Seq::<(Seq<char>, usize)>::empty());
    while i < counts.len()
        invariant
            i <= counts.len(),
            out == at_least(count_views(counts@).take(i as int), floor),
            out <= i,
        decreases counts.len() - i,
    {
        assert(count_views(counts@).take(i as int + 1).drop_last() =~= count_views(counts@).take(
            i as int,
        ));
        if counts[i].1 >= floor {
            out += 1;
        }
        i += 1;
    }
    assert(count_views(counts@).take(counts@.len() as int) =~= count_views(counts@));
    out
}

/// Sums the matches on record up over the players.
pub fn sum_matches(counts: &MatchCounts) -> (out: u128)
    ensures
        out == matches_sum(count_views(counts@)),
{
    let mut out: u128 = 0;
    let mut i: usize = 0;
    assert(count_views(counts@).take(0) =~= Seq::<(Seq<char>, usize)>::empty());
    while i < counts.len()
        invariant
            i <= counts.len(),
            out == matches_sum(count_views(counts@).take(i as int)),
            out <= i * 0xFFFF_FFFF_FFFF_FFFF,
        decreases counts.len() - i,
    {
        assert(count_views(counts@).take(i as int + 1).drop_last() =~= count_views(counts@).take(
            i as int,
        ));
        out = out + counts[i].1 as u128;
        i += 1;
    }
    assert(count_views(counts@).take(counts@.len() as int) =~= count_views(counts@));
    out
}

/// Sums up what a crawl has covered.
pub fn print_coverage_stats(matches_per_player: &MatchCounts, total_matches: usize) -> (out:
    Coverage)
    ensures
        out == coverage_of(count_views(matches_per_player@), total_matches),
{
    Coverage {
        total_players: matches_per_player.len(),
        profiles_5plus: count_at_least(matches_per_player, 5),
        profiles_10plus: count_at_least(matches_per_player, 10),
        profiles_20plus: count_at_least(matches_per_player, 20),
        matches_sum: sum_matches(matches_per_player),
        total_matches,
    }
}

/// Readings of the monotonic clock and of the wall clock, taken together.
#[derive(Clone, Copy, Debug, PartialEq, Eq, Structural)]
pub struct Clock {
    /// Nanoseconds on a clock that never runs backwards.
    pub monotonic_nanos: u64,
    /// Milliseconds since the Unix epoch.
    pub unix_millis: i64,
}

/// Nanoseconds in a minute.
pub const NANOS_PER_MINUTE: u64 = 60_000_000_000;

/// Nanoseconds in a second.
pub const NANOS_PER_SECOND: u64 = 1_000_000_000;

/// `amount` units of `unit` nanoseconds each; the longest time that can be told where that is
/// longer still.
pub open spec fn nanos(amount: u64, unit: u64) -> u64 {
    if amount * unit > u64::MAX {
        u64::MAX
    } else {
        (amount * unit) as u64
    }
}

/// Turns a number of minutes or seconds into nanoseconds.
pub fn to_nanos(amount: u64, unit: u64) -> (out: u64)
    ensures
        out == nanos(amount, unit),
{
    if unit == 0 {
        assert(amount * unit == 0) by (nonlinear_arith)
            requires
                unit == 0,
        ;
        return 0;
    }
    if amount > u64::MAX / unit {
        assert(amount * unit > u64::MAX) by (nonlinear_arith)
            requires
                unit > 0,
                amount > u64::MAX / unit,
        ;
        u64::MAX
    } else {
        assert(amount * unit <= u64::MAX) by (nonlinear_arith)
            requires
                unit > 0,
                amount <= u64::MAX / unit,
        ;
        amount * unit
    }
}

/// The settings of a crawl.
#[derive(Debug)]
pub struct CrawlConfig {
    pub mode: KrakenMode,
    pub max_matches_per_player: usize,
    pub max_matches_total: Option<usize>,
    pub max_duration_nanos: u64,
    pub idle_limit_nanos: Option<u64>,
    pub log_interval_nanos: u64,
    /// The roles of which a match must show one to be written; upper case.
    pub role_focus: Option<Vec<String>>,
    /// The tiers a player may have to enter the frontier; upper case.
    pub allowed_ranks: Option<Vec<String>>,
    pub max_new_focus: usize,
    pub max_req_per_2min: usize,
}

/// The tags of an optional comma-separated list.
pub open spec fn opt_tags(raw: Option<String>) -> Option<Seq<Seq<char>>> {
    match raw {
        Some(r) => Some(tags(split(r@, ','))),
        None => None,
    }
}

fn opt_tag_list(raw: &Option<String>) -> (out: Option<Vec<String>>)
    ensures
        opt_views(out) == opt_tags(*raw),
{
    match raw {
        Some(r) => Some(tag_list(r.as_str())),
        None => None,
    }
}

impl CrawlConfig {
    /// Whether these are the settings that `args` ask for.
    pub open spec fn reads(self, args: KrakenAbsorbArgs) -> bool {
        &&& self.mode == mode_named(args.mode@)
        &&& self.max_matches_per_player == args.max_matches_per_player
        &&& self.max_matches_total == args.max_matches_total
        &&& self.max_duration_nanos == nanos(args.duration_mins, NANOS_PER_MINUTE)
        &&& self.idle_limit_nanos == match args.idle_exit_after_mins {
            Some(mins) => Some(nanos(mins, NANOS_PER_MINUTE)),
            None => None,
        }
        &&& self.log_interval_nanos == nanos(args.log_interval_secs, NANOS_PER_SECOND)
        &&& opt_views(self.role_focus) == opt_tags(args.role_focus)
        &&& opt_views(self.allowed_ranks) == opt_tags(args.allow_ranks)
        &&& self.max_new_focus == new_per_match(self.mode)
        &&& self.max_req_per_2min == args.max_req_per_2min
    }

    /// Reads the settings off the options.
    pub fn from_args(args: &KrakenAbsorbArgs) -> (out: CrawlConfig)
        ensures
            out.reads(*args),
    {
        let mode = parse_mode(args.mode.as_str());
        CrawlConfig {
            mode,
            max_matches_per_player: args.max_matches_per_player,
            max_matches_total: args.max_matches_total,
            max_duration_nanos: to_nanos(args.duration_mins, NANOS_PER_MINUTE),
            idle_limit_nanos: match args.idle_exit_after_mins {
                Some(mins) => Some(to_nanos(mins, NANOS_PER_MINUTE)),
                None => None,
            },
            log_interval_nanos: to_nanos(args.log_interval_secs, NANOS_PER_SECOND),
            role_focus: opt_tag_list(&args.role_focus),
            allowed_ranks: opt_tag_list(&args.allow_ranks),
            max_new_focus: max_new_focus(mode),
            max_req_per_2min: args.max_req_per_2min,
        }
    }
}

/// The seeds that lines of text name: each line trimmed, empty ones left out.
pub open spec fn named_seeds(lines: Seq<Seq<char>>) -> Seq<Seq<char>>
    decreases lines.len(),
{
    if lines.len() == 0 {
        Seq::<Seq<char>>::empty()
    } else {
        let before = named_seeds(lines.drop_last());
        let seed = trimmed(lines.last());
        if seed.len() == 0 {
            before
        } else {
            before.push(seed)
        }
    }
}

/// The seeds of a crawl: the one given directly, then those of the seed file.
pub open spec fn seeds_of(seed: Option<Seq<char>>, lines: Option<Seq<Seq<char>>>) -> Seq<Seq<char>> {
    let direct = match seed {
        Some(s) => named_seeds(seq![s]),
        None => Seq::<Seq<char>>::empty(),
    };
    match lines {
        Some(l) => direct + named_seeds(l),
        None => direct,
    }
}

fn push_seeds(out: &mut Vec<String>, lines: &Vec<String>)
    ensures
        views(final(out)@) == views(old(out)@) + named_seeds(views(lines@)),
{
    let mut i: usize = 0;
    assert(views(lines@).take(0) =~= Seq::<Seq<char>>::empty());
    assert(views(out@) + Seq::<Seq<char>>::empty() =~= views(out@));
    while i < lines.len()
        invariant
            i <= lines.len(),
            views(out@) == views(old(out)@) + named_seeds(views(lines@).take(i as int)),
        decreases lines.len() - i,
    {
        assert(views(lines@).take(i as int + 1).drop_last() =~= views(lines@).take(i as int));
        let seed = trim(lines[i].as_str());
        if !seed.as_str().is_empty() {
            let ghost before = out@;
            let ghost name = seed@;
            out.push(seed);
            assert(views(out@) =~= views(before).push(name));
            assert(views(out@) =~= views(old(out)@) + named_seeds(
                views(lines@).take(i as int + 1),
            ));
        }
        i += 1;
    }
    assert(views(lines@).take(lines@.len() as int) =~= views(lines@));
}

/// Collects the seeds of a crawl.
pub fn seed_list(seed_puuid: &Option<String>, seed_lines: &Option<Vec<String>>) -> (out: Vec<
    String,
>)
    ensures
        views(out@) == seeds_of(opt_view(*seed_puuid), opt_views(*seed_lines)),
{
    let mut out: Vec<String> = Vec::new();
    assert(views(out@) =~= Seq::<Seq<char>>::empty());
    match seed_puuid {
        Some(seed) => {
            let one: Vec<String> = vec![seed.clone()];
            assert(views(one@) =~= seq![seed@]);
            push_seeds(&mut out, &one);
            assert(views(out@) =~= named_seeds(seq![seed@]));
        },
        None => {},
    }
    match seed_lines {
        Some(lines) => {
            push_seeds(&mut out, lines);
        },
        None => {},
    }
    out
}

/// Why a crawl does not run.
#[derive(Clone, Copy, Debug, PartialEq, Eq, Structural)]
pub enum CrawlError {
    /// No seed was given, or none entered the frontier.
    EmptySeed,
}

/// Where a crawl stands.
#[derive(Clone, Copy, Debug, PartialEq, Eq, Structural)]
pub enum Phase {
    /// Deciding on the seed at `seed_at`.
    Seeding,
    /// Waiting for the tier of the seed at `seed_at`.
    SeedTier,
    /// At the top of the main loop.
    Frontier,
    /// About to take the next player off the frontier.
    Popping,
    /// Waiting for the match ids of `player`.
    AwaitIds,
    /// Deciding on the match id at `id_at`.
    Ids,
    /// Waiting for the document of the match at `id_at`.
    AwaitMatch,
    /// Deciding on the participant at `participant_at`.
    Participants,
    /// Waiting for the tier of the participant at `participant_at`.
    ParticipantTier,
    /// Waiting for the document of the match at `id_at` to be written.
    AwaitWrite,
    /// Over.
    Done,
}

/// What the caller reports back after an action.
#[derive(Debug)]
pub enum CrawlEvent {
    /// Nothing was asked for.
    Resume,
    /// The tier of the player asked about, `None` for a player without one.
    Tier(Option<String>),
    /// The match ids asked for, in the order they came in.
    MatchIds(Vec<String>),
    /// The document asked for.
    Match(Json),
    /// The document was written.
    Written,
    /// What was asked for could not be done.
    Failed,
}

/// The figures of a progress line.
#[derive(Clone, Copy, Debug, PartialEq, Eq, Structural)]
pub struct Progress {
    pub elapsed_secs: u64,
    pub fetched: usize,
    pub written: usize,
    pub queue: usize,
    pub seen_players: usize,
    pub profiles_10plus: usize,
    /// Players with a record of downloaded matches.
    pub players: usize,
    /// The matches downloaded, summed over those players.
    pub matches_sum: u128,
    pub max_req_per_2min: usize,
}

/// What the caller is asked to do next.
#[derive(Debug)]
pub enum CrawlAction {
    /// Nothing: report `Resume`.
    Continue,
    /// Look up the tier of this player.
    LookupTier(String),
    /// Fetch up to a hundred match ids of this player.
    FetchMatchIds(String),
    /// Fetch the document of this match.
    FetchMatch(String),
    /// Write the document of this match, the one last reported, to the store.
    Write(String),
    /// Print a progress line.
    Log(Progress),
    /// Print the coverage report and stop.
    Finish(Coverage),
    /// Stop with an error.
    Fail(CrawlError),
}

/// An action with its strings as sequences of characters.
pub enum ActionView {
    Continue,
    LookupTier(Seq<char>),
    FetchMatchIds(Seq<char>),
    FetchMatch(Seq<char>),
    Write(Seq<char>),
    Log(Progress),
    Finish(Coverage),
    Fail(CrawlError),
}

impl View for CrawlAction {
    type V = ActionView;

    open spec fn view(&self) -> ActionView {
        match self {
            CrawlAction::Continue => ActionView::Continue,
            CrawlAction::LookupTier(p) => ActionView::LookupTier(p@),
            CrawlAction::FetchMatchIds(p) => ActionView::FetchMatchIds(p@),
            CrawlAction::FetchMatch(m) => ActionView::FetchMatch(m@),
            CrawlAction::Write(m) => ActionView::Write(m@),
            CrawlAction::Log(p) => ActionView::Log(*p),
            CrawlAction::Finish(c) => ActionView::Finish(*c),
            CrawlAction::Fail(e) => ActionView::Fail(*e),
        }
    }
}

/// The state of a crawl as mathematics: strings are sequences of characters, the sets of seen
/// players and matches are sequences without repeats in the order of discovery, and the maps
/// are sequences of key and value.
#[verifier::ext_equal]
pub struct CrawlView {
    pub config: CrawlConfig,
    pub frontier: Seq<Seq<char>>,
    pub seen: Seq<Seq<char>>,
    pub tiers: Seq<(Seq<char>, Option<Seq<char>>)>,
    pub counts: Seq<(Seq<char>, usize)>,
    pub seen_matches: Seq<Seq<char>>,
    pub downloaded: nat,
    pub written: nat,
    pub start: u64,
    pub last_written_at: u64,
    pub last_log: u64,
    pub phase: Phase,
    pub seeds: Seq<Seq<char>>,
    pub seed_at: nat,
    pub player: Seq<char>,
    pub player_count: nat,
    pub ids: Seq<Seq<char>>,
    pub id_at: nat,
    pub participants: Seq<Seq<char>>,
    pub participant_at: nat,
    pub added: nat,
    pub write_allowed: bool,
}

impl CrawlView {
    /// What holds of every state that a crawl reaches.
    pub open spec fn wf(self) -> bool {
        &&& self.seen.no_duplicates()
        &&& self.seen_matches.no_duplicates()
        &&& recorded(self.counts).no_duplicates()
        &&& self.seen_matches.len() == self.downloaded
        &&& self.written <= self.downloaded
        &&& forall|i: int|
            0 <= i < self.counts.len() ==> (#[trigger] self.counts[i]).1
                <= self.config.max_matches_per_player
        &&& self.seed_at <= self.seeds.len()
        &&& self.id_at <= self.ids.len()
        &&& self.participant_at <= self.participants.len()
        &&& self.added <= self.participant_at
        &&& self.player_count <= self.config.max_matches_per_player
        &&& (self.phase == Phase::SeedTier ==> self.seed_at < self.seeds.len())
        &&& (self.phase == Phase::ParticipantTier ==> self.participant_at
            < self.participants.len())
        &&& (self.in_match() ==> self.id_at < self.ids.len() && self.written < self.downloaded
            && self.player_count < self.config.max_matches_per_player)
    }

    /// Whether a match is being worked on.
    pub open spec fn in_match(self) -> bool {
        self.phase == Phase::AwaitMatch || self.phase == Phase::Participants || self.phase
            == Phase::ParticipantTier || self.phase == Phase::AwaitWrite
    }

    pub open spec fn allowed(self) -> Option<Seq<Seq<char>>> {
        opt_views(self.config.allowed_ranks)
    }

    /// Whether the cap on written matches is reached.
    pub open spec fn total_reached(self) -> bool {
        match self.config.max_matches_total {
            Some(cap) => self.written >= cap,
            None => false,
        }
    }

    /// Whether nothing has been written for too long.
    pub open spec fn idle(self, now: u64) -> bool {
        match self.config.idle_limit_nanos {
            Some(limit) => self.written > 0 && elapsed(now, self.last_written_at) >= limit,
            None => false,
        }
    }

    /// Whether the crawl ends at the top of the main loop.
    pub open spec fn should_stop(self, now: u64) -> bool {
        self.frontier.len() == 0 || elapsed(now, self.start) >= self.config.max_duration_nanos
            || self.total_reached() || self.idle(now)
    }

    pub open spec fn progress(self, now: u64) -> Progress {
        Progress {
            elapsed_secs: elapsed(now, self.start) / NANOS_PER_SECOND,
            fetched: self.downloaded as usize,
            written: self.written as usize,
            queue: self.frontier.len() as usize,
            seen_players: self.seen.len() as usize,
            profiles_10plus: at_least(self.counts, 10) as usize,
            players: self.counts.len() as usize,
            matches_sum: matches_sum(self.counts) as u128,
            max_req_per_2min: self.config.max_req_per_2min,
        }
    }

    pub open spec fn coverage(self) -> Coverage {
        coverage_of(self.counts, self.written as usize)
    }

    /// The step from `Seeding`: with no seed left, the crawl fails on an empty frontier and
    /// else starts its clocks; a seed is decided on, or its tier asked for.
    pub open spec fn seeding(self, now: Clock) -> (CrawlView, ActionView) {
        if self.seed_at >= self.seeds.len() {
            if self.frontier.len() == 0 {
                (CrawlView { phase: Phase::Done, ..self }, ActionView::Fail(CrawlError::EmptySeed))
            } else {
                (
                    CrawlView {
                        phase: Phase::Frontier,
                        start: now.monotonic_nanos,
                        last_written_at: now.monotonic_nanos,
                        last_log: now.monotonic_nanos,
                        ..self
                    },
                    ActionView::Continue,
                )
            }
        } else {
            let puuid = self.seeds[self.seed_at as int];
            let verdict = admission(
                puuid,
                self.seen,
                self.allowed(),
                self.tiers,
                self.config.mode,
                None,
                count_of(self.counts, puuid),
            );
            if verdict == Verdict::NeedsTier {
                (CrawlView { phase: Phase::SeedTier, ..self }, ActionView::LookupTier(puuid))
            } else {
                (
                    CrawlView {
                        seen: seen_after(self.seen, puuid, verdict),
                        frontier: frontier_after(self.frontier, puuid, verdict),
                        seed_at: self.seed_at + 1,
                        ..self
                    },
                    ActionView::Continue,
                )
            }
        }
    }

    /// The step on the answer to a tier lookup: a tier is cached in upper case and the
    /// candidate decided on again; without an answer the candidate is passed over.
    pub open spec fn tier_arrived(self, event: CrawlEvent) -> (CrawlView, ActionView) {
        let seeding = self.phase == Phase::SeedTier;
        let puuid = if seeding {
            self.seeds[self.seed_at as int]
        } else {
            self.participants[self.participant_at as int]
        };
        let back = if seeding {
            Phase::Seeding
        } else {
            Phase::Participants
        };
        match event {
            CrawlEvent::Tier(tier) => (
                CrawlView {
                    tiers: self.tiers.push(
                        (
                            puuid,
                            match tier {
                                Some(t) => Some(uppercase(t@)),
                                None => None,
                            },
                        ),
                    ),
                    phase: back,
                    ..self
                },
                ActionView::Continue,
            ),
            _ => if seeding {
                (
                    CrawlView { seed_at: self.seed_at + 1, phase: back, ..self },
                    ActionView::Continue,
                )
            } else {
                (
                    CrawlView {
                        participant_at: self.participant_at + 1,
                        phase: back,
                        ..self
                    },
                    ActionView::Continue,
                )
            },
        }
    }

    /// The step from the top of the main loop: the crawl ends, or a progress line is due, or
    /// the next player is taken off the frontier.
    pub open spec fn top(self, now: Clock) -> (CrawlView, ActionView) {
        if self.should_stop(now.monotonic_nanos) {
            (CrawlView { phase: Phase::Done, ..self }, ActionView::Finish(self.coverage()))
        } else if elapsed(now.monotonic_nanos, self.last_log) >= self.config.log_interval_nanos {
            (
                CrawlView { last_log: now.monotonic_nanos, phase: Phase::Popping, ..self },
                ActionView::Log(self.progress(now.monotonic_nanos)),
            )
        } else {
            self.pop()
        }
    }

    /// The step that takes a player off the frontier: one at the cap of matches per player is
    /// passed over, for any other the match ids are asked for.
    pub open spec fn pop(self) -> (CrawlView, ActionView) {
        if self.frontier.len() == 0 {
            (CrawlView { phase: Phase::Done, ..self }, ActionView::Finish(self.coverage()))
        } else {
            let puuid = self.frontier[0];
            let count = count_of(self.counts, puuid);
            if count >= self.config.max_matches_per_player {
                (
                    CrawlView { frontier: self.frontier.drop_first(), phase: Phase::Frontier, ..self },
                    ActionView::Continue,
                )
            } else {
                (
                    CrawlView {
                        frontier: self.frontier.drop_first(),
                        player: puuid,
                        player_count: count as nat,
                        phase: Phase::AwaitIds,
                        ..self
                    },
                    ActionView::FetchMatchIds(puuid),
                )
            }
        }
    }

    /// The step on the answer to a request for match ids.
    pub open spec fn ids_arrived(self, event: CrawlEvent) -> (CrawlView, ActionView) {
        match event {
            CrawlEvent::MatchIds(ids) => (
                CrawlView { ids: views(ids@), id_at: 0, phase: Phase::Ids, ..self },
                ActionView::Continue,
            ),
            _ => (CrawlView { phase: Phase::Frontier, ..self }, ActionView::Continue),
        }
    }

    /// The step on a match id: with no id left or a cap reached the player's count is
    /// recorded; a match seen before is passed over; any other is marked as seen, counted as
    /// downloaded and asked for.
    pub open spec fn next_id(self) -> (CrawlView, ActionView) {
        if self.id_at >= self.ids.len() || self.total_reached() || self.player_count
            >= self.config.max_matches_per_player {
            (
                CrawlView {
                    counts: with_count(self.counts, self.player, self.player_count as usize),
                    phase: Phase::Frontier,
                    ..self
                },
                ActionView::Continue,
            )
        } else {
            let id = self.ids[self.id_at as int];
            if self.seen_matches.contains(id) {
                (CrawlView { id_at: self.id_at + 1, ..self }, ActionView::Continue)
            } else {
                (
                    CrawlView {
                        seen_matches: self.seen_matches.push(id),
                        downloaded: self.downloaded + 1,
                        phase: Phase::AwaitMatch,
                        ..self
                    },
                    ActionView::FetchMatch(id),
                )
            }
        }
    }

    /// The step on the answer to a request for a document: a recent ranked match has its
    /// participants gone through, anything else is passed over.
    pub open spec fn match_arrived(self, event: CrawlEvent, now: Clock) -> (CrawlView, ActionView) {
        match event {
            CrawlEvent::Match(doc) => if recent_match(doc, now.unix_millis, MAX_AGE_DAYS)
                && ranked_match(doc) {
                (
                    CrawlView {
                        write_allowed: passes_roles(doc, opt_views(self.config.role_focus)),
                        participants: listed_players(doc),
                        participant_at: 0,
                        added: 0,
                        phase: Phase::Participants,
                        ..self
                    },
                    ActionView::Continue,
                )
            } else {
                (
                    CrawlView { id_at: self.id_at + 1, phase: Phase::Ids, ..self },
                    ActionView::Continue,
                )
            },
            _ => (
                CrawlView { id_at: self.id_at + 1, phase: Phase::Ids, ..self },
                ActionView::Continue,
            ),
        }
    }

    /// Whether the participants of the current match are only marked as seen.
    pub open spec fn closed(self) -> bool {
        self.config.mode == KrakenMode::SeedOnly || (self.config.mode == KrakenMode::Focus
            && self.added >= self.config.max_new_focus)
    }

    /// The slots that the current match has left.
    pub open spec fn slots(self) -> usize {
        if self.config.max_new_focus >= self.added {
            (self.config.max_new_focus - self.added) as usize
        } else {
            0
        }
    }

    /// The step on a participant: with none left the match is written, if it may be, and
    /// counted for the player; a participant is marked as seen, or decided on, or its tier
    /// asked for.
    pub open spec fn next_participant(self) -> (CrawlView, ActionView) {
        if self.participant_at >= self.participants.len() {
            if self.write_allowed {
                (
                    CrawlView { phase: Phase::AwaitWrite, ..self },
                    ActionView::Write(self.ids[self.id_at as int]),
                )
            } else {
                (
                    CrawlView {
                        player_count: self.player_count + 1,
                        id_at: self.id_at + 1,
                        phase: Phase::Ids,
                        ..self
                    },
                    ActionView::Continue,
                )
            }
        } else {
            let puuid = self.participants[self.participant_at as int];
            if self.closed() {
                (
                    CrawlView {
                        seen: if self.seen.contains(puuid) {
                            self.seen
                        } else {
                            self.seen.push(puuid)
                        },
                        participant_at: self.participant_at + 1,
                        ..self
                    },
                    ActionView::Continue,
                )
            } else {
                let verdict = admission(
                    puuid,
                    self.seen,
                    self.allowed(),
                    self.tiers,
                    self.config.mode,
                    Some(self.slots()),
                    count_of(self.counts, puuid),
                );
                if verdict == Verdict::NeedsTier {
                    (
                        CrawlView { phase: Phase::ParticipantTier, ..self },
                        ActionView::LookupTier(puuid),
                    )
                } else {
                    (
                        CrawlView {
                            seen: seen_after(self.seen, puuid, verdict),
                            frontier: frontier_after(self.frontier, puuid, verdict),
                            added: if verdict.admits() {
                                self.added + 1
                            } else {
                                self.added
                            },
                            participant_at: self.participant_at + 1,
                            ..self
                        },
                        ActionView::Continue,
                    )
                }
            }
        }
    }

    /// The step on the answer to a request to write: a written match is counted, in total and
    /// for the player; one that could not be written is passed over.
    pub open spec fn write_done(self, event: CrawlEvent, now: Clock) -> (CrawlView, ActionView) {
        match event {
            CrawlEvent::Written => (
                CrawlView {
                    written: self.written + 1,
                    last_written_at: now.monotonic_nanos,
                    player_count: self.player_count + 1,
                    id_at: self.id_at + 1,
                    phase: Phase::Ids,
                    ..self
                },
                ActionView::Continue,
            ),
            _ => (
                CrawlView { id_at: self.id_at + 1, phase: Phase::Ids, ..self },
                ActionView::Continue,
            ),
        }
    }

    /// The state after one step and the action that the step asks for. An event that does
    /// not answer what was asked counts as a failure of what was asked.
    pub open spec fn next(self, event: CrawlEvent, now: Clock) -> (CrawlView, ActionView) {
        match self.phase {
            Phase::Seeding => self.seeding(now),
            Phase::SeedTier => self.tier_arrived(event),
            Phase::Frontier => self.top(now),
            Phase::Popping => self.pop(),
            Phase::AwaitIds => self.ids_arrived(event),
            Phase::Ids => self.next_id(),
            Phase::AwaitMatch => self.match_arrived(event, now),
            Phase::Participants => self.next_participant(),
            Phase::ParticipantTier => self.tier_arrived(event),
            Phase::AwaitWrite => self.write_done(event, now),
            Phase::Done => (self, ActionView::Finish(self.coverage())),
        }
    }
}

/// A crawl in progress. It does no outside work itself: each step takes the answer to what
/// the step before asked for and says what to do next.
///
/// The players and the matches seen are lists without repeats in the order of discovery,
/// searched in order; they stand where hash sets of strings would, of which nothing can be
/// proved.
pub struct Crawler {
    config: CrawlConfig,
    queue: VecDeque<String>,
    seen_puuids: Vec<String>,
    rank_cache: TierCache,
    matches_per_player: MatchCounts,
    seen_match_ids: Vec<String>,
    downloaded_matches: usize,
    written_matches: usize,
    start: u64,
    last_written_at: u64,
    last_log: u64,
    phase: Phase,
    seeds: Vec<String>,
    seed_at: usize,
    player: String,
    player_count: usize,
    ids: Vec<String>,
    id_at: usize,
    participants: Vec<String>,
    participant_at: usize,
    added: usize,
    write_allowed: bool,
}

impl View for Crawler {
    type V = CrawlView;

    closed spec fn view(&self) -> CrawlView {
        CrawlView {
            config: self.config,
            frontier: views(self.queue@),
            seen: views(self.seen_puuids@),
            tiers: tier_views(self.rank_cache@),
            counts: count_views(self.matches_per_player@),
            seen_matches: views(self.seen_match_ids@),
            downloaded: self.downloaded_matches as nat,
            written: self.written_matches as nat,
            start: self.start,
            last_written_at: self.last_written_at,
            last_log: self.last_log,
            phase: self.phase,
            seeds: views(self.seeds@),
            seed_at: self.seed_at as nat,
            player: self.player@,
            player_count: self.player_count as nat,
            ids: views(self.ids@),
            id_at: self.id_at as nat,
            participants: views(self.participants@),
            participant_at: self.participant_at as nat,
            added: self.added as nat,
            write_allowed: self.write_allowed,
        }
    }
}

/// The state in which a crawl with these settings and seeds sets out.
pub open spec fn initial(config: CrawlConfig, seeds: Seq<Seq<char>>) -> CrawlView {
    CrawlView {
        config,
        frontier: Seq::empty(),
        seen: Seq::empty(),
        tiers: Seq::empty(),
        counts: Seq::empty(),
        seen_matches: Seq::empty(),
        downloaded: 0,
        written: 0,
        start: 0,
        last_written_at: 0,
        last_log: 0,
        phase: Phase::Seeding,
        seeds,
        seed_at: 0,
        player: Seq::empty(),
        player_count: 0,
        ids: Seq::empty(),
        id_at: 0,
        participants: Seq::empty(),
        participant_at: 0,
        added: 0,
        write_allowed: false,
    }
}

/// The players that have a record of matches.
pub open spec fn recorded(counts: Seq<(Seq<char>, usize)>) -> Seq<Seq<char>> {
    counts.map_values(|e: (Seq<char>, usize)| e.0)
}

proof fn lemma_push_fresh(s: Seq<Seq<char>>, x: Seq<char>)
    requires
        s.no_duplicates(),
        !s.contains(x),
    ensures
        s.push(x).no_duplicates(),
{
    assert forall|i: int, j: int|
        0 <= i < s.push(x).len() && 0 <= j < s.push(x).len() && i != j implies s.push(x)[i]
        != s.push(x)[j] by {
        if i < s.len() && j < s.len() {
        } else if i < s.len() {
            assert(s[i] != x);
        } else {
            assert(s[j] != x);
        }
    }
}

proof fn lemma_with_count_recorded(counts: Seq<(Seq<char>, usize)>, puuid: Seq<char>, value: usize)
    ensures
        recorded(with_count(counts, puuid, value)) == if recorded(counts).contains(puuid) {
            recorded(counts)
        } else {
            recorded(counts).push(puuid)
        },
    decreases counts.len(),
{
    let after = with_count(counts, puuid, value);
    if counts.len() == 0 {
        assert(!recorded(counts).contains(puuid));
        assert(recorded(after) =~= recorded(counts).push(puuid));
    } else if counts[0].0 == puuid {
        assert(recorded(counts)[0] == puuid);
        assert(recorded(after) =~= recorded(counts));
    } else {
        let rest = counts.drop_first();
        lemma_with_count_recorded(rest, puuid, value);
        assert(recorded(rest) =~= recorded(counts).drop_first());
        let tail = with_count(rest, puuid, value);
        assert(recorded(after) =~= seq![counts[0].0] + recorded(tail));
        if recorded(counts).contains(puuid) {
            let i = choose|i: int| 0 <= i < recorded(counts).len() && recorded(counts)[i] == puuid;
            assert(i > 0);
            assert(recorded(rest)[i - 1] == puuid);
            assert(recorded(rest).contains(puuid));
            assert(recorded(after) =~= recorded(counts));
        } else {
            if recorded(rest).contains(puuid) {
                let i = choose|i: int| 0 <= i < recorded(rest).len() && recorded(rest)[i] == puuid;
                assert(recorded(counts)[i + 1] == puuid);
            }
            assert(recorded(after) =~= recorded(counts).push(puuid));
        }
    }
}

proof fn lemma_with_count_capped(
    counts: Seq<(Seq<char>, usize)>,
    puuid: Seq<char>,
    value: usize,
    cap: usize,
)
    requires
        forall|i: int| 0 <= i < counts.len() ==> (#[trigger] counts[i]).1 <= cap,
        value <= cap,
    ensures
        forall|i: int|
            0 <= i < with_count(counts, puuid, value).len() ==> (#[trigger] with_count(
                counts,
                puuid,
                value,
            )[i]).1 <= cap,
    decreases counts.len(),
{
    if counts.len() == 0 {
    } else if counts[0].0 == puuid {
    } else {
        let rest = counts.drop_first();
        assert forall|i: int| 0 <= i < rest.len() implies (#[trigger] rest[i]).1 <= cap by {
            assert(rest[i] == counts[i + 1]);
        }
        lemma_with_count_capped(rest, puuid, value, cap);
        let tail = with_count(rest, puuid, value);
        assert forall|i: int| 0 <= i < with_count(counts, puuid, value).len() implies (
        #[trigger] with_count(counts, puuid, value)[i]).1 <= cap by {
            if i > 0 {
                assert(with_count(counts, puuid, value)[i] == tail[i - 1]);
            }
        }
    }
}

/// Every step keeps what holds of every state: no player and no match is listed twice among
/// those seen, and no player twice among those with a record; the seen matches are as many as
/// were counted as downloaded; no more matches are written than downloaded; and no player has
/// more matches on record than the cap per player.
pub proof fn lemma_step_keeps_wf(v: CrawlView, event: CrawlEvent, now: Clock)
    requires
        v.wf(),
    ensures
        v.next(event, now).0.wf(),
        v.next(event, now).0.config == v.config,
{
    match v.phase {
        Phase::Ids => {
            lemma_with_count_capped(
                v.counts,
                v.player,
                v.player_count as usize,
                v.config.max_matches_per_player,
            );
            lemma_with_count_recorded(v.counts, v.player, v.player_count as usize);
            if recorded(v.counts).no_duplicates() && !recorded(v.counts).contains(v.player) {
                lemma_push_fresh(recorded(v.counts), v.player);
            }
            if v.id_at < v.ids.len() && !v.seen_matches.contains(v.ids[v.id_at as int]) {
                lemma_push_fresh(v.seen_matches, v.ids[v.id_at as int]);
            }
        },
        Phase::Seeding => {
            if v.seed_at < v.seeds.len() && !v.seen.contains(v.seeds[v.seed_at as int]) {
                lemma_push_fresh(v.seen, v.seeds[v.seed_at as int]);
            }
        },
        Phase::Participants => {
            if v.participant_at < v.participants.len() && !v.seen.contains(
                v.participants[v.participant_at as int],
            ) {
                lemma_push_fresh(v.seen, v.participants[v.participant_at as int]);
            }
        },
        _ => {},
    }
}

/// No step takes a player out of the seen players: what was seen stays, in place.
pub proof fn lemma_seen_only_grows(v: CrawlView, event: CrawlEvent, now: Clock)
    ensures
        v.seen.is_prefix_of(v.next(event, now).0.seen),
        v.seen.len() <= v.next(event, now).0.seen.len(),
        v.seen_matches.is_prefix_of(v.next(event, now).0.seen_matches),
{
}

impl Crawler {
    /// Sets a crawl up on its seeds; there must be one at least.
    pub fn new(config: CrawlConfig, seeds: Vec<String>) -> (out: Result<Crawler, CrawlError>)
        ensures
            out is Err <==> seeds@.len() == 0,
            out is Ok ==> out->Ok_0@ == initial(config, views(seeds@)) && out->Ok_0@.wf(),
    {
        if seeds.len() == 0 {
            return Err(CrawlError::EmptySeed);
        }
        let crawler = Crawler {
            config,
            queue: VecDeque::new(),
            seen_puuids: Vec::new(),
            rank_cache: Vec::new(),
            matches_per_player: Vec::new(),
            seen_match_ids: Vec::new(),
            downloaded_matches: 0,
            written_matches: 0,
            start: 0,
            last_written_at: 0,
            last_log: 0,
            phase: Phase::Seeding,
            seeds,
            seed_at: 0,
            player: String::new(),
            player_count: 0,
            ids: Vec::new(),
            id_at: 0,
            participants: Vec::new(),
            participant_at: 0,
            added: 0,
            write_allowed: false,
        };
        assert(crawler@ =~= initial(crawler.config, views(crawler.seeds@)));
        Ok(crawler)
    }

    fn step_seeding(&mut self, now: Clock) -> (out: CrawlAction)
        requires
            old(self)@.wf(),
            old(self)@.phase == Phase::Seeding,
        ensures
            (final(self)@, out@) == old(self)@.seeding(now),
    {
        if self.seed_at >= self.seeds.len() {
            if self.queue.len() == 0 {
                self.phase = Phase::Done;
                return CrawlAction::Fail(CrawlError::EmptySeed);
            }
            self.phase = Phase::Frontier;
            self.start = now.monotonic_nanos;
            self.last_written_at = now.monotonic_nanos;
            self.last_log = now.monotonic_nanos;
            return CrawlAction::Continue;
        }
        let puuid = self.seeds[self.seed_at].clone();
        let count = matches_of(&self.matches_per_player, puuid.as_str());
        let verdict = kraken_maybe_enqueue_player(
            puuid.as_str(),
            &mut self.seen_puuids,
            &mut self.queue,
            &self.config.allowed_ranks,
            &self.rank_cache,
            self.config.mode,
            None,
            count,
        );
        match verdict {
            Verdict::NeedsTier => {
                self.phase = Phase::SeedTier;
                CrawlAction::LookupTier(puuid)
            },
            _ => {
                self.seed_at += 1;
                CrawlAction::Continue
            },
        }
    }

    fn step_tier(&mut self, event: CrawlEvent) -> (out: CrawlAction)
        requires
            old(self)@.wf(),
            old(self)@.phase == Phase::SeedTier || old(self)@.phase == Phase::ParticipantTier,
        ensures
            (final(self)@, out@) == old(self)@.tier_arrived(event),
    {
        let seeding: bool = match self.phase {
            Phase::SeedTier => true,
            _ => false,
        };
        assert(self.seeds@.len() == self.seeds.len());
        assert(self.participants@.len() == self.participants.len());
        match event {
            CrawlEvent::Tier(tier) => {
                let puuid = if seeding {
                    self.seeds[self.seed_at].clone()
                } else {
                    self.participants[self.participant_at].clone()
                };
                let upper: Option<String> = match tier {
                    Some(t) => Some(to_upper(t.as_str())),
                    None => None,
                };
                let ghost before = self.rank_cache@;
                let ghost entry = (puuid@, opt_view(upper));
                self.rank_cache.push((puuid, upper));
                assert(tier_views(self.rank_cache@) =~= tier_views(before).push(entry));
            },
            _ => {
                if seeding {
                    self.seed_at += 1;
                } else {
                    self.participant_at += 1;
                }
            },
        }
        self.phase = if seeding {
            Phase::Seeding
        } else {
            Phase::Participants
        };
        CrawlAction::Continue
    }

    fn total_reached(&self) -> (out: bool)
        ensures
            out == self@.total_reached(),
    {
        match self.config.max_matches_total {
            Some(cap) => self.written_matches >= cap,
            None => false,
        }
    }

    fn should_stop(&self, now: u64) -> (out: bool)
        ensures
            out == self@.should_stop(now),
    {
        let idle: bool = match self.config.idle_limit_nanos {
            Some(limit) => self.written_matches > 0 && elapsed_between(now, self.last_written_at)
                >= limit,
            None => false,
        };
        self.queue.len() == 0 || elapsed_between(now, self.start) >= self.config.max_duration_nanos
            || self.total_reached() || idle
    }

    /// What the crawl has covered so far.
    pub fn coverage(&self) -> (out: Coverage)
        ensures
            out == self@.coverage(),
    {
        print_coverage_stats(&self.matches_per_player, self.written_matches)
    }

    /// The figures of a progress line at `now`.
    pub fn progress(&self, now: u64) -> (out: Progress)
        ensures
            out == self@.progress(now),
    {
        Progress {
            elapsed_secs: elapsed_between(now, self.start) / NANOS_PER_SECOND,
            fetched: self.downloaded_matches,
            written: self.written_matches,
            queue: self.queue.len(),
            seen_players: self.seen_puuids.len(),
            profiles_10plus: count_at_least(&self.matches_per_player, 10),
            players: self.matches_per_player.len(),
            matches_sum: sum_matches(&self.matches_per_player),
            max_req_per_2min: self.config.max_req_per_2min,
        }
    }

    fn step_top(&mut self, now: Clock) -> (out: CrawlAction)
        requires
            old(self)@.wf(),
            old(self)@.phase == Phase::Frontier,
        ensures
            (final(self)@, out@) == old(self)@.top(now),
    {
        if self.should_stop(now.monotonic_nanos) {
            let report = self.coverage();
            self.phase = Phase::Done;
            return CrawlAction::Finish(report);
        }
        if elapsed_between(now.monotonic_nanos, self.last_log) >= self.config.log_interval_nanos {
            let line = self.progress(now.monotonic_nanos);
            self.last_log = now.monotonic_nanos;
            self.phase = Phase::Popping;
            return CrawlAction::Log(line);
        }
        self.step_pop()
    }

    fn step_pop(&mut self) -> (out: CrawlAction)
        requires
            old(self)@.wf(),
        ensures
            (final(self)@, out@) == old(self)@.pop(),
    {
        let ghost before = self.queue@;
        match self.queue.pop_front() {
            None => {
                let report = self.coverage();
                self.phase = Phase::Done;
                CrawlAction::Finish(report)
            },
            Some(puuid) => {
                assert(views(self.queue@) =~= views(before).drop_first());
                let count = matches_of(&self.matches_per_player, puuid.as_str());
                if count >= self.config.max_matches_per_player {
                    self.phase = Phase::Frontier;
                    CrawlAction::Continue
                } else {
                    self.player = puuid.clone();
                    self.player_count = count;
                    self.phase = Phase::AwaitIds;
                    CrawlAction::FetchMatchIds(puuid)
                }
            },
        }
    }

    fn step_ids_arrived(&mut self, event: CrawlEvent) -> (out: CrawlAction)
        requires
            old(self)@.wf(),
            old(self)@.phase == Phase::AwaitIds,
        ensures
            (final(self)@, out@) == old(self)@.ids_arrived(event),
    {
        match event {
            CrawlEvent::MatchIds(ids) => {
                self.ids = ids;
                self.id_at = 0;
                self.phase = Phase::Ids;
            },
            _ => {
                self.phase = Phase::Frontier;
            },
        }
        CrawlAction::Continue
    }

    fn step_next_id(&mut self) -> (out: CrawlAction)
        requires
            old(self)@.wf(),
            old(self)@.phase == Phase::Ids,
        ensures
            (final(self)@, out@) == old(self)@.next_id(),
    {
        if self.id_at >= self.ids.len() || self.total_reached() || self.player_count
            >= self.config.max_matches_per_player {
            let player = self.player.clone();
            record_matches(&mut self.matches_per_player, player.as_str(), self.player_count);
            self.phase = Phase::Frontier;
            return CrawlAction::Continue;
        }
        let id = self.ids[self.id_at].clone();
        proof {
            lemma_holds_views(self.seen_match_ids@, id@);
        }
        if contains_str(&self.seen_match_ids, id.as_str()) {
            assert(self.ids@.len() == self.ids.len());
            self.id_at += 1;
            return CrawlAction::Continue;
        }
        let ghost before = self.seen_match_ids@;
        self.seen_match_ids.push(id.clone());
        assert(views(self.seen_match_ids@) =~= views(before).push(id@));
        assert(self.seen_match_ids@.len() == self.seen_match_ids.len());
        self.downloaded_matches += 1;
        self.phase = Phase::AwaitMatch;
        CrawlAction::FetchMatch(id)
    }

    fn step_match_arrived(&mut self, event: CrawlEvent, now: Clock) -> (out: CrawlAction)
        requires
            old(self)@.wf(),
            old(self)@.phase == Phase::AwaitMatch,
        ensures
            (final(self)@, out@) == old(self)@.match_arrived(event, now),
    {
        match event {
            CrawlEvent::Match(doc) => {
                if is_recent_match(&doc, now.unix_millis, MAX_AGE_DAYS) && is_ranked_match(&doc) {
                    self.write_allowed = kraken_match_passes_roles(&doc, &self.config.role_focus);
                    self.participants = participants_of(&doc);
                    self.participant_at = 0;
                    self.added = 0;
                    self.phase = Phase::Participants;
                    return CrawlAction::Continue;
                }
            },
            _ => {},
        }
        assert(self.ids@.len() == self.ids.len());
        self.id_at += 1;
        self.phase = Phase::Ids;
        CrawlAction::Continue
    }

    fn step_next_participant(&mut self) -> (out: CrawlAction)
        requires
            old(self)@.wf(),
            old(self)@.phase == Phase::Participants,
        ensures
            (final(self)@, out@) == old(self)@.next_participant(),
    {
        if self.participant_at >= self.participants.len() {
            if self.write_allowed {
                self.phase = Phase::AwaitWrite;
                return CrawlAction::Write(self.ids[self.id_at].clone());
            }
            assert(self.ids@.len() == self.ids.len());
            self.player_count += 1;
            self.id_at += 1;
            self.phase = Phase::Ids;
            return CrawlAction::Continue;
        }
        let puuid = self.participants[self.participant_at].clone();
        let closed: bool = match self.config.mode {
            KrakenMode::SeedOnly => true,
            KrakenMode::Focus => self.added >= self.config.max_new_focus,
            KrakenMode::Explore => false,
        };
        if closed {
            proof {
                lemma_holds_views(self.seen_puuids@, puuid@);
            }
            if !contains_str(&self.seen_puuids, puuid.as_str()) {
                let ghost before = self.seen_puuids@;
                self.seen_puuids.push(puuid);
                assert(views(self.seen_puuids@) =~= views(before).push(puuid@));
            }
            self.participant_at += 1;
            return CrawlAction::Continue;
        }
        let slots: usize = if self.config.max_new_focus >= self.added {
            self.config.max_new_focus - self.added
        } else {
            0
        };
        let count = matches_of(&self.matches_per_player, puuid.as_str());
        let verdict = kraken_maybe_enqueue_player(
            puuid.as_str(),
            &mut self.seen_puuids,
            &mut self.queue,
            &self.config.allowed_ranks,
            &self.rank_cache,
            self.config.mode,
            Some(slots),
            count,
        );
        match verdict {
            Verdict::NeedsTier => {
                self.phase = Phase::ParticipantTier;
                CrawlAction::LookupTier(puuid)
            },
            _ => {
                if verdict.enqueued() {
                    self.added += 1;
                }
                self.participant_at += 1;
                CrawlAction::Continue
            },
        }
    }

    fn step_write_done(&mut self, event: CrawlEvent, now: Clock) -> (out: CrawlAction)
        requires
            old(self)@.wf(),
            old(self)@.phase == Phase::AwaitWrite,
        ensures
            (final(self)@, out@) == old(self)@.write_done(event, now),
    {
        match event {
            CrawlEvent::Written => {
                self.written_matches += 1;
                self.last_written_at = now.monotonic_nanos;
                self.player_count += 1;
            },
            _ => {},
        }
        assert(self.ids@.len() == self.ids.len());
        self.id_at += 1;
        self.phase = Phase::Ids;
        CrawlAction::Continue
    }

    /// Takes one step: `event` answers what the step before asked for, `now` is the time of
    /// this step.
    pub fn step(&mut self, event: CrawlEvent, now: Clock) -> (out: CrawlAction)
        requires
            old(self)@.wf(),
        ensures
            (final(self)@, out@) == old(self)@.next(event, now),
            final(self)@.wf(),
            final(self)@.config == old(self)@.config,
            old(self)@.seen.is_prefix_of(final(self)@.seen),
            final(self)@.seen_matches.len() == final(self)@.downloaded,
    {
        proof {
            lemma_step_keeps_wf(self@, event, now);
            lemma_seen_only_grows(self@, event, now);
        }
        match self.phase {
            Phase::Seeding => self.step_seeding(now),
            Phase::SeedTier => self.step_tier(event),
            Phase::Frontier => self.step_top(now),
            Phase::Popping => self.step_pop(),
            Phase::AwaitIds => self.step_ids_arrived(event),
            Phase::Ids => self.step_next_id(),
            Phase::AwaitMatch => self.step_match_arrived(event, now),
            Phase::Participants => self.step_next_participant(),
            Phase::ParticipantTier => self.step_tier(event),
            Phase::AwaitWrite => self.step_write_done(event, now),
            Phase::Done => CrawlAction::Finish(self.coverage()),
        }
    }

    /// Where the crawl stands.
    pub fn phase(&self) -> (out: Phase)
        ensures
            out == self@.phase,
    {
        self.phase
    }

    /// The players waiting to be processed, next first.
    pub fn frontier(&self) -> (out: Vec<String>)
        ensures
            views(out@) == self@.frontier,
    {
        let mut out: Vec<String> = Vec::new();
        let mut i: usize = 0;
        while i < self.queue.len()
            invariant
                i <= self.queue.len(),
                views(out@) == views(self.queue@).take(i as int),
            decreases self.queue.len() - i,
        {
            let ghost before = out@;
            let item = self.queue[i].clone();
            assert(item@ == self.queue@[i as int]@);
            out.push(item);
            assert(views(out@) =~= views(before).push(self.queue@[i as int]@));
            assert(views(out@) =~= views(self.queue@).take(i as int + 1));
            i += 1;
        }
        assert(views(self.queue@).take(self.queue@.len() as int) =~= views(self.queue@));
        out
    }

    /// The number of players seen so far.
    pub fn seen_players(&self) -> (out: usize)
        ensures
            out == self@.seen.len(),
    {
        self.seen_puuids.len()
    }

    /// Whether a player has been seen.
    pub fn has_seen(&self, puuid: &str) -> (out: bool)
        ensures
            out == self@.seen.contains(puuid@),
    {
        proof {
            lemma_holds_views(self.seen_puuids@, puuid@);
        }
        contains_str(&self.seen_puuids, puuid)
    }

    /// The number of matches counted as downloaded.
    pub fn downloaded_matches(&self) -> (out: usize)
        ensures
            out == self@.downloaded,
    {
        self.downloaded_matches
    }

    /// The number of matches written.
    pub fn written_matches(&self) -> (out: usize)
        ensures
            out == self@.written,
    {
        self.written_matches
    }

    /// The number of matches on record for a player.
    pub fn matches_for(&self, puuid: &str) -> (out: usize)
        ensures
            out == count_of(self@.counts, puuid@),
    {
        matches_of(&self.matches_per_player, puuid)
    }
}

/// Sets up the crawl that `args` ask for. `seed_lines` are the lines of the seed file, where
/// one is named. Fails when no seed is left after trimming.
pub fn kraken_absorb_run(args: &KrakenAbsorbArgs, seed_lines: &Option<Vec<String>>) -> (out: Result<
    Crawler,
    CrawlError,
>)
    ensures
        out is Err <==> seeds_of(opt_view(args.seed_puuid), opt_views(*seed_lines)).len() == 0,
        out is Err ==> out->Err_0 == CrawlError::EmptySeed,
        out is Ok ==> {
            &&& out->Ok_0@.config.reads(*args)
            &&& out->Ok_0@ == initial(
                out->Ok_0@.config,
                seeds_of(opt_view(args.seed_puuid), opt_views(*seed_lines)),
            )
            &&& out->Ok_0@.wf()
        },
{
    let seeds = seed_list(&args.seed_puuid, seed_lines);
    Crawler::new(CrawlConfig::from_args(args), seeds)
}

/// Requests per two minutes in a short crawl.
pub const EAT_MAX_REQ_PER_2MIN: usize = 60;

/// Matches per player in a short crawl.
pub const EAT_MAX_MATCHES_PER_PLAYER: usize = 20;

/// Matches written in a short crawl, at most.
pub const EAT_MAX_MATCHES_TOTAL: usize = 1000;

/// Minutes without a write after which a short crawl ends.
pub const EAT_IDLE_EXIT_AFTER_MINS: u64 = 10;

/// Seconds between two progress lines of a short crawl.
pub const EAT_LOG_INTERVAL_SECS: u64 = 45;

/// Minutes a short crawl runs unless told otherwise.
pub const EAT_DURATION_MINS: u64 = 10;

/// Whether `config` holds the fixed settings of a short crawl that runs for `duration_mins`,
/// ten minutes where none are given.
pub open spec fn eat_settings(config: CrawlConfig, duration_mins: Option<u64>) -> bool {
    &&& config.mode == KrakenMode::Explore
    &&& config.max_matches_per_player == EAT_MAX_MATCHES_PER_PLAYER
    &&& config.max_matches_total == Some(EAT_MAX_MATCHES_TOTAL)
    &&& config.max_duration_nanos == nanos(
        match duration_mins {
            Some(mins) => mins,
            None => EAT_DURATION_MINS,
        },
        NANOS_PER_MINUTE,
    )
    &&& config.idle_limit_nanos == Some(nanos(EAT_IDLE_EXIT_AFTER_MINS, NANOS_PER_MINUTE))
    &&& config.log_interval_nanos == nanos(EAT_LOG_INTERVAL_SECS, NANOS_PER_SECOND)
    &&& config.role_focus is None
    &&& config.allowed_ranks is None
    &&& config.max_new_focus == new_per_match(KrakenMode::Explore)
    &&& config.max_req_per_2min == EAT_MAX_REQ_PER_2MIN
}

/// Sets up a short crawl from one seed, with fixed settings.
pub fn kraken_eat_run(args: &KrakenEatArgs) -> (out: Result<Crawler, CrawlError>)
    ensures
        out is Err <==> trimmed(args.seed_puuid@).len() == 0,
        out is Err ==> out->Err_0 == CrawlError::EmptySeed,
        out is Ok ==> {
            &&& eat_settings(out->Ok_0@.config, args.duration_mins)
            &&& out->Ok_0@ == initial(out->Ok_0@.config, seq![trimmed(args.seed_puuid@)])
            &&& out->Ok_0@.wf()
        },
{
    let config = CrawlConfig {
        mode: KrakenMode::Explore,
        max_matches_per_player: EAT_MAX_MATCHES_PER_PLAYER,
        max_matches_total: Some(EAT_MAX_MATCHES_TOTAL),
        max_duration_nanos: to_nanos(
            match args.duration_mins {
                Some(mins) => mins,
                None => EAT_DURATION_MINS,
            },
            NANOS_PER_MINUTE,
        ),
        idle_limit_nanos: Some(to_nanos(EAT_IDLE_EXIT_AFTER_MINS, NANOS_PER_MINUTE)),
        log_interval_nanos: to_nanos(EAT_LOG_INTERVAL_SECS, NANOS_PER_SECOND),
        role_focus: None,
        allowed_ranks: None,
        max_new_focus: max_new_focus(KrakenMode::Explore),
        max_req_per_2min: EAT_MAX_REQ_PER_2MIN,
    };
    let seed = trim(args.seed_puuid.as_str());
    let mut seeds: Vec<String> = Vec::new();
    if !seed.as_str().is_empty() {
        seeds.push(seed);
        assert(views(seeds@) =~= seq![trimmed(args.seed_puuid@)]);
    }
    Crawler::new(config, seeds)
}

} // verus!