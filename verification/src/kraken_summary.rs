//! A summary of raw match documents: queues, champions and the span of time they cover.

use crate::json::Json;
use crate::kraken::{count_of, count_views, matches_of, record_matches, with_count, MatchCounts,
    RANKED_SOLO};
use crate::parquet_extract::{get_int_or_zero, int_or_zero};
use crate::text::{opt_view, signed_decimal, to_signed_decimal};
use vstd::prelude::*;

verus! {

/// How many champions the summary lists.
pub const TOP_CHAMPIONS: usize = 10;

/// The instant `millis` milliseconds after the Unix epoch, written in UTC as RFC 3339 has it;
/// there is none for an instant outside the calendar's range.
pub uninterp spec fn rfc3339_utc(millis: i64) -> Option<Seq<char>>;

/// Calls `chrono::DateTime::from_timestamp_millis` and, on the instant it gives,
/// `DateTime::to_rfc3339`. The first returns `None` for a number of milliseconds out of range.
#[verifier::external_body]
fn utc_rfc3339(millis: i64) -> (out: Option<String>)
    ensures
        opt_view(out) == rfc3339_utc(millis),
{
    match chrono::DateTime::from_timestamp_millis(millis) {
        Some(instant) => Some(instant.to_rfc3339()),
        None => None,
    }
}

/// Writes a time stamp: as date and time where the calendar reaches it, as the bare number
/// elsewhere.
pub fn format_ts_millis(ts: i64) -> (out: String)
    ensures
        out@ == match rfc3339_utc(ts) {
            Some(s) => s,
            None => signed_decimal(ts as int),
        },
{
    match utc_rfc3339(ts) {
        Some(s) => s,
        None => to_signed_decimal(ts),
    }
}

/// The next number, as far as numbers go.
pub open spec fn bumped(n: usize) -> usize {
    if n < usize::MAX {
        (n + 1) as usize
    } else {
        n
    }
}

/// The sum of two numbers, as far as numbers go.
pub open spec fn added(n: usize, k: nat) -> usize {
    if n + k <= usize::MAX {
        (n + k) as usize
    } else {
        usize::MAX
    }
}

fn bump(n: usize) -> (out: usize)
    ensures
        out == bumped(n),
{
    if n < usize::MAX {
        n + 1
    } else {
        n
    }
}

/// The champion counts after the first `n` of `participants` are counted, each under the
/// name of its champion; a participant without one is not counted.
pub open spec fn tallied(
    counts: Seq<(Seq<char>, usize)>,
    participants: Seq<Json>,
    n: int,
) -> Seq<(Seq<char>, usize)>
    decreases n,
{
    if n <= 0 {
        counts
    } else {
        let before = tallied(counts, participants, n - 1);
        match participants[n - 1].str_at("championName"@) {
            Some(name) => with_count(before, name, bumped(count_of(before, name))),
            None => before,
        }
    }
}

/// The smaller of an optional bound and a value.
pub open spec fn lower(bound: Option<i64>, value: i64) -> i64 {
    match bound {
        Some(b) if b <= value => b,
        _ => value,
    }
}

/// The larger of an optional bound and a value.
pub open spec fn upper(bound: Option<i64>, value: i64) -> i64 {
    match bound {
        Some(b) if b >= value => b,
        _ => value,
    }
}

/// What has been counted.
#[derive(Debug)]
pub struct RawSummary {
    pub processed: usize,
    /// Ranked solo games.
    pub soloq: usize,
    /// Games of other queues.
    pub other: usize,
    /// The queues met, each once, in the order they were met.
    pub queues: Vec<i64>,
    /// How often each champion was played.
    pub champion_counts: MatchCounts,
    pub min_game_creation: Option<i64>,
    pub max_game_creation: Option<i64>,
    pub participants_total: usize,
}

/// A summary as mathematics.
#[verifier::ext_equal]
pub struct SummaryView {
    pub processed: usize,
    pub soloq: usize,
    pub other: usize,
    pub queues: Seq<i64>,
    pub champion_counts: Seq<(Seq<char>, usize)>,
    pub min_game_creation: Option<i64>,
    pub max_game_creation: Option<i64>,
    pub participants_total: usize,
}

impl View for RawSummary {
    type V = SummaryView;

    open spec fn view(&self) -> SummaryView {
        SummaryView {
            processed: self.processed,
            soloq: self.soloq,
            other: self.other,
            queues: self.queues@,
            champion_counts: count_views(self.champion_counts@),
            min_game_creation: self.min_game_creation,
            max_game_creation: self.max_game_creation,
            participants_total: self.participants_total,
        }
    }
}

/// The summary after a document is counted. A document without a game record changes nothing.
pub open spec fn counted(s: SummaryView, doc: Json) -> SummaryView {
    match doc.field("info"@) {
        None => s,
        Some(info) => {
            let queue = int_or_zero(info, "queueId"@);
            let participants = info.items_at("participants"@);
            SummaryView {
                processed: bumped(s.processed),
                soloq: if queue == RANKED_SOLO {
                    bumped(s.soloq)
                } else {
                    s.soloq
                },
                other: if queue == RANKED_SOLO {
                    s.other
                } else {
                    bumped(s.other)
                },
                queues: if s.queues.contains(queue) {
                    s.queues
                } else {
                    s.queues.push(queue)
                },
                champion_counts: match participants {
                    Some(ps) => tallied(s.champion_counts, ps, ps.len() as int),
                    None => s.champion_counts,
                },
                min_game_creation: match info.int_at("gameCreation"@) {
                    Some(created) => Some(lower(s.min_game_creation, created)),
                    None => s.min_game_creation,
                },
                max_game_creation: match info.int_at("gameCreation"@) {
                    Some(created) => Some(upper(s.max_game_creation, created)),
                    None => s.max_game_creation,
                },
                participants_total: match participants {
                    Some(ps) => added(s.participants_total, ps.len()),
                    None => s.participants_total,
                },
            }
        },
    }
}

/// Whether the champion at index `a` comes before the one at index `b` in the list of the
/// most played: it was played more often, or as often and met earlier.
pub open spec fn precedes(counts: Seq<(Seq<char>, usize)>, a: int, b: int) -> bool {
    counts[a].1 > counts[b].1 || (counts[a].1 == counts[b].1 && a < b)
}

fn has_queue(queues: &Vec<i64>, queue: i64) -> (out: bool)
    ensures
        out == queues@.contains(queue),
{
    let mut i: usize = 0;
    while i < queues.len()
        invariant
            i <= queues.len(),
            forall|j: int| 0 <= j < i ==> queues@[j] != queue,
        decreases queues.len() - i,
    {
        if queues[i] == queue {
            return true;
        }
        i += 1;
    }
    false
}

fn tally(counts: &mut MatchCounts, participants: &Vec<Json>)
    ensures
        count_views(final(counts)@) == tallied(
            count_views(old(counts)@),
            participants@,
            participants.len() as int,
        ),
{
    let mut i: usize = 0;
    while i < participants.len()
        invariant
            i <= participants.len(),
            count_views(counts@) == tallied(count_views(old(counts)@), participants@, i as int),
        decreases participants.len() - i,
    {
        match participants[i].get_str("championName") {
            Some(name) => {
                let seen: usize = matches_of(counts, name);
                record_matches(counts, name, bump(seen));
            },
            None => {},
        }
        i += 1;
    }
}

impl RawSummary {
    /// A summary of nothing.
    pub fn new() -> (out: RawSummary)
        ensures
            out@.processed == 0,
            out@.soloq == 0,
            out@.other == 0,
            out@.queues == Seq::<i64>::empty(),
            out@.champion_counts == Seq::<(Seq<char>, usize)>::empty(),
            out@.min_game_creation is None,
            out@.max_game_creation is None,
            out@.participants_total == 0,
    {
        let out = RawSummary {
            processed: 0,
            soloq: 0,
            other: 0,
            queues: Vec::new(),
            champion_counts: Vec::new(),
            min_game_creation: None,
            max_game_creation: None,
            participants_total: 0,
        };
        assert(count_views(out.champion_counts@) =~= Seq::<(Seq<char>, usize)>::empty());
        out
    }

    /// Whether as many documents are counted as the limit allows.
    pub fn full(&self, max_files: Option<usize>) -> (out: bool)
        ensures
            out == match max_files {
                Some(limit) => self@.processed >= limit,
                None => false,
            },
    {
        match max_files {
            Some(limit) => self.processed >= limit,
            None => false,
        }
    }

    /// Counts a document; says whether it had a game record.
    pub fn add(&mut self, doc: &Json) -> (out: bool)
        ensures
            final(self)@ == counted(old(self)@, *doc),
            out == doc.field("info"@).is_some(),
    {
        let Some(info) = doc.get("info") else {
            return false;
        };
        let queue: i64 = get_int_or_zero(info, "queueId");
        if queue == RANKED_SOLO {
            self.soloq = bump(self.soloq);
        } else {
            self.other = bump(self.other);
        }
        if !has_queue(&self.queues, queue) {
            self.queues.push(queue);
        }
        match info.get_i64("gameCreation") {
            Some(created) => {
                self.min_game_creation = Some(
                    match self.min_game_creation {
                        Some(b) => if b <= created {
                            b
                        } else {
                            created
                        },
                        None => created,
                    },
                );
                self.max_game_creation = Some(
                    match self.max_game_creation {
                        Some(b) => if b >= created {
                            b
                        } else {
                            created
                        },
                        None => created,
                    },
                );
            },
            None => {},
        }
        match info.get_array("participants") {
            Some(participants) => {
                self.participants_total = if participants.len() <= usize::MAX
                    - self.participants_total {
                    self.participants_total + participants.len()
                } else {
                    usize::MAX
                };
                tally(&mut self.champion_counts, participants);
            },
            None => {},
        }
        self.processed = bump(self.processed);
        true
    }

    /// The number of queues met.
    pub fn queues_tracked(&self) -> (out: usize)
        ensures
            out == self@.queues.len(),
    {
        self.queues.len()
    }

    /// The most played champions, by index into the champion counts: the most played first,
    /// the earlier met first among those played as often, and no more than `limit`.
    pub fn top_champions(&self, limit: usize) -> (out: Vec<usize>)
        ensures
            out@.len() <= limit,
            forall|i: int| 0 <= i < out@.len() ==> (#[trigger] out@[i]) < self@.champion_counts.len(),
            forall|i: int, j: int|
                0 <= i < j < out@.len() ==> precedes(
                    self@.champion_counts,
                    #[trigger] out@[i] as int,
                    #[trigger] out@[j] as int,
                ),
            forall|i: int, j: usize|
                0 <= i < out@.len() && j < self@.champion_counts.len() && !(
                #[trigger] out@.contains(j)) ==> precedes(
                    self@.champion_counts,
                    #[trigger] out@[i] as int,
                    j as int,
                ),
            out@.len() < limit ==> forall|j: usize|
                j < self@.champion_counts.len() ==> #[trigger] out@.contains(j),
    {
        top_indices(&self.champion_counts, limit)
    }
}

fn is_taken(chosen: &Vec<usize>, j: usize) -> (out: bool)
    ensures
        out == chosen@.contains(j),
{
    let mut i: usize = 0;
    while i < chosen.len()
        invariant
            i <= chosen.len(),
            forall|k: int| 0 <= k < i ==> chosen@[k] != j,
        decreases chosen.len() - i,
    {
        if chosen[i] == j {
            return true;
        }
        i += 1;
    }
    false
}

/// The index that comes before all others among those not chosen yet.
fn best_left(counts: &MatchCounts, chosen: &Vec<usize>) -> (out: Option<usize>)
    ensures
        match out {
            Some(b) => b < counts.len() && !chosen@.contains(b) && forall|j: usize|
                j < counts.len() && j != b && !(#[trigger] chosen@.contains(j)) ==> precedes(
                    count_views(counts@),
                    b as int,
                    j as int,
                ),
            None => forall|j: usize| j < counts.len() ==> #[trigger] chosen@.contains(j),
        },
{
    let mut best: Option<usize> = None;
    let mut j: usize = 0;
    while j < counts.len()
        invariant
            j <= counts.len(),
            match best {
                Some(b) => b < j && !chosen@.contains(b) && forall|i: usize|
                    i < j && i != b && !(#[trigger] chosen@.contains(i)) ==> precedes(
                        count_views(counts@),
                        b as int,
                        i as int,
                    ),
                None => forall|i: usize| i < j ==> #[trigger] chosen@.contains(i),
            },
        decreases counts.len() - j,
    {
        if !is_taken(chosen, j) {
            let better: bool = match best {
                Some(b) => counts[j].1 > counts[b].1,
                None => true,
            };
            if better {
                best = Some(j);
            }
        }
        j += 1;
    }
    best
}

fn top_indices(counts: &MatchCounts, limit: usize) -> (out: Vec<usize>)
    ensures
        out@.len() <= limit,
        forall|i: int| 0 <= i < out@.len() ==> (#[trigger] out@[i]) < counts.len(),
        forall|i: int, j: int|
            0 <= i < j < out@.len() ==> precedes(
                count_views(counts@),
                #[trigger] out@[i] as int,
                #[trigger] out@[j] as int,
            ),
        forall|i: int, j: usize|
            0 <= i < out@.len() && j < counts.len() && !(#[trigger] out@.contains(j)) ==> precedes(
                count_views(counts@),
                #[trigger] out@[i] as int,
                j as int,
            ),
        out@.len() < limit ==> forall|j: usize| j < counts.len() ==> #[trigger] out@.contains(j),
{
    let mut chosen: Vec<usize> = Vec::new();
    while chosen.len() < limit
        invariant
            chosen@.len() <= limit,
            forall|i: int| 0 <= i < chosen@.len() ==> (#[trigger] chosen@[i]) < counts.len(),
            forall|i: int, j: int|
                0 <= i < j < chosen@.len() ==> precedes(
                    count_views(counts@),
                    #[trigger] chosen@[i] as int,
                    #[trigger] chosen@[j] as int,
                ),
            forall|i: int, j: usize|
                0 <= i < chosen@.len() && j < counts.len() && !(#[trigger] chosen@.contains(j))
                    ==> precedes(count_views(counts@), #[trigger] chosen@[i] as int, j as int),
        decreases limit - chosen.len(),
    {
        match best_left(counts, &chosen) {
            Some(b) => {
                let ghost before = chosen@;
                chosen.push(b);
                assert forall|j: usize| j < counts.len() && !(#[trigger] chosen@.contains(j)) implies
                    !before.contains(j) && j != b by {
                    if before.contains(j) {
                        let k = choose|k: int| 0 <= k < before.len() && before[k] == j;
                        assert(chosen@[k] == j);
                    }
                    if j == b {
                        assert(chosen@[before.len() as int] == b);
                    }
                }
                assert forall|i: int, j: int| 0 <= i < j < chosen@.len() implies precedes(
                    count_views(counts@),
                    #[trigger] chosen@[i] as int,
                    #[trigger] chosen@[j] as int,
                ) by {
                    if j == before.len() {
                        assert(chosen@[i] == before[i]);
                    } else {
                        assert(chosen@[i] == before[i] && chosen@[j] == before[j]);
                    }
                }
            },
            None => {
                return chosen;
            },
        }
    }
    chosen
}

/// The summary of nothing.
pub open spec fn nothing() -> SummaryView {
    SummaryView {
        processed: 0,
        soloq: 0,
        other: 0,
        queues: Seq::empty(),
        champion_counts: Seq::empty(),
        min_game_creation: None,
        max_game_creation: None,
        participants_total: 0,
    }
}

/// Whether a summary has counted as many documents as the limit allows.
pub open spec fn filled(s: SummaryView, max_files: Option<usize>) -> bool {
    match max_files {
        Some(limit) => s.processed >= limit,
        None => false,
    }
}

/// The summary of the first `n` of `docs`, counted in their order until the limit is reached.
pub open spec fn summarized(docs: Seq<Json>, max_files: Option<usize>, n: int) -> SummaryView
    decreases n,
{
    if n <= 0 {
        nothing()
    } else {
        let before = summarized(docs, max_files, n - 1);
        if filled(before, max_files) {
            before
        } else {
            counted(before, docs[n - 1])
        }
    }
}

/// Sums documents up, in their order and no more of them than `max_files`.
pub fn kraken_summary_raw(docs: &Vec<Json>, max_files: Option<usize>) -> (out: RawSummary)
    ensures
        out@ == summarized(docs@, max_files, docs.len() as int),
{
    let mut summary = RawSummary::new();
    assert(summary@ =~= nothing());
    let mut i: usize = 0;
    while i < docs.len()
        invariant
            i <= docs.len(),
            summary@ == summarized(docs@, max_files, i as int),
        decreases docs.len() - i,
    {
        if !summary.full(max_files) {
            let _ = summary.add(&docs[i]);
        }
        i += 1;
    }
    summary
}

} // verus!