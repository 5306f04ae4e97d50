//! A plain crawl without filters: every match of every player found is kept.

use crate::text::{contains_str, lemma_holds_views, views};
use std::collections::VecDeque;
use std::path::PathBuf;
use vstd::prelude::*;

verus! {

/// The options of a plain crawl.
#[derive(Clone, Debug)]
pub struct SniffArgs {
    pub seed_puuids: Vec<String>,
    pub duration_mins: u64,
    pub out_dir: PathBuf,
    pub max_req_per_2min: usize,
    pub max_matches_per_player: usize,
}

/// The players seen and the frontier after the first `n` of `players` have been offered:
/// whoever was not seen before is marked as seen and put at the back of the frontier.
pub open spec fn offered(
    seen: Seq<Seq<char>>,
    frontier: Seq<Seq<char>>,
    players: Seq<Seq<char>>,
    n: int,
) -> (Seq<Seq<char>>, Seq<Seq<char>>)
    decreases n,
{
    if n <= 0 {
        (seen, frontier)
    } else {
        let before = offered(seen, frontier, players, n - 1);
        if before.0.contains(players[n - 1]) {
            before
        } else {
            (before.0.push(players[n - 1]), before.1.push(players[n - 1]))
        }
    }
}

/// Offers players to the frontier. The players seen are a list without repeats, searched in
/// order, as in the crawl proper.
pub fn enqueue_new(seen: &mut Vec<String>, queue: &mut VecDeque<String>, players: &Vec<String>)
    ensures
        (views(final(seen)@), views(final(queue)@)) == offered(
            views(old(seen)@),
            views(old(queue)@),
            views(players@),
            players.len() as int,
        ),
{
    let mut i: usize = 0;
    while i < players.len()
        invariant
            i <= players.len(),
            (views(seen@), views(queue@)) == offered(
                views(old(seen)@),
                views(old(queue)@),
                views(players@),
                i as int,
            ),
        decreases players.len() - i,
    {
        proof {
            lemma_holds_views(seen@, players@[i as int]@);
        }
        if !contains_str(seen, players[i].as_str()) {
            let ghost seen_before = seen@;
            let ghost queue_before = queue@;
            seen.push(players[i].clone());
            queue.push_back(players[i].clone());
            assert(views(seen@) =~= views(seen_before).push(players@[i as int]@));
            assert(views(queue@) =~= views(queue_before).push(players@[i as int]@));
        }
        i += 1;
    }
}

/// What is done about a match id of the player at hand.
#[derive(Clone, Copy, Debug, PartialEq, Eq, Structural)]
pub enum Fetch {
    /// The player has as many matches as the cap allows: no further id is looked at.
    Stop,
    /// The match is known: it is passed over.
    Skip,
    /// The match is new: it is marked as seen and fetched.
    Fetch,
}

/// What is done about the match `match_id` when `downloaded` matches of the player are kept.
pub open spec fn fetch_decision(
    seen_matches: Seq<Seq<char>>,
    match_id: Seq<char>,
    downloaded: usize,
    cap: usize,
) -> Fetch {
    if downloaded >= cap {
        Fetch::Stop
    } else if seen_matches.contains(match_id) {
        Fetch::Skip
    } else {
        Fetch::Fetch
    }
}

/// Decides on a match id and marks a new match as seen.
pub fn decide_fetch(
    seen_match_ids: &mut Vec<String>,
    match_id: &str,
    downloaded_for_puuid: usize,
    max_matches_per_player: usize,
) -> (out: Fetch)
    ensures
        out == fetch_decision(
            views(old(seen_match_ids)@),
            match_id@,
            downloaded_for_puuid,
            max_matches_per_player,
        ),
        views(final(seen_match_ids)@) == if out == Fetch::Fetch {
            views(old(seen_match_ids)@).push(match_id@)
        } else {
            views(old(seen_match_ids)@)
        },
{
    if downloaded_for_puuid >= max_matches_per_player {
        return Fetch::Stop;
    }
    proof {
        lemma_holds_views(seen_match_ids@, match_id@);
    }
    if contains_str(seen_match_ids, match_id) {
        return Fetch::Skip;
    }
    let ghost before = seen_match_ids@;
    seen_match_ids.push(match_id.to_owned());
    assert(views(seen_match_ids@) =~= views(before).push(match_id@));
    Fetch::Fetch
}

} // verus!
