use riot_rust_api::json::Json;
use riot_rust_api::kraken::{
    is_ranked_match, is_recent_match, kraken_absorb_run, kraken_eat_run,
    kraken_match_passes_roles, kraken_maybe_enqueue_player, max_new_focus, parse_mode,
    participants_of, position_of, print_coverage_stats, record_matches, seed_list, to_nanos, Clock,
    CrawlAction, CrawlError, CrawlEvent, Crawler, KrakenAbsorbArgs, KrakenEatArgs, KrakenMode,
    Phase, Verdict,
};
use std::collections::VecDeque;
use std::path::PathBuf;

const NOW_MILLIS: i64 = 1_700_000_000_000;
const DAY_MILLIS: i64 = 86_400_000;
const SEC: u64 = 1_000_000_000;

fn args(seed: &str, mode: &str) -> KrakenAbsorbArgs {
    KrakenAbsorbArgs {
        seed_puuid: Some(seed.to_string()),
        seed_file: None,
        duration_mins: 60,
        out_dir: PathBuf::from("out"),
        max_req_per_2min: 80,
        max_matches_per_player: 100,
        max_matches_total: None,
        idle_exit_after_mins: None,
        mode: mode.to_string(),
        role_focus: None,
        allow_ranks: None,
        log_interval_secs: 3600,
    }
}

fn players(from: usize, to: usize) -> Vec<String> {
    (from..to).map(|i| format!("p{}", i)).collect()
}

fn match_text(id: &str, queue: i64, created: i64, participants: &[String], role: &str) -> String {
    let listed: Vec<String> = participants.iter().map(|p| format!("\"{}\"", p)).collect();
    let records: Vec<String> = participants
        .iter()
        .map(|p| format!("{{\"puuid\": \"{}\", \"teamPosition\": \"{}\"}}", p, role))
        .collect();
    format!(
        "{{\"metadata\": {{\"matchId\": \"{}\", \"participants\": [{}]}}, \"info\": {{\"queueId\": {}, \"gameCreation\": {}, \"participants\": [{}]}}}}",
        id,
        listed.join(", "),
        queue,
        created,
        records.join(", ")
    )
}

/// An upstream that answers from tables, and a store that remembers what was written.
struct Stub {
    ids: Vec<(String, Vec<String>)>,
    docs: Vec<(String, String)>,
    tiers: Vec<(String, Option<String>)>,
    written: Vec<String>,
    tier_lookups: Vec<String>,
    id_requests: Vec<String>,
    match_requests: Vec<String>,
    logs: usize,
    fail_writes: bool,
    now: Clock,
    advance_after_write: u64,
    advance_due: bool,
}

impl Stub {
    fn new() -> Stub {
        Stub {
            ids: Vec::new(),
            docs: Vec::new(),
            tiers: Vec::new(),
            written: Vec::new(),
            tier_lookups: Vec::new(),
            id_requests: Vec::new(),
            match_requests: Vec::new(),
            logs: 0,
            fail_writes: false,
            now: Clock { monotonic_nanos: 0, unix_millis: NOW_MILLIS },
            advance_after_write: 0,
            advance_due: false,
        }
    }

    fn answer(&mut self, action: &CrawlAction) -> CrawlEvent {
        if self.advance_due {
            self.now.monotonic_nanos += self.advance_after_write;
            self.advance_due = false;
        }
        match action {
            CrawlAction::Continue => CrawlEvent::Resume,
            CrawlAction::Log(_) => {
                self.logs += 1;
                CrawlEvent::Resume
            }
            CrawlAction::LookupTier(puuid) => {
                self.tier_lookups.push(puuid.clone());
                match self.tiers.iter().find(|(p, _)| p == puuid) {
                    Some((_, tier)) => CrawlEvent::Tier(tier.clone()),
                    None => CrawlEvent::Failed,
                }
            }
            CrawlAction::FetchMatchIds(puuid) => {
                self.id_requests.push(puuid.clone());
                match self.ids.iter().find(|(p, _)| p == puuid) {
                    Some((_, ids)) => CrawlEvent::MatchIds(ids.clone()),
                    None => CrawlEvent::Failed,
                }
            }
            CrawlAction::FetchMatch(id) => {
                self.match_requests.push(id.clone());
                match self.docs.iter().find(|(m, _)| m == id) {
                    Some((_, text)) => CrawlEvent::Match(Json::parse(text).expect("valid JSON")),
                    None => CrawlEvent::Failed,
                }
            }
            CrawlAction::Write(id) => {
                if self.fail_writes {
                    CrawlEvent::Failed
                } else {
                    self.written.push(id.clone());
                    self.advance_due = true;
                    CrawlEvent::Written
                }
            }
            CrawlAction::Finish(_) | CrawlAction::Fail(_) => CrawlEvent::Resume,
        }
    }
}

/// Steps until the crawl asks for something that `stop` names; gives that action back.
fn run_until(crawler: &mut Crawler, stub: &mut Stub, stop: fn(&CrawlAction) -> bool) -> CrawlAction {
    let mut event = CrawlEvent::Resume;
    let mut seen_before = crawler.seen_players();
    for _ in 0..100_000 {
        let action = crawler.step(event, stub.now);
        assert!(crawler.seen_players() >= seen_before);
        seen_before = crawler.seen_players();
        if stop(&action) {
            return action;
        }
        event = stub.answer(&action);
    }
    panic!("the crawl did not get there");
}

fn is_end(action: &CrawlAction) -> bool {
    matches!(action, CrawlAction::Finish(_) | CrawlAction::Fail(_))
}

fn run(crawler: &mut Crawler, stub: &mut Stub) -> CrawlAction {
    run_until(crawler, stub, is_end)
}

#[test]
fn single_seed_drops_the_unranked_match() {
    let mut stub = Stub::new();
    let only = players(0, 1);
    stub.ids.push(("p0".to_string(), vec!["M1".to_string(), "M2".to_string()]));
    stub.docs.push(("M1".to_string(), match_text("M1", 420, NOW_MILLIS, &only, "TOP")));
    stub.docs.push(("M2".to_string(), match_text("M2", 430, NOW_MILLIS, &only, "TOP")));
    let mut crawler = kraken_absorb_run(&args("p0", "explore"), &None).unwrap();
    let end = run(&mut crawler, &mut stub);
    assert_eq!(stub.written, vec!["M1".to_string()]);
    assert_eq!(crawler.written_matches(), 1);
    assert_eq!(crawler.downloaded_matches(), 2);
    assert_eq!(crawler.matches_for("p0"), 1);
    match end {
        CrawlAction::Finish(report) => {
            assert_eq!(report.total_matches, 1);
            assert_eq!(report.total_players, 1);
            assert_eq!(report.matches_sum, 1);
            assert_eq!(report.profiles_5plus, 0);
        }
        other => panic!("unexpected {:?}", other),
    }
    assert_eq!(crawler.phase(), Phase::Done);
}

#[test]
fn explore_puts_every_new_participant_in_front() {
    let mut stub = Stub::new();
    stub.ids.push(("p0".to_string(), vec!["M1".to_string()]));
    stub.docs.push(("M1".to_string(), match_text("M1", 420, NOW_MILLIS, &players(0, 10), "TOP")));
    let mut crawler = kraken_absorb_run(&args("p0", "explore"), &None).unwrap();
    let asked = run_until(&mut crawler, &mut stub, |a| matches!(a, CrawlAction::Write(_)));
    assert!(matches!(asked, CrawlAction::Write(ref id) if id == "M1"));
    assert_eq!(crawler.seen_players(), 10);
    let expected: Vec<String> = (1..10).rev().map(|i| format!("p{}", i)).collect();
    assert_eq!(crawler.frontier(), expected);
}

#[test]
fn focus_admits_five_per_match_and_marks_the_rest() {
    let mut stub = Stub::new();
    stub.ids.push(("p0".to_string(), vec!["M1".to_string()]));
    stub.docs.push(("M1".to_string(), match_text("M1", 420, NOW_MILLIS, &players(0, 10), "TOP")));
    let mut crawler = kraken_absorb_run(&args("p0", "focus"), &None).unwrap();
    run_until(&mut crawler, &mut stub, |a| matches!(a, CrawlAction::Write(_)));
    assert_eq!(crawler.seen_players(), 10);
    let expected: Vec<String> = (1..6).rev().map(|i| format!("p{}", i)).collect();
    assert_eq!(crawler.frontier(), expected);
    for i in 0..10 {
        assert!(crawler.has_seen(&format!("p{}", i)));
    }
}

#[test]
fn seed_only_never_grows_the_frontier() {
    let mut stub = Stub::new();
    stub.ids.push(("p0".to_string(), vec!["M1".to_string()]));
    stub.docs.push(("M1".to_string(), match_text("M1", 420, NOW_MILLIS, &players(0, 10), "TOP")));
    let mut crawler = kraken_absorb_run(&args("p0", "seed-only"), &None).unwrap();
    run(&mut crawler, &mut stub);
    assert_eq!(crawler.seen_players(), 10);
    assert_eq!(stub.id_requests, vec!["p0".to_string()]);
    assert_eq!(stub.written, vec!["M1".to_string()]);
    assert!(crawler.frontier().is_empty());
}

#[test]
fn idle_exit_ends_the_crawl_before_its_duration() {
    let mut stub = Stub::new();
    stub.advance_after_write = 61 * SEC;
    stub.ids.push(("p0".to_string(), vec!["M1".to_string()]));
    stub.docs.push(("M1".to_string(), match_text("M1", 420, NOW_MILLIS, &players(0, 10), "TOP")));
    let mut options = args("p0", "explore");
    options.idle_exit_after_mins = Some(1);
    options.duration_mins = 600;
    let mut crawler = kraken_absorb_run(&options, &None).unwrap();
    let end = run(&mut crawler, &mut stub);
    assert!(matches!(end, CrawlAction::Finish(_)));
    assert_eq!(stub.written.len(), 1);
    // Nine players were still waiting, and none of them was asked about.
    assert_eq!(crawler.frontier().len(), 9);
    assert_eq!(stub.id_requests, vec!["p0".to_string()]);
    assert!(stub.now.monotonic_nanos < 600 * 60 * SEC);
}

#[test]
fn idle_exit_needs_a_first_write() {
    let mut stub = Stub::new();
    stub.ids.push(("p0".to_string(), Vec::new()));
    let mut options = args("p0", "explore");
    options.seed_file = Some(PathBuf::from("seeds.txt"));
    options.idle_exit_after_mins = Some(0);
    let lines = Some(vec!["p1".to_string()]);
    let mut crawler = kraken_absorb_run(&options, &lines).unwrap();
    run(&mut crawler, &mut stub);
    // With nothing written the idle limit never fires: both seeds were processed.
    assert_eq!(stub.id_requests, vec!["p1".to_string(), "p0".to_string()]);
}

#[test]
fn duration_ends_the_crawl_at_the_top_of_the_loop() {
    let mut stub = Stub::new();
    let mut options = args("p0", "explore");
    options.duration_mins = 0;
    let mut crawler = kraken_absorb_run(&options, &None).unwrap();
    let end = run(&mut crawler, &mut stub);
    assert!(matches!(end, CrawlAction::Finish(_)));
    assert!(stub.id_requests.is_empty());
}

#[test]
fn per_player_cap_holds_for_every_player() {
    let mut stub = Stub::new();
    let group = players(0, 3);
    let ids: Vec<String> = (0..8).map(|i| format!("M{}", i)).collect();
    for p in &group {
        stub.ids.push((p.clone(), ids.clone()));
    }
    for id in &ids {
        stub.docs.push((id.clone(), match_text(id, 420, NOW_MILLIS, &group, "TOP")));
    }
    let mut options = args("p0", "explore");
    options.max_matches_per_player = 3;
    let mut crawler = kraken_absorb_run(&options, &None).unwrap();
    run(&mut crawler, &mut stub);
    for p in &group {
        assert!(crawler.matches_for(p) <= 3);
    }
    assert_eq!(crawler.matches_for("p0"), 3);
    assert_eq!(crawler.downloaded_matches(), stub.match_requests.len());
    // No match is fetched twice.
    let mut once = stub.match_requests.clone();
    once.sort();
    once.dedup();
    assert_eq!(once.len(), stub.match_requests.len());
}

#[test]
fn total_cap_stops_the_writing() {
    let mut stub = Stub::new();
    let only = players(0, 1);
    let ids: Vec<String> = (0..5).map(|i| format!("M{}", i)).collect();
    stub.ids.push(("p0".to_string(), ids.clone()));
    for id in &ids {
        stub.docs.push((id.clone(), match_text(id, 420, NOW_MILLIS, &only, "TOP")));
    }
    let mut options = args("p0", "explore");
    options.max_matches_total = Some(2);
    let mut crawler = kraken_absorb_run(&options, &None).unwrap();
    run(&mut crawler, &mut stub);
    assert_eq!(stub.written, vec!["M0".to_string(), "M1".to_string()]);
    assert_eq!(crawler.written_matches(), 2);
}

#[test]
fn old_matches_are_fetched_but_dropped() {
    let mut stub = Stub::new();
    let only = players(0, 2);
    stub.ids.push(("p0".to_string(), vec!["OLD".to_string(), "EDGE".to_string()]));
    stub.docs.push((
        "OLD".to_string(),
        match_text("OLD", 420, NOW_MILLIS - 90 * DAY_MILLIS - 1, &only, "TOP"),
    ));
    stub.docs.push((
        "EDGE".to_string(),
        match_text("EDGE", 420, NOW_MILLIS - 90 * DAY_MILLIS, &only, "TOP"),
    ));
    let mut crawler = kraken_absorb_run(&args("p0", "explore"), &None).unwrap();
    run_until(&mut crawler, &mut stub, |a| matches!(a, CrawlAction::Write(_)));
    assert_eq!(stub.match_requests, vec!["OLD".to_string(), "EDGE".to_string()]);
    assert_eq!(crawler.downloaded_matches(), 2);
    assert!(stub.written.is_empty());
}

#[test]
fn role_focus_decides_what_is_written_not_who_is_enqueued() {
    let mut stub = Stub::new();
    stub.ids.push(("p0".to_string(), vec!["M1".to_string(), "M2".to_string()]));
    stub.docs.push(("M1".to_string(), match_text("M1", 420, NOW_MILLIS, &players(0, 2), "top")));
    stub.docs.push(("M2".to_string(), match_text("M2", 420, NOW_MILLIS, &players(2, 4), "MIDDLE")));
    let mut options = args("p0", "explore");
    options.role_focus = Some("jungle, Top".to_string());
    options.max_matches_per_player = 2;
    let mut crawler = kraken_absorb_run(&options, &None).unwrap();
    run_until(&mut crawler, &mut stub, |a| matches!(a, CrawlAction::FetchMatchIds(p) if p != "p0"));
    assert_eq!(stub.written, vec!["M1".to_string()]);
    assert_eq!(crawler.written_matches(), 1);
    assert_eq!(crawler.matches_for("p0"), 2);
    assert!(crawler.has_seen("p3"));
}

#[test]
fn failed_write_does_not_count_for_the_player() {
    let mut stub = Stub::new();
    stub.fail_writes = true;
    stub.ids.push(("p0".to_string(), vec!["M1".to_string()]));
    stub.docs.push(("M1".to_string(), match_text("M1", 420, NOW_MILLIS, &players(0, 1), "TOP")));
    let mut crawler = kraken_absorb_run(&args("p0", "explore"), &None).unwrap();
    run(&mut crawler, &mut stub);
    assert_eq!(crawler.written_matches(), 0);
    assert_eq!(crawler.downloaded_matches(), 1);
    assert_eq!(crawler.matches_for("p0"), 0);
}

#[test]
fn allowed_ranks_look_each_tier_up_once() {
    let mut stub = Stub::new();
    stub.tiers.push(("p0".to_string(), Some("gold".to_string())));
    stub.tiers.push(("p1".to_string(), Some("IRON".to_string())));
    stub.tiers.push(("p2".to_string(), None));
    stub.tiers.push(("p3".to_string(), Some("Gold".to_string())));
    stub.ids.push(("p0".to_string(), vec!["M1".to_string(), "M2".to_string()]));
    stub.docs.push(("M1".to_string(), match_text("M1", 420, NOW_MILLIS, &players(0, 5), "TOP")));
    stub.docs.push(("M2".to_string(), match_text("M2", 420, NOW_MILLIS, &players(0, 5), "TOP")));
    let mut options = args("p0", "explore");
    options.allow_ranks = Some("gold,platinum".to_string());
    let mut crawler = kraken_absorb_run(&options, &None).unwrap();
    let next =
        run_until(&mut crawler, &mut stub, |a| matches!(a, CrawlAction::FetchMatchIds(p) if p != "p0"));
    assert!(matches!(next, CrawlAction::FetchMatchIds(ref p) if p == "p3"));
    // p1 is rejected for its tier, p2 has none and passes, p3 passes, p4 cannot be looked up.
    assert_eq!(
        stub.tier_lookups,
        vec!["p0", "p1", "p2", "p3", "p4", "p4"].iter().map(|s| s.to_string()).collect::<Vec<_>>()
    );
    assert!(crawler.has_seen("p1"));
    assert!(!crawler.has_seen("p4"));
    assert_eq!(crawler.seen_players(), 4);
    assert_eq!(stub.id_requests, vec!["p0".to_string()]);
    assert_eq!(crawler.frontier(), vec!["p2".to_string()]);
}

#[test]
fn crawl_without_seeds_fails() {
    let mut empty = args("   ", "explore");
    assert!(matches!(kraken_absorb_run(&empty, &None), Err(CrawlError::EmptySeed)));
    empty.seed_puuid = None;
    assert!(matches!(kraken_absorb_run(&empty, &Some(Vec::new())), Err(CrawlError::EmptySeed)));
    let blank = Some(vec!["".to_string(), "  ".to_string()]);
    assert!(matches!(kraken_absorb_run(&empty, &blank), Err(CrawlError::EmptySeed)));
    // A seed that the tier filter rejects leaves the frontier empty.
    let mut stub = Stub::new();
    stub.tiers.push(("p0".to_string(), Some("IRON".to_string())));
    let mut options = args("p0", "explore");
    options.allow_ranks = Some("GOLD".to_string());
    let mut crawler = kraken_absorb_run(&options, &None).unwrap();
    let end = run(&mut crawler, &mut stub);
    assert!(matches!(end, CrawlAction::Fail(CrawlError::EmptySeed)));
}

#[test]
fn seeds_come_trimmed_and_in_order() {
    let lines = Some(vec![" A ".to_string(), "".to_string(), "B".to_string(), "\t".to_string()]);
    assert_eq!(
        seed_list(&Some(" S ".to_string()), &lines),
        vec!["S".to_string(), "A".to_string(), "B".to_string()]
    );
    assert_eq!(seed_list(&None, &None), Vec::<String>::new());
    assert_eq!(seed_list(&Some("".to_string()), &None), Vec::<String>::new());
}

#[test]
fn progress_line_is_due_after_the_interval() {
    let mut stub = Stub::new();
    stub.ids.push(("p0".to_string(), Vec::new()));
    let mut options = args("p0", "explore");
    options.log_interval_secs = 0;
    let mut crawler = kraken_absorb_run(&options, &None).unwrap();
    let line = run_until(&mut crawler, &mut stub, |a| matches!(a, CrawlAction::Log(_)));
    match line {
        CrawlAction::Log(progress) => {
            assert_eq!(progress.queue, 1);
            assert_eq!(progress.seen_players, 1);
            assert_eq!(progress.fetched, 0);
            assert_eq!(progress.written, 0);
            assert_eq!(progress.elapsed_secs, 0);
            assert_eq!(progress.max_req_per_2min, 80);
        }
        other => panic!("unexpected {:?}", other),
    }
    let end = run(&mut crawler, &mut stub);
    assert!(matches!(end, CrawlAction::Finish(_)));
    assert_eq!(stub.id_requests, vec!["p0".to_string()]);
}

#[test]
fn eat_run_has_fixed_settings() {
    let eat = KrakenEatArgs {
        seed_puuid: " p0 ".to_string(),
        out_dir: PathBuf::from("out"),
        duration_mins: None,
    };
    let mut crawler = kraken_eat_run(&eat).unwrap();
    let mut stub = Stub::new();
    let ids: Vec<String> = (0..25).map(|i| format!("M{}", i)).collect();
    stub.ids.push(("p0".to_string(), ids.clone()));
    for id in &ids {
        stub.docs.push((id.clone(), match_text(id, 420, NOW_MILLIS, &players(0, 1), "TOP")));
    }
    run(&mut crawler, &mut stub);
    assert_eq!(crawler.matches_for("p0"), 20);
    assert_eq!(crawler.written_matches(), 20);
    let blank = KrakenEatArgs {
        seed_puuid: "".to_string(),
        out_dir: PathBuf::from("out"),
        duration_mins: Some(1),
    };
    assert!(matches!(kraken_eat_run(&blank), Err(CrawlError::EmptySeed)));
}

#[test]
fn mode_names_are_read_without_regard_to_case() {
    assert_eq!(parse_mode("explore"), KrakenMode::Explore);
    assert_eq!(parse_mode("FOCUS"), KrakenMode::Focus);
    assert_eq!(parse_mode("Seed-Only"), KrakenMode::SeedOnly);
    assert_eq!(parse_mode("seed_only"), KrakenMode::Explore);
    assert_eq!(parse_mode(""), KrakenMode::Explore);
    assert_eq!(max_new_focus(KrakenMode::Explore), 10);
    assert_eq!(max_new_focus(KrakenMode::Focus), 5);
    assert_eq!(max_new_focus(KrakenMode::SeedOnly), 0);
}

#[test]
fn admission_goes_by_its_rules_in_order() {
    let mut seen: Vec<String> = vec!["A".to_string()];
    let mut queue: VecDeque<String> = VecDeque::new();
    queue.push_back("A".to_string());
    let cache = vec![
        ("B".to_string(), Some("IRON".to_string())),
        ("C".to_string(), Some("GOLD".to_string())),
        ("D".to_string(), None),
    ];
    let allowed = Some(vec!["GOLD".to_string()]);
    let explore = KrakenMode::Explore;
    let mut decide = |p: &str, mode: KrakenMode, slots: Option<usize>, count: usize| {
        kraken_maybe_enqueue_player(p, &mut seen, &mut queue, &allowed, &cache, mode, slots, count)
    };
    assert_eq!(decide("A", explore, None, 0), Verdict::AlreadySeen);
    assert_eq!(decide("E", explore, None, 0), Verdict::NeedsTier);
    assert_eq!(decide("B", explore, None, 0), Verdict::Rejected);
    assert_eq!(decide("B", explore, None, 0), Verdict::AlreadySeen);
    assert_eq!(decide("C", explore, Some(0), 9), Verdict::Front);
    assert_eq!(decide("D", KrakenMode::Focus, Some(0), 0), Verdict::Rejected);
    assert_eq!(decide("E", explore, None, 0), Verdict::NeedsTier);
    assert_eq!(seen, vec!["A", "B", "C", "D"]);
    assert_eq!(queue, VecDeque::from(vec!["C".to_string(), "A".to_string()]));
    let none: Option<Vec<String>> = None;
    let verdict = kraken_maybe_enqueue_player(
        "E", &mut seen, &mut queue, &none, &cache, KrakenMode::Focus, Some(1), 10,
    );
    assert_eq!(verdict, Verdict::Back);
    assert!(verdict.enqueued());
    assert!(!Verdict::Rejected.enqueued());
    assert_eq!(
        queue,
        VecDeque::from(vec!["C".to_string(), "A".to_string(), "E".to_string()])
    );
}

#[test]
fn document_filters_read_the_game_record() {
    let doc = |text: &str| Json::parse(text).unwrap();
    assert!(is_ranked_match(&doc(r#"{"info": {"queueId": 420}}"#)));
    assert!(!is_ranked_match(&doc(r#"{"info": {"queueId": 440}}"#)));
    assert!(!is_ranked_match(&doc(r#"{"info": {"queueId": "420"}}"#)));
    assert!(!is_ranked_match(&doc(r#"{"info": {}}"#)));
    assert!(!is_ranked_match(&doc(r#"{}"#)));
    assert!(is_recent_match(&doc(r#"{"info": {"gameCreation": 1000}}"#), 1000, 90));
    assert!(is_recent_match(&doc(r#"{"info": {}}"#), NOW_MILLIS, 90));
    assert!(is_recent_match(&doc(r#"{}"#), NOW_MILLIS, 90));
    assert!(!is_recent_match(&doc(r#"{"info": {"gameCreation": 0}}"#), 90 * DAY_MILLIS + 1, 90));
    assert!(is_recent_match(&doc(r#"{"info": {"gameCreation": 1}}"#), 90 * DAY_MILLIS + 1, 90));
    assert!(is_recent_match(&doc(r#"{"info": {"gameCreation": 0}}"#), i64::MIN, i64::MAX));
}

#[test]
fn role_filter_falls_back_where_the_team_position_is_missing() {
    let doc = Json::parse(
        r#"{"info": {"participants": [
            {"teamPosition": "", "individualPosition": "jungle"},
            {"teamPosition": "MIDDLE", "individualPosition": "TOP"},
            {"individualPosition": "utility"},
            {"teamPosition": 5, "individualPosition": "Bottom"},
            {"individualPosition": 5}
        ]}}"#,
    )
    .unwrap();
    let focus = |roles: &[&str]| Some(roles.iter().map(|r| r.to_string()).collect::<Vec<_>>());
    assert!(kraken_match_passes_roles(&doc, &None));
    // An empty team position is a position: there is no falling back from it.
    assert!(!kraken_match_passes_roles(&doc, &focus(&["JUNGLE"])));
    assert!(kraken_match_passes_roles(&doc, &focus(&["BOTTOM", "MIDDLE"])));
    assert!(kraken_match_passes_roles(&doc, &focus(&["UTILITY"])));
    assert!(kraken_match_passes_roles(&doc, &focus(&["BOTTOM"])));
    assert!(!kraken_match_passes_roles(&doc, &focus(&["TOP"])));
    assert!(!kraken_match_passes_roles(&doc, &focus(&[])));
    assert!(!kraken_match_passes_roles(&Json::parse("{}").unwrap(), &focus(&["TOP"])));
    assert!(kraken_match_passes_roles(&Json::parse("{}").unwrap(), &None));
    assert_eq!(position_of(&Json::parse(r#"{"teamPosition": ""}"#).unwrap()), Some(""));
    assert_eq!(position_of(&Json::parse(r#"{}"#).unwrap()), None);
}

#[test]
fn participants_are_the_strings_of_the_metadata() {
    let doc = Json::parse(r#"{"metadata": {"participants": ["A", 1, "B", null]}}"#).unwrap();
    assert_eq!(participants_of(&doc), vec!["A".to_string(), "B".to_string()]);
    assert!(participants_of(&Json::parse(r#"{"metadata": {}}"#).unwrap()).is_empty());
    assert!(participants_of(&Json::parse(r#"[]"#).unwrap()).is_empty());
}

#[test]
fn coverage_counts_players_by_their_matches() {
    let mut counts = Vec::new();
    record_matches(&mut counts, "A", 4);
    record_matches(&mut counts, "B", 5);
    record_matches(&mut counts, "C", 10);
    record_matches(&mut counts, "D", 25);
    record_matches(&mut counts, "A", 20);
    let report = print_coverage_stats(&counts, 7);
    assert_eq!(report.total_players, 4);
    assert_eq!(report.profiles_5plus, 4);
    assert_eq!(report.profiles_10plus, 3);
    assert_eq!(report.profiles_20plus, 2);
    assert_eq!(report.matches_sum, 60);
    assert_eq!(report.total_matches, 7);
    let nothing = print_coverage_stats(&Vec::new(), 0);
    assert_eq!(nothing.total_players, 0);
    assert_eq!(nothing.matches_sum, 0);
}

#[test]
fn durations_saturate() {
    assert_eq!(to_nanos(1, 60_000_000_000), 60_000_000_000);
    assert_eq!(to_nanos(0, 60_000_000_000), 0);
    assert_eq!(to_nanos(u64::MAX, 60_000_000_000), u64::MAX);
    assert_eq!(to_nanos(5, 0), 0);
    assert_eq!(to_nanos(307_445_734, 60_000_000_000), 18_446_744_040_000_000_000);
    assert_eq!(to_nanos(307_445_735, 60_000_000_000), u64::MAX);
}

#[test]
fn crawling_twice_writes_the_same_matches() {
    let build = || {
        let mut stub = Stub::new();
        let group = players(0, 4);
        for (i, p) in group.iter().enumerate() {
            let ids: Vec<String> = (0..3).map(|m| format!("M{}", (i + m) % 5)).collect();
            stub.ids.push((p.clone(), ids));
        }
        for m in 0..5 {
            let id = format!("M{}", m);
            let queue = if m == 2 { 450 } else { 420 };
            stub.docs.push((id.clone(), match_text(&id, queue, NOW_MILLIS, &group, "TOP")));
        }
        stub
    };
    let mut first = build();
    let mut crawler = kraken_absorb_run(&args("p0", "explore"), &None).unwrap();
    run(&mut crawler, &mut first);
    let mut second = build();
    let mut again = kraken_absorb_run(&args("p0", "explore"), &None).unwrap();
    run(&mut again, &mut second);
    assert_eq!(first.written, second.written);
    assert_eq!(first.written.len(), 4);
    let mut names: Vec<String> =
        first.written.iter().map(|id| riot_rust_api::riot_api::match_file_name(id)).collect();
    names.sort();
    assert_eq!(names, vec!["M0.json", "M1.json", "M3.json", "M4.json"]);
}
