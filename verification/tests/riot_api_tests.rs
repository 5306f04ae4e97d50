use riot_rust_api::error::RiotError;
use riot_rust_api::json::Json;
use riot_rust_api::rate_limiter::RateLimiter;
use riot_rust_api::riot_api::{
    account_of, build_headers, get_match_ids_by_puuid, get_match_json, get_puuid,
    get_ranked_tier, match_file_name, match_ids_of, parse_retry_after, Exchange, Reaction,
    RiotClient, BASE_URL,
};

fn client() -> RiotClient {
    RiotClient::new(Some("SECRET-REDACTED".to_string())).expect("a credential was given")
}

#[test]
fn client_without_credential_is_refused() {
    assert_eq!(RiotClient::new(None).unwrap_err(), RiotError::MissingCredential);
    let mut limiter = RateLimiter::new(80, 20);
    limiter.record(1);
    let out = RiotClient::new_with_max(None, 60, &mut limiter);
    assert_eq!(out.unwrap_err(), RiotError::MissingCredential);
    assert_eq!(limiter.max_reqs_per_2min(), 60);
    assert_eq!(limiter.long_len(), 1);
}

#[test]
fn new_with_max_sets_the_long_cap() {
    let mut limiter = RateLimiter::new(80, 20);
    let out = RiotClient::new_with_max(Some("SECRET-REDACTED".to_string()), 33, &mut limiter);
    assert!(out.is_ok());
    assert_eq!(limiter.max_reqs_per_2min(), 33);
    assert_eq!(limiter.max_reqs_per_sec(), 20);
}

#[test]
fn headers_carry_credential_and_content_type() {
    let c = client();
    let headers = c.headers();
    assert_eq!(headers.len(), 2);
    assert_eq!(headers.get("x-riot-token").unwrap().to_str().unwrap(), "SECRET-REDACTED");
    assert_eq!(headers.get("X-Riot-Token").unwrap().to_str().unwrap(), "SECRET-REDACTED");
    assert_eq!(headers.get("content-type").unwrap().to_str().unwrap(), "application/json");
    let tabbed = build_headers("a\tb c").unwrap();
    assert_eq!(tabbed.get("x-riot-token").unwrap().as_bytes(), b"a\tb c");
    assert!(build_headers("é~").is_some());
    assert!(build_headers("").is_some());
}

#[test]
fn credential_with_control_characters_is_refused() {
    for key in ["bad\nkey", "\u{7f}", "a\rb", "\u{0}", "\u{1f}"] {
        assert!(build_headers(key).is_none(), "on {:?}", key);
        assert_eq!(
            RiotClient::new(Some(key.to_string())).unwrap_err(),
            RiotError::InvalidCredential
        );
    }
    let mut limiter = RateLimiter::new(80, 20);
    let out = RiotClient::new_with_max(Some("\n".to_string()), 7, &mut limiter);
    assert_eq!(out.unwrap_err(), RiotError::InvalidCredential);
    assert_eq!(limiter.max_reqs_per_2min(), 7);
}

#[test]
fn requests_name_their_urls() {
    assert_eq!(BASE_URL, "https://europe.api.riotgames.com");
    let c = client();
    assert_eq!(
        c.get_match_ids_by_puuid("abc", 100).url(),
        "https://europe.api.riotgames.com/lol/match/v5/matches/by-puuid/abc/ids?start=0&count=100"
    );
    assert_eq!(
        c.get_match_ids_by_puuid("abc", 0).url(),
        "https://europe.api.riotgames.com/lol/match/v5/matches/by-puuid/abc/ids?start=0&count=0"
    );
    assert_eq!(
        c.get_match_json("EUW1_1").url(),
        "https://europe.api.riotgames.com/lol/match/v5/matches/EUW1_1"
    );
    assert_eq!(
        c.get_account_by_riot_id("Name", "EUW").url(),
        "https://europe.api.riotgames.com/riot/account/v1/accounts/by-riot-id/Name/EUW"
    );
    assert_eq!(
        c.get_ranked_tier_by_puuid("abc").url(),
        "https://europe.api.riotgames.com/lol/league/v4/tier/by-puuid/abc"
    );
    assert_eq!(match_file_name("EUW1_1"), "EUW1_1.json");
}

#[test]
fn retry_after_429_then_success() {
    let mut exchange = Exchange::new("u".to_string());
    assert_eq!(exchange.request_with_retry(429, Some("1")), Reaction::RetryAfter(1));
    assert_eq!(exchange.request_with_retry(200, None), Reaction::Accept);
}

#[test]
fn second_429_fails_with_too_many_requests() {
    let mut exchange = Exchange::new("https://x/y".to_string());
    assert_eq!(exchange.request_with_retry(429, Some("1")), Reaction::RetryAfter(1));
    assert_eq!(
        exchange.request_with_retry(429, Some("1")),
        Reaction::Fail(RiotError::TooManyRequests("https://x/y".to_string()))
    );
    assert_eq!(
        exchange.request_with_retry(429, None),
        Reaction::Fail(RiotError::TooManyRequests("https://x/y".to_string()))
    );
}

#[test]
fn retry_waits_ten_seconds_without_a_usable_header() {
    assert_eq!(
        Exchange::new("u".to_string()).request_with_retry(429, None),
        Reaction::RetryAfter(10)
    );
    assert_eq!(
        Exchange::new("u".to_string()).request_with_retry(429, Some("soon")),
        Reaction::RetryAfter(10)
    );
    assert_eq!(
        Exchange::new("u".to_string()).request_with_retry(429, Some("0")),
        Reaction::RetryAfter(0)
    );
    assert_eq!(parse_retry_after(Some("120")), Some(120));
    assert_eq!(parse_retry_after(Some("")), None);
    assert_eq!(parse_retry_after(None), None);
}

#[test]
fn other_statuses_fail_at_once() {
    for status in [199u16, 300, 301, 400, 403, 404, 500, 503] {
        assert_eq!(
            Exchange::new("u".to_string()).request_with_retry(status, Some("1")),
            Reaction::Fail(RiotError::HttpStatus(status, "u".to_string()))
        );
    }
    for status in [200u16, 201, 204, 299] {
        assert_eq!(
            Exchange::new("u".to_string()).request_with_retry(status, None),
            Reaction::Accept
        );
    }
    // A failure after a retry is reported as the status it is.
    let mut exchange = Exchange::new("u".to_string());
    assert_eq!(exchange.request_with_retry(429, None), Reaction::RetryAfter(10));
    assert_eq!(
        exchange.request_with_retry(500, None),
        Reaction::Fail(RiotError::HttpStatus(500, "u".to_string()))
    );
}

#[test]
fn bodies_decode_to_their_shapes() {
    assert_eq!(
        get_match_ids_by_puuid(r#"["M1", "M2"]"#, "u").unwrap(),
        vec!["M1".to_string(), "M2".to_string()]
    );
    assert_eq!(get_match_ids_by_puuid("[]", "u").unwrap(), Vec::<String>::new());
    assert_eq!(get_puuid(r#"{"puuid": "p0", "gameName": "x"}"#, "u").unwrap(), "p0");
    assert_eq!(get_ranked_tier(r#""GOLD""#, "u").unwrap(), Some("GOLD".to_string()));
    assert_eq!(get_ranked_tier("null", "u").unwrap(), None);
    let doc = get_match_json(r#"{"info": {"queueId": 420}}"#, "u").unwrap();
    assert_eq!(doc.get("info").and_then(|info| info.get_i64("queueId")), Some(420));
}

#[test]
fn bodies_of_another_shape_fail_to_decode() {
    let bad = [r#"["M1", 2]"#, r#"{"a": 1}"#, "nonsense", ""];
    for body in bad {
        match get_match_ids_by_puuid(body, "the-url") {
            Err(RiotError::Decode(cause, origin)) => {
                assert!(!cause.is_empty());
                assert_eq!(origin, "the-url");
            }
            other => panic!("unexpected {:?}", other),
        }
    }
    assert!(matches!(get_puuid(r#"{"puuid": 5}"#, "u"), Err(RiotError::Decode(_, _))));
    assert!(matches!(get_puuid("[]", "u"), Err(RiotError::Decode(_, _))));
    assert!(matches!(get_ranked_tier("5", "u"), Err(RiotError::Decode(_, _))));
    assert!(matches!(get_match_json("{", "u"), Err(RiotError::Decode(_, _))));
    assert!(match_ids_of(&Json::Null).is_none());
    assert!(account_of(&Json::Array(Vec::new())).is_none());
}

#[test]
fn errors_read_as_one_line() {
    assert_eq!(
        RiotError::TooManyRequests("https://x".to_string()).message(),
        "Too many requests for URL https://x"
    );
    assert_eq!(
        RiotError::HttpStatus(404, "https://x".to_string()).message(),
        "Request to https://x failed with status 404"
    );
    assert_eq!(
        RiotError::UnsupportedLevel("match".to_string()).message(),
        "Unsupported level 'match'. Supported levels: player, team."
    );
    assert_eq!(
        RiotError::UnsupportedVariant("x".to_string()).message(),
        "Unknown variant: x"
    );
    assert_eq!(
        RiotError::MissingInput("--team-parquet".to_string(), "team-outcome".to_string())
            .message(),
        "--team-parquet is required for team-outcome"
    );
    assert_eq!(RiotError::EmptySeed.message(), "No seeds enqueued after applying filters");
    assert_eq!(RiotError::MissingCredential.message(), "RIOT_API_KEY is not set");
    assert_eq!(
        RiotError::InvalidCredential.message(),
        "RIOT_API_KEY cannot be sent in a header"
    );
    assert_eq!(RiotError::Transport("down".to_string()).message(), "Request failed: down");
    assert_eq!(
        RiotError::Decode("bad".to_string(), "u".to_string()).message(),
        "Unexpected JSON in u: bad"
    );
    assert_eq!(
        RiotError::Io("denied".to_string(), "/p".to_string()).message(),
        "Cannot access /p: denied"
    );
}

#[test]
fn store_entries_are_named_by_match_and_pretty_printed() {
    let (name, text) =
        riot_rust_api::riot_api::save_match("EUW1_9", r#"{"b":[1,2],"a":{"x":null}}"#).unwrap();
    assert_eq!(name, "EUW1_9.json");
    assert_eq!(
        text,
        "{\n  \"a\": {\n    \"x\": null\n  },\n  \"b\": [\n    1,\n    2\n  ]\n}"
    );
    assert_eq!(Json::to_pretty("[]"), Some("[]".to_string()));
    assert_eq!(Json::to_pretty(" 1 "), Some("1".to_string()));
    assert_eq!(Json::to_pretty("{"), None);
    assert!(riot_rust_api::riot_api::save_match("M", "not json").is_none());
    // Every body that parses has an entry.
    for body in ["null", "0", "-1.5e300", "\"\\u0000\"", "[[[]]]", "{\"\": {}}", "1e999"] {
        assert_eq!(
            riot_rust_api::riot_api::save_match("M", body).is_some(),
            Json::parse(body).is_ok(),
            "on {}",
            body
        );
    }
    // Writing the same body again gives the same entry.
    let again = riot_rust_api::riot_api::save_match("EUW1_9", &text).unwrap();
    assert_eq!(again, (name, text));
}
