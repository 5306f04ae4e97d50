//! The upstream API: which requests there are, how an answer is taken, and what a body holds.
//!
//! Nothing here touches the network. A request is a URL with the headers of its client; the
//! caller sends it, after the rate limiter has let it through, and reports the answer.

use crate::error::RiotError;
use crate::json::{parsed, pretty, Json};
use crate::rate_limiter::RateLimiter;
use crate::text::{ascii_lower, chain, decimal, parse_u64, to_decimal, unsigned, views};
use reqwest::header::{HeaderMap, HeaderValue};
use vstd::prelude::*;

verus! {

/// Where the upstream API lives.
pub const BASE_URL: &'static str = "https://europe.api.riotgames.com";

/// The header that carries the credential.
pub const CREDENTIAL_HEADER: &'static str = "X-Riot-Token";

/// The status that asks the client to slow down.
pub const TOO_MANY_REQUESTS: u16 = 429;

/// How often a request is sent at most.
pub const MAX_ATTEMPTS: usize = 2;

/// Seconds to wait before the retry when the upstream names none.
pub const DEFAULT_RETRY_SECS: u64 = 10;

/// The body of an account lookup.
#[derive(Clone, Debug)]
pub struct AccountResponse {
    pub puuid: String,
}

/// The URL that lists the latest `count` matches of a player.
pub open spec fn match_ids_url(puuid: Seq<char>, count: usize) -> Seq<char> {
    BASE_URL@ + "/lol/match/v5/matches/by-puuid/"@ + puuid + "/ids?start=0&count="@ + decimal(
        count as nat,
    )
}

/// The URL of a match document.
pub open spec fn match_url(match_id: Seq<char>) -> Seq<char> {
    BASE_URL@ + "/lol/match/v5/matches/"@ + match_id
}

/// The URL that resolves an account by game name and tag line.
pub open spec fn account_url(game_name: Seq<char>, tag_line: Seq<char>) -> Seq<char> {
    BASE_URL@ + "/riot/account/v1/accounts/by-riot-id/"@ + game_name + "/"@ + tag_line
}

/// Where the tier of a player is looked up, below the base URL; the player id follows.
pub const TIER_PATH: &'static str = "/lol/league/v4/tier/by-puuid/";

/// The URL that looks the ranked tier of a player up.
pub open spec fn tier_url(puuid: Seq<char>) -> Seq<char> {
    BASE_URL@ + TIER_PATH@ + puuid
}

/// The name of the file that holds a match document.
pub open spec fn file_name(match_id: Seq<char>) -> Seq<char> {
    match_id + ".json"@
}

/// Names the file that holds a match document.
pub fn match_file_name(match_id: &str) -> (out: String)
    ensures
        out@ == file_name(match_id@),
{
    chain(match_id, ".json")
}

/// What the store holds for a match: the name of its file, and the body pretty-printed.
pub open spec fn stored(match_id: Seq<char>, body: Seq<char>) -> Option<(Seq<char>, Seq<char>)> {
    match pretty(body) {
        Some(text) => Some((file_name(match_id), text)),
        None => None,
    }
}

/// Makes the entry of the store for a match out of the body that came for it: the name of the
/// file to create or overwrite, and what to write into it. There is one for every body that
/// is JSON, and none for any other.
pub fn save_match(match_id: &str, body: &str) -> (out: Option<(String, String)>)
    ensures
        out is Some <==> parsed(body@) is Some,
        match stored(match_id@, body@) {
            Some((name, text)) => match out {
                Some(entry) => entry.0@ == name && entry.1@ == text,
                None => false,
            },
            None => out is None,
        },
{
    match Json::to_pretty(body) {
        Some(text) => Some((match_file_name(match_id), text)),
        None => None,
    }
}

/// What is done about an answer.
#[derive(Clone, Debug, PartialEq, Eq)]
pub enum Reaction {
    /// The answer is a success: its body is decoded.
    Accept,
    /// The request is sent again after this many seconds.
    RetryAfter(u64),
    /// The request has failed.
    Fail(RiotError),
}

/// The seconds that a `Retry-After` header names.
pub open spec fn retry_secs(header: Option<Seq<char>>) -> Option<u64> {
    match header {
        Some(value) => unsigned(value),
        None => None,
    }
}

/// Whether a status is a success.
pub open spec fn is_success(status: u16) -> bool {
    200 <= status < 300
}

/// What is done about the answer with `status` to the request for `url` when `attempts`
/// answers came before it: a 429 is retried once, after the seconds that its `Retry-After`
/// header names and after ten where it names none, and fails the request the second time; any
/// other status but a success fails it at once.
pub open spec fn reaction(
    attempts: usize,
    url: String,
    status: u16,
    retry_after: Option<Seq<char>>,
) -> Reaction {
    if status == TOO_MANY_REQUESTS {
        if attempts + 1 >= MAX_ATTEMPTS {
            Reaction::Fail(RiotError::TooManyRequests(url))
        } else {
            Reaction::RetryAfter(
                match retry_secs(retry_after) {
                    Some(secs) => secs,
                    None => DEFAULT_RETRY_SECS,
                },
            )
        }
    } else if !is_success(status) {
        Reaction::Fail(RiotError::HttpStatus(status, url))
    } else {
        Reaction::Accept
    }
}

/// Reads the seconds off a `Retry-After` header.
pub fn parse_retry_after(header: Option<&str>) -> (out: Option<u64>)
    ensures
        out == retry_secs(
            match header {
                Some(value) => Some(value@),
                None => None,
            },
        ),
{
    match header {
        Some(value) => parse_u64(value),
        None => None,
    }
}

/// One request and the answers it has had.
#[derive(Debug)]
pub struct Exchange {
    url: String,
    attempts: usize,
}

impl Exchange {
    /// The URL of the request.
    pub closed spec fn target(&self) -> String {
        self.url
    }

    /// The answers had so far, counted up to `MAX_ATTEMPTS`.
    pub closed spec fn answered(&self) -> usize {
        self.attempts
    }

    /// A request for `url` that has had no answer yet.
    pub fn new(url: String) -> (out: Exchange)
        ensures
            out.target() == url,
            out.answered() == 0,
    {
        Exchange { url, attempts: 0 }
    }

    /// The URL to send the request to.
    pub fn url(&self) -> (out: &str)
        ensures
            out@ == self.target()@,
    {
        self.url.as_str()
    }

    /// Takes the status of an answer, and its `Retry-After` header where it has one.
    pub fn request_with_retry(&mut self, status: u16, retry_after: Option<&str>) -> (out:
        Reaction)
        ensures
            out == reaction(
                old(self).answered(),
                old(self).target(),
                status,
                match retry_after {
                    Some(value) => Some(value@),
                    None => None,
                },
            ),
            final(self).target() == old(self).target(),
            final(self).answered() == if old(self).answered() < MAX_ATTEMPTS {
                (old(self).answered() + 1) as usize
            } else {
                old(self).answered()
            },
    {
        let before: usize = self.attempts;
        if self.attempts < MAX_ATTEMPTS {
            self.attempts += 1;
        }
        if status == TOO_MANY_REQUESTS {
            if before >= MAX_ATTEMPTS - 1 {
                return Reaction::Fail(RiotError::TooManyRequests(self.url.clone()));
            }
            return Reaction::RetryAfter(
                match parse_retry_after(retry_after) {
                    Some(secs) => secs,
                    None => DEFAULT_RETRY_SECS,
                },
            );
        }
        if status < 200 || status >= 300 {
            return Reaction::Fail(RiotError::HttpStatus(status, self.url.clone()));
        }
        Reaction::Accept
    }
}

/// `http::HeaderMap`, as `reqwest` hands it on: the headers of a request.
#[verifier::external_type_specification]
#[verifier::external_body]
#[verifier::reject_recursive_types(T)]
pub struct ExHeaderMap<T>(HeaderMap<T>);

/// `http::HeaderValue`, as `reqwest` hands it on: the value of one header.
#[verifier::external_type_specification]
#[verifier::external_body]
pub struct ExHeaderValue(HeaderValue);

/// What a header map holds: for each header, under its name in lower case, the value set.
pub uninterp spec fn held(headers: HeaderMap<HeaderValue>) -> Map<Seq<char>, Seq<char>>;

/// The number of entries of a header map.
pub uninterp spec fn header_count(headers: HeaderMap<HeaderValue>) -> nat;

/// A number of entries below which a header map is sure to take one more. The map itself
/// gives up somewhere above: it refuses to grow its table beyond 32768 slots, and it grows
/// the table well before as many entries are in it.
pub const MAX_HEADERS: usize = 1024;

/// Whether a character may stand in the name of a header.
pub open spec fn name_char(c: char) -> bool {
    ('a' <= c && c <= 'z') || ('A' <= c && c <= 'Z') || ('0' <= c && c <= '9') || c == '!' || c
        == '#' || c == '$' || c == '%' || c == '&' || c == '\'' || c == '*' || c == '+' || c == '-'
        || c == '.' || c == '^' || c == '_' || c == '`' || c == '|' || c == '~'
}

/// Whether a string is the name of a header, short enough to be taken as it is.
pub open spec fn header_name(s: Seq<char>) -> bool {
    1 <= s.len() <= 64 && forall|i: int| 0 <= i < s.len() ==> name_char(#[trigger] s[i])
}

/// Whether a string can be the value of a header: no control character but the tab.
pub open spec fn header_text(s: Seq<char>) -> bool {
    forall|i: int| 0 <= i < s.len() ==> (#[trigger] s[i]) == '\t' || (s[i] as u32 >= 32 && s[i] as u32 != 127)
}

/// A string with its upper-case ASCII letters turned into lower case.
pub open spec fn lowered(s: Seq<char>) -> Seq<char> {
    s.map_values(|c: char| ascii_lower(c))
}

/// What an empty header map holds.
pub open spec fn no_entries() -> Map<Seq<char>, Seq<char>> {
    Map::empty()
}

/// Calls `HeaderMap::new`, which makes an empty map.
#[verifier::external_body]
fn no_headers() -> (out: HeaderMap<HeaderValue>)
    ensures
        held(out) == no_entries(),
        header_count(out) == 0,
{
    HeaderMap::new()
}

/// Calls `HeaderValue::from_str`, which takes a string without control characters other than
/// the tab, and `HeaderMap::insert` with the value it gives, which sets the header of that
/// name, kept in lower case, to the value and drops what was set before. `insert` panics on
/// a name that is no header name and on a map that cannot grow: the name must be one, of at
/// most 64 characters, and the map must hold fewer than `MAX_HEADERS` entries.
#[verifier::external_body]
fn set_header(headers: &mut HeaderMap<HeaderValue>, name: &'static str, value: &str) -> (out: bool)
    requires
        header_name(name@),
        header_count(*old(headers)) < MAX_HEADERS,
    ensures
        out == header_text(value@),
        held(*final(headers)) == if out {
            held(*old(headers)).insert(lowered(name@), value@)
        } else {
            held(*old(headers))
        },
        header_count(*final(headers)) <= header_count(*old(headers)) + 1,
{
    match HeaderValue::from_str(value) {
        Ok(v) => {
            headers.insert(name, v);
            true
        },
        Err(_) => false,
    }
}

/// The headers of every request: the credential and the content type.
pub open spec fn request_headers(api_key: Seq<char>) -> Map<Seq<char>, Seq<char>> {
    no_entries().insert("x-riot-token"@, api_key).insert(
        "content-type"@,
        "application/json"@,
    )
}

/// Makes the headers of every request; there are none for a credential that no header can
/// carry.
pub fn build_headers(api_key: &str) -> (out: Option<HeaderMap<HeaderValue>>)
    ensures
        out is Some <==> header_text(api_key@),
        out is Some ==> held(out->0) == request_headers(api_key@),
{
    let mut headers = no_headers();
    proof {
        reveal_strlit("X-Riot-Token");
        reveal_strlit("x-riot-token");
        reveal_strlit("content-type");
        reveal_strlit("application/json");
        assert(lowered("X-Riot-Token"@) =~= "x-riot-token"@);
        assert(lowered("content-type"@) =~= "content-type"@);
    }
    if !set_header(&mut headers, CREDENTIAL_HEADER, api_key) {
        return None;
    }
    let _ = set_header(&mut headers, "content-type", "application/json");
    Some(headers)
}

/// A client of the upstream API: the credential, and the headers that go with every request.
#[derive(Debug)]
pub struct RiotClient {
    api_key: String,
    headers: HeaderMap<HeaderValue>,
}

impl RiotClient {
    /// The credential of the client.
    pub closed spec fn credential(&self) -> Seq<char> {
        self.api_key@
    }

    /// The headers of the client's requests.
    pub closed spec fn headers_held(&self) -> Map<Seq<char>, Seq<char>> {
        held(self.headers)
    }

    /// What a client is made of a credential: none without a credential, and none of a
    /// credential that no header can carry.
    pub open spec fn made_of(api_key: Option<String>, out: Result<RiotClient, RiotError>) -> bool {
        match api_key {
            None => out == Err::<RiotClient, RiotError>(RiotError::MissingCredential),
            Some(key) => if header_text(key@) {
                &&& out is Ok
                &&& out->Ok_0.credential() == key@
                &&& out->Ok_0.headers_held() == request_headers(key@)
            } else {
                out == Err::<RiotClient, RiotError>(RiotError::InvalidCredential)
            },
        }
    }

    /// Makes a client of a credential; there is no client without one.
    pub fn new(api_key: Option<String>) -> (out: Result<RiotClient, RiotError>)
        ensures
            RiotClient::made_of(api_key, out),
    {
        match api_key {
            Some(key) => match build_headers(key.as_str()) {
                Some(headers) => Ok(RiotClient { api_key: key, headers }),
                None => Err(RiotError::InvalidCredential),
            },
            None => Err(RiotError::MissingCredential),
        }
    }

    /// Makes a client and sets the cap of the limiter's two-minute window. The cap is set
    /// whether or not there is a client in the end.
    pub fn new_with_max(
        api_key: Option<String>,
        max_reqs_per_2min: usize,
        limiter: &mut RateLimiter,
    ) -> (out: Result<RiotClient, RiotError>)
        ensures
            RiotClient::made_of(api_key, out),
            final(limiter).long_limit() == max_reqs_per_2min,
            final(limiter).short_limit() == old(limiter).short_limit(),
            final(limiter).long_window() == old(limiter).long_window(),
            final(limiter).short_window() == old(limiter).short_window(),
    {
        limiter.set_max_reqs_per_2min(max_reqs_per_2min);
        RiotClient::new(api_key)
    }

    /// The headers to send with every request.
    pub fn headers(&self) -> (out: &HeaderMap<HeaderValue>)
        ensures
            held(*out) == self.headers_held(),
    {
        &self.headers
    }

    /// The request for the latest `count` match ids of a player.
    pub fn get_match_ids_by_puuid(&self, puuid: &str, count: usize) -> (out: Exchange)
        ensures
            out.target()@ == match_ids_url(puuid@, count),
            out.answered() == 0,
    {
        let a = chain(BASE_URL, "/lol/match/v5/matches/by-puuid/");
        let b = chain(a.as_str(), puuid);
        let c = chain(b.as_str(), "/ids?start=0&count=");
        Exchange::new(chain(c.as_str(), to_decimal(count as u64).as_str()))
    }

    /// The request for a match document.
    pub fn get_match_json(&self, match_id: &str) -> (out: Exchange)
        ensures
            out.target()@ == match_url(match_id@),
            out.answered() == 0,
    {
        let a = chain(BASE_URL, "/lol/match/v5/matches/");
        Exchange::new(chain(a.as_str(), match_id))
    }

    /// The request for the ranked tier of a player.
    pub fn get_ranked_tier_by_puuid(&self, puuid: &str) -> (out: Exchange)
        ensures
            out.target()@ == tier_url(puuid@),
            out.answered() == 0,
    {
        let a = chain(BASE_URL, TIER_PATH);
        Exchange::new(chain(a.as_str(), puuid))
    }

    /// The request that resolves an account.
    pub fn get_account_by_riot_id(&self, game_name: &str, tag_line: &str) -> (out: Exchange)
        ensures
            out.target()@ == account_url(game_name@, tag_line@),
            out.answered() == 0,
    {
        let a = chain(BASE_URL, "/riot/account/v1/accounts/by-riot-id/");
        let b = chain(a.as_str(), game_name);
        let c = chain(b.as_str(), "/");
        Exchange::new(chain(c.as_str(), tag_line))
    }
}

/// The strings that `items` hold, when all of them are strings.
pub open spec fn all_strings(items: Seq<Json>) -> Option<Seq<Seq<char>>>
    decreases items.len(),
{
    if items.len() == 0 {
        Some(Seq::<Seq<char>>::empty())
    } else {
        match (all_strings(items.drop_last()), items.last().str_value()) {
            (Some(before), Some(s)) => Some(before.push(s)),
            _ => None,
        }
    }
}

/// The match ids that a body lists: it is an array of strings.
pub open spec fn listed_ids(doc: Json) -> Option<Seq<Seq<char>>> {
    match doc.items() {
        Some(items) => all_strings(items),
        None => None,
    }
}

/// The player id that an account body names.
pub open spec fn account_puuid(doc: Json) -> Option<Seq<char>> {
    doc.str_at("puuid"@)
}

/// The tier that a body names: a string, or nothing for `null`.
pub open spec fn named_tier(doc: Json) -> Option<Option<Seq<char>>> {
    match doc {
        Json::Str(s) => Some(Some(s@)),
        Json::Null => Some(None),
        _ => None,
    }
}

/// Reads the list of match ids off a body.
pub fn match_ids_of(doc: &Json) -> (out: Option<Vec<String>>)
    ensures
        match listed_ids(*doc) {
            Some(ids) => out is Some && views(out->Some_0@) == ids,
            None => out is None,
        },
{
    let Some(items) = doc.as_array() else {
        return None;
    };
    let mut out: Vec<String> = Vec::new();
    let mut i: usize = 0;
    assert(items@.take(0) =~= Seq::<Json>::empty());
    assert(views(out@) =~= Seq::<Seq<char>>::empty());
    while i < items.len()
        invariant
            i <= items.len(),
            all_strings(items@.take(i as int)) == Some(views(out@)),
            doc.items() == Some(items@),
        decreases items.len() - i,
    {
        assert(items@.take(i as int + 1).drop_last() =~= items@.take(i as int));
        match items[i].as_str() {
            Some(s) => {
                let ghost before = out@;
                out.push(s.to_owned());
                assert(views(out@) =~= views(before).push(s@));
            },
            None => {
                proof {
                    lemma_all_strings_prefix(items@, i as int + 1);
                }
                return None;
            },
        }
        i += 1;
    }
    assert(items@.take(items@.len() as int) =~= items@);
    Some(out)
}

proof fn lemma_all_strings_prefix(items: Seq<Json>, k: int)
    requires
        0 <= k <= items.len(),
        all_strings(items.take(k)) is None,
    ensures
        all_strings(items) is None,
    decreases items.len() - k,
{
    if k < items.len() {
        assert(items.take(k + 1).drop_last() =~= items.take(k));
        lemma_all_strings_prefix(items, k + 1);
    } else {
        assert(items.take(k) =~= items);
    }
}

/// Reads an account off a body.
pub fn account_of(doc: &Json) -> (out: Option<AccountResponse>)
    ensures
        match account_puuid(*doc) {
            Some(puuid) => out is Some && out->Some_0.puuid@ == puuid,
            None => out is None,
        },
{
    match doc.get_str("puuid") {
        Some(puuid) => Some(AccountResponse { puuid: puuid.to_owned() }),
        None => None,
    }
}

/// Reads a tier off a body.
pub fn tier_of_body(doc: &Json) -> (out: Option<Option<String>>)
    ensures
        match named_tier(*doc) {
            Some(Some(tier)) => out is Some && out->Some_0 is Some && out->Some_0->Some_0@ == tier,
            Some(None) => out == Some(None::<String>),
            None => out is None,
        },
{
    match doc {
        Json::Str(s) => Some(Some(s.clone())),
        Json::Null => Some(None),
        _ => None,
    }
}

/// Whether `out` is what decoding a body from `origin` gives, where `shape` says what the
/// document holds if it has the expected shape.
pub open spec fn decoded<T>(out: Result<T, RiotError>, origin: Seq<char>, shaped: bool) -> bool {
    &&& out is Ok <==> shaped
    &&& out is Err ==> out->Err_0 is Decode && out->Err_0->Decode_1@ == origin
}

/// Decodes the body of a request for match ids, which came from `url`.
pub fn get_match_ids_by_puuid(body: &str, url: &str) -> (out: Result<Vec<String>, RiotError>)
    ensures
        decoded(out, url@, parsed(body@) is Some && listed_ids(parsed(body@)->0) is Some),
        out is Ok ==> views(out->Ok_0@) == listed_ids(parsed(body@)->0)->0,
{
    match Json::parse(body) {
        Ok(doc) => match match_ids_of(&doc) {
            Some(ids) => Ok(ids),
            None => Err(RiotError::Decode("expected an array of strings".to_owned(), url.to_owned())),
        },
        Err(error) => Err(RiotError::Decode(error.message, url.to_owned())),
    }
}

/// Decodes the body of a request for a match document, which came from `url`.
pub fn get_match_json(body: &str, url: &str) -> (out: Result<Json, RiotError>)
    ensures
        decoded(out, url@, parsed(body@) is Some),
        out is Ok ==> Some(out->Ok_0) == parsed(body@),
{
    match Json::parse(body) {
        Ok(doc) => Ok(doc),
        Err(error) => Err(RiotError::Decode(error.message, url.to_owned())),
    }
}

/// Decodes the body of an account lookup, which came from `url`, down to the player id.
pub fn get_puuid(body: &str, url: &str) -> (out: Result<String, RiotError>)
    ensures
        decoded(out, url@, parsed(body@) is Some && account_puuid(parsed(body@)->0) is Some),
        out is Ok ==> out->Ok_0@ == account_puuid(parsed(body@)->0)->0,
{
    match Json::parse(body) {
        Ok(doc) => match account_of(&doc) {
            Some(account) => Ok(account.puuid),
            None => Err(RiotError::Decode("expected an account with a puuid".to_owned(), url.to_owned())),
        },
        Err(error) => Err(RiotError::Decode(error.message, url.to_owned())),
    }
}

/// Decodes the body of a tier lookup, which came from `url`.
pub fn get_ranked_tier(body: &str, url: &str) -> (out: Result<Option<String>, RiotError>)
    ensures
        decoded(out, url@, parsed(body@) is Some && named_tier(parsed(body@)->0) is Some),
        out is Ok ==> crate::text::opt_view(out->Ok_0) == named_tier(parsed(body@)->0)->0,
{
    match Json::parse(body) {
        Ok(doc) => match tier_of_body(&doc) {
            Some(tier) => Ok(tier),
            None => Err(RiotError::Decode("expected a tier or null".to_owned(), url.to_owned())),
        },
        Err(error) => Err(RiotError::Decode(error.message, url.to_owned())),
    }
}

} // verus!
