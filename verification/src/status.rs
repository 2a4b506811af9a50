//! The game server's status document, read into the stats that the panel shows.

use vstd::prelude::*;
use crate::error::Error;
use crate::json::{
    json_bool_at, json_bool_at_ptr, json_error_message, json_parses, json_str_at, json_str_at_ptr, json_u64_at,
    json_u64_at_ptr, parse_json,
};
use crate::models::{Players, ServerStats};
use crate::packet::{lemma_low_32_small, low_32};
use crate::text::{
    before_first, chars_of, find_char, first_index, has_char, lemma_first_index,
    string_of_chars,
};
use vstd::string::StringExecFns;

verus! {

/// The version that the panel shows: the second of the `-`-separated pieces of
/// the server's version name (`"Paper-1.21.4"` gives `"1.21.4"`), or
/// `"Unknown"` when the name has no `-`.
pub open spec fn extract_version_spec(full: Seq<char>) -> Seq<char> {
    if has_char(full, '-') {
        before_first(full.skip(first_index(full, '-') + 1), '-')
    } else {
        "Unknown"@
    }
}

proof fn lemma_extract_no_dash(s: Seq<char>)
    requires
        forall|j: int| 0 <= j < s.len() ==> s[j] != '-',
    ensures
        extract_version_spec(s) == "Unknown"@,
{
    assert(!has_char(s, '-'));
}

proof fn lemma_extract_split(s: Seq<char>, first: int, second: int)
    requires
        0 <= first < second <= s.len(),
        s[first] == '-',
        forall|j: int| 0 <= j < first ==> s[j] != '-',
        forall|j: int| first < j < second ==> s[j] != '-',
        second < s.len() ==> s[second] == '-',
    ensures
        extract_version_spec(s) =~= s.subrange(first + 1, second),
{
    lemma_first_index(s, '-', first);
    let rest = s.skip(first + 1);
    if second < s.len() {
        lemma_first_index(rest, '-', second - first - 1);
    } else {
        assert(!has_char(rest, '-'));
    }
}

/// The version that the panel shows, taken from the server's version name.
pub fn extract_version(full_version: &str) -> (r: String)
    ensures
        r@ == extract_version_spec(full_version@),
{
    let chars = chars_of(full_version);
    let first = find_char(&chars, 0, '-');
    if first == chars.len() {
        proof {
            lemma_extract_no_dash(full_version@);
        }
        return String::from_str("Unknown");
    }
    let second = find_char(&chars, first + 1, '-');
    proof {
        lemma_extract_split(full_version@, first as int, second as int);
    }
    string_of_chars(chars.as_slice(), first + 1, second)
}

/// The stats of a server that answered, from what its status document holds:
/// the version name at `version.name`, the counts at `players.online` and
/// `players.max` (each reduced to 32 bits; absent ones count as 0).
pub open spec fn status_of(name: Option<Seq<char>>, online: Option<u64>, max: Option<u64>) -> (bool, Seq<char>, nat, nat) {
    (
        true,
        extract_version_spec(
            match name {
                Some(n) => n,
                None => "Unknown"@,
            },
        ),
        low_32(
            match online {
                Some(v) => v as nat,
                None => 0,
            },
        ),
        low_32(
            match max {
                Some(v) => v as nat,
                None => 0,
            },
        ),
    )
}

/// The stats as plain values: online, version, players online, player slots.
pub open spec fn stats_view(s: ServerStats) -> (bool, Seq<char>, nat, nat) {
    (s.online, s.protocol_name@, s.players.online as nat, s.players.max as nat)
}

/// `v as u32`: the low 32 bits.
fn low_u32(v: u64) -> (r: u32)
    ensures
        r as nat == low_32(v as nat),
{
    (v % 0x1_0000_0000u64) as u32
}

/// The stats of a server that answered, from the three values its status
/// document was found to hold (or not).
pub fn status_from_fields(name: Option<&str>, online: Option<u64>, max: Option<u64>) -> (s: ServerStats)
    ensures
        s.online,
        stats_view(s) == status_of(
            match name {
                Some(n) => Some(n@),
                None => None,
            },
            online,
            max,
        ),
{
    let protocol_name = match name {
        Some(n) => extract_version(n),
        None => extract_version("Unknown"),
    };
    let online_count = match online {
        Some(v) => low_u32(v),
        None => 0,
    };
    let max_count = match max {
        Some(v) => low_u32(v),
        None => 0,
    };
    proof {
        lemma_low_32_small(0);
    }
    ServerStats {
        online: true,
        protocol_name,
        players: Players { online: online_count, max: max_count },
    }
}

/// `prefix` followed by `detail`, as a new string.
fn prefixed(prefix: &str, detail: &str) -> (r: String)
    ensures
        r@ == prefix@ + detail@,
{
    let mut m = String::from_str(prefix);
    m.append(detail);
    m
}

/// The status document that the game server sent, read into the panel's
/// stats. A document that serde_json does not accept is an error; otherwise
/// the stats are those of the values at `version.name`, `players.online` and
/// `players.max`, whichever of them are there.
pub fn parse_status_response(response: &str) -> (r: Result<ServerStats, Error>)
    ensures
        r is Ok <==> json_parses(response@),
        r matches Ok(s) ==> s.online,
        r matches Ok(s) ==> stats_view(s) == status_of(
            json_str_at(response@, "/version/name"@),
            json_u64_at(response@, "/players/online"@),
            json_u64_at(response@, "/players/max"@),
        ),
        r matches Err(e) ==> e matches Error::ServerError(m) && m@ == "Failed to parse JSON: "@
            + json_error_message(response@),
{
    match parse_json(response) {
        Ok(()) => {},
        Err(detail) => {
            let m = prefixed("Failed to parse JSON: ", detail.as_str());
            return Err(Error::ServerError(m));
        },
    }
    let name = json_str_at_ptr(response, "/version/name");
    let online = json_u64_at_ptr(response, "/players/online");
    let max = json_u64_at_ptr(response, "/players/max");
    let s = match name {
        Some(n) => status_from_fields(Some(n.as_str()), online, max),
        None => status_from_fields(None, online, max),
    };
    proof {
        lemma_answered_server_stats(json_str_at(response@, "/version/name"@), online, max, online, max);
    }
    Ok(s)
}

/// A server that answered its status query is shown online, whatever its
/// player counts; its version does not depend on the counts; and each count
/// is the number found in the document (when it fits in 32 bits), or 0 when
/// none is found.
pub proof fn lemma_answered_server_stats(
    name: Option<Seq<char>>,
    online: Option<u64>,
    max: Option<u64>,
    online2: Option<u64>,
    max2: Option<u64>,
)
    ensures
        status_of(name, online, max).0,
        status_of(name, online, max).1 == status_of(name, online2, max2).1,
        online matches Some(v) ==> (v < 0x1_0000_0000 ==> status_of(name, online, max).2 == v),
        max matches Some(v) ==> (v < 0x1_0000_0000 ==> status_of(name, online, max).3 == v),
        online is None ==> status_of(name, online, max).2 == 0,
        max is None ==> status_of(name, online, max).3 == 0,
{
    lemma_low_32_small(0);
    if let Some(v) = online {
        if v < 0x1_0000_0000 {
            lemma_low_32_small(v as nat);
        }
    }
    if let Some(v) = max {
        if v < 0x1_0000_0000 {
            lemma_low_32_small(v as nat);
        }
    }
}

/// Why the status lookup through the public status API failed.
#[derive(Debug)]
pub enum ServerError {
    /// The HTTP request failed; the request error's message.
    ReqwestError(String),
    /// The answer could not be read.
    ParseError(String),
}

impl ServerError {
    /// The error's message, as it is shown in the log.
    pub fn message(&self) -> (m: String)
        ensures
            m@ == match self {
                ServerError::ReqwestError(e) => "Request error: "@ + e@,
                ServerError::ParseError(e) => "Parse error: "@ + e@,
            },
    {
        match self {
            ServerError::ReqwestError(e) => prefixed("Request error: ", e.as_str()),
            ServerError::ParseError(e) => prefixed("Parse error: ", e.as_str()),
        }
    }
}

/// The stats from what the public status API's answer holds: `online`,
/// `protocol_name` (taken whole), `players.online` and `players.max`.
pub open spec fn api_status_of(
    online: Option<bool>,
    name: Option<Seq<char>>,
    players_online: Option<u64>,
    players_max: Option<u64>,
) -> (bool, Seq<char>, nat, nat) {
    (
        match online {
            Some(b) => b,
            None => false,
        },
        match name {
            Some(n) => n,
            None => "Unknown"@,
        },
        low_32(
            match players_online {
                Some(v) => v as nat,
                None => 0,
            },
        ),
        low_32(
            match players_max {
                Some(v) => v as nat,
                None => 0,
            },
        ),
    )
}

/// The stats from the four values that the public status API's answer was
/// found to hold (or not).
pub fn api_status_from_fields(
    online: Option<bool>,
    name: Option<&str>,
    players_online: Option<u64>,
    players_max: Option<u64>,
) -> (s: ServerStats)
    ensures
        stats_view(s) == api_status_of(
            online,
            match name {
                Some(n) => Some(n@),
                None => None,
            },
            players_online,
            players_max,
        ),
{
    proof {
        lemma_low_32_small(0);
    }
    let online = match online {
        Some(b) => b,
        None => false,
    };
    let protocol_name = match name {
        Some(n) => String::from_str(n),
        None => String::from_str("Unknown"),
    };
    let on = match players_online {
        Some(v) => low_u32(v),
        None => 0,
    };
    let mx = match players_max {
        Some(v) => low_u32(v),
        None => 0,
    };
    ServerStats { online, protocol_name, players: Players { online: on, max: mx } }
}

/// The answer text of the public status API, read into the panel's stats.
/// An empty answer, and one that serde_json does not accept, are errors.
pub fn parse_api_status(text: &str) -> (r: Result<ServerStats, ServerError>)
    ensures
        r is Ok <==> text@.len() > 0 && json_parses(text@),
        r matches Ok(s) ==> stats_view(s) == api_status_of(
            json_bool_at(text@, "/online"@),
            json_str_at(text@, "/protocol_name"@),
            json_u64_at(text@, "/players/online"@),
            json_u64_at(text@, "/players/max"@),
        ),
        text@.len() == 0 ==> (r matches Err(ServerError::ParseError(m)) && m@
            == "Empty response from server"@),
        text@.len() > 0 && !json_parses(text@) ==> (r matches Err(ServerError::ParseError(m))
            && m@ == "Failed to parse JSON: "@ + json_error_message(text@)),
{
    if text.is_empty() {
        return Err(ServerError::ParseError(String::from_str("Empty response from server")));
    }
    match parse_json(text) {
        Ok(()) => {},
        Err(detail) => {
            let m = prefixed("Failed to parse JSON: ", detail.as_str());
            return Err(ServerError::ParseError(m));
        },
    }
    let online = json_bool_at_ptr(text, "/online");
    let name = json_str_at_ptr(text, "/protocol_name");
    let players_online = json_u64_at_ptr(text, "/players/online");
    let players_max = json_u64_at_ptr(text, "/players/max");
    let s = match name {
        Some(n) => api_status_from_fields(online, Some(n.as_str()), players_online, players_max),
        None => api_status_from_fields(online, None, players_online, players_max),
    };
    Ok(s)
}

} // verus!
