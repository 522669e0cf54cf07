//! The routing configuration: the text that names each model and its port.

use crate::decimal::{numeral, parse_u16};
use crate::routing::{table_of, RoutingTable};
use vstd::prelude::*;
use vstd::utf8::encode_utf8;

verus! {

/// Why a configuration text gives no routing table.
#[derive(Debug, Clone, Copy, PartialEq, Eq, Structural)]
pub enum ConfigError {
    /// The matcher did not take the route pattern.
    BadPattern,
    /// A match lacks the model's name or the port.
    MissingGroup,
    /// A port is not a numeral of at most 65535.
    BadPort,
}

/// What the regular expression `pattern` finds in `haystack`: nothing where
/// `pattern` is not a regular expression that the matcher compiles, and else
/// its successive matches from left to right, none overlapping another. Each
/// match is the list of its capture groups, the whole match first; a group is
/// the text it matched, or nothing where it took no part in the match.
pub uninterp spec fn captures_of(pattern: Seq<char>, haystack: Seq<char>) -> Option<
    Seq<Seq<Option<Seq<char>>>>,
>;

/// Matches `pattern` against `haystack` with the `regex` crate:
/// `Regex::new` compiles the pattern, `Regex::captures_iter` walks the
/// matches, and `Captures::iter` with `Match::as_str` gives each group's
/// text. The result is a function of the two texts alone, and `captures_of`
/// is its name; nothing more is claimed of it.
#[verifier::external_body]
fn capture_groups(pattern: &str, haystack: &str) -> (r: Option<Vec<Vec<Option<String>>>>)
    ensures
        r.deep_view() == captures_of(pattern@, haystack@),
{
    match regex::Regex::new(pattern) {
        Ok(re) => Some(
            re.captures_iter(haystack).map(
                |c| c.iter().map(|g| g.map(|m| m.as_str().to_string())).collect(),
            ).collect(),
        ),
        Err(_) => None,
    }
}

/// The pattern of one route: a model's name made of letters, a comma, a port
/// made of digits, and a semicolon.
pub const ROUTE_PATTERN: &'static str = "([a-zA-Z]+),([0-9]+);";

/// The route that one match gives. Its first group is the model's name and
/// its second the port, written as a numeral.
pub open spec fn route_of(groups: Seq<Option<Seq<char>>>) -> Result<(Seq<char>, u16), ConfigError> {
    if groups.len() > 2 && groups[1] is Some && groups[2] is Some {
        match numeral(encode_utf8(groups[2]->Some_0), u16::MAX as nat) {
            Some(port) => Ok((groups[1]->Some_0, port as u16)),
            None => Err(ConfigError::BadPort),
        }
    } else {
        Err(ConfigError::MissingGroup)
    }
}

/// The routes that a series of matches gives, in their order, or the error
/// of the first match that gives none.
pub open spec fn routes_of(matches: Seq<Seq<Option<Seq<char>>>>) -> Result<
    Seq<(Seq<char>, u16)>,
    ConfigError,
>
    decreases matches.len(),
{
    if matches.len() == 0 {
        Ok(Seq::empty())
    } else {
        match routes_of(matches.drop_last()) {
            Err(e) => Err(e),
            Ok(earlier) => match route_of(matches.last()) {
                Err(e) => Err(e),
                Ok(route) => Ok(earlier.push(route)),
            },
        }
    }
}

/// The routing table that the matcher's findings give.
pub open spec fn table_from(found: Option<Seq<Seq<Option<Seq<char>>>>>) -> Result<
    Map<Seq<char>, u16>,
    ConfigError,
> {
    match found {
        None => Err(ConfigError::BadPattern),
        Some(matches) => match routes_of(matches) {
            Err(e) => Err(e),
            Ok(routes) => Ok(table_of(routes)),
        },
    }
}

/// Reads the route of one match.
pub fn route_from_groups(groups: &Vec<Option<String>>) -> (r: Result<(String, u16), ConfigError>)
    ensures
        match r {
            Ok(route) => route_of(groups.deep_view()) == Ok::<(Seq<char>, u16), ConfigError>(
                route.deep_view(),
            ),
            Err(e) => route_of(groups.deep_view()) == Err::<(Seq<char>, u16), ConfigError>(e),
        },
{
    if groups.len() <= 2 {
        return Err(ConfigError::MissingGroup);
    }
    assert(groups.deep_view()[1] == groups@[1].deep_view());
    assert(groups.deep_view()[2] == groups@[2].deep_view());
    match (&groups[1], &groups[2]) {
        (Some(name), Some(port)) => {
            match parse_u16(port.as_str().as_bytes()) {
                Some(p) => Ok((name.clone(), p)),
                None => Err(ConfigError::BadPort),
            }
        },
        _ => Err(ConfigError::MissingGroup),
    }
}

/// Reads the routes of a series of matches.
pub fn routes_from_matches(matches: &Vec<Vec<Option<String>>>) -> (r: Result<
    Vec<(String, u16)>,
    ConfigError,
>)
    ensures
        match r {
            Ok(routes) => routes_of(matches.deep_view()) == Ok::<
                Seq<(Seq<char>, u16)>,
                ConfigError,
            >(routes.deep_view()),
            Err(e) => routes_of(matches.deep_view()) == Err::<Seq<(Seq<char>, u16)>, ConfigError>(
                e,
            ),
        },
{
    let mut routes: Vec<(String, u16)> = Vec::new();
    let mut i: usize = 0;
    assert(matches.deep_view().take(0) == Seq::<Seq<Option<Seq<char>>>>::empty());
    assert(routes.deep_view() == Seq::<(Seq<char>, u16)>::empty());
    while i < matches.len()
        invariant
            i <= matches.len(),
            routes_of(matches.deep_view().take(i as int)) == Ok::<
                Seq<(Seq<char>, u16)>,
                ConfigError,
            >(routes.deep_view()),
        ensures
            i == matches.len(),
        decreases matches.len() - i,
    {
        let ghost upto = matches.deep_view().take(i + 1);
        let ghost earlier = routes.deep_view();
        proof {
            assert(upto.drop_last() == matches.deep_view().take(i as int));
            assert(upto.last() == matches@[i as int].deep_view());
            lemma_routes_error_stays(matches.deep_view(), i + 1);
        }
        match route_from_groups(&matches[i]) {
            Ok(route) => {
                routes.push(route);
                assert(routes.deep_view() == earlier.push(route.deep_view()));
            },
            Err(e) => {
                return Err(e);
            },
        }
        i = i + 1;
    }
    assert(matches.deep_view().take(i as int) == matches.deep_view());
    Ok(routes)
}

/// An error among the first matches is the error of the whole series.
pub proof fn lemma_routes_error_stays(matches: Seq<Seq<Option<Seq<char>>>>, k: int)
    requires
        0 <= k <= matches.len(),
    ensures
        routes_of(matches.take(k)) matches Err(e) ==> routes_of(matches) == Err::<
            Seq<(Seq<char>, u16)>,
            ConfigError,
        >(e),
    decreases matches.len() - k,
{
    if k == matches.len() {
        assert(matches.take(k) == matches);
    } else {
        assert(matches.take(k + 1).drop_last() == matches.take(k));
        lemma_routes_error_stays(matches, k + 1);
    }
}

/// Builds the routing table from what the matcher found.
pub fn table_from_captures(found: Option<Vec<Vec<Option<String>>>>) -> (r: Result<
    RoutingTable,
    ConfigError,
>)
    ensures
        match r {
            Ok(table) => table_from(found.deep_view()) == Ok::<Map<Seq<char>, u16>, ConfigError>(
                table@,
            ),
            Err(e) => table_from(found.deep_view()) == Err::<Map<Seq<char>, u16>, ConfigError>(e),
        },
{
    match found {
        None => Err(ConfigError::BadPattern),
        Some(matches) => match routes_from_matches(&matches) {
            Err(e) => Err(e),
            Ok(routes) => Ok(RoutingTable::from_routes(&routes)),
        },
    }
}

/// Reads the routing table from the configuration text. Every stretch of the
/// text that has the shape of a route counts, and whatever stands between
/// such stretches is passed over.
pub fn parse_routes(text: &str) -> (r: Result<RoutingTable, ConfigError>)
    ensures
        match r {
            Ok(table) => table_from(captures_of(ROUTE_PATTERN@, text@)) == Ok::<
                Map<Seq<char>, u16>,
                ConfigError,
            >(table@),
            Err(e) => table_from(captures_of(ROUTE_PATTERN@, text@)) == Err::<
                Map<Seq<char>, u16>,
                ConfigError,
            >(e),
        },
{
    table_from_captures(capture_groups(ROUTE_PATTERN, text))
}

} // verus!
