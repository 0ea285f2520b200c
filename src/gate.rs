//! The access gate: finds the session token among a request's cookies and
//! decides whether the request may proceed.
use vstd::prelude::*;
use crate::database::User;
use crate::sessions::{lemma_resolve_after_issue, SessionManager};

verus! {

/// The name of the cookie that carries the session token.
pub const SESSION_NAME: &'static str = "nickelsession";

/// The (name, value) pair that the cookie crate reads from one cookie
/// header entry, or `None` where it finds no pair.
pub uninterp spec fn cookie_pair_of(entry: Seq<char>) -> Option<(Seq<char>, Seq<char>)>;

/// Relies on cookie::Cookie::parse together with Cookie::name and
/// Cookie::value: the pair read from the text, which depends on the text
/// alone; a parse error becomes `None`.
#[verifier::external_body]
fn parse_cookie(entry: &str) -> (r: Option<(String, String)>)
    ensures
        match r {
            Some((n, v)) => cookie_pair_of(entry@) == Some((n@, v@)),
            None => cookie_pair_of(entry@) is None,
        },
{
    cookie::Cookie::parse(entry).ok().map(|c| (c.name().to_string(), c.value().to_string()))
}

/// A parsed cookie entry, as text.
pub open spec fn pair_view(p: Option<(String, String)>) -> Option<(Seq<char>, Seq<char>)> {
    match p {
        Some((n, v)) => Some((n@, v@)),
        None => None,
    }
}

/// The value of the first pair named `name`; entries without a pair are
/// passed over.
pub open spec fn first_value_named(pairs: Seq<Option<(Seq<char>, Seq<char>)>>, name: Seq<char>) -> Option<
    Seq<char>,
>
    decreases pairs.len(),
{
    if pairs.len() == 0 {
        None
    } else {
        match pairs[0] {
            Some((n, v)) => if n == name {
                Some(v)
            } else {
                first_value_named(pairs.drop_first(), name)
            },
            None => first_value_named(pairs.drop_first(), name),
        }
    }
}

/// The session token among already parsed cookie entries: the value of the
/// first one named `SESSION_NAME`.
pub fn session_from_pairs(pairs: &Vec<Option<(String, String)>>) -> (r: Option<String>)
    ensures
        r matches Some(v) ==> first_value_named(pairs@.map_values(|p| pair_view(p)), SESSION_NAME@)
            == Some(v@),
        r is None ==> first_value_named(pairs@.map_values(|p| pair_view(p)), SESSION_NAME@) is None,
{
    let ghost all = pairs@.map_values(|p| pair_view(p));
    let name = SESSION_NAME.to_owned();
    let mut i: usize = 0;
    assert(all.subrange(0, all.len() as int) =~= all);
    while i < pairs.len()
        invariant
            0 <= i <= pairs@.len(),
            all == pairs@.map_values(|p| pair_view(p)),
            name@ == SESSION_NAME@,
            first_value_named(all, SESSION_NAME@) == first_value_named(
                all.subrange(i as int, all.len() as int),
                SESSION_NAME@,
            ),
        decreases pairs@.len() - i,
    {
        let ghost rest = all.subrange(i as int, all.len() as int);
        assert(rest.drop_first() =~= all.subrange(i + 1, all.len() as int));
        assert(rest[0] == pair_view(pairs@[i as int]));
        match &pairs[i] {
            Some((n, v)) => {
                if *n == name {
                    return Some(v.clone());
                }
            },
            None => {},
        }
        i = i + 1;
    }
    None
}

/// The session token of a request, from the entries of its cookie header:
/// the value of the first entry named `SESSION_NAME`. Entries that do not
/// parse are passed over.
pub fn get_session(entries: &Vec<String>) -> (r: Option<String>)
    ensures
        r matches Some(v) ==> first_value_named(entries@.map_values(|e: String| cookie_pair_of(e@)), SESSION_NAME@)
            == Some(v@),
        r is None ==> first_value_named(entries@.map_values(|e: String| cookie_pair_of(e@)), SESSION_NAME@) is None,
{
    let mut pairs: Vec<Option<(String, String)>> = Vec::new();
    let mut i: usize = 0;
    while i < entries.len()
        invariant
            0 <= i <= entries@.len(),
            pairs@.len() == i,
            forall|j: int| 0 <= j < i ==> pair_view(#[trigger] pairs@[j]) == cookie_pair_of(entries@[j]@),
        decreases entries@.len() - i,
    {
        pairs.push(parse_cookie(entries[i].as_str()));
        i = i + 1;
    }
    assert(pairs@.map_values(|p| pair_view(p)) =~= entries@.map_values(|e: String| cookie_pair_of(e@)));
    session_from_pairs(&pairs)
}

/// The outcome of the access gate.
#[derive(Debug, PartialEq, Eq)]
pub enum Decision {
    /// The request may proceed on behalf of this identity.
    Allow(User),
    /// The request must be sent back to log in.
    Deny,
}

/// The access decision for a request that presents `token`.
pub open spec fn decision_of(sessions: SessionManager, token: Option<Seq<char>>) -> Decision {
    match token {
        None => Decision::Deny,
        Some(t) => match sessions.lookup(t) {
            Some(u) => Decision::Allow(u),
            None => Decision::Deny,
        },
    }
}

/// A request without a token is denied, and so is one with a token that was
/// never issued; one with an issued token is allowed on behalf of the
/// identity the token was issued for.
pub proof fn lemma_gate_decisions(
    before: SessionManager,
    after: SessionManager,
    t: Seq<char>,
    u: User,
    unissued: Seq<char>,
)
    requires
        before.wf(),
        !before.tokens().contains(t),
        after.tokens() == before.tokens().push(t),
        after.holders() == before.holders().push(u),
        !after.tokens().contains(unissued),
    ensures
        decision_of(after, None) == Decision::Deny,
        decision_of(after, Some(unissued)) == Decision::Deny,
        decision_of(after, Some(t)) == Decision::Allow(u),
{
    lemma_resolve_after_issue(before, after, t, u);
}

/// The token text presented, if any.
pub open spec fn token_view(token: Option<&str>) -> Option<Seq<char>> {
    match token {
        Some(t) => Some(t@),
        None => None,
    }
}

/// Allows a request whose token names a session, with that session's
/// identity; denies it otherwise, alike for a missing, malformed or unknown
/// token. Changes nothing.
pub fn check(sessions: &SessionManager, token: Option<&str>) -> (r: Decision)
    requires
        sessions.wf(),
    ensures
        r == decision_of(*sessions, token_view(token)),
{
    match token {
        None => Decision::Deny,
        Some(t) => match sessions.resolve(t) {
            Some(u) => Decision::Allow(u),
            None => Decision::Deny,
        },
    }
}

} // verus!
