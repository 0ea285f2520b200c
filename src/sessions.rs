//! The session table: unguessable tokens bound to a copy of the identity
//! that logged in.
use vstd::prelude::*;
use crate::database::User;
use crate::hashing::{is_secret_text, random_secret, to_hex, SECRET_LEN};

verus! {

/// How many fresh tokens `issue` draws before it gives up. A collision
/// among 256-bit tokens means that the random source is broken.
pub const MAX_TOKEN_ATTEMPTS: usize = 8;

/// Why a session could not be issued.
#[derive(Debug, PartialEq, Eq, Clone, Copy)]
pub enum SessionError {
    /// Every token drawn was already in use: the random source is not
    /// producing fresh values.
    EntropyUnavailable,
}

/// Generates a random session token: the hexadecimal text of fresh random
/// bytes.
pub fn gen_session_id() -> (r: String)
    ensures
        is_secret_text(r@),
{
    let bytes = random_secret();
    let r = to_hex(&bytes);
    assert(bytes@.len() == SECRET_LEN);
    r
}

/// Adding a token that is not in use keeps the tokens pairwise distinct, so
/// the tokens of any number of issues are pairwise distinct.
pub proof fn lemma_issued_tokens_distinct(before: SessionManager, after: SessionManager, t: Seq<char>)
    requires
        before.wf(),
        !before.tokens().contains(t),
        after.tokens() == before.tokens().push(t),
        after.holders().len() == after.tokens().len(),
    ensures
        after.wf(),
        forall|i: int, j: int|
            0 <= i < after.tokens().len() && 0 <= j < after.tokens().len() && i != j
                ==> after.tokens()[i] != after.tokens()[j],
{
    let n = before.tokens().len() as int;
    assert forall|i: int, j: int|
        0 <= i < after.tokens().len() && 0 <= j < after.tokens().len() && i != j
            implies after.tokens()[i] != after.tokens()[j] by {
        if i == n {
            assert(before.tokens()[j] == after.tokens()[j]);
        } else if j == n {
            assert(before.tokens()[i] == after.tokens()[i]);
        } else if i < j {
            assert(before.tokens()[i] != before.tokens()[j]);
        } else {
            assert(before.tokens()[j] != before.tokens()[i]);
        }
    }
}

/// A token that was never issued resolves to nothing.
pub proof fn lemma_unissued_token_unknown(m: SessionManager, t: Seq<char>)
    requires
        !m.tokens().contains(t),
    ensures
        m.lookup(t) is None,
{
}

/// A token resolves to the identity it was issued for, with the same
/// username.
pub proof fn lemma_resolve_after_issue(
    before: SessionManager,
    after: SessionManager,
    t: Seq<char>,
    u: User,
)
    requires
        before.wf(),
        !before.tokens().contains(t),
        after.tokens() == before.tokens().push(t),
        after.holders() == before.holders().push(u),
    ensures
        after.lookup(t) == Some(u),
        after.lookup(t)->Some_0.name() == u.name(),
{
    let n = before.tokens().len() as int;
    assert(after.tokens()[n] == t);
    let c = choose|i: int| 0 <= i < after.tokens().len() && after.tokens()[i] == t;
    assert(c == n) by {
        if c < n {
            assert(before.tokens()[c] == t);
        }
    }
}

/// Sessions in order of issue. Sessions are never revoked and never expire:
/// they last as long as the table.
pub struct SessionManager {
    entries: Vec<(String, User)>,
}

impl SessionManager {
    /// The tokens issued so far, in order.
    pub closed spec fn tokens(&self) -> Seq<Seq<char>> {
        Seq::new(self.entries@.len(), |i: int| self.entries@[i].0@)
    }

    /// The identity each token was issued for, in the same order.
    pub closed spec fn holders(&self) -> Seq<User> {
        Seq::new(self.entries@.len(), |i: int| self.entries@[i].1)
    }

    /// No token is issued twice.
    pub open spec fn wf(&self) -> bool {
        &&& self.tokens().len() == self.holders().len()
        &&& forall|i: int, j: int|
            0 <= i < j < self.tokens().len() ==> self.tokens()[i] != self.tokens()[j]
    }

    /// The identity bound to token `t`, if `t` was issued.
    pub open spec fn lookup(&self, t: Seq<char>) -> Option<User> {
        if self.tokens().contains(t) {
            Some(self.holders()[choose|i: int| 0 <= i < self.tokens().len() && self.tokens()[i] == t])
        } else {
            None
        }
    }

    /// An empty table.
    pub fn new() -> (r: Self)
        ensures
            r.wf(),
            r.tokens().len() == 0,
    {
        let r = SessionManager { entries: Vec::new() };
        assert(r.tokens() =~= Seq::empty());
        r
    }

    /// Where `t` stands among the issued tokens.
    fn position(&self, t: &String) -> (r: Option<usize>)
        requires
            self.wf(),
        ensures
            match r {
                Some(i) => i < self.tokens().len() && self.tokens()[i as int] == t@,
                None => !self.tokens().contains(t@),
            },
    {
        let mut i: usize = 0;
        while i < self.entries.len()
            invariant
                0 <= i <= self.entries@.len(),
                self.wf(),
                forall|j: int| 0 <= j < i ==> self.tokens()[j] != t@,
            decreases self.entries@.len() - i,
        {
            if self.entries[i].0 == *t {
                return Some(i);
            }
            i = i + 1;
        }
        None
    }

    /// The identity that token `t` was issued for; `None` for any other
    /// text, whether well-formed or not.
    pub fn resolve(&self, token: &str) -> (r: Option<User>)
        requires
            self.wf(),
        ensures
            r == self.lookup(token@),
    {
        let t = token.to_owned();
        match self.position(&t) {
            Some(i) => {
                let ghost c = choose|c: int| 0 <= c < self.tokens().len() && self.tokens()[c] == t@;
                assert(self.tokens()[i as int] == t@);
                assert(c == i);
                Some(self.entries[i].1.clone())
            },
            None => None,
        }
    }

    /// Binds `token` to a copy of `identity`, provided `token` is not in use;
    /// says whether it did.
    pub fn insert_fresh(&mut self, token: String, identity: &User) -> (r: bool)
        requires
            old(self).wf(),
        ensures
            final(self).wf(),
            r == !old(self).tokens().contains(token@),
            r ==> final(self).tokens() == old(self).tokens().push(token@),
            r ==> final(self).holders() == old(self).holders().push(*identity),
            r ==> final(self).lookup(token@) == Some(*identity),
            forall|t: Seq<char>| t != token@ ==> final(self).lookup(t) == old(self).lookup(t),
            !r ==> *final(self) == *old(self),
    {
        if self.position(&token).is_some() {
            return false;
        }
        let ghost old_tokens = self.tokens();
        let ghost old_holders = self.holders();
        let ghost t_new = token@;
        self.entries.push((token, identity.clone()));
        let ghost n = old_tokens.len() as int;
        assert(self.tokens() =~= old_tokens.push(t_new));
        assert(self.holders() =~= old_holders.push(*identity));
        assert(self.tokens()[n] == t_new);
        assert forall|t: Seq<char>| t != t_new implies self.lookup(t) == old(self).lookup(t) by {
            if old_tokens.contains(t) {
                let k = choose|i: int| 0 <= i < old_tokens.len() && old_tokens[i] == t;
                assert(self.tokens()[k] == t);
                let c = choose|i: int| 0 <= i < self.tokens().len() && self.tokens()[i] == t;
                assert(c == k);
            } else {
                assert(!self.tokens().contains(t)) by {
                    if self.tokens().contains(t) {
                        let c = choose|i: int| 0 <= i < self.tokens().len() && self.tokens()[i] == t;
                        assert(old_tokens[c] == t);
                    }
                }
            }
        }
        proof {
            lemma_issued_tokens_distinct(*old(self), *self, t_new);
            lemma_resolve_after_issue(*old(self), *self, t_new, *identity);
        }
        true
    }

    /// Binds a fresh token to a copy of `identity` and returns the token. A
    /// drawn token that is already in use is drawn again, up to
    /// `MAX_TOKEN_ATTEMPTS` times in all.
    pub fn issue(&mut self, identity: &User) -> (r: Result<String, SessionError>)
        requires
            old(self).wf(),
        ensures
            final(self).wf(),
            match r {
                Ok(t) => {
                    &&& is_secret_text(t@)
                    &&& !old(self).tokens().contains(t@)
                    &&& final(self).tokens() == old(self).tokens().push(t@)
                    &&& final(self).holders() == old(self).holders().push(*identity)
                    &&& final(self).lookup(t@) == Some(*identity)
                    &&& forall|u: Seq<char>| u != t@ ==> final(self).lookup(u) == old(self).lookup(u)
                },
                Err(e) => *final(self) == *old(self) && e == SessionError::EntropyUnavailable,
            },
    {
        let mut attempts: usize = 0;
        while attempts < MAX_TOKEN_ATTEMPTS
            invariant
                *self == *old(self),
                self.wf(),
            decreases MAX_TOKEN_ATTEMPTS - attempts,
        {
            let token = gen_session_id();
            if self.insert_fresh(token.clone(), identity) {
                return Ok(token);
            }
            attempts = attempts + 1;
        }
        Err(SessionError::EntropyUnavailable)
    }
}

} // verus!
