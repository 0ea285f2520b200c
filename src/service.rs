//! One object that owns the credential store and the session table, and
//! offers registration, login and the access check.
use vstd::prelude::*;
use vstd::utf8::encode_utf8;
use crate::database::{add_user, validate_user, verified_user, User};
use crate::gate::{check, decision_of, token_view, Decision};
use crate::hashing::is_secret_text;
use crate::sessions::{SessionError, SessionManager};

verus! {

/// Why a login produced no token.
#[derive(Debug, PartialEq, Eq, Clone, Copy)]
pub enum AuthError {
    /// The username is unknown or the password is wrong; which of the two is
    /// not told.
    AuthenticationFailed,
    /// No fresh session token could be drawn.
    EntropyUnavailable,
}

/// The credential store and the session table of one service.
pub struct AuthService {
    users: Vec<User>,
    sessions: SessionManager,
}

impl AuthService {
    /// The registered identities, in order of registration.
    pub closed spec fn identities(&self) -> Seq<User> {
        self.users@
    }

    /// The session table.
    pub closed spec fn table(&self) -> SessionManager {
        self.sessions
    }

    pub open spec fn wf(&self) -> bool {
        self.table().wf()
    }

    /// A service with no identities and no sessions.
    pub fn new() -> (r: Self)
        ensures
            r.wf(),
            r.identities().len() == 0,
            r.table().tokens().len() == 0,
    {
        AuthService { users: Vec::new(), sessions: SessionManager::new() }
    }

    /// Registers `username` with `password` under a fresh salt. Duplicate
    /// usernames are accepted; a later one is shadowed by the first.
    pub fn register(&mut self, username: String, password: String)
        requires
            old(self).wf(),
            encode_utf8(password@).len() <= 0xffff_ffff,
        ensures
            final(self).wf(),
            final(self).table() == old(self).table(),
            final(self).identities().len() == old(self).identities().len() + 1,
            final(self).identities().drop_last() == old(self).identities(),
            final(self).identities().last().name() == username@,
            is_secret_text(final(self).identities().last().salt_text()),
            final(self).identities().last().accepts(password@),
    {
        let user = User::new(username, password);
        add_user(&mut self.users, user);
        assert(self.users@.drop_last() =~= old(self).users@);
    }

    /// Checks the credentials and, when they hold, opens a session for the
    /// identity and returns its token.
    pub fn login(&mut self, username: &str, password: &str) -> (r: Result<String, AuthError>)
        requires
            old(self).wf(),
            encode_utf8(password@).len() <= 0xffff_ffff,
        ensures
            final(self).wf(),
            final(self).identities() == old(self).identities(),
            match verified_user(old(self).identities(), username@, password@) {
                None => r == Err::<String, AuthError>(AuthError::AuthenticationFailed) && final(self).table()
                    == old(self).table(),
                Some(u) => match r {
                    Ok(t) => {
                        &&& is_secret_text(t@)
                        &&& !old(self).table().tokens().contains(t@)
                        &&& final(self).table().tokens() == old(self).table().tokens().push(t@)
                        &&& final(self).table().holders() == old(self).table().holders().push(u)
                        &&& final(self).table().lookup(t@) == Some(u)
                        &&& forall|o: Seq<char>|
                            o != t@ ==> final(self).table().lookup(o) == old(self).table().lookup(o)
                    },
                    Err(e) => e == AuthError::EntropyUnavailable && final(self).table()
                        == old(self).table(),
                },
            },
    {
        match validate_user(self.users.as_slice(), username, password) {
            None => Err(AuthError::AuthenticationFailed),
            Some(u) => match self.sessions.issue(u) {
                Ok(t) => Ok(t),
                Err(SessionError::EntropyUnavailable) => Err(AuthError::EntropyUnavailable),
            },
        }
    }

    /// The access decision for a request that presents `token`.
    pub fn check(&self, token: Option<&str>) -> (r: Decision)
        requires
            self.wf(),
        ensures
            r == decision_of(self.table(), token_view(token)),
    {
        check(&self.sessions, token)
    }
}

} // verus!
