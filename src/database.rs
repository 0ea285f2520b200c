//! Registered identities and the check of a claimed (username, password).
use vstd::prelude::*;
use vstd::utf8::encode_utf8;
use crate::hashing::{argon2i, argon2i_of, digests_equal, is_secret_text, generate_salt};

verus! {

/// A registered identity: a username, a random salt in hexadecimal text and
/// the Argon2i digest of the password under that salt.
#[derive(Debug, PartialEq, Eq)]
pub struct User {
    pub username: String,
    password: [u8; 32],
    salt: String,
}

impl User {
    #[verifier::type_invariant]
    spec fn salt_well_formed(&self) -> bool {
        is_secret_text(self.salt@) && self.salt@.len() == 64
    }

    /// The username, as text.
    pub closed spec fn name(&self) -> Seq<char> {
        self.username@
    }

    /// The stored password digest.
    pub closed spec fn digest(&self) -> Seq<u8> {
        self.password@
    }

    /// The salt the digest was taken under.
    pub closed spec fn salt_text(&self) -> Seq<char> {
        self.salt@
    }

    /// Whether `password` is the one this identity was registered with, as
    /// far as the digest can tell.
    pub open spec fn accepts(&self, password: Seq<char>) -> bool {
        self.digest() == argon2i_of(password, self.salt_text())
    }

    /// Creates an identity with a fresh random salt and the digest of
    /// `password` under it.
    pub fn new(username: String, password: String) -> (r: Self)
        requires
            encode_utf8(password@).len() <= 0xffff_ffff,
        ensures
            r.name() == username@,
            is_secret_text(r.salt_text()),
            r.accepts(password@),
    {
        let salt = generate_salt();
        let digest = argon2i(password.as_str(), salt.as_str());
        User { username, password: digest, salt }
    }

    /// The stored salt.
    pub fn salt(&self) -> (r: &str)
        ensures
            r@ == self.salt_text(),
    {
        self.salt.as_str()
    }

    /// The stored password digest.
    pub fn password_hash(&self) -> (r: [u8; 32])
        ensures
            r@ == self.digest(),
    {
        self.password
    }
}

impl Clone for User {
    fn clone(&self) -> (r: Self)
        ensures
            r == *self,
    {
        proof {
            use_type_invariant(self);
        }
        User { username: self.username.clone(), password: self.password, salt: self.salt.clone() }
    }
}

/// `i` is the position of the first identity named `name`.
pub open spec fn is_first_named(users: Seq<User>, name: Seq<char>, i: int) -> bool {
    &&& 0 <= i < users.len()
    &&& users[i].name() == name
    &&& forall|j: int| 0 <= j < i ==> users[j].name() != name
}

/// The first identity named `name`, if any; later ones of the same name are
/// shadowed by it.
pub open spec fn first_named(users: Seq<User>, name: Seq<char>) -> Option<User> {
    if exists|i: int| is_first_named(users, name, i) {
        Some(users[choose|i: int| is_first_named(users, name, i)])
    } else {
        None
    }
}

/// The identity that a login as `name` with `password` yields: the first
/// one of that name, provided it accepts the password.
pub open spec fn verified_user(users: Seq<User>, name: Seq<char>, password: Seq<char>) -> Option<
    User,
> {
    match first_named(users, name) {
        Some(u) => if u.accepts(password) {
            Some(u)
        } else {
            None
        },
        None => None,
    }
}

/// There is at most one first identity of a given name.
pub proof fn lemma_first_named_unique(users: Seq<User>, name: Seq<char>, i: int, k: int)
    requires
        is_first_named(users, name, i),
        is_first_named(users, name, k),
    ensures
        i == k,
{
    if i < k {
        assert(users[i].name() != name);
    } else if k < i {
        assert(users[k].name() != name);
    }
}

/// An identity appended with a password it accepts is returned for that
/// username and password, provided no earlier identity has the username
/// (the first identity of a name shadows later ones).
pub proof fn lemma_registered_password_verifies(users: Seq<User>, u: User, password: Seq<char>)
    requires
        u.accepts(password),
        forall|i: int| 0 <= i < users.len() ==> users[i].name() != u.name(),
    ensures
        verified_user(users.push(u), u.name(), password) == Some(u),
{
    let all = users.push(u);
    let n = users.len() as int;
    assert(is_first_named(all, u.name(), n));
    let c = choose|i: int| is_first_named(all, u.name(), i);
    lemma_first_named_unique(all, u.name(), n, c);
}

/// A password other than the registered one is refused, unless its digest
/// under the identity's salt collides with the registered password's;
/// again provided no earlier identity has the username.
pub proof fn lemma_other_password_rejected(
    users: Seq<User>,
    u: User,
    password: Seq<char>,
    other: Seq<char>,
)
    requires
        u.accepts(password),
        other != password,
        argon2i_of(other, u.salt_text()) != argon2i_of(password, u.salt_text()),
        forall|i: int| 0 <= i < users.len() ==> users[i].name() != u.name(),
    ensures
        verified_user(users.push(u), u.name(), other) is None,
{
    lemma_registered_password_verifies(users, u, password);
}

/// A username that no identity has is refused whatever the password.
pub proof fn lemma_unknown_username_rejected(users: Seq<User>, name: Seq<char>, password: Seq<char>)
    requires
        forall|i: int| 0 <= i < users.len() ==> users[i].name() != name,
    ensures
        verified_user(users, name, password) is None,
{
}

/// Appends an identity to the store; duplicate usernames are accepted.
pub fn add_user(users: &mut Vec<User>, user: User)
    ensures
        final(users)@ == old(users)@.push(user),
{
    users.push(user);
}

/// Looks up the first identity named `username` and returns it when the
/// digest of `password` under its salt equals the stored one. An unknown
/// name and a wrong password give the same `None`.
pub fn validate_user<'a>(users: &'a [User], username: &str, password: &str) -> (r: Option<&'a User>)
    requires
        encode_utf8(password@).len() <= 0xffff_ffff,
    ensures
        r is Some == verified_user(users@, username@, password@) is Some,
        r matches Some(u) ==> verified_user(users@, username@, password@) == Some(*u),
{
    let name = username.to_owned();
    let mut i: usize = 0;
    while i < users.len()
        invariant
            0 <= i <= users@.len(),
            name@ == username@,
            encode_utf8(password@).len() <= 0xffff_ffff,
            forall|j: int| 0 <= j < i ==> users@[j].name() != username@,
        decreases users@.len() - i,
    {
        if users[i].username == name {
            let u = &users[i];
            proof {
                assert(is_first_named(users@, username@, i as int));
                let c = choose|c: int| is_first_named(users@, username@, c);
                lemma_first_named_unique(users@, username@, i as int, c);
                use_type_invariant(u);
            }
            let hashed = argon2i(password, u.salt.as_str());
            if digests_equal(&hashed, &u.password) {
                return Some(u);
            } else {
                return None;
            }
        }
        i = i + 1;
    }
    None
}

} // verus!
