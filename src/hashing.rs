//! Password digests, random secrets and their text form.
use vstd::prelude::*;
use vstd::utf8::encode_utf8;

verus! {

/// Number of random bytes behind every salt and session token (256 bits).
pub const SECRET_LEN: usize = 32;

/// The Argon2i digest of `password` under `salt`, with the library's default
/// cost parameters.
pub uninterp spec fn argon2i_of(password: Seq<char>, salt: Seq<char>) -> Seq<u8>;

/// The lowercase hexadecimal digit for a value below sixteen.
pub open spec fn hex_digit(n: u8) -> char {
    seq!['0', '1', '2', '3', '4', '5', '6', '7', '8', '9', 'a', 'b', 'c', 'd', 'e', 'f'][n as int]
}

/// Lowercase hexadecimal text of a byte string: two digits per byte, the
/// high nibble first.
pub open spec fn hex_of(b: Seq<u8>) -> Seq<char> {
    Seq::new(
        2 * b.len(),
        |i: int|
            if i % 2 == 0 {
                hex_digit(b[i / 2] / 16)
            } else {
                hex_digit(b[i / 2] % 16)
            },
    )
}

/// Text that is the hexadecimal form of `SECRET_LEN` bytes.
pub open spec fn is_secret_text(s: Seq<char>) -> bool {
    exists|b: Seq<u8>| b.len() == SECRET_LEN && s == hex_of(b)
}

/// Relies on argon2rs::argon2i_simple: the 32-byte Argon2i digest of the
/// password under the salt, a function of the two strings alone. It asserts a
/// salt of 8 to 2^32 - 1 bytes and a password of at most 2^32 - 1 bytes in
/// UTF-8; a char takes one to four bytes, so the salt bounds below keep the
/// first assertion.
#[verifier::external_body]
pub(crate) fn argon2i(password: &str, salt: &str) -> (r: [u8; 32])
    requires
        8 <= salt@.len(),
        4 * salt@.len() <= 0xffff_ffff,
        encode_utf8(password@).len() <= 0xffff_ffff,
    ensures
        r@ == argon2i_of(password@, salt@),
{
    argon2rs::argon2i_simple(password, salt)
}

/// Relies on rand::thread_rng and RngCore::fill_bytes: bytes from the
/// thread-local generator seeded by the operating system. Nothing is known
/// of them; thread_rng panics when the system generator cannot seed it, the
/// one failure that no caller can recover from safely.
#[verifier::external_body]
pub(crate) fn random_secret() -> (r: [u8; 32]) {
    let mut data = [0u8; 32];
    rand::RngCore::fill_bytes(&mut rand::thread_rng(), &mut data);
    data
}

/// Relies on hex::encode: lowercase digits, two per byte, high nibble first.
#[verifier::external_body]
pub(crate) fn to_hex(b: &[u8; 32]) -> (r: String)
    ensures
        r@ == hex_of(b@),
{
    hex::encode(b)
}

/// A fresh salt: random bytes from the operating system's generator, in
/// hexadecimal text.
pub fn generate_salt() -> (r: String)
    ensures
        is_secret_text(r@),
        r@.len() == 2 * SECRET_LEN,
{
    let bytes = random_secret();
    let r = to_hex(&bytes);
    assert(bytes@.len() == SECRET_LEN);
    r
}

proof fn lemma_or_xor_zero(d: u8, x: u8, y: u8)
    ensures
        (d | (x ^ y)) == 0 <==> (d == 0 && x == y),
{
    assert((d | (x ^ y)) == 0 <==> (d == 0 && x == y)) by (bit_vector);
}

/// Compares two digests in time that does not depend on where they differ.
pub fn digests_equal(a: &[u8; 32], b: &[u8; 32]) -> (r: bool)
    ensures
        r == (a@ == b@),
{
    let mut diff: u8 = 0;
    let mut i: usize = 0;
    while i < 32
        invariant
            i <= 32,
            a@.len() == 32,
            b@.len() == 32,
            (diff == 0) <==> (a@.subrange(0, i as int) =~= b@.subrange(0, i as int)),
        decreases 32 - i,
    {
        let x = a[i];
        let y = b[i];
        proof {
            lemma_or_xor_zero(diff, x, y);
            assert(a@.subrange(0, i + 1) == a@.subrange(0, i as int).push(x));
            assert(b@.subrange(0, i + 1) == b@.subrange(0, i as int).push(y));
            if a@.subrange(0, i + 1) =~= b@.subrange(0, i + 1) {
                assert(a@.subrange(0, i as int) =~= a@.subrange(0, i + 1).drop_last());
                assert(b@.subrange(0, i as int) =~= b@.subrange(0, i + 1).drop_last());
                assert(x == a@.subrange(0, i + 1)[i as int]);
            }
        }
        diff = diff | (x ^ y);
        i = i + 1;
    }
    assert(a@.subrange(0, 32) =~= a@);
    assert(b@.subrange(0, 32) =~= b@);
    diff == 0
}

} // verus!
