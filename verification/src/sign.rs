//! The two signatures of a login submission: the keyed signature of the
//! password and the checksum over the submitted fields.

use crate::text::{hex_lower, hex_text, lemma_hex_lower_injective};
use hmac::{Hmac, Mac};
use md5::Md5;
use sha1::{Digest, Sha1};
use vstd::prelude::*;
use vstd::string::*;
use vstd::utf8::*;

verus! {

/// HMAC-MD5 of `message` under `key`.
pub uninterp spec fn hmac_md5(key: Seq<u8>, message: Seq<u8>) -> Seq<u8>;

/// SHA-1 of `data`.
pub uninterp spec fn sha1(data: Seq<u8>) -> Seq<u8>;

/// `digest::InvalidLength`, the error of a keyed constructor that refuses a
/// key for its length.
#[verifier::external_type_specification]
#[verifier::external_body]
pub struct ExInvalidLength(hmac::digest::InvalidLength);

/// `Hmac::<Md5>::new_from_slice`, `update` and `finalize` of the hmac crate.
/// HMAC takes a key of any length (a long one is hashed first), so the
/// constructor returns `Ok` on every key, and MD5 gives 16 bytes.
#[verifier::external_body]
fn hmac_md5_digest(key: &[u8], message: &[u8]) -> (r: Result<Vec<u8>, hmac::digest::InvalidLength>)
    ensures
        r is Ok,
        r->Ok_0@ == hmac_md5(key@, message@),
        r->Ok_0@.len() == 16,
{
    let mut mac = Hmac::<Md5>::new_from_slice(key)?;
    mac.update(message);
    Ok(mac.finalize().into_bytes().to_vec())
}

/// `Sha1::new`, `update` and `finalize` of the sha1 crate: 20 bytes.
#[verifier::external_body]
fn sha1_digest(data: &[u8]) -> (r: Vec<u8>)
    ensures
        r@ == sha1(data@),
        r@.len() == 20,
{
    let mut hasher = Sha1::new();
    hasher.update(data);
    hasher.finalize().to_vec()
}

/// The keyed signature of a password: HMAC-MD5 of the password's bytes under
/// the challenge's bytes, in lower-case hexadecimal.
pub open spec fn password_signature_of(challenge: Seq<char>, password: Seq<char>) -> Seq<char> {
    hex_lower(hmac_md5(encode_utf8(challenge), encode_utf8(password)))
}

/// The text that the checksum is taken over: the eight fields
/// `""`, username, password signature, access-control id, address, rate
/// class, connection type and payload, in this order, with the challenge
/// between each two neighbours. The empty first field makes the text begin
/// with the challenge.
pub open spec fn checksum_input_of(
    challenge: Seq<char>,
    username: Seq<char>,
    signature: Seq<char>,
    acid: Seq<char>,
    ip: Seq<char>,
    n: Seq<char>,
    kind: Seq<char>,
    info: Seq<char>,
) -> Seq<char> {
    challenge + username + challenge + signature + challenge + acid + challenge + ip + challenge
        + n + challenge + kind + challenge + info
}

/// The checksum: SHA-1 of the checksum input's bytes, in lower-case
/// hexadecimal.
pub open spec fn checksum_of(input: Seq<char>) -> Seq<char> {
    hex_lower(sha1(encode_utf8(input)))
}

/// Computes the keyed signature of `password` under `challenge`.
pub fn password_signature(challenge: &str, password: &str) -> (r: String)
    ensures
        r@ == password_signature_of(challenge@, password@),
        r@.len() == 32,
{
    match hmac_md5_digest(challenge.as_bytes(), password.as_bytes()) {
        Ok(digest) => hex_text(digest.as_slice()),
        // HMAC takes every key, so there is no error to report.
        Err(_) => String::new(),
    }
}

/// Builds the text that the checksum is taken over.
pub fn checksum_input(
    challenge: &str,
    username: &str,
    signature: &str,
    acid: &str,
    ip: &str,
    n: &str,
    kind: &str,
    info: &str,
) -> (r: String)
    ensures
        r@ == checksum_input_of(challenge@, username@, signature@, acid@, ip@, n@, kind@, info@),
{
    let mut r = String::new();
    r.append(challenge);
    r.append(username);
    r.append(challenge);
    r.append(signature);
    r.append(challenge);
    r.append(acid);
    r.append(challenge);
    r.append(ip);
    r.append(challenge);
    r.append(n);
    r.append(challenge);
    r.append(kind);
    r.append(challenge);
    r.append(info);
    assert(r@ =~= checksum_input_of(
        challenge@,
        username@,
        signature@,
        acid@,
        ip@,
        n@,
        kind@,
        info@,
    ));
    r
}

/// Computes the checksum of a checksum input.
pub fn checksum(input: &str) -> (r: String)
    ensures
        r@ == checksum_of(input@),
        r@.len() == 40,
{
    let digest = sha1_digest(input.as_bytes());
    hex_text(digest.as_slice())
}

/// The seven fields of a checksum input that follow the empty one.
pub struct Fields {
    pub username: Seq<char>,
    pub signature: Seq<char>,
    pub acid: Seq<char>,
    pub ip: Seq<char>,
    pub n: Seq<char>,
    pub kind: Seq<char>,
    pub info: Seq<char>,
}

impl Fields {
    /// The checksum input of the fields under a challenge.
    pub open spec fn input(self, challenge: Seq<char>) -> Seq<char> {
        checksum_input_of(
            challenge,
            self.username,
            self.signature,
            self.acid,
            self.ip,
            self.n,
            self.kind,
            self.info,
        )
    }

    /// The sum of the fields' lengths.
    pub open spec fn len(self) -> nat {
        self.username.len() + self.signature.len() + self.acid.len() + self.ip.len() + self.n.len()
            + self.kind.len() + self.info.len()
    }
}

/// The signatures are functions of what they are computed from: the same
/// challenge, password and fields give the same signature and the same
/// checksum, however often they are computed.
pub proof fn lemma_signatures_determined(
    challenge: Seq<char>,
    password: Seq<char>,
    fields: Fields,
    other_challenge: Seq<char>,
    other_password: Seq<char>,
    other_fields: Fields,
)
    requires
        challenge == other_challenge,
        password == other_password,
        fields == other_fields,
    ensures
        password_signature_of(challenge, password) == password_signature_of(
            other_challenge,
            other_password,
        ),
        checksum_of(fields.input(challenge)) == checksum_of(other_fields.input(other_challenge)),
{
}

/// Two checksum inputs under different challenges differ, whenever the
/// fields have the same combined length in both. In particular they differ
/// when nothing but the challenge changes, and when with the challenge only
/// the password signature changes, which always has 32 characters.
pub proof fn lemma_checksum_input_challenge_sensitive(
    challenge: Seq<char>,
    fields: Fields,
    other_challenge: Seq<char>,
    other_fields: Fields,
)
    requires
        challenge != other_challenge,
        fields.len() == other_fields.len(),
    ensures
        fields.input(challenge) != other_fields.input(other_challenge),
{
    let x = fields.input(challenge);
    let y = other_fields.input(other_challenge);
    assert(x.len() == 7 * challenge.len() + fields.len());
    assert(y.len() == 7 * other_challenge.len() + other_fields.len());
    if challenge.len() == other_challenge.len() {
        assert(!(challenge =~= other_challenge));
        let j = choose|j: int| 0 <= j < challenge.len() && challenge[j] != other_challenge[j];
        assert(x[j] == challenge[j]);
        assert(y[j] == other_challenge[j]);
    }
}

/// Two checksums are equal only where SHA-1 gives the two inputs the same
/// digest.
pub proof fn lemma_checksum_follows_digest(x: Seq<char>, y: Seq<char>)
    ensures
        checksum_of(x) == checksum_of(y) <==> sha1(encode_utf8(x)) == sha1(encode_utf8(y)),
        x != y ==> encode_utf8(x) != encode_utf8(y),
{
    if checksum_of(x) == checksum_of(y) {
        lemma_hex_lower_injective(sha1(encode_utf8(x)), sha1(encode_utf8(y)));
    }
    if encode_utf8(x) == encode_utf8(y) {
        encode_utf8_decode_utf8(x);
        encode_utf8_decode_utf8(y);
    }
}

/// Under different challenges, the fields keeping their combined length,
/// the two checksums differ, or else SHA-1 has given two different byte
/// strings the same digest. More cannot be said of a hash: that SHA-1 has
/// no such pair is nowhere promised.
pub proof fn lemma_checksum_challenge_sensitive(
    challenge: Seq<char>,
    fields: Fields,
    other_challenge: Seq<char>,
    other_fields: Fields,
)
    requires
        challenge != other_challenge,
        fields.len() == other_fields.len(),
    ensures
        ({
            let x = encode_utf8(fields.input(challenge));
            let y = encode_utf8(other_fields.input(other_challenge));
            ||| checksum_of(fields.input(challenge)) != checksum_of(
                other_fields.input(other_challenge),
            )
            ||| x != y && sha1(x) == sha1(y)
        }),
{
    lemma_checksum_input_challenge_sensitive(challenge, fields, other_challenge, other_fields);
    lemma_checksum_follows_digest(fields.input(challenge), other_fields.input(other_challenge));
}

} // verus!
