//! Secrets at rest: sealed with ChaCha20-Poly1305 and written in hexadecimal.

use crate::ip::{hex_char, hex_digit, hex_digit_of, read_hex_digit};
use crate::model::{err, fault, ErrorCode, Fault, SparrowError};
use crate::mqtt::codec::{part, put_all, utf8_string};
use crate::text::{begins, cat2, chars, from_chars, starts_with, strip_prefix, trim, trimmed};
use vstd::prelude::*;
use vstd::string::*;
use vstd::utf8::{
    decode_utf8, encode_utf8, encode_utf8_decode_utf8, encode_utf8_valid_utf8, valid_utf8,
};

verus! {

/// Bytes of a key.
pub const KEY_BYTES: usize = 32;

/// Bytes of a nonce.
pub const NONCE_BYTES: usize = 12;

/// Bytes that a tag adds to what is sealed.
pub const TAG_BYTES: usize = 16;

/// What marks a sealed secret.
pub open spec fn sealed_mark() -> Seq<char> {
    "enc:v2:"@
}

/// Bytes in hexadecimal, two digits each.
pub open spec fn hex_text(b: Seq<u8>) -> Seq<char>
    decreases b.len(),
{
    if b.len() == 0 {
        Seq::empty()
    } else {
        hex_text(b.drop_last()).push(hex_char(b.last() as int / 16)).push(
            hex_char(b.last() as int % 16),
        )
    }
}

/// The bytes that a hexadecimal text stands for.
pub open spec fn unhex(s: Seq<char>) -> Option<Seq<u8>>
    decreases s.len(),
{
    if s.len() == 0 {
        Some(Seq::empty())
    } else if s.len() == 1 {
        None
    } else {
        match (
            unhex(s.take(s.len() - 2)),
            hex_digit(s[s.len() - 2]),
            hex_digit(s[s.len() - 1]),
        ) {
            (Some(b), Some(h), Some(l)) => Some(b.push((16 * h + l) as u8)),
            _ => None,
        }
    }
}

/// Writes bytes in hexadecimal.
pub fn hex_encode(bytes: &[u8]) -> (r: String)
    ensures
        r@ == hex_text(bytes@),
{
    let mut out: Vec<char> = Vec::new();
    let mut i: usize = 0;
    assert(bytes@.take(0) =~= Seq::<u8>::empty());
    while i < bytes.len()
        invariant
            i <= bytes.len(),
            out@ == hex_text(bytes@.take(i as int)),
        decreases bytes.len() - i,
    {
        proof {
            assert(bytes@.take(i + 1).drop_last() =~= bytes@.take(i as int));
            assert(bytes@.take(i + 1).last() == bytes@[i as int]);
        }
        let b: u8 = bytes[i];
        out.push(hex_digit_of(b / 16));
        out.push(hex_digit_of(b % 16));
        i = i + 1;
    }
    assert(bytes@.take(i as int) =~= bytes@);
    from_chars(out.as_slice())
}

proof fn lemma_unhex_stays(s: Seq<char>, k: int)
    requires
        0 <= k <= s.len(),
        (s.len() - k) % 2 == 0,
        unhex(s.take(k)) is None,
    ensures
        unhex(s) is None,
    decreases s.len() - k,
{
    if k < s.len() {
        assert(s.take(k + 2).take(k) =~= s.take(k));
        assert(unhex(s.take(k + 2)) is None);
        lemma_unhex_stays(s, k + 2);
    } else {
        assert(s.take(k) =~= s);
    }
}

proof fn lemma_odd_is_no_hex(s: Seq<char>)
    requires
        s.len() % 2 == 1,
    ensures
        unhex(s) is None,
{
    assert(unhex(s.take(1)) is None);
    lemma_unhex_stays(s, 1);
}

/// Reads bytes in hexadecimal.
pub fn hex_decode(s: &str) -> (r: Option<Vec<u8>>)
    ensures
        match r {
            Some(b) => unhex(s@) == Some(b@),
            None => unhex(s@) is None,
        },
{
    let a: Vec<char> = chars(s);
    if a.len() % 2 != 0 {
        proof {
            lemma_odd_is_no_hex(s@);
        }
        return None;
    }
    let mut out: Vec<u8> = Vec::new();
    let mut i: usize = 0;
    assert(a@.take(0) =~= Seq::<char>::empty());
    while i < a.len()
        invariant
            i <= a.len(),
            a.len() % 2 == 0,
            i % 2 == 0,
            a@ == s@,
            unhex(a@.take(i as int)) == Some(out@),
        decreases a.len() - i,
    {
        let ghost next = a@.take(i + 2);
        proof {
            assert(next.take(next.len() - 2) =~= a@.take(i as int));
            assert(next[next.len() - 2] == a@[i as int]);
            assert(next[next.len() - 1] == a@[i + 1]);
        }
        match (read_hex_digit(a[i]), read_hex_digit(a[i + 1])) {
            (Some(h), Some(l)) => {
                out.push(16 * h + l);
            },
            _ => {
                proof {
                    assert(unhex(next) is None);
                    lemma_unhex_stays(a@, i + 2);
                }
                return None;
            },
        }
        i = i + 2;
    }
    assert(a@.take(i as int) =~= a@);
    Some(out)
}

/// Bytes that were written in hexadecimal are read back.
pub proof fn law_hex_is_read_back(b: Seq<u8>)
    ensures
        unhex(hex_text(b)) == Some(b),
        hex_text(b).len() == 2 * b.len(),
    decreases b.len(),
{
    if b.len() > 0 {
        law_hex_is_read_back(b.drop_last());
        let s = hex_text(b);
        assert(s.take(s.len() - 2) =~= hex_text(b.drop_last()));
        let v = b.last() as int;
        assert(hex_digit(hex_char(v / 16)) == Some(v / 16));
        assert(hex_digit(hex_char(v % 16)) == Some(v % 16));
        assert(16 * (v / 16) + v % 16 == v);
        assert(b.drop_last().push(b.last()) =~= b);
    }
}

/// Whether every character is a hexadecimal digit.
pub open spec fn all_hex(s: Seq<char>) -> bool {
    forall|i: int| 0 <= i < s.len() ==> hex_digit(#[trigger] s[i]) is Some
}

/// The text of a key as it was configured: nothing where it is no text.
pub open spec fn key_text(raw: Seq<u8>) -> Seq<char> {
    if valid_utf8(raw) {
        trimmed(decode_utf8(raw))
    } else {
        Seq::empty()
    }
}

/// The key that was configured: sixty-four hexadecimal digits, or thirty-two
/// bytes with or without space around them.
pub open spec fn configured_key(raw: Seq<u8>) -> Result<Seq<u8>, Fault> {
    let t = key_text(raw);
    if t.len() == 64 && all_hex(t) {
        Ok(unhex(t)->0)
    } else if raw.len() == KEY_BYTES {
        Ok(raw)
    } else if encode_utf8(t).len() == KEY_BYTES {
        Ok(encode_utf8(t))
    } else {
        Err(
            fault(
                ErrorCode::InvalidArgument,
                "SPARROW_SECRETS_KEY must be 32 raw bytes or 64 hex characters"@,
            ),
        )
    }
}

pub(crate) proof fn lemma_hex_digits_decode(s: Seq<char>)
    requires
        s.len() % 2 == 0,
        all_hex(s),
    ensures
        unhex(s) is Some,
        unhex(s)->0.len() == s.len() / 2,
    decreases s.len(),
{
    if s.len() > 0 {
        lemma_hex_digits_decode(s.take(s.len() - 2));
    }
}

fn hex_only(a: &Vec<char>) -> (r: bool)
    ensures
        r == all_hex(a@),
{
    let mut i: usize = 0;
    while i < a.len()
        invariant
            i <= a.len(),
            forall|j: int| 0 <= j < i ==> hex_digit(#[trigger] a@[j]) is Some,
        decreases a.len() - i,
    {
        if read_hex_digit(a[i]).is_none() {
            return false;
        }
        i = i + 1;
    }
    true
}

/// A key of the right length.
#[derive(Debug)]
pub struct SecretsKey {
    pub bytes: Vec<u8>,
}

impl SecretsKey {
    /// The key has the right length.
    pub open spec fn wf(self) -> bool {
        self.bytes@.len() == KEY_BYTES
    }
}

/// Reads a key as it was configured.
pub fn parse_secrets_key(raw: &Vec<u8>) -> (r: Result<SecretsKey, SparrowError>)
    ensures
        match r {
            Ok(k) => k.wf() && configured_key(raw@) == Ok::<Seq<u8>, Fault>(k.bytes@),
            Err(e) => configured_key(raw@) == Err::<Seq<u8>, Fault>(e@),
        },
{
    let copy: Vec<u8> = part(raw.as_slice(), 0, raw.len());
    assert(copy@ =~= raw@);
    let text: String = match utf8_string(copy) {
        Some(s) => trim(s.as_str()),
        None => String::new(),
    };
    let a: Vec<char> = chars(text.as_str());
    if a.len() == 64 && hex_only(&a) {
        proof {
            lemma_hex_digits_decode(text@);
        }
        match hex_decode(text.as_str()) {
            Some(bytes) => {
                return Ok(SecretsKey { bytes });
            },
            None => {},
        }
    }
    if raw.len() == KEY_BYTES {
        let bytes: Vec<u8> = part(raw.as_slice(), 0, raw.len());
        assert(bytes@ =~= raw@);
        return Ok(SecretsKey { bytes });
    }
    let t: &[u8] = text.as_str().as_bytes();
    if t.len() == KEY_BYTES {
        let bytes: Vec<u8> = part(t, 0, t.len());
        assert(bytes@ =~= encode_utf8(text@));
        return Ok(SecretsKey { bytes });
    }
    Err(
        err(
            ErrorCode::InvalidArgument,
            "SPARROW_SECRETS_KEY must be 32 raw bytes or 64 hex characters",
        ),
    )
}

/// Where a key may come from.
#[derive(Debug)]
pub struct KeySources {
    /// The content of the key file where one is named, or why it could not be
    /// read.
    pub file: Option<Result<Vec<u8>, String>>,
    /// The key from the environment where it is set.
    pub env: Option<Vec<u8>>,
    /// A key has to be configured.
    pub required: bool,
}

/// The key that is used: that of the file, else that of the environment, else
/// one of this process where none has to be configured.
pub open spec fn chosen_key(s: KeySources, process: Seq<u8>) -> Result<Seq<u8>, Fault> {
    match s.file {
        Some(Ok(raw)) => configured_key(raw@),
        Some(Err(t)) => Err(fault(ErrorCode::SecretMissing, "secrets key file: "@ + t@)),
        None => match s.env {
            Some(raw) if raw@.len() > 0 => configured_key(raw@),
            _ => if s.required {
                Err(
                    fault(
                        ErrorCode::SecretMissing,
                        "SPARROW_SECRETS_KEY or SPARROW_SECRETS_KEY_FILE is required in safe/production mode"@,
                    ),
                )
            } else {
                Ok(process)
            },
        },
    }
}

/// Picks the key that is used.
pub fn secrets_key(sources: &KeySources, process: SecretsKey) -> (r: Result<
    SecretsKey,
    SparrowError,
>)
    requires
        process.wf(),
    ensures
        match r {
            Ok(k) => k.wf() && chosen_key(*sources, process.bytes@) == Ok::<Seq<u8>, Fault>(
                k.bytes@,
            ),
            Err(e) => chosen_key(*sources, process.bytes@) == Err::<Seq<u8>, Fault>(e@),
        },
{
    match &sources.file {
        Some(Ok(raw)) => {
            return parse_secrets_key(raw);
        },
        Some(Err(t)) => {
            return Err(
                SparrowError::new(ErrorCode::SecretMissing, cat2("secrets key file: ", t.as_str())),
            );
        },
        None => {},
    }
    match &sources.env {
        Some(raw) => {
            if raw.len() > 0 {
                return parse_secrets_key(raw);
            }
        },
        None => {},
    }
    if sources.required {
        return Err(
            err(
                ErrorCode::SecretMissing,
                "SPARROW_SECRETS_KEY or SPARROW_SECRETS_KEY_FILE is required in safe/production mode",
            ),
        );
    }
    Ok(process)
}

/// What ChaCha20-Poly1305 makes of a text under a key and a nonce: the
/// ciphertext with its tag behind it.
pub uninterp spec fn sealed_bytes(key: Seq<u8>, nonce: Seq<u8>, plain: Seq<u8>) -> Seq<u8>;

/// The text that ChaCha20-Poly1305 opens under a key and a nonce, where the tag
/// holds.
pub uninterp spec fn opened_bytes(key: Seq<u8>, nonce: Seq<u8>, data: Seq<u8>) -> Option<Seq<u8>>;

/// `ring::rand::SystemRandom::fill`: random bytes from the operating system, or
/// nothing where it has none. Nothing is said of their values.
#[verifier::external_body]
fn random_bytes(n: usize) -> (r: Option<Vec<u8>>)
    requires
        n <= 32,
    ensures
        r matches Some(b) ==> b@.len() == n,
{
    let mut b: Vec<u8> = vec![0u8; n];
    ring::rand::SecureRandom::fill(&ring::rand::SystemRandom::new(), &mut b).ok()?;
    Some(b)
}

/// Whether this is what drawing random bytes came to: the operating system gave
/// these, or it had none.
pub closed spec fn drew(n: usize, drawn: Option<Vec<u8>>) -> bool {
    call_ensures(random_bytes, (n,), drawn)
}

/// `ring::aead::LessSafeKey::seal_in_place_append_tag` with ChaCha20-Poly1305
/// and no associated data. It seals every text up to its limit, which the tag
/// makes sixteen bytes longer, and what it sealed is opened again under the same
/// key and nonce.
#[verifier::external_body]
fn seal_bytes(key: &[u8], nonce: &[u8], plain: &[u8]) -> (r: Option<Vec<u8>>)
    requires
        key@.len() == 32,
        nonce@.len() == 12,
    ensures
        match r {
            Some(c) => {
                &&& c@ == sealed_bytes(key@, nonce@, plain@)
                &&& c@.len() == plain@.len() + 16
                &&& opened_bytes(key@, nonce@, c@) == Some(plain@)
            },
            None => plain@.len() > 274877906880,
        },
{
    let key = ring::aead::UnboundKey::new(&ring::aead::CHACHA20_POLY1305, key).ok()?;
    let nonce = ring::aead::Nonce::try_assume_unique_for_key(nonce).ok()?;
    let mut data: Vec<u8> = plain.to_vec();
    ring::aead::LessSafeKey::new(key)
        .seal_in_place_append_tag(nonce, ring::aead::Aad::empty(), &mut data)
        .ok()?;
    Some(data)
}

/// `ring::aead::LessSafeKey::open_in_place` with ChaCha20-Poly1305 and no
/// associated data: the text that was sealed, or nothing where the tag does not
/// hold.
#[verifier::external_body]
fn open_bytes(key: &[u8], nonce: &[u8], data: &[u8]) -> (r: Option<Vec<u8>>)
    requires
        key@.len() == 32,
        nonce@.len() == 12,
    ensures
        match r {
            Some(p) => opened_bytes(key@, nonce@, data@) == Some(p@),
            None => opened_bytes(key@, nonce@, data@) is None,
        },
{
    let key = ring::aead::UnboundKey::new(&ring::aead::CHACHA20_POLY1305, key).ok()?;
    let nonce = ring::aead::Nonce::try_assume_unique_for_key(nonce).ok()?;
    let mut data: Vec<u8> = data.to_vec();
    let plain: &mut [u8] = ring::aead::LessSafeKey::new(key)
        .open_in_place(nonce, ring::aead::Aad::empty(), &mut data)
        .ok()?;
    Some(plain.to_vec())
}

/// The bytes of a key that were drawn, or zeros where none could be.
pub open spec fn drawn_key(drawn: Option<Vec<u8>>) -> Seq<u8> {
    match drawn {
        Some(b) => b@,
        None => Seq::new(KEY_BYTES as nat, |i: int| 0u8),
    }
}

/// The key that bytes make that were drawn, where they could be.
pub fn key_from(drawn: Option<Vec<u8>>) -> (r: SecretsKey)
    requires
        drawn matches Some(b) ==> b@.len() == KEY_BYTES,
    ensures
        r.wf(),
        r.bytes@ == drawn_key(drawn),
{
    match drawn {
        Some(bytes) => SecretsKey { bytes },
        None => {
            let mut bytes: Vec<u8> = Vec::new();
            let mut i: usize = 0;
            while i < KEY_BYTES
                invariant
                    i <= KEY_BYTES,
                    bytes@.len() == i,
                    forall|j: int| 0 <= j < i ==> bytes@[j] == 0,
                decreases KEY_BYTES - i,
            {
                bytes.push(0);
                i = i + 1;
            }
            assert(bytes@ =~= drawn_key(None));
            SecretsKey { bytes }
        },
    }
}

/// A key of this process: random, or zero where no random bytes can be had.
pub fn random_key() -> (r: SecretsKey)
    ensures
        r.wf(),
        exists|drawn: Option<Vec<u8>>| #[trigger]
            drew(KEY_BYTES, drawn) && r.bytes@ == drawn_key(drawn),
{
    let drawn: Option<Vec<u8>> = random_bytes(KEY_BYTES);
    assert(drew(KEY_BYTES, drawn));
    key_from(drawn)
}

/// The text that is kept for a secret.
pub open spec fn sealed_text(key: Seq<u8>, nonce: Seq<u8>, plain: Seq<char>) -> Seq<char> {
    sealed_mark() + hex_text(nonce + sealed_bytes(key, nonce, encode_utf8(plain)))
}

/// The secret that a kept text stands for, or why there is none.
pub open spec fn unsealed(stored: Seq<char>, key: Result<Seq<u8>, Fault>) -> Result<
    Seq<char>,
    Fault,
> {
    if begins(stored, sealed_mark()) {
        match unhex(stored.skip(sealed_mark().len() as int)) {
            None => Err(fault(ErrorCode::InvalidSchema, "stored secret is corrupt"@)),
            Some(raw) => if raw.len() < 28 {
                Err(fault(ErrorCode::InvalidSchema, "stored secret is truncated"@))
            } else {
                match key {
                    Err(f) => Err(f),
                    Ok(k) => match opened_bytes(k, raw.take(12), raw.skip(12)) {
                        None => Err(
                            fault(ErrorCode::InvalidSchema, "stored secret failed AEAD open"@),
                        ),
                        Some(p) => if valid_utf8(p) {
                            Ok(decode_utf8(p))
                        } else {
                            Err(fault(ErrorCode::InvalidSchema, "stored secret is not utf8"@))
                        },
                    },
                }
            },
        }
    } else if begins(stored, "enc:v1:"@) {
        Err(
            fault(
                ErrorCode::InvalidSchema,
                "legacy XOR secret envelope is no longer accepted; reseal as enc:v2"@,
            ),
        )
    } else {
        Err(
            fault(
                ErrorCode::PolicyDenied,
                "unprefixed plaintext secrets are rejected (safe/production and default)"@,
            ),
        )
    }
}

/// The key that is used, or why there is none, by what it holds.
pub open spec fn key_seen(key: Result<SecretsKey, SparrowError>) -> Result<Seq<u8>, Fault> {
    match key {
        Ok(k) => Ok(k.bytes@),
        Err(e) => Err(e@),
    }
}

/// What sealing a secret with a drawn nonce may give: the kept text, from which
/// the secret is read back, or why there is none.
pub open spec fn sealing(
    plain: Seq<char>,
    key: Seq<u8>,
    nonce: Option<Vec<u8>>,
    r: Result<String, SparrowError>,
) -> bool {
    match nonce {
        None => r is Err && r->Err_0@ == fault(ErrorCode::Internal, "secrets nonce failed"@),
        Some(n) => match r {
            Ok(t) => {
                &&& t@ == sealed_text(key, n@, plain)
                &&& unsealed(t@, Ok(key)) == Ok::<Seq<char>, Fault>(plain)
            },
            Err(e) => encode_utf8(plain).len() > 274877906880 && e@ == fault(
                ErrorCode::Internal,
                "secrets seal failed"@,
            ),
        },
    }
}

/// Seals a secret with a nonce that was drawn, where one could be.
pub fn seal_with(plain: &str, key: &SecretsKey, nonce: Option<Vec<u8>>) -> (r: Result<
    String,
    SparrowError,
>)
    requires
        key.wf(),
        nonce matches Some(n) ==> n@.len() == NONCE_BYTES,
    ensures
        sealing(plain@, key.bytes@, nonce, r),
{
    let nonce: Vec<u8> = match nonce {
        Some(n) => n,
        None => {
            return Err(err(ErrorCode::Internal, "secrets nonce failed"));
        },
    };
    let sealed: Vec<u8> = match seal_bytes(
        key.bytes.as_slice(),
        nonce.as_slice(),
        plain.as_bytes(),
    ) {
        Some(c) => c,
        None => {
            return Err(err(ErrorCode::Internal, "secrets seal failed"));
        },
    };
    let mut blob: Vec<u8> = part(nonce.as_slice(), 0, nonce.len());
    put_all(&mut blob, sealed.as_slice());
    assert(blob@ =~= nonce@ + sealed@);
    let hex: String = hex_encode(blob.as_slice());
    let t: String = cat2("enc:v2:", hex.as_str());
    proof {
        law_hex_is_read_back(blob@);
        encode_utf8_valid_utf8(plain@);
        encode_utf8_decode_utf8(plain@);
        assert(t@.take(sealed_mark().len() as int) =~= sealed_mark());
        assert(t@.skip(sealed_mark().len() as int) =~= hex@);
        assert(blob@.take(12) =~= nonce@);
        assert(blob@.skip(12) =~= sealed@);
    }
    Ok(t)
}

/// Seals a secret under a nonce that is drawn for it.
pub fn seal_secret(plain: &str, key: &SecretsKey) -> (r: Result<String, SparrowError>)
    requires
        key.wf(),
    ensures
        exists|drawn: Option<Vec<u8>>| #[trigger]
            drew(NONCE_BYTES, drawn) && sealing(
                plain@,
                key.bytes@,
                drawn,
                r,
            ),
{
    let drawn: Option<Vec<u8>> = random_bytes(NONCE_BYTES);
    let ghost seen = drawn;
    assert(drew(NONCE_BYTES, seen));
    seal_with(plain, key, drawn)
}

/// Opens a kept secret.
pub fn unseal_secret(stored: &str, key: &Result<SecretsKey, SparrowError>) -> (r: Result<
    String,
    SparrowError,
>)
    requires
        key matches Ok(k) ==> k.wf(),
    ensures
        match r {
            Ok(s) => unsealed(stored@, key_seen(*key)) == Ok::<Seq<char>, Fault>(s@),
            Err(e) => unsealed(stored@, key_seen(*key)) == Err::<Seq<char>, Fault>(e@),
        },
{
    match strip_prefix(stored, "enc:v2:") {
        Some(hex) => {
            let raw: Vec<u8> = match hex_decode(hex.as_str()) {
                Some(b) => b,
                None => {
                    return Err(err(ErrorCode::InvalidSchema, "stored secret is corrupt"));
                },
            };
            if raw.len() < NONCE_BYTES + TAG_BYTES {
                return Err(err(ErrorCode::InvalidSchema, "stored secret is truncated"));
            }
            let key: &SecretsKey = match key {
                Ok(k) => k,
                Err(e) => {
                    return Err(e.clone());
                },
            };
            let nonce: Vec<u8> = part(raw.as_slice(), 0, NONCE_BYTES);
            let data: Vec<u8> = part(raw.as_slice(), NONCE_BYTES, raw.len());
            assert(nonce@ =~= raw@.take(12));
            assert(data@ =~= raw@.skip(12));
            match open_bytes(key.bytes.as_slice(), nonce.as_slice(), data.as_slice()) {
                None => Err(err(ErrorCode::InvalidSchema, "stored secret failed AEAD open")),
                Some(p) => match utf8_string(p) {
                    Some(s) => Ok(s),
                    None => Err(err(ErrorCode::InvalidSchema, "stored secret is not utf8")),
                },
            }
        },
        None => if starts_with(stored, "enc:v1:") {
            Err(
                err(
                    ErrorCode::InvalidSchema,
                    "legacy XOR secret envelope is no longer accepted; reseal as enc:v2",
                ),
            )
        } else {
            Err(
                err(
                    ErrorCode::PolicyDenied,
                    "unprefixed plaintext secrets are rejected (safe/production and default)",
                ),
            )
        },
    }
}

} // verus!
