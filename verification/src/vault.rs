//! The Local Vault: encrypted at-rest storage of agent tokens.
//!
//! Envelope: { version: 1, mode, salt_b64?, nonce_b64, ciphertext_b64 }, where
//! the ciphertext is AES-256-GCM over the JSON payload { tokens: { id: token } }.
//! Key material: keyring mode keeps a random 256-bit key in the OS credential
//! store; passphrase mode derives it with Argon2id(passphrase, salt).
//!
//! The vault here is the state machine and its cryptography. The caller reads
//! the vault file and the OS credential store and hands in what it read; each
//! change returns the envelope that the caller then writes.
use vstd::prelude::*;
use vstd::string::StringSliceAdditionalSpecFns;

use aes_gcm::aead::{Aead, AeadCore, KeyInit};
use base64::Engine;
use rand::RngCore;
use zeroize::Zeroize;

use crate::table::{distinct_keys, pairs_map, pairs_view, text_map, KeyedTable};
use crate::text::{chars_of, decimal, push_decimal, string_from_range, trim_bounds, trim_ws};

verus! {

pub const VAULT_VERSION: u32 = 1;

/// Argon2id work factors of passphrase mode: 64 MiB (see `argon_m_kib`), t=3, p=1.
pub const ARGON_T: u32 = 3;

pub const ARGON_P: u32 = 1;

/// Largest plaintext AES-GCM seals (bytes).
pub const AES_GCM_P_MAX: u64 = 0x10_0000_0000;

/// Largest ciphertext body AES-GCM opens (bytes).
pub const AES_GCM_C_MAX: u64 = 0x10_0000_0010;

#[derive(Debug, Clone, Copy, PartialEq, Eq, Structural)]
pub enum VaultState {
    /// No vault file yet: first-run setup required.
    Uninitialized,
    /// Passphrase-mode vault exists but has not been unlocked this session.
    Locked,
    /// Vault open; tokens available to the engine.
    Unlocked,
    /// Keyring mode but the OS entry is missing, unreadable or wrong.
    KeyringUnavailable,
}

#[derive(Debug, Clone, Copy, PartialEq, Eq, Structural)]
pub enum VaultMode {
    Keyring,
    Passphrase,
}

/// The vault file's fields.
#[derive(Debug, Clone)]
pub struct VaultEnvelope {
    pub version: u32,
    pub mode: VaultMode,
    pub salt_b64: Option<String>,
    pub nonce_b64: String,
    pub ciphertext_b64: String,
}

// ── Outside functions ──────────────────────────────────────────────────────

/// Standard (padded) base64 text of `bytes`.
pub uninterp spec fn base64_text(bytes: Seq<u8>) -> Seq<char>;

/// The bytes that standard base64 `text` decodes to, if it is valid.
pub uninterp spec fn base64_value(text: Seq<char>) -> Option<Seq<u8>>;

/// AES-256-GCM ciphertext (body and 16-byte tag) of `plaintext` under `key` and `nonce`.
pub uninterp spec fn aes256gcm_seal(key: Seq<u8>, nonce: Seq<u8>, plaintext: Seq<u8>) -> Seq<u8>;

/// Argon2id (version 0x13) output of 32 bytes for `pwd` and `salt`.
pub uninterp spec fn argon2id_hash(pwd: Seq<u8>, salt: Seq<u8>, m_kib: u32, t_cost: u32, p_cost: u32) -> Seq<u8>;

/// The JSON text `{"tokens":{..}}` that serde_json writes for token `pairs`.
pub uninterp spec fn payload_json(pairs: Seq<(Seq<char>, Seq<char>)>) -> Seq<u8>;

/// The token pairs, in id order, that serde_json reads from the `"tokens"`
/// field of a JSON object, if `bytes` is one and that field is a map of strings.
pub uninterp spec fn payload_parse(bytes: Seq<u8>) -> Option<Seq<(Seq<char>, Seq<char>)>>;

/// `base64::engine::general_purpose::STANDARD.encode`: the padded standard
/// encoding, which the same engine decodes back to the input. It panics only
/// when the encoded length overflows `usize`, which no byte slice (at most
/// `isize::MAX` long) reaches.
#[verifier::external_body]
fn b64_encode(bytes: &[u8]) -> (r: String)
    ensures
        r@ == base64_text(bytes@),
        base64_value(r@) == Some(bytes@),
{
    base64::engine::general_purpose::STANDARD.encode(bytes)
}

/// `base64::engine::general_purpose::STANDARD.decode`, with the error dropped.
#[verifier::external_body]
fn b64_decode(text: &str) -> (r: Option<Vec<u8>>)
    ensures
        match r {
            Some(v) => base64_value(text@) == Some(v@),
            None => base64_value(text@) is None,
        },
{
    base64::engine::general_purpose::STANDARD.decode(text).ok()
}

/// `Aead::encrypt` of `Aes256Gcm` without associated data. It fails only for
/// a plaintext over AES_GCM_P_MAX bytes; the ciphertext is the encrypted
/// body followed by the 16-byte tag, and no other plaintext seals to it.
#[verifier::external_body]
fn aes_gcm_encrypt(key: &[u8], nonce: &[u8], plaintext: &[u8]) -> (r: Option<Vec<u8>>)
    requires
        key@.len() == 32,
        nonce@.len() == 12,
    ensures
        r is Some <==> plaintext@.len() <= AES_GCM_P_MAX,
        r matches Some(c) ==> c@ == aes256gcm_seal(key@, nonce@, plaintext@) && c@.len() == plaintext@.len() + 16,
        r matches Some(c) ==> forall|p: Seq<u8>|
            #[trigger] aes256gcm_seal(key@, nonce@, p) == c@ ==> p == plaintext@,
{
    let cipher = aes_gcm::Aes256Gcm::new(aes_gcm::Key::<aes_gcm::Aes256Gcm>::from_slice(key));
    cipher.encrypt(aes_gcm::Nonce::from_slice(nonce), plaintext).ok()
}

/// `Aead::decrypt` of `Aes256Gcm` without associated data. It gives a
/// plaintext exactly when the tag checks: that plaintext is the only one
/// that seals to the ciphertext, and its body is at most AES_GCM_C_MAX bytes.
#[verifier::external_body]
fn aes_gcm_decrypt(key: &[u8], nonce: &[u8], ciphertext: &[u8]) -> (r: Option<Vec<u8>>)
    requires
        key@.len() == 32,
        nonce@.len() == 12,
    ensures
        r matches Some(q) ==> q@.len() <= AES_GCM_C_MAX && forall|p: Seq<u8>|
            #[trigger] aes256gcm_seal(key@, nonce@, p) == ciphertext@ <==> p == q@,
        r is None ==> forall|p: Seq<u8>|
            p.len() <= AES_GCM_C_MAX ==> #[trigger] aes256gcm_seal(key@, nonce@, p) != ciphertext@,
{
    let cipher = aes_gcm::Aes256Gcm::new(aes_gcm::Key::<aes_gcm::Aes256Gcm>::from_slice(key));
    cipher.decrypt(aes_gcm::Nonce::from_slice(nonce), ciphertext).ok()
}

/// `Argon2::hash_password_into` with Argon2id, version 0x13 and
/// `Params::new(m_kib, t_cost, p_cost, Some(32))`. For a p_cost below 2^24
/// (`Params::new` multiplies it by 8 before its range check), it succeeds
/// exactly when t_cost and p_cost are at least 1, m_kib is at least 8·p_cost,
/// the password is at most 2^32-1 bytes and the salt 8..2^32-1 bytes. The
/// error text is kept.
#[verifier::external_body]
fn argon2id_into(pwd: &[u8], salt: &[u8], m_kib: u32, t_cost: u32, p_cost: u32) -> (r: Result<Vec<u8>, String>)
    requires
        p_cost < 0x100_0000,
    ensures
        r matches Ok(k) ==> k@ == argon2id_hash(pwd@, salt@, m_kib, t_cost, p_cost) && k@.len() == 32,
        r is Ok <==> (1 <= p_cost && 8 * p_cost <= m_kib && 1 <= t_cost && pwd@.len() <= 0xFFFF_FFFF
            && 8 <= salt@.len() <= 0xFFFF_FFFF),
{
    let params = match argon2::Params::new(m_kib, t_cost, p_cost, Some(32)) {
        Ok(p) => p,
        Err(e) => return Err(format!("argon2 params: {e}")),
    };
    let argon = argon2::Argon2::new(argon2::Algorithm::Argon2id, argon2::Version::V0x13, params);
    let mut out = vec![0u8; 32];
    match argon.hash_password_into(pwd, salt, &mut out) {
        Ok(()) => Ok(out),
        Err(e) => Err(format!("argon2: {e}")),
    }
}

/// `n` bytes from the OS random source (`OsRng.fill_bytes`); nothing is
/// known of their values.
#[verifier::external_body]
fn random_bytes(n: usize) -> (r: Vec<u8>)
    ensures
        r@.len() == n,
{
    let mut v = vec![0u8; n];
    aes_gcm::aead::OsRng.fill_bytes(&mut v);
    v
}

/// `Aes256Gcm::generate_nonce(OsRng)`: 12 random bytes.
#[verifier::external_body]
fn fresh_nonce() -> (r: Vec<u8>)
    ensures
        r@.len() == 12,
{
    aes_gcm::Aes256Gcm::generate_nonce(&mut aes_gcm::aead::OsRng).to_vec()
}

/// An upper bound on the length of the compact JSON `{"tokens":{..}}` of
/// `pairs`: 13 bytes of frame, and per pair its two quoted strings, a colon
/// and a comma, each character written in at most 6 bytes (`\uXXXX`).
pub open spec fn payload_bound(pairs: Seq<(Seq<char>, Seq<char>)>) -> nat
    decreases pairs.len(),
{
    if pairs.len() == 0 {
        13
    } else {
        payload_bound(pairs.drop_last()) + 6 * (pairs.last().0.len() + pairs.last().1.len()) + 6
    }
}

/// `serde_json::to_vec` of the payload `{"tokens": map}`, the map collected
/// one for one from `pairs`, whose ids are distinct. Reading it back gives
/// the same map. The compact writer escapes a character into at most 6 bytes
/// (`\uXXXX`) and adds 6 bytes of quotes, colon and comma per pair around a
/// 13-byte frame, so the text stays within `payload_bound`.
#[verifier::external_body]
fn encode_payload(pairs: &Vec<(String, String)>) -> (r: Vec<u8>)
    requires
        distinct_keys(pairs_view(pairs@)),
    ensures
        r@ == payload_json(pairs_view(pairs@)),
        r@.len() <= payload_bound(pairs_view(pairs@)),
        payload_parse(r@) is Some,
        pairs_map(payload_parse(r@).unwrap()) == pairs_map(pairs_view(pairs@)),
{
    let tokens: std::collections::BTreeMap<String, String> = pairs.iter().cloned().collect();
    let mut payload = std::collections::BTreeMap::new();
    payload.insert("tokens", tokens);
    serde_json::to_vec(&payload).unwrap_or_default()
}

/// `serde_json::from_slice` of a payload object, then `serde_json::from_value`
/// of its `"tokens"` field into a map of strings: the token pairs, in id
/// order. Other top-level fields are ignored; a missing or malformed
/// `"tokens"` gives `None`.
#[verifier::external_body]
fn decode_payload(bytes: &[u8]) -> (r: Option<Vec<(String, String)>>)
    ensures
        match r {
            Some(v) => payload_parse(bytes@) == Some(pairs_view(v@)),
            None => payload_parse(bytes@) is None,
        },
{
    let parsed: Option<std::collections::BTreeMap<String, serde_json::Value>> = serde_json::from_slice(bytes).ok();
    let tokens = parsed.and_then(|mut p| p.remove("tokens"));
    let map: Option<std::collections::BTreeMap<String, String>> =
        tokens.and_then(|t| serde_json::from_value(t).ok());
    map.map(|t| t.into_iter().collect())
}

/// `Zeroize::zeroize` of a `String`: its bytes are overwritten with zeros and
/// it is left empty.
#[verifier::external_body]
fn wipe_text(s: &mut String)
    ensures
        final(s)@ == Seq::<char>::empty(),
{
    s.zeroize();
}

/// `Zeroize::zeroize` of a `Vec<u8>`: its bytes are overwritten with zeros and
/// it is left empty.
#[verifier::external_body]
fn wipe_bytes(v: &mut Vec<u8>)
    ensures
        final(v)@ == Seq::<u8>::empty(),
{
    v.zeroize();
}

// ── Vault rules ────────────────────────────────────────────────────────────

/// Argon2id memory cost of passphrase mode, in KiB (64 MiB).
pub fn argon_m_kib() -> (r: u32)
    ensures
        r == 65536,
{
    64 * 1024
}

/// A passphrase has at least 10 characters.
pub fn validate_passphrase(pass: &str) -> (r: Result<(), String>)
    ensures
        r is Ok <==> pass@.len() >= 10,
        r matches Err(m) ==> m@ == "Passphrase must be at least 10 characters"@,
{
    let n = chars_of(pass).len();
    if n < 10 {
        return Err(String::from_str("Passphrase must be at least 10 characters"));
    }
    Ok(())
}

/// The key of passphrase mode: Argon2id(passphrase, salt) with `m_kib` KiB of
/// memory (64 MiB unless a vault is made lighter), t=3, p=1.
pub open spec fn passphrase_key(passphrase: Seq<u8>, salt: Seq<u8>, m_kib: u32) -> Seq<u8> {
    argon2id_hash(passphrase, salt, m_kib, ARGON_T, ARGON_P)
}

/// Derives the passphrase-mode key; it fails only for a passphrase over
/// 2^32-1 bytes.
pub fn derive_key(passphrase: &str, salt: &Vec<u8>, m_kib: u32) -> (r: Result<Vec<u8>, String>)
    requires
        salt@.len() == 16,
        m_kib >= 8,
    ensures
        r matches Ok(k) ==> k@ == passphrase_key(passphrase.spec_bytes(), salt@, m_kib) && k@.len() == 32,
        r is Err <==> passphrase.spec_bytes().len() > 0xFFFF_FFFF,
{
    argon2id_into(passphrase.as_bytes(), salt.as_slice(), m_kib, ARGON_T, ARGON_P)
}

/// The message for an envelope of another version.
pub open spec fn version_error(version: u32) -> Seq<char> {
    "unsupported vault version "@ + decimal(version as nat)
}

/// The envelope is of the supported version.
pub fn check_version(envelope: &VaultEnvelope) -> (r: Result<(), String>)
    ensures
        r is Ok <==> envelope.version == VAULT_VERSION,
        r matches Err(m) ==> m@ == version_error(envelope.version),
{
    if envelope.version != VAULT_VERSION {
        let mut m = String::from_str("unsupported vault version ");
        push_decimal(&mut m, envelope.version as u64);
        return Err(m);
    }
    Ok(())
}

/// The 16-byte salt that an envelope's `salt_b64` gives, or the error.
pub open spec fn salt_result(salt_b64: Seq<char>) -> Result<Seq<u8>, Seq<char>> {
    match base64_value(salt_b64) {
        None => Err("vault file corrupted (salt)"@),
        Some(b) => if b.len() == 16 {
            Ok(b)
        } else {
            Err("vault file corrupted (salt length)"@)
        },
    }
}

/// Decodes an envelope's `salt_b64`.
pub fn decode_salt(salt_b64: &str) -> (r: Result<Vec<u8>, String>)
    ensures
        match (r, salt_result(salt_b64@)) {
            (Ok(s), Ok(t)) => s@ == t,
            (Err(m), Err(t)) => m@ == t,
            _ => false,
        },
{
    match b64_decode(salt_b64) {
        None => Err(String::from_str("vault file corrupted (salt)")),
        Some(bytes) => {
            if bytes.len() != 16 {
                Err(String::from_str("vault file corrupted (salt length)"))
            } else {
                Ok(bytes)
            }
        },
    }
}

/// `envelope` decrypts to `plaintext` under `key`: the nonce decodes to 12
/// bytes, the ciphertext decodes, and sealing `plaintext` gives it.
pub open spec fn opens_to(key: Seq<u8>, envelope: VaultEnvelope, plaintext: Seq<u8>) -> bool {
    &&& base64_value(envelope.nonce_b64@) matches Some(n)
    &&& n.len() == 12
    &&& base64_value(envelope.ciphertext_b64@) matches Some(c)
    &&& aes256gcm_seal(key, n, plaintext) == c
}

/// The plaintext of `envelope` under `key`, if it authenticates.
pub open spec fn envelope_plaintext(key: Seq<u8>, envelope: VaultEnvelope) -> Option<Seq<u8>> {
    if exists|p: Seq<u8>| p.len() <= AES_GCM_C_MAX && #[trigger] opens_to(key, envelope, p) {
        Some(choose|p: Seq<u8>| p.len() <= AES_GCM_C_MAX && #[trigger] opens_to(key, envelope, p))
    } else {
        None
    }
}

/// The tokens that `envelope` holds under `key`, if it authenticates and its
/// payload parses.
pub open spec fn unsealed(key: Seq<u8>, envelope: VaultEnvelope) -> Option<Map<Seq<char>, Seq<char>>> {
    match envelope_plaintext(key, envelope) {
        Some(p) => match payload_parse(p) {
            Some(u) => Some(pairs_map(u)),
            None => None,
        },
        None => None,
    }
}

/// `envelope` is sealed under `key` and holds exactly `tokens`: its one
/// plaintext is a payload of those tokens.
pub open spec fn seals(key: Seq<u8>, envelope: VaultEnvelope, tokens: Map<Seq<char>, Seq<char>>) -> bool {
    exists|p: Seq<u8>|
        {
            &&& p.len() <= AES_GCM_P_MAX
            &&& #[trigger] opens_to(key, envelope, p)
            &&& forall|q: Seq<u8>| opens_to(key, envelope, q) ==> q == p
            &&& payload_parse(p) matches Some(u)
            &&& pairs_map(u) == tokens
        }
}

/// What a write seals, a later open reads back: an envelope that seals
/// `tokens` under `key` opens under that key to exactly those tokens.
pub proof fn law_sealed_envelope_opens_to_its_tokens(
    key: Seq<u8>,
    envelope: VaultEnvelope,
    tokens: Map<Seq<char>, Seq<char>>,
)
    requires
        seals(key, envelope, tokens),
    ensures
        unsealed(key, envelope) == Some(tokens),
{
    let p = choose|p: Seq<u8>|
        {
            &&& p.len() <= AES_GCM_P_MAX
            &&& #[trigger] opens_to(key, envelope, p)
            &&& forall|q: Seq<u8>| opens_to(key, envelope, q) ==> q == p
            &&& payload_parse(p) matches Some(u)
            &&& pairs_map(u) == tokens
        };
    assert(p.len() <= AES_GCM_C_MAX && opens_to(key, envelope, p));
    let q = choose|q: Seq<u8>| q.len() <= AES_GCM_C_MAX && #[trigger] opens_to(key, envelope, q);
    assert(q == p);
    assert(envelope_plaintext(key, envelope) == Some(p));
}

/// The tokens' payload may exceed what AES-GCM seals: listed once per id,
/// their `payload_bound` is over AES_GCM_P_MAX.
pub open spec fn payload_too_large(tokens: Map<Seq<char>, Seq<char>>) -> bool {
    exists|s: Seq<(Seq<char>, Seq<char>)>|
        distinct_keys(s) && #[trigger] pairs_map(s) == tokens && payload_bound(s) > AES_GCM_P_MAX
}

/// No token map payload is too large when the vault holds no tokens.
pub proof fn lemma_empty_payload_fits()
    ensures
        !payload_too_large(Map::<Seq<char>, Seq<char>>::empty()),
{
    assert forall|s: Seq<(Seq<char>, Seq<char>)>|
        distinct_keys(s) && #[trigger] pairs_map(s) == Map::<Seq<char>, Seq<char>>::empty() implies payload_bound(s)
        <= AES_GCM_P_MAX by {
        if s.len() > 0 {
            assert(pairs_map(s).dom().contains(s.last().0));
        }
    }
}

proof fn lemma_pairs_map_keys(s: Seq<(Seq<char>, Seq<char>)>, k: Seq<char>)
    ensures
        pairs_map(s).dom().contains(k) <==> exists|i: int| 0 <= i < s.len() && #[trigger] s[i].0 == k,
    decreases s.len(),
{
    if s.len() > 0 {
        lemma_pairs_map_keys(s.drop_last(), k);
        if exists|i: int| 0 <= i < s.len() && #[trigger] s[i].0 == k {
            let i = choose|i: int| 0 <= i < s.len() && #[trigger] s[i].0 == k;
            if i < s.len() - 1 {
                assert(s.drop_last()[i].0 == k);
            }
        }
        if exists|i: int| 0 <= i < s.drop_last().len() && #[trigger] s.drop_last()[i].0 == k {
            let i = choose|i: int| 0 <= i < s.drop_last().len() && #[trigger] s.drop_last()[i].0 == k;
            assert(s[i].0 == k);
        }
    }
}

proof fn lemma_pairs_map_value(s: Seq<(Seq<char>, Seq<char>)>, i: int)
    requires
        distinct_keys(s),
        0 <= i < s.len(),
    ensures
        pairs_map(s).dom().contains(s[i].0),
        pairs_map(s)[s[i].0] == s[i].1,
    decreases s.len(),
{
    if i < s.len() - 1 {
        let t = s.drop_last();
        assert(distinct_keys(t)) by {
            assert forall|a: int, b: int| 0 <= a < b < t.len() implies t[a].0 != t[b].0 by {
                assert(s[a].0 != s[b].0);
            }
        }
        assert(t[i] == s[i]);
        lemma_pairs_map_value(t, i);
        assert(s[i].0 != s.last().0);
    }
}

proof fn lemma_pairs_map_size(s: Seq<(Seq<char>, Seq<char>)>)
    requires
        distinct_keys(s),
    ensures
        pairs_map(s).dom().len() == s.len(),
        pairs_map(s).dom().finite(),
{
    let ks = s.map_values(|p: (Seq<char>, Seq<char>)| p.0);
    assert forall|k: Seq<char>| #[trigger] pairs_map(s).dom().contains(k) <==> ks.to_set().contains(k) by {
        lemma_pairs_map_keys(s, k);
        if pairs_map(s).dom().contains(k) {
            let i = choose|i: int| 0 <= i < s.len() && #[trigger] s[i].0 == k;
            assert(ks[i] == k);
        }
        if ks.to_set().contains(k) {
            let i = choose|i: int| 0 <= i < ks.len() && ks[i] == k;
            assert(s[i].0 == k);
        }
    }
    assert(pairs_map(s).dom() =~= ks.to_set());
    assert(ks.no_duplicates()) by {
        assert forall|a: int, b: int| 0 <= a < ks.len() && 0 <= b < ks.len() && a != b implies ks[a] != ks[b] by {
            if a < b {
                assert(s[a].0 != s[b].0);
            } else {
                assert(s[b].0 != s[a].0);
            }
        }
    }
    ks.unique_seq_to_set();
}

proof fn lemma_payload_bound_linear(s: Seq<(Seq<char>, Seq<char>)>, a: nat, b: nat)
    requires
        forall|i: int| 0 <= i < s.len() ==> (#[trigger] s[i]).0.len() <= a && s[i].1.len() <= b,
    ensures
        payload_bound(s) <= 13 + s.len() * (6 * (a + b) + 6),
    decreases s.len(),
{
    if s.len() > 0 {
        let t = s.drop_last();
        assert forall|i: int| 0 <= i < t.len() implies (#[trigger] t[i]).0.len() <= a && t[i].1.len() <= b by {
            assert(t[i] == s[i]);
        }
        lemma_payload_bound_linear(t, a, b);
        let n = t.len();
        let c = 6 * (a + b) + 6;
        assert(s[s.len() - 1] == s.last());
        assert(13 + n * c + c == 13 + (n + 1) * c) by (nonlinear_arith);
    }
}

/// Token maps of ordinary size always fit an AES-GCM seal: up to a million
/// ids and tokens of up to 1000 characters each.
pub proof fn law_ordinary_tokens_fit(tokens: Map<Seq<char>, Seq<char>>)
    requires
        tokens.dom().finite(),
        tokens.dom().len() <= 1_000_000,
        forall|k: Seq<char>| #[trigger] tokens.dom().contains(k) ==> k.len() <= 1000 && tokens[k].len() <= 1000,
    ensures
        !payload_too_large(tokens),
{
    assert forall|s: Seq<(Seq<char>, Seq<char>)>|
        distinct_keys(s) && #[trigger] pairs_map(s) == tokens implies payload_bound(s) <= AES_GCM_P_MAX by {
        lemma_pairs_map_size(s);
        assert forall|i: int| 0 <= i < s.len() implies (#[trigger] s[i]).0.len() <= 1000 && s[i].1.len() <= 1000 by {
            lemma_pairs_map_value(s, i);
        }
        lemma_payload_bound_linear(s, 1000, 1000);
        assert(s.len() * (6 * (1000nat + 1000nat) + 6) <= 1_000_000 * 12006) by (nonlinear_arith)
            requires
                s.len() <= 1_000_000,
        ;
    }
}

/// Decrypts the payload of `envelope` with `key`.
pub fn open_envelope(key: &Vec<u8>, envelope: &VaultEnvelope) -> (r: Result<Vec<u8>, String>)
    requires
        key@.len() == 32,
    ensures
        match r {
            Ok(p) => envelope_plaintext(key@, *envelope) == Some(p@),
            Err(_) => envelope_plaintext(key@, *envelope) is None,
        },
{
    let nonce = match b64_decode(envelope.nonce_b64.as_str()) {
        Some(n) => n,
        None => {
            return Err(String::from_str("vault file corrupted (nonce)"));
        },
    };
    if nonce.len() != 12 {
        return Err(String::from_str("vault file corrupted (nonce length)"));
    }
    let ciphertext = match b64_decode(envelope.ciphertext_b64.as_str()) {
        Some(c) => c,
        None => {
            return Err(String::from_str("vault file corrupted (ciphertext)"));
        },
    };
    match aes_gcm_decrypt(key.as_slice(), nonce.as_slice(), ciphertext.as_slice()) {
        Some(p) => {
            proof {
                assert(opens_to(key@, *envelope, p@));
                let c = choose|q: Seq<u8>| q.len() <= AES_GCM_C_MAX && #[trigger] opens_to(key@, *envelope, q);
                assert(aes256gcm_seal(key@, nonce@, c) == ciphertext@);
            }
            Ok(p)
        },
        None => Err(String::from_str("decryption failed")),
    }
}

/// Seals `plaintext` under `key` and `nonce` into an envelope.
pub fn seal_envelope(
    key: &Vec<u8>,
    nonce: &Vec<u8>,
    plaintext: &Vec<u8>,
    mode: VaultMode,
    salt: &Option<Vec<u8>>,
) -> (r: Result<VaultEnvelope, String>)
    requires
        key@.len() == 32,
        nonce@.len() == 12,
    ensures
        r is Ok <==> plaintext@.len() <= AES_GCM_P_MAX,
        r matches Err(m) ==> m@ == "encryption failed"@,
        r matches Ok(e) ==> {
            &&& e.version == VAULT_VERSION
            &&& e.mode == mode
            &&& opens_to(key@, e, plaintext@)
            &&& forall|q: Seq<u8>| opens_to(key@, e, q) ==> q == plaintext@
            &&& match salt {
                Some(s) => e.salt_b64 matches Some(t) && base64_value(t@) == Some(s@),
                None => e.salt_b64 is None,
            }
        },
{
    let ciphertext = match aes_gcm_encrypt(key.as_slice(), nonce.as_slice(), plaintext.as_slice()) {
        Some(c) => c,
        None => {
            return Err(String::from_str("encryption failed"));
        },
    };
    let salt_b64 = match salt {
        Some(s) => Some(b64_encode(s.as_slice())),
        None => None,
    };
    let e = VaultEnvelope {
        version: VAULT_VERSION,
        mode,
        salt_b64,
        nonce_b64: b64_encode(nonce.as_slice()),
        ciphertext_b64: b64_encode(ciphertext.as_slice()),
    };
    proof {
        assert forall|q: Seq<u8>| opens_to(key@, e, q) implies q == plaintext@ by {
            assert(aes256gcm_seal(key@, nonce@, q) == ciphertext@);
        }
    }
    Ok(e)
}

/// The 32-byte key stored as base64 text in the OS credential store.
pub fn key_from_keyring_text(text: &str) -> (r: Result<Vec<u8>, String>)
    ensures
        match base64_value(trim_ws(text@)) {
            None => r matches Err(m) && m@ == "keyring entry corrupted"@,
            Some(b) => if b.len() == 32 {
                r matches Ok(k) && k@ == b
            } else {
                r matches Err(m) && m@ == "keyring entry corrupted (length)"@
            },
        },
{
    let chars = chars_of(text);
    let (lo, hi) = trim_bounds(&chars);
    let trimmed = string_from_range(&chars, lo, hi);
    match b64_decode(trimmed.as_str()) {
        None => Err(String::from_str("keyring entry corrupted")),
        Some(bytes) => {
            if bytes.len() != 32 {
                Err(String::from_str("keyring entry corrupted (length)"))
            } else {
                Ok(bytes)
            }
        },
    }
}

/// A fresh random 32-byte key and the base64 text the OS credential store keeps of it.
pub fn new_keyring_key() -> (r: (Vec<u8>, String))
    ensures
        r.0@.len() == 32,
        base64_value(r.1@) == Some(r.0@),
        r.1@ == base64_text(r.0@),
{
    let key = random_bytes(32);
    let text = b64_encode(key.as_slice());
    (key, text)
}

/// Whether two byte strings are equal.
fn bytes_eq(a: &Vec<u8>, b: &Vec<u8>) -> (r: bool)
    ensures
        r == (a@ == b@),
{
    if a.len() != b.len() {
        return false;
    }
    let mut i: usize = 0;
    while i < a.len()
        invariant
            a.len() == b.len(),
            i <= a.len(),
            forall|j: int| 0 <= j < i ==> a@[j] == b@[j],
        decreases a.len() - i,
    {
        if a[i] != b[i] {
            return false;
        }
        i = i + 1;
    }
    proof {
        assert(a@ =~= b@);
    }
    true
}

/// The envelope's `salt_b64` field carries `salt`, or is absent with it.
pub open spec fn salt_field(field: Option<String>, salt: Option<Seq<u8>>) -> bool {
    match salt {
        Some(s) => field matches Some(t) && base64_value(t@) == Some(s),
        None => field is None,
    }
}

/// What `state` reports.
pub open spec fn state_of(unlocked: bool, file_exists: bool, mode: Option<VaultMode>) -> VaultState {
    if unlocked {
        VaultState::Unlocked
    } else if !file_exists {
        VaultState::Uninitialized
    } else {
        match mode {
            Some(VaultMode::Keyring) => VaultState::KeyringUnavailable,
            _ => VaultState::Locked,
        }
    }
}

/// The vault's state in memory: its mode, key and salt once known, and the
/// tokens while it is open.
pub struct Vault {
    argon_m_kib: u32,
    mode: Option<VaultMode>,
    key: Option<Vec<u8>>,
    salt: Option<Vec<u8>>,
    tokens: Option<KeyedTable<String>>,
}

impl Vault {
    /// Keys are 32 bytes and salts 16.
    #[verifier::type_invariant]
    spec fn wf(self) -> bool {
        &&& self.key matches Some(k) ==> k@.len() == 32
        &&& self.salt matches Some(s) ==> s@.len() == 16
        &&& self.argon_m_kib >= 8
    }

    /// The Argon2id memory cost (KiB) of this vault's passphrase keys.
    pub closed spec fn work_of(&self) -> u32 {
        self.argon_m_kib
    }

    pub closed spec fn mode_of(&self) -> Option<VaultMode> {
        self.mode
    }

    pub closed spec fn key_of(&self) -> Option<Seq<u8>> {
        match self.key {
            Some(k) => Some(k@),
            None => None,
        }
    }

    pub closed spec fn salt_of(&self) -> Option<Seq<u8>> {
        match self.salt {
            Some(s) => Some(s@),
            None => None,
        }
    }

    /// The tokens by agent id while the vault is open.
    pub closed spec fn tokens_of(&self) -> Option<Map<Seq<char>, Seq<char>>> {
        match self.tokens {
            Some(t) => Some(text_map(t.view())),
            None => None,
        }
    }

    /// A vault with nothing known yet, deriving passphrase keys with 64 MiB.
    pub fn new() -> (r: Self)
        ensures
            r.mode_of() is None,
            r.key_of() is None,
            r.salt_of() is None,
            r.tokens_of() is None,
            r.work_of() == 65536,
    {
        Vault { argon_m_kib: argon_m_kib(), mode: None, key: None, salt: None, tokens: None }
    }

    /// A vault with nothing known yet whose passphrase keys take `m_kib` KiB
    /// of Argon2id memory (at least 8): lighter work for tests.
    pub fn with_argon_memory(m_kib: u32) -> (r: Self)
        requires
            m_kib >= 8,
        ensures
            r.mode_of() is None,
            r.key_of() is None,
            r.salt_of() is None,
            r.tokens_of() is None,
            r.work_of() == m_kib,
    {
        Vault { argon_m_kib: m_kib, mode: None, key: None, salt: None, tokens: None }
    }

    /// The vault's state, given whether the vault file exists.
    pub fn state(&self, file_exists: bool) -> (r: VaultState)
        ensures
            r == state_of(self.tokens_of() is Some, file_exists, self.mode_of()),
    {
        if self.tokens.is_some() {
            return VaultState::Unlocked;
        }
        if !file_exists {
            return VaultState::Uninitialized;
        }
        match self.mode {
            Some(VaultMode::Passphrase) => VaultState::Locked,
            Some(VaultMode::Keyring) => VaultState::KeyringUnavailable,
            None => VaultState::Locked,
        }
    }

    pub fn mode(&self) -> (r: Option<VaultMode>)
        ensures
            r == self.mode_of(),
    {
        self.mode
    }

    /// Opens the payload of `envelope` with the held key into memory.
    fn decrypt_into_memory(&mut self, envelope: &VaultEnvelope) -> (r: Result<(), String>)
        ensures
            final(self).work_of() == old(self).work_of(),
            final(self).mode_of() == old(self).mode_of(),
            final(self).key_of() == old(self).key_of(),
            final(self).salt_of() == old(self).salt_of(),
            match old(self).key_of() {
                None => r is Err && final(self).tokens_of() == old(self).tokens_of(),
                Some(k) => match unsealed(k, *envelope) {
                    Some(t) => r is Ok && final(self).tokens_of() == Some(t),
                    None => r is Err && final(self).tokens_of() == old(self).tokens_of(),
                },
            },
    {
        proof {
            use_type_invariant(&*self);
        }
        let key = match &self.key {
            Some(k) => k,
            None => {
                return Err(String::from_str("no key"));
            },
        };
        let mut plaintext = open_envelope(key, envelope)?;
        let decoded = decode_payload(plaintext.as_slice());
        wipe_bytes(&mut plaintext);
        let pairs = match decoded {
            Some(p) => p,
            None => {
                return Err(String::from_str("vault file corrupted (payload)"));
            },
        };
        let mut table: KeyedTable<String> = KeyedTable::new();
        let mut i: usize = 0;
        while i < pairs.len()
            invariant
                i <= pairs.len(),
                text_map(table.view()) == pairs_map(pairs_view(pairs@.take(i as int))),
            decreases pairs.len() - i,
        {
            let v = pairs[i].1.clone();
            let ghost before = text_map(table.view());
            table.insert(pairs[i].0.as_str(), v);
            proof {
                assert(pairs_view(pairs@.take(i + 1)) =~= pairs_view(pairs@.take(i as int)).push(
                    (pairs@[i as int].0@, pairs@[i as int].1@),
                ));
                assert(pairs_view(pairs@.take(i + 1)).drop_last() =~= pairs_view(pairs@.take(i as int)));
                assert(text_map(table.view()) =~= before.insert(pairs@[i as int].0@, pairs@[i as int].1@));
            }
            i = i + 1;
        }
        proof {
            assert(pairs@.take(i as int) =~= pairs@);
        }
        self.tokens = Some(table);
        Ok(())
    }

    /// Loads what the vault file held and, in keyring mode, opens it with the
    /// key from the OS credential store. `file` is None when there is no vault
    /// file; `keyring_key` is what the credential store gave, if anything.
    /// A key that does not open the vault fails closed into KeyringUnavailable.
    pub fn open(&mut self, file: Option<Result<VaultEnvelope, String>>, keyring_key: Option<Vec<u8>>) -> (r: Result<
        VaultState,
        String,
    >)
        ensures
            final(self).work_of() == old(self).work_of(),
            match file {
                None => r == Ok::<VaultState, String>(VaultState::Uninitialized) && *final(self) == *old(self),
                Some(Err(e)) => r == Err::<VaultState, String>(e) && *final(self) == *old(self),
                Some(Ok(env)) => if env.version != VAULT_VERSION {
                    r matches Err(m) && m@ == version_error(env.version) && *final(self) == *old(self)
                } else {
                    &&& final(self).mode_of() == Some(env.mode)
                    &&& match env.salt_b64 {
                        Some(t) => match salt_result(t@) {
                            Err(m) => r matches Err(x) && x@ == m && final(self).salt_of() == old(self).salt_of(),
                            Ok(s) => final(self).salt_of() == Some(s),
                        },
                        None => final(self).salt_of() == old(self).salt_of(),
                    }
                    &&& (env.salt_b64 matches Some(t) && salt_result(t@) is Err) || match env.mode {
                        VaultMode::Passphrase => r == Ok::<VaultState, String>(VaultState::Locked)
                            && final(self).key_of() == old(self).key_of()
                            && final(self).tokens_of() == old(self).tokens_of(),
                        VaultMode::Keyring => match keyring_key {
                            Some(k) if k@.len() == 32 => match unsealed(k@, env) {
                                Some(t) => r == Ok::<VaultState, String>(VaultState::Unlocked)
                                    && final(self).key_of() == Some(k@) && final(self).tokens_of() == Some(t),
                                None => r == Ok::<VaultState, String>(VaultState::KeyringUnavailable)
                                    && final(self).key_of() is None
                                    && final(self).tokens_of() == old(self).tokens_of(),
                            },
                            _ => r == Ok::<VaultState, String>(VaultState::KeyringUnavailable)
                                && final(self).key_of() == old(self).key_of()
                                && final(self).tokens_of() == old(self).tokens_of(),
                        },
                    }
                },
            },
    {
        proof {
            use_type_invariant(&*self);
        }
        let env = match file {
            None => {
                return Ok(VaultState::Uninitialized);
            },
            Some(Err(e)) => {
                return Err(e);
            },
            Some(Ok(env)) => env,
        };
        check_version(&env)?;
        self.mode = Some(env.mode);
        match &env.salt_b64 {
            Some(t) => {
                let s = decode_salt(t.as_str())?;
                self.salt = Some(s);
            },
            None => {},
        }
        match env.mode {
            VaultMode::Passphrase => Ok(VaultState::Locked),
            VaultMode::Keyring => match keyring_key {
                Some(k) => {
                    if k.len() != 32 {
                        return Ok(VaultState::KeyringUnavailable);
                    }
                    self.key = Some(k);
                    match self.decrypt_into_memory(&env) {
                        Ok(()) => Ok(VaultState::Unlocked),
                        Err(_) => {
                            self.key = None;
                            Ok(VaultState::KeyringUnavailable)
                        },
                    }
                },
                None => Ok(VaultState::KeyringUnavailable),
            },
        }
    }

    /// What writing the vault gives: the envelope of its tokens under its
    /// key, mode and salt; "encryption failed" only when their payload may
    /// exceed what AES-GCM seals; or the error when one of them is missing.
    pub open spec fn writes(&self, r: Result<VaultEnvelope, String>) -> bool {
        match (self.key_of(), self.tokens_of(), self.mode_of()) {
            (Some(k), Some(t), Some(m)) => match r {
                Ok(e) => e.version == VAULT_VERSION && e.mode == m && seals(k, e, t) && salt_field(
                    e.salt_b64,
                    self.salt_of(),
                ),
                Err(x) => x@ == "encryption failed"@ && payload_too_large(t),
            },
            (None, _, _) => r matches Err(x) && x@ == "Vault is locked"@,
            (_, None, _) => r matches Err(x) && x@ == "Vault is locked"@,
            _ => r matches Err(x) && x@ == "Vault has no mode"@,
        }
    }

    /// Seals the tokens into a fresh envelope for the caller to write.
    fn persist(&self) -> (r: Result<VaultEnvelope, String>)
        ensures
            self.writes(r),
    {
        proof {
            use_type_invariant(self);
        }
        let key = match &self.key {
            Some(k) => k,
            None => {
                return Err(String::from_str("Vault is locked"));
            },
        };
        let tokens = match &self.tokens {
            Some(t) => t,
            None => {
                return Err(String::from_str("Vault is locked"));
            },
        };
        let mode = match self.mode {
            Some(m) => m,
            None => {
                return Err(String::from_str("Vault has no mode"));
            },
        };
        let nonce = fresh_nonce();
        let pairs = tokens.string_pairs();
        let mut plaintext = encode_payload(&pairs);
        let ghost p = plaintext@;
        let r = seal_envelope(key, &nonce, &plaintext, mode, &self.salt);
        wipe_bytes(&mut plaintext);
        proof {
            if r is Err {
                let s = pairs_view(pairs@);
                assert(distinct_keys(s));
                assert(pairs_map(s) == text_map(tokens.view()));
                assert(payload_too_large(text_map(tokens.view())));
            }
            if r is Ok {
                let e = r->Ok_0;
                assert(opens_to(key@, e, p));
                assert(seals(key@, e, text_map(tokens.view())));
            }
        }
        r
    }

    /// First-run setup: creates an empty vault in `mode` and returns its
    /// envelope. Keyring mode takes `keyring_key`, what the OS credential store
    /// gave (or the error it met); passphrase mode derives the key from
    /// `passphrase` on a fresh random salt.
    pub fn initialize(
        &mut self,
        file_exists: bool,
        mode: VaultMode,
        passphrase: Option<&str>,
        keyring_key: Option<Result<Vec<u8>, String>>,
    ) -> (r: Result<VaultEnvelope, String>)
        ensures
            final(self).work_of() == old(self).work_of(),
            file_exists ==> (r matches Err(m) && m@ == "Vault already exists"@ && *final(self) == *old(self)),
            !file_exists && mode == VaultMode::Keyring ==> match keyring_key {
                None => r matches Err(m) && m@ == "keyring unavailable"@ && *final(self) == *old(self),
                Some(Err(e)) => r == Err::<VaultEnvelope, String>(e) && *final(self) == *old(self),
                Some(Ok(k)) => if k@.len() != 32 {
                    r matches Err(m) && m@ == "keyring entry corrupted (length)"@ && *final(self) == *old(self)
                } else {
                    &&& final(self).key_of() == Some(k@)
                    &&& final(self).salt_of() is None
                    &&& final(self).mode_of() == Some(VaultMode::Keyring)
                    &&& final(self).tokens_of() == Some(Map::<Seq<char>, Seq<char>>::empty())
                    &&& final(self).writes(r)
                    &&& r is Ok
                },
            },
            !file_exists && mode == VaultMode::Passphrase ==> match passphrase {
                None => r matches Err(m) && m@ == "Passphrase required"@ && *final(self) == *old(self),
                Some(p) => if p@.len() < 10 {
                    r matches Err(m) && m@ == "Passphrase must be at least 10 characters"@ && *final(self) == *old(self)
                } else {
                    &&& final(self).salt_of() matches Some(s) && s.len() == 16
                    &&& if p.spec_bytes().len() <= 0xFFFF_FFFF {
                        &&& final(self).key_of() == Some(passphrase_key(p.spec_bytes(), final(self).salt_of().unwrap(), old(self).work_of()))
                        &&& final(self).mode_of() == Some(VaultMode::Passphrase)
                        &&& final(self).tokens_of() == Some(Map::<Seq<char>, Seq<char>>::empty())
                        &&& final(self).writes(r)
                        &&& r is Ok
                    } else {
                        r is Err
                    }
                },
            },
    {
        proof {
            use_type_invariant(&*self);
        }
        if file_exists {
            return Err(String::from_str("Vault already exists"));
        }
        match mode {
            VaultMode::Keyring => {
                let key = match keyring_key {
                    None => {
                        return Err(String::from_str("keyring unavailable"));
                    },
                    Some(Err(e)) => {
                        return Err(e);
                    },
                    Some(Ok(k)) => k,
                };
                if key.len() != 32 {
                    return Err(String::from_str("keyring entry corrupted (length)"));
                }
                self.key = Some(key);
                self.salt = None;
            },
            VaultMode::Passphrase => {
                let pass = match passphrase {
                    None => {
                        return Err(String::from_str("Passphrase required"));
                    },
                    Some(p) => p,
                };
                validate_passphrase(pass)?;
                let salt = random_bytes(16);
                let key = derive_key(pass, &salt, self.argon_m_kib);
                self.salt = Some(salt);
                self.key = Some(key?);
            },
        }
        self.mode = Some(mode);
        let table = KeyedTable::new();
        proof {
            assert(text_map(table.view()) =~= Map::<Seq<char>, Seq<char>>::empty());
        }
        self.put_tokens(table);
        proof {
            lemma_empty_payload_fits();
        }
        self.persist()
    }

    /// Unlocks a passphrase-mode vault with what its file held. A wrong
    /// passphrase fails authentication and is refused.
    pub fn unlock(&mut self, passphrase: &str, file: Result<VaultEnvelope, String>) -> (r: Result<(), String>)
        ensures
            final(self).work_of() == old(self).work_of(),
            old(self).tokens_of() is Some ==> r is Ok && *final(self) == *old(self),
            old(self).tokens_of() is None ==> match file {
                Err(e) => r == Err::<(), String>(e) && *final(self) == *old(self),
                Ok(env) => if env.version != VAULT_VERSION {
                    r matches Err(m) && m@ == version_error(env.version) && *final(self) == *old(self)
                } else if env.mode != VaultMode::Passphrase {
                    r matches Err(m) && m@ == "Vault is not passphrase-protected"@ && *final(self) == *old(self)
                } else {
                    match old(self).salt_of() {
                        None => r matches Err(m) && m@ == "vault file corrupted (no salt)"@ && *final(self) == *old(self),
                        Some(s) => if passphrase.spec_bytes().len() > 0xFFFF_FFFF {
                            r is Err && *final(self) == *old(self)
                        } else {
                            &&& final(self).mode_of() == old(self).mode_of()
                            &&& final(self).salt_of() == old(self).salt_of()
                            &&& match unsealed(passphrase_key(passphrase.spec_bytes(), s, old(self).work_of()), env) {
                                Some(t) => r is Ok && final(self).tokens_of() == Some(t)
                                    && final(self).key_of() == Some(passphrase_key(passphrase.spec_bytes(), s, old(self).work_of())),
                                None => r matches Err(m) && m@ == "Incorrect passphrase"@
                                    && final(self).key_of() is None && final(self).tokens_of() is None,
                            }
                        },
                    }
                },
            },
    {
        proof {
            use_type_invariant(&*self);
        }
        if self.tokens.is_some() {
            return Ok(());
        }
        let env = file?;
        check_version(&env)?;
        if env.mode != VaultMode::Passphrase {
            return Err(String::from_str("Vault is not passphrase-protected"));
        }
        let key = match &self.salt {
            None => {
                return Err(String::from_str("vault file corrupted (no salt)"));
            },
            Some(s) => derive_key(passphrase, s, self.argon_m_kib)?,
        };
        self.key = Some(key);
        match self.decrypt_into_memory(&env) {
            Ok(()) => Ok(()),
            Err(_) => {
                self.key = None;
                Err(String::from_str("Incorrect passphrase"))
            },
        }
    }

    /// Takes the tokens out, leaving the vault locked.
    fn take_tokens(&mut self) -> (r: Option<KeyedTable<String>>)
        ensures
            final(self).work_of() == old(self).work_of(),
            final(self).tokens_of() is None,
            final(self).key_of() == old(self).key_of(),
            final(self).salt_of() == old(self).salt_of(),
            final(self).mode_of() == old(self).mode_of(),
            match r {
                Some(t) => old(self).tokens_of() == Some(text_map(t.view())),
                None => old(self).tokens_of() is None,
            },
    {
        let mut v = Vault::new();
        std::mem::swap(self, &mut v);
        proof {
            use_type_invariant(&v);
        }
        let Vault { argon_m_kib, mode, key, salt, tokens } = v;
        *self = Vault { argon_m_kib, mode, key, salt, tokens: None };
        tokens
    }

    /// Puts tokens back in.
    fn put_tokens(&mut self, t: KeyedTable<String>)
        ensures
            final(self).work_of() == old(self).work_of(),
            final(self).tokens_of() == Some(text_map(t.view())),
            final(self).key_of() == old(self).key_of(),
            final(self).salt_of() == old(self).salt_of(),
            final(self).mode_of() == old(self).mode_of(),
    {
        let mut v = Vault::new();
        std::mem::swap(self, &mut v);
        proof {
            use_type_invariant(&v);
        }
        let Vault { argon_m_kib, mode, key, salt, tokens } = v;
        *self = Vault { argon_m_kib, mode, key, salt, tokens: Some(t) };
    }

    /// Takes the key out.
    fn take_key(&mut self) -> (r: Option<Vec<u8>>)
        ensures
            final(self).work_of() == old(self).work_of(),
            final(self).tokens_of() == old(self).tokens_of(),
            final(self).key_of() is None,
            final(self).salt_of() == old(self).salt_of(),
            final(self).mode_of() == old(self).mode_of(),
    {
        let mut v = Vault::new();
        std::mem::swap(self, &mut v);
        proof {
            use_type_invariant(&v);
        }
        let Vault { argon_m_kib, mode, key, salt, tokens } = v;
        *self = Vault { argon_m_kib, mode, key: None, salt, tokens };
        key
    }

    /// Drops the key and the tokens from memory, wiping them.
    pub fn lock(&mut self)
        ensures
            final(self).work_of() == old(self).work_of(),
            final(self).tokens_of() is None,
            final(self).key_of() is None,
            final(self).mode_of() == old(self).mode_of(),
            final(self).salt_of() == old(self).salt_of(),
    {
        let tokens = self.take_tokens();
        if let Some(t) = tokens {
            let mut vals = t.into_values();
            while vals.len() > 0
                decreases vals.len(),
            {
                let mut v = vals.pop().unwrap();
                wipe_text(&mut v);
            }
        }
        let key = self.take_key();
        if let Some(mut k) = key {
            wipe_bytes(&mut k);
        }
    }

    /// The token of `agent_id`, while the vault is open.
    pub fn token_for(&self, agent_id: &str) -> (r: Option<String>)
        ensures
            match self.tokens_of() {
                Some(m) => match r {
                    Some(t) => m.dom().contains(agent_id@) && t@ == m[agent_id@],
                    None => !m.dom().contains(agent_id@),
                },
                None => r is None,
            },
    {
        match &self.tokens {
            None => None,
            Some(t) => match t.get(agent_id) {
                Some(v) => Some(v.clone()),
                None => None,
            },
        }
    }

    /// Stores `token` for `agent_id` and returns the envelope to write.
    pub fn insert_token(&mut self, agent_id: &str, token: &str) -> (r: Result<VaultEnvelope, String>)
        ensures
            final(self).work_of() == old(self).work_of(),
            match old(self).tokens_of() {
                None => r matches Err(m) && m@ == "Vault is locked"@ && *final(self) == *old(self),
                Some(t) => {
                    &&& final(self).tokens_of() == Some(t.insert(agent_id@, token@))
                    &&& final(self).key_of() == old(self).key_of()
                    &&& final(self).salt_of() == old(self).salt_of()
                    &&& final(self).mode_of() == old(self).mode_of()
                    &&& final(self).writes(r)
                },
            },
    {
        proof {
            use_type_invariant(&*self);
        }
        if self.tokens.is_none() {
            return Err(String::from_str("Vault is locked"));
        }
        let mut table = match self.take_tokens() {
            None => {
                return Err(String::from_str("Vault is locked"));
            },
            Some(t) => t,
        };
        let ghost before = text_map(table.view());
        table.insert(agent_id, String::from_str(token));
        proof {
            assert(text_map(table.view()) =~= before.insert(agent_id@, token@));
        }
        self.put_tokens(table);
        self.persist()
    }

    /// Removes (and wipes) the token of `agent_id` and returns the envelope to write.
    pub fn remove_token(&mut self, agent_id: &str) -> (r: Result<VaultEnvelope, String>)
        ensures
            final(self).work_of() == old(self).work_of(),
            match old(self).tokens_of() {
                None => r matches Err(m) && m@ == "Vault is locked"@ && *final(self) == *old(self),
                Some(t) => {
                    &&& final(self).tokens_of() == Some(t.remove(agent_id@))
                    &&& final(self).key_of() == old(self).key_of()
                    &&& final(self).salt_of() == old(self).salt_of()
                    &&& final(self).mode_of() == old(self).mode_of()
                    &&& final(self).writes(r)
                },
            },
    {
        proof {
            use_type_invariant(&*self);
        }
        if self.tokens.is_none() {
            return Err(String::from_str("Vault is locked"));
        }
        let mut table = match self.take_tokens() {
            None => {
                return Err(String::from_str("Vault is locked"));
            },
            Some(t) => t,
        };
        let ghost before = text_map(table.view());
        let gone = table.remove(agent_id);
        if let Some(mut t) = gone {
            wipe_text(&mut t);
        }
        proof {
            assert(text_map(table.view()) =~= before.remove(agent_id@));
        }
        self.put_tokens(table);
        self.persist()
    }

    /// Number of stored tokens (0 while locked).
    pub fn token_count(&self) -> (r: usize)
        ensures
            match self.tokens_of() {
                Some(m) => r == m.dom().len(),
                None => r == 0,
            },
    {
        match &self.tokens {
            None => 0,
            Some(t) => {
                proof {
                    assert(text_map(t.view()).dom() =~= t.view().dom());
                }
                t.len()
            },
        }
    }

    /// After the current passphrase checked out with the vault open on
    /// `tokens`: the new passphrase is validated, then a fresh salt and its key
    /// replace the old ones and the vault is rewritten.
    pub open spec fn rotated(&self, next: &str, tokens: Map<Seq<char>, Seq<char>>, r: Result<VaultEnvelope, String>) -> bool {
        &&& self.tokens_of() == Some(tokens)
        &&& self.mode_of() == Some(VaultMode::Passphrase)
        &&& if next@.len() < 10 {
            r matches Err(m) && m@ == "Passphrase must be at least 10 characters"@
        } else {
            &&& self.salt_of() matches Some(s) && s.len() == 16
            &&& if next.spec_bytes().len() <= 0xFFFF_FFFF {
                self.key_of() == Some(passphrase_key(next.spec_bytes(), self.salt_of().unwrap(), self.work_of())) && self.writes(r)
            } else {
                r is Err
            }
        }
    }

    /// Changes the passphrase (passphrase mode only): checks `current` (by
    /// unlocking with what the vault file held when the vault is locked),
    /// then re-derives the key from `next` on a fresh salt and returns the
    /// rewritten envelope.
    pub fn change_passphrase(&mut self, current: &str, next: &str, file: Result<VaultEnvelope, String>) -> (r: Result<
        VaultEnvelope,
        String,
    >)
        ensures
            final(self).work_of() == old(self).work_of(),
            old(self).mode_of() != Some(VaultMode::Passphrase) ==> (r matches Err(m) && m@
                == "Vault is not passphrase-protected"@ && *final(self) == *old(self)),
            old(self).mode_of() == Some(VaultMode::Passphrase) && old(self).tokens_of() is Some ==> match old(
                self,
            ).salt_of() {
                None => r matches Err(m) && m@ == "vault file corrupted (no salt)"@ && *final(self) == *old(self),
                Some(s) => if current.spec_bytes().len() > 0xFFFF_FFFF {
                    r is Err && *final(self) == *old(self)
                } else {
                    match old(self).key_of() {
                        None => r matches Err(m) && m@ == "Vault is locked"@ && *final(self) == *old(self),
                        Some(k) => if k != passphrase_key(current.spec_bytes(), s, old(self).work_of()) {
                            r matches Err(m) && m@ == "Incorrect passphrase"@ && *final(self) == *old(self)
                        } else {
                            final(self).rotated(next, old(self).tokens_of().unwrap(), r)
                        },
                    }
                },
            },
            old(self).mode_of() == Some(VaultMode::Passphrase) && old(self).tokens_of() is None ==> {
                let opened = match (file, old(self).salt_of()) {
                    (Ok(env), Some(s)) => if env.version == VAULT_VERSION && env.mode == VaultMode::Passphrase
                        && current.spec_bytes().len() <= 0xFFFF_FFFF {
                        unsealed(passphrase_key(current.spec_bytes(), s, old(self).work_of()), env)
                    } else {
                        None
                    },
                    _ => None,
                };
                match opened {
                    None => r is Err && final(self).tokens_of() is None,
                    Some(t) => final(self).rotated(next, t, r),
                }
            },
    {
        proof {
            use_type_invariant(&*self);
        }
        if self.mode != Some(VaultMode::Passphrase) {
            return Err(String::from_str("Vault is not passphrase-protected"));
        }
        if self.tokens.is_none() {
            self.unlock(current, file)?;
        } else {
            let mut candidate = match &self.salt {
                None => {
                    return Err(String::from_str("vault file corrupted (no salt)"));
                },
                Some(s) => derive_key(current, s, self.argon_m_kib)?,
            };
            let same = match &self.key {
                None => {
                    return Err(String::from_str("Vault is locked"));
                },
                Some(k) => bytes_eq(&candidate, k),
            };
            wipe_bytes(&mut candidate);
            if !same {
                return Err(String::from_str("Incorrect passphrase"));
            }
        }
        proof {
            use_type_invariant(&*self);
        }
        validate_passphrase(next)?;
        let salt = random_bytes(16);
        let key = derive_key(next, &salt, self.argon_m_kib);
        self.salt = Some(salt);
        self.key = Some(key?);
        self.persist()
    }
}

/// Tokens put in the vault come back: a write of a vault whose key, mode and
/// tokens are set, with tokens of ordinary size, owes its envelope, and that
/// envelope opens under the key to exactly those tokens (what `open` and
/// `unlock` then hold).
pub proof fn law_written_tokens_come_back(v: Vault, r: Result<VaultEnvelope, String>)
    requires
        v.writes(r),
        v.key_of() is Some,
        v.mode_of() is Some,
        v.tokens_of() is Some,
        v.tokens_of().unwrap().dom().finite(),
        v.tokens_of().unwrap().dom().len() <= 1_000_000,
        forall|k: Seq<char>| #[trigger] v.tokens_of().unwrap().dom().contains(k) ==> k.len() <= 1000
            && v.tokens_of().unwrap()[k].len() <= 1000,
    ensures
        r is Ok,
        unsealed(v.key_of().unwrap(), r->Ok_0) == v.tokens_of(),
{
    law_ordinary_tokens_fit(v.tokens_of().unwrap());
    law_sealed_envelope_opens_to_its_tokens(v.key_of().unwrap(), r->Ok_0, v.tokens_of().unwrap());
}

} // verus!
