use vstd::prelude::*;
use vstd::string::*;
use sha3::Digest;
use ed25519_dalek::Verifier;
use crate::digest::{hex_decode, hex_decode_spec, hex_encode, hex_lower};
use crate::error::WouError;
use crate::text::{
    ascii_lower, chars_vec, concat2, decimal_spec, decimal_string, is_ws, starts_with, string_from_char_range,
    string_of, trim, trim_end_spec, trim_spec, trim_start_spec,
};

verus! {

/// A character allowed in ICP principal text: lower-case ASCII letter, digit or `-`.
pub open spec fn icp_char(c: char) -> bool {
    ('a' <= c && c <= 'z') || ('0' <= c && c <= '9') || c == '-'
}

/// Principal text format rule: trimmed text is non-empty, at most 64 bytes, and made of
/// `icp_char`s only. Every `icp_char` is one byte in UTF-8, so for such text the byte
/// length is the character count.
pub open spec fn icp_principal_ok(text: Seq<char>) -> bool {
    let clean = trim_spec(text);
    &&& clean.len() > 0
    &&& clean.len() <= 64
    &&& forall|i: int| 0 <= i < clean.len() ==> icp_char(#[trigger] clean[i])
}

/// Validates ICP / Internet Identity principal text format (e.g. `2vxsx-fae`).
pub fn validate_icp_principal(principal_text: &str) -> (r: Result<bool, WouError>)
    ensures
        r matches Ok(b) && b == icp_principal_ok(principal_text@),
{
    let clean = trim(principal_text);
    let v = chars_vec(clean.as_str());
    if v.len() == 0 || v.len() > 64 {
        return Ok(false);
    }
    let mut i: usize = 0;
    while i < v.len()
        invariant
            i <= v@.len(),
            v@ == clean@,
            clean@ == trim_spec(principal_text@),
            0 < v@.len() <= 64,
            forall|j: int| 0 <= j < i ==> icp_char(#[trigger] v@[j]),
        decreases v@.len() - i,
    {
        let c = v[i];
        if !(('a' <= c && c <= 'z') || ('0' <= c && c <= '9') || c == '-') {
            assert(!icp_char(v@[i as int]));
            return Ok(false);
        }
        i = i + 1;
    }
    Ok(true)
}

} // verus!

verus! {

/// Name for the Keccak-256 digest that `sha3::Keccak256` computes over a byte string.
pub uninterp spec fn keccak256_of(data: Seq<u8>) -> Seq<u8>;

/// Calls `sha3::Keccak256::digest`. Claims: the result is the named digest of the input
/// and, as for every Keccak-256 output, 32 bytes long.
#[verifier::external_body]
fn keccak256(data: &[u8]) -> (r: Vec<u8>)
    ensures
        r@ == keccak256_of(data@),
        r@.len() == 32,
{
    sha3::Keccak256::digest(data).to_vec()
}

/// Name for whether `k256::ecdsa::Signature::from_slice` accepts 64 bytes `r || s`.
pub uninterp spec fn k256_signature_valid(rs: Seq<u8>) -> bool;

/// Name for the public key that `k256::ecdsa::VerifyingKey::recover_from_prehash`
/// recovers from a prehash, a signature `r || s` and a recovery id, as the 64 bytes `x || y`
/// of its uncompressed encoding; none when recovery fails.
pub uninterp spec fn k256_recovered_key(prehash: Seq<u8>, rs: Seq<u8>, recid: u8) -> Option<Seq<u8>>;

/// Why a secp256k1 public-key recovery failed, with the crate's own description.
pub enum RecoverFailure {
    BadSignature(String),
    Recovery(String),
}

/// Parses `r || s` with `k256::ecdsa::Signature::from_slice` and recovers the signer's key
/// with `VerifyingKey::recover_from_prehash`, handing back the 64 bytes after the `0x04` tag
/// of its uncompressed encoding. Claims: a parse failure exactly when the signature is named
/// invalid, otherwise the named recovery result. The failure texts are the crates' own;
/// nothing is claimed about them.
#[verifier::external_body]
fn k256_recover(prehash: &[u8], rs: &[u8], recid: u8) -> (r: Result<Vec<u8>, RecoverFailure>)
    requires
        recid <= 3,
    ensures
        match r {
            Ok(k) => k256_signature_valid(rs@) && k256_recovered_key(prehash@, rs@, recid) == Some(k@)
                && k@.len() == 64,
            Err(RecoverFailure::BadSignature(_)) => !k256_signature_valid(rs@),
            Err(RecoverFailure::Recovery(_)) => k256_signature_valid(rs@) && k256_recovered_key(
                prehash@,
                rs@,
                recid,
            ) is None,
        },
{
    let sig = match k256::ecdsa::Signature::from_slice(rs) {
        Ok(s) => s,
        Err(e) => return Err(RecoverFailure::BadSignature(e.to_string())),
    };
    let id = k256::ecdsa::RecoveryId::from_byte(recid).unwrap();
    match k256::ecdsa::VerifyingKey::recover_from_prehash(prehash, &sig, id) {
        Ok(vk) => Ok(vk.to_encoded_point(false).as_bytes()[1..].to_vec()),
        Err(e) => Err(RecoverFailure::Recovery(e.to_string())),
    }
}

/// Name for what `bs58::decode(..).into_vec()` gives for a text: the bytes, or none when
/// the text is not base58.
pub uninterp spec fn bs58_decoded(text: Seq<char>) -> Option<Seq<u8>>;

/// Calls `bs58::decode(s).into_vec()`. Claims: the named result. The error's text is the
/// crate's own; nothing is claimed about it.
#[verifier::external_body]
fn bs58_decode(s: &str) -> (r: Result<Vec<u8>, String>)
    ensures
        match r {
            Ok(v) => bs58_decoded(s@) == Some(v@),
            Err(_) => bs58_decoded(s@) is None,
        },
{
    bs58::decode(s).into_vec().map_err(|e| e.to_string())
}

/// Name for whether `ed25519_dalek::VerifyingKey::from_bytes` accepts 32 key bytes.
pub uninterp spec fn ed25519_key_ok(pk: Seq<u8>) -> bool;

/// Name for whether an Ed25519 signature over a message verifies under a public key, as
/// `ed25519_dalek::VerifyingKey::verify` decides.
pub uninterp spec fn ed25519_valid(pk: Seq<u8>, msg: Seq<u8>, sig: Seq<u8>) -> bool;

/// Calls `ed25519_dalek::VerifyingKey::from_bytes` on 32 bytes. Claims: success exactly
/// when the key is named acceptable. The error's text is the crate's own.
#[verifier::external_body]
pub(crate) fn ed25519_key_check(pk: &[u8]) -> (r: Result<(), String>)
    requires
        pk@.len() == 32,
    ensures
        r is Ok <==> ed25519_key_ok(pk@),
{
    let arr: [u8; 32] = pk.try_into().unwrap();
    ed25519_dalek::VerifyingKey::from_bytes(&arr).map(|_| ()).map_err(|e| e.to_string())
}

/// Calls `ed25519_dalek::VerifyingKey::verify` for an accepted 32-byte key and a 64-byte
/// signature. Claims: the named verdict.
#[verifier::external_body]
pub(crate) fn ed25519_verify(pk: &[u8], msg: &[u8], sig: &[u8]) -> (r: bool)
    requires
        pk@.len() == 32,
        sig@.len() == 64,
        ed25519_key_ok(pk@),
    ensures
        r == ed25519_valid(pk@, msg@, sig@),
{
    let arr: [u8; 32] = pk.try_into().unwrap();
    let key = ed25519_dalek::VerifyingKey::from_bytes(&arr).unwrap();
    let sarr: [u8; 64] = sig.try_into().unwrap();
    key.verify(msg, &ed25519_dalek::Signature::from_bytes(&sarr)).is_ok()
}

/// `s` without any number of leading copies of `p` (what `trim_start_matches(p)` gives).
pub open spec fn strip_prefix_all(s: Seq<char>, p: Seq<char>) -> Seq<char>
    decreases s.len(),
{
    if p.len() > 0 && p.len() <= s.len() && s.subrange(0, p.len() as int) == p {
        strip_prefix_all(s.subrange(p.len() as int, s.len() as int), p)
    } else {
        s
    }
}

/// `s` without any leading copies of `p`.
pub fn strip_prefix_repeated(s: &str, p: &str) -> (r: String)
    ensures
        r@ == strip_prefix_all(s@, p@),
    decreases s@.len(),
{
    let w = chars_vec(p);
    if w.len() > 0 && starts_with(s, p) {
        let v = chars_vec(s);
        let rest = string_from_char_range(&v, w.len(), v.len());
        strip_prefix_repeated(rest.as_str(), p)
    } else {
        string_of(s)
    }
}

/// Equal up to ASCII case (what `eq_ignore_ascii_case` tests).
pub open spec fn eq_ignore_ascii_case_spec(a: Seq<char>, b: Seq<char>) -> bool {
    a.len() == b.len() && forall|i: int| 0 <= i < a.len() ==> ascii_lower(#[trigger] a[i]) == ascii_lower(b[i])
}

fn lower_ascii_char(c: char) -> (r: char)
    ensures
        r == ascii_lower(c),
{
    if 'A' <= c && c <= 'Z' {
        ((c as u8) + 32u8) as char
    } else {
        c
    }
}

/// Whether two texts are equal up to ASCII case.
pub fn eq_ignore_ascii_case(a: &str, b: &str) -> (r: bool)
    ensures
        r == eq_ignore_ascii_case_spec(a@, b@),
{
    let v = chars_vec(a);
    let w = chars_vec(b);
    if v.len() != w.len() {
        return false;
    }
    let mut i: usize = 0;
    while i < v.len()
        invariant
            v@ == a@,
            w@ == b@,
            v@.len() == w@.len(),
            i <= v@.len(),
            forall|j: int| 0 <= j < i ==> ascii_lower(#[trigger] v@[j]) == ascii_lower(w@[j]),
        decreases v@.len() - i,
    {
        if lower_ascii_char(v[i]) != lower_ascii_char(w[i]) {
            return false;
        }
        i = i + 1;
    }
    true
}

/// Recovery id of an Ethereum signature's `v` byte (27/28, 0/1 or an EIP-155 offset).
pub open spec fn eth_recid(v: u8) -> u8 {
    if v >= 27 {
        ((v - 27) % 2) as u8
    } else {
        (v % 2) as u8
    }
}

/// EIP-191 personal-sign prefix for a message of `n` bytes.
pub open spec fn eth_prefix(n: nat) -> Seq<char> {
    "\x19Ethereum Signed Message:\n"@ + decimal_spec(n)
}

/// Ethereum address text of an uncompressed public key `x || y`: `0x` and the lower-case
/// hex of the last 20 bytes of its Keccak-256.
pub open spec fn eth_address_text(pk: Seq<u8>) -> Seq<char> {
    "0x"@ + hex_lower(keccak256_of(pk).subrange(12, 32))
}

/// `m` begins with `p`.
pub open spec fn begins_with(m: Seq<char>, p: Seq<char>) -> bool {
    p.len() <= m.len() && m.subrange(0, p.len() as int) == p
}

/// An `InvalidSignature` error for `chain` whose text begins with `p`.
pub open spec fn sig_error_begins(r: Result<bool, WouError>, chain: Seq<char>, p: Seq<char>) -> bool {
    r matches Err(WouError::InvalidSignature(c, m)) && c@ == chain && begins_with(m@, p)
}

/// An `InvalidSignature` error for `chain` with text `t`.
pub open spec fn sig_error_is(r: Result<bool, WouError>, chain: Seq<char>, t: Seq<char>) -> bool {
    r matches Err(WouError::InvalidSignature(c, m)) && c@ == chain && m@ == t
}

pub fn concat_bytes(a: &[u8], b: &[u8]) -> (r: Vec<u8>)
    ensures
        r@ == a@ + b@,
{
    let mut out: Vec<u8> = Vec::new();
    let mut i: usize = 0;
    while i < a.len()
        invariant
            i <= a@.len(),
            out@ == a@.subrange(0, i as int),
        decreases a@.len() - i,
    {
        out.push(a[i]);
        i = i + 1;
        assert(out@ =~= a@.subrange(0, i as int));
    }
    let mut j: usize = 0;
    while j < b.len()
        invariant
            i == a@.len(),
            j <= b@.len(),
            out@ == a@ + b@.subrange(0, j as int),
        decreases b@.len() - j,
    {
        out.push(b[j]);
        j = j + 1;
        assert(out@ =~= a@ + b@.subrange(0, j as int));
    }
    assert(a@.subrange(0, a@.len() as int) =~= a@);
    assert(b@.subrange(0, b@.len() as int) =~= b@);
    out
}

fn error_with(chain: &str, prefix: &str, detail: &str) -> (r: Result<bool, WouError>)
    ensures
        r matches Err(WouError::InvalidSignature(c, m)) && c@ == chain@ && m@ == prefix@ + detail@,
{
    Err(WouError::InvalidSignature(string_of(chain), concat2(prefix, detail)))
}

proof fn lemma_begins(p: Seq<char>, d: Seq<char>)
    ensures
        begins_with(p + d, p),
{
    assert((p + d).subrange(0, p.len() as int) =~= p);
}

/// What verifying an EIP-191 signature gives, by stage: each decoding or recovery failure
/// its error, otherwise whether the recovered address matches.
pub open spec fn ethereum_verdict(
    r: Result<bool, WouError>,
    expected_address: &str,
    message: &str,
    signature_hex: &str,
) -> bool {
    let clean = strip_prefix_all(trim_spec(signature_hex@), "0x"@);
    match hex_decode_spec(vstd::utf8::encode_utf8(clean)) {
        None => sig_error_begins(r, "ethereum"@, "Hex decode failed: "@),
        Some(b) => if b.len() != 65 {
            sig_error_is(r, "ethereum"@, "Signature must be exactly 65 bytes, got "@ + decimal_spec(b.len()))
        } else {
            let rs = b.subrange(0, 64);
            let hash = keccak256_of(vstd::utf8::encode_utf8(eth_prefix(message.spec_bytes().len())) + message.spec_bytes());
            if !k256_signature_valid(rs) {
                sig_error_begins(r, "ethereum"@, "Invalid signature format: "@)
            } else {
                match k256_recovered_key(hash, rs, eth_recid(b[64])) {
                    None => sig_error_begins(r, "ethereum"@, "Recovery failed: "@),
                    Some(pk) => r == Ok::<bool, WouError>(eq_ignore_ascii_case_spec(eth_address_text(pk), trim_spec(expected_address@))),
                }
            }
        },
    }
}

/// Verifies an Ethereum personal-sign (EIP-191) signature against an expected address:
/// the hex signature (any `0x` prefixes stripped) must be 65 bytes `r || s || v`; the key
/// recovered over the Keccak-256 of the prefixed message must hash to the address, compared
/// without regard to ASCII case.
pub fn verify_ethereum_signature(expected_address: &str, message: &str, signature_hex: &str)
    -> (r: Result<bool, WouError>)
    ensures
        ethereum_verdict(r, expected_address, message, signature_hex),
{
    proof {
        reveal_strlit("ethereum");
        reveal_strlit("0x");
        reveal_strlit("Hex decode failed: ");
        reveal_strlit("Signature must be exactly 65 bytes, got ");
        reveal_strlit("Invalid signature format: ");
        reveal_strlit("Recovery failed: ");
        reveal_strlit("\x19Ethereum Signed Message:\n");
    }
    let trimmed = trim(signature_hex);
    let clean = strip_prefix_repeated(trimmed.as_str(), "0x");
    let sig = match hex_decode(clean.as_str()) {
        Ok(b) => b,
        Err(e) => {
            proof {
                lemma_begins("Hex decode failed: "@, e@);
            }
            return error_with("ethereum", "Hex decode failed: ", e.as_str());
        },
    };
    if sig.len() != 65 {
        let n = decimal_string(sig.len() as u64);
        return error_with("ethereum", "Signature must be exactly 65 bytes, got ", n.as_str());
    }
    let v = sig[64];
    let recid: u8 = if v >= 27 {
        (v - 27) % 2
    } else {
        v % 2
    };
    let rs = slice_bytes(&sig, 0, 64);
    let mb = message.as_bytes();
    let prefix = concat2("\x19Ethereum Signed Message:\n", decimal_string(mb.len() as u64).as_str());
    let data = concat_bytes(prefix.as_str().as_bytes(), mb);
    let hash = keccak256(data.as_slice());
    let pk = match k256_recover(hash.as_slice(), rs.as_slice(), recid) {
        Ok(k) => k,
        Err(RecoverFailure::BadSignature(e)) => {
            proof {
                lemma_begins("Invalid signature format: "@, e@);
            }
            return error_with("ethereum", "Invalid signature format: ", e.as_str());
        },
        Err(RecoverFailure::Recovery(e)) => {
            proof {
                lemma_begins("Recovery failed: "@, e@);
            }
            return error_with("ethereum", "Recovery failed: ", e.as_str());
        },
    };
    let addr_hash = keccak256(pk.as_slice());
    let tail = slice_bytes(&addr_hash, 12, 32);
    let derived = concat2("0x", hex_encode(tail.as_slice()).as_str());
    let expected = trim(expected_address);
    Ok(eq_ignore_ascii_case(derived.as_str(), expected.as_str()))
}

/// Bytes `v[from..to]`.
pub fn slice_bytes(v: &Vec<u8>, from: usize, to: usize) -> (r: Vec<u8>)
    requires
        from <= to <= v@.len(),
    ensures
        r@ == v@.subrange(from as int, to as int),
{
    let mut out: Vec<u8> = Vec::new();
    let mut i: usize = from;
    while i < to
        invariant
            from <= i <= to <= v@.len(),
            out@ == v@.subrange(from as int, i as int),
        decreases to - i,
    {
        out.push(v[i]);
        i = i + 1;
        assert(out@ =~= v@.subrange(from as int, i as int));
    }
    out
}

/// A hexadecimal digit of either case (what `is_ascii_hexdigit` tests).
pub open spec fn is_hex_digit_char(c: char) -> bool {
    ('0' <= c && c <= '9') || ('a' <= c && c <= 'f') || ('A' <= c && c <= 'F')
}

/// Whether a Solana signature text is read as hex: a `0x` prefix, or exactly 128
/// characters that are all hex digits.
pub open spec fn solana_sig_is_hex(s: Seq<char>) -> bool {
    begins_with(s, "0x"@) || (s.len() == 128 && forall|i: int| 0 <= i < s.len() ==> is_hex_digit_char(#[trigger] s[i]))
}

fn all_hex_digits(v: &Vec<char>) -> (r: bool)
    ensures
        r == (forall|i: int| 0 <= i < v@.len() ==> is_hex_digit_char(#[trigger] v@[i])),
{
    let mut i: usize = 0;
    while i < v.len()
        invariant
            i <= v@.len(),
            forall|j: int| 0 <= j < i ==> is_hex_digit_char(#[trigger] v@[j]),
        decreases v@.len() - i,
    {
        let c = v[i];
        if !(('0' <= c && c <= '9') || ('a' <= c && c <= 'f') || ('A' <= c && c <= 'F')) {
            assert(!is_hex_digit_char(v@[i as int]));
            return false;
        }
        i = i + 1;
    }
    true
}

/// What verifying a Solana signature gives, by stage: each decoding failure its error,
/// otherwise whether the ed25519 check passes.
pub open spec fn solana_verdict(
    r: Result<bool, WouError>,
    pubkey_base58: &str,
    message: &str,
    signature_input: &str,
) -> bool {
    solana_verdict_of(r, pubkey_base58@, message.spec_bytes(), signature_input@)
}

/// `solana_verdict` over the texts of the key and signature and the message bytes.
pub open spec fn solana_verdict_of(
    r: Result<bool, WouError>,
    pubkey_base58: Seq<char>,
    message: Seq<u8>,
    signature_input: Seq<char>,
) -> bool {
    match bs58_decoded(trim_spec(pubkey_base58)) {
        None => sig_error_begins(r, "solana"@, "Invalid pubkey base58: "@),
        Some(pk) => if pk.len() != 32 {
            sig_error_is(r, "solana"@, "Invalid Solana pubkey length (expected 32 bytes, got "@
                + decimal_spec(pk.len()) + ")"@)
        } else {
            let cs = trim_spec(signature_input);
            let decoded = if solana_sig_is_hex(cs) {
                hex_decode_spec(vstd::utf8::encode_utf8(strip_prefix_all(cs, "0x"@)))
            } else {
                bs58_decoded(cs)
            };
            match decoded {
                None => if solana_sig_is_hex(cs) {
                    sig_error_begins(r, "solana"@, "Hex decode failed: "@)
                } else {
                    sig_error_begins(r, "solana"@, "Base58 decode failed: "@)
                },
                Some(sb) => if sb.len() != 64 {
                    sig_error_is(r, "solana"@, "Invalid Solana signature length (expected 64 bytes, got "@
                        + decimal_spec(sb.len()) + ")"@)
                } else if !ed25519_key_ok(pk) {
                    sig_error_begins(r, "solana"@, "Invalid verifying key: "@)
                } else {
                    r == Ok::<bool, WouError>(ed25519_valid(pk, message, sb))
                },
            }
        },
    }
}

/// A Solana signature written as exactly 128 hex digits is read as hex: verifying it
/// answers exactly what verifying the same digits behind a `0x` prefix answers, whatever
/// the key, message and answer.
pub proof fn law_solana_bare_hex_signature(
    r: Result<bool, WouError>,
    pubkey_base58: Seq<char>,
    message: Seq<u8>,
    sig: Seq<char>,
)
    requires
        sig.len() == 128,
        forall|i: int| 0 <= i < sig.len() ==> is_hex_digit_char(#[trigger] sig[i]),
    ensures
        solana_verdict_of(r, pubkey_base58, message, sig) == solana_verdict_of(
            r,
            pubkey_base58,
            message,
            "0x"@ + sig,
        ),
{
    reveal_strlit("0x");
    let px = "0x"@ + sig;
    assert(!is_ws(sig[0]) && !is_ws(sig.last()));
    assert(px[0] == '0' && px.last() == sig.last());
    assert(trim_start_spec(sig) == sig);
    assert(trim_end_spec(sig) == sig);
    assert(trim_start_spec(px) == px);
    assert(trim_end_spec(px) == px);
    assert(px.subrange(0, 2) =~= "0x"@);
    assert(px.subrange(2, px.len() as int) =~= sig);
    assert(is_hex_digit_char(sig[1]));
    assert(sig.subrange(0, 2) != "0x"@) by {
        assert(sig.subrange(0, 2)[1] == sig[1]);
    }
    assert(strip_prefix_all(sig, "0x"@) == sig);
    assert(strip_prefix_all(px, "0x"@) == strip_prefix_all(sig, "0x"@));
    assert(solana_sig_is_hex(sig));
    assert(begins_with(px, "0x"@));
}

/// Verifies a Solana (Ed25519) wallet signature. The public key is base58 and must be 32
/// bytes; the signature is read as hex (see `solana_sig_is_hex`, `0x` prefixes stripped)
/// or else as base58, and must be 64 bytes.
pub fn verify_solana_signature(pubkey_base58: &str, message: &str, signature_input: &str)
    -> (r: Result<bool, WouError>)
    ensures
        solana_verdict(r, pubkey_base58, message, signature_input),
{
    proof {
        reveal_strlit("solana");
        reveal_strlit("0x");
        reveal_strlit(")");
        reveal_strlit("Invalid pubkey base58: ");
        reveal_strlit("Invalid Solana pubkey length (expected 32 bytes, got ");
        reveal_strlit("Hex decode failed: ");
        reveal_strlit("Base58 decode failed: ");
        reveal_strlit("Invalid Solana signature length (expected 64 bytes, got ");
        reveal_strlit("Invalid verifying key: ");
    }
    let clean_pk = trim(pubkey_base58);
    let pk = match bs58_decode(clean_pk.as_str()) {
        Ok(b) => b,
        Err(e) => {
            proof {
                lemma_begins("Invalid pubkey base58: "@, e@);
            }
            return error_with("solana", "Invalid pubkey base58: ", e.as_str());
        },
    };
    if pk.len() != 32 {
        let n = concat2(decimal_string(pk.len() as u64).as_str(), ")");
        let r = error_with("solana", "Invalid Solana pubkey length (expected 32 bytes, got ", n.as_str());
        proof {
            assert(("Invalid Solana pubkey length (expected 32 bytes, got "@ + (decimal_spec(pk@.len()) + ")"@)) =~= ("Invalid Solana pubkey length (expected 32 bytes, got "@ + decimal_spec(pk@.len()) + ")"@));
        }
        return r;
    }
    let clean_sig = trim(signature_input);
    let cv = chars_vec(clean_sig.as_str());
    let is_hex = starts_with(clean_sig.as_str(), "0x") || (cv.len() == 128 && all_hex_digits(&cv));
    let sig = if is_hex {
        let hex_str = strip_prefix_repeated(clean_sig.as_str(), "0x");
        match hex_decode(hex_str.as_str()) {
            Ok(b) => b,
            Err(e) => {
                proof {
                    lemma_begins("Hex decode failed: "@, e@);
                }
                return error_with("solana", "Hex decode failed: ", e.as_str());
            },
        }
    } else {
        match bs58_decode(clean_sig.as_str()) {
            Ok(b) => b,
            Err(e) => {
                proof {
                    lemma_begins("Base58 decode failed: "@, e@);
                }
                return error_with("solana", "Base58 decode failed: ", e.as_str());
            },
        }
    };
    if sig.len() != 64 {
        let n = concat2(decimal_string(sig.len() as u64).as_str(), ")");
        let r = error_with("solana", "Invalid Solana signature length (expected 64 bytes, got ", n.as_str());
        proof {
            assert(("Invalid Solana signature length (expected 64 bytes, got "@ + (decimal_spec(sig@.len()) + ")"@)) =~= ("Invalid Solana signature length (expected 64 bytes, got "@ + decimal_spec(sig@.len()) + ")"@));
        }
        return r;
    }
    match ed25519_key_check(pk.as_slice()) {
        Ok(()) => {},
        Err(e) => {
            proof {
                lemma_begins("Invalid verifying key: "@, e@);
            }
            return error_with("solana", "Invalid verifying key: ", e.as_str());
        },
    }
    Ok(ed25519_verify(pk.as_slice(), message.as_bytes(), sig.as_slice()))
}

} // verus!
