use vstd::prelude::*;
use vstd::string::*;
use crate::error::WouError;
use crate::ledger::opt_view;
use crate::text::{concat2, find_char, find_char_spec, chars_vec, string_from_char_range, string_of};
use crate::web3::begins_with;

verus! {

/// Outcome of decoding base64 text the way this service's decoder reads it: the bytes, an
/// invalid character, or input that ends inside a four-character group.
pub enum B64Outcome {
    Decoded(Seq<u8>),
    Invalid,
    Overrun,
}

/// Value of a byte in the standard base64 alphabet `A-Z a-z 0-9 + /`.
pub open spec fn b64_val(c: u8) -> Option<u8> {
    if 65 <= c && c <= 90 {
        Some((c - 65) as u8)
    } else if 97 <= c && c <= 122 {
        Some((c - 71) as u8)
    } else if 48 <= c && c <= 57 {
        Some((c + 4) as u8)
    } else if c == 43 {
        Some(62)
    } else if c == 47 {
        Some(63)
    } else {
        None
    }
}

/// Value of a group's third or fourth byte: zero for padding `=`.
pub open spec fn b64_val_or_pad(c: u8) -> Option<u8> {
    if c == 61 {
        Some(0)
    } else {
        b64_val(c)
    }
}

/// Bytes that one group of four values yields: three, fewer when the group is padded.
pub open spec fn b64_group(v1: u8, v2: u8, v3: u8, v4: u8, pad3: bool, pad4: bool) -> Seq<u8> {
    let x = seq![(v1 * 4 + v2 / 16) as u8];
    let y = if pad3 { x } else { x.push(((v2 % 16) * 16 + v3 / 4) as u8) };
    if pad4 { y } else { y.push(((v3 % 4) * 64 + v4) as u8) }
}

/// `o` with `prefix` in front of its bytes.
pub open spec fn b64_prepend(prefix: Seq<u8>, o: B64Outcome) -> B64Outcome {
    match o {
        B64Outcome::Decoded(r) => B64Outcome::Decoded(prefix + r),
        other => other,
    }
}

/// Decoding from byte `i` on, group by group: stop at the end or at a `=` that starts a
/// group; each character is checked in order, the first two against the alphabet, the last
/// two against the alphabet or `=`.
pub open spec fn b64_decode_from(b: Seq<u8>, i: nat) -> B64Outcome
    decreases b.len() - i,
{
    if i >= b.len() || b[i as int] == 61 {
        B64Outcome::Decoded(Seq::empty())
    } else if b64_val(b[i as int]) is None {
        B64Outcome::Invalid
    } else if i + 1 >= b.len() {
        B64Outcome::Overrun
    } else if b64_val(b[i + 1 as int]) is None {
        B64Outcome::Invalid
    } else if i + 2 >= b.len() {
        B64Outcome::Overrun
    } else if b64_val_or_pad(b[i + 2 as int]) is None {
        B64Outcome::Invalid
    } else if i + 3 >= b.len() {
        B64Outcome::Overrun
    } else if b64_val_or_pad(b[i + 3 as int]) is None {
        B64Outcome::Invalid
    } else {
        b64_prepend(
            b64_group(
                b64_val(b[i as int]).unwrap(),
                b64_val(b[i + 1 as int]).unwrap(),
                b64_val_or_pad(b[i + 2 as int]).unwrap(),
                b64_val_or_pad(b[i + 3 as int]).unwrap(),
                b[i + 2 as int] == 61,
                b[i + 3 as int] == 61,
            ),
            b64_decode_from(b, i + 4),
        )
    }
}

fn b64_value(c: u8) -> (r: Option<u8>)
    ensures
        r == b64_val(c),
{
    if 65 <= c && c <= 90 {
        Some(c - 65)
    } else if 97 <= c && c <= 122 {
        Some(c - 71)
    } else if 48 <= c && c <= 57 {
        Some(c + 4)
    } else if c == 43 {
        Some(62)
    } else if c == 47 {
        Some(63)
    } else {
        None
    }
}

fn b64_value_or_pad(c: u8) -> (r: Option<u8>)
    ensures
        r == b64_val_or_pad(c),
{
    if c == 61 {
        Some(0)
    } else {
        b64_value(c)
    }
}

proof fn lemma_b64_val_small(c: u8)
    ensures
        b64_val(c) matches Some(v) ==> v < 64,
        b64_val_or_pad(c) matches Some(v) ==> v < 64,
{
}

/// Decodes base64 bytes (see `b64_decode_from`): the bytes, or `"Invalid char"`.
pub fn b64_decode_bytes(b: &[u8]) -> (r: Result<Vec<u8>, String>)
    requires
        !(b64_decode_from(b@, 0) is Overrun),
    ensures
        match r {
            Ok(v) => b64_decode_from(b@, 0) == B64Outcome::Decoded(v@),
            Err(m) => b64_decode_from(b@, 0) is Invalid && m@ == "Invalid char"@,
        },
{
    proof {
        reveal_strlit("Invalid char");
    }
    let mut out: Vec<u8> = Vec::new();
    let mut i: usize = 0;
    let n = b.len();
    while i < n && b[i] != 61
        invariant
            n == b@.len(),
            i <= n,
            b64_decode_from(b@, 0) == b64_prepend(out@, b64_decode_from(b@, i as nat)),
            !(b64_decode_from(b@, 0) is Overrun),
        decreases n - i,
    {
        let v1 = match b64_value(b[i]) {
            Some(v) => v,
            None => {
                return Err(string_of("Invalid char"));
            },
        };
        let v2 = match b64_value(b[i + 1]) {
            Some(v) => v,
            None => {
                return Err(string_of("Invalid char"));
            },
        };
        let v3 = match b64_value_or_pad(b[i + 2]) {
            Some(v) => v,
            None => {
                return Err(string_of("Invalid char"));
            },
        };
        let v4 = match b64_value_or_pad(b[i + 3]) {
            Some(v) => v,
            None => {
                return Err(string_of("Invalid char"));
            },
        };
        proof {
            lemma_b64_val_small(b[i as int]);
            lemma_b64_val_small(b[i + 1]);
            lemma_b64_val_small(b[i + 2]);
            lemma_b64_val_small(b[i + 3]);
        }
        let ghost before = out@;
        out.push(v1 * 4 + v2 / 16);
        if b[i + 2] != 61 {
            out.push((v2 % 16) * 16 + v3 / 4);
        }
        if b[i + 3] != 61 {
            out.push((v3 % 4) * 64 + v4);
        }
        proof {
            let g = b64_group(v1, v2, v3, v4, b[i + 2] == 61, b[i + 3] == 61);
            assert(out@ =~= before + g);
            let rest = b64_decode_from(b@, (i + 4) as nat);
            match rest {
                B64Outcome::Decoded(r) => {
                    assert(before + (g + r) =~= (before + g) + r);
                },
                _ => {},
            }
        }
        i = i + 4;
    }
    proof {
        assert(b64_decode_from(b@, i as nat) == B64Outcome::Decoded(Seq::<u8>::empty()));
        assert(out@ + Seq::<u8>::empty() =~= out@);
    }
    Ok(out)
}

/// Decodes standard base64 text, stopping at padding. Text that ends inside a group would
/// be read past its end, so it is not accepted.
pub fn base64_custom_decode(input: &str) -> (r: Result<Vec<u8>, String>)
    requires
        !(b64_decode_from(input.spec_bytes(), 0) is Overrun),
    ensures
        match r {
            Ok(v) => b64_decode_from(input.spec_bytes(), 0) == B64Outcome::Decoded(v@),
            Err(m) => b64_decode_from(input.spec_bytes(), 0) is Invalid && m@ == "Invalid char"@,
        },
{
    b64_decode_bytes(input.as_bytes())
}

/// Character of a six-bit value in the standard base64 alphabet `A-Z a-z 0-9 + /`.
pub open spec fn b64_char(v: u8) -> u8 {
    if v < 26 {
        (v + 65) as u8
    } else if v < 52 {
        (v + 71) as u8
    } else if v < 62 {
        (v - 4) as u8
    } else if v == 62 {
        43
    } else {
        47
    }
}

/// RFC 4648 standard base64 of `b`: each three bytes give four characters, and a last
/// group of one or two bytes is padded with `=` to four.
pub open spec fn b64_encode_spec(b: Seq<u8>) -> Seq<u8>
    decreases b.len(),
{
    if b.len() == 0 {
        Seq::empty()
    } else if b.len() == 1 {
        seq![b64_char(b[0] / 4), b64_char(((b[0] % 4) * 16) as u8), 61u8, 61u8]
    } else if b.len() == 2 {
        seq![
            b64_char(b[0] / 4),
            b64_char(((b[0] % 4) * 16 + b[1] / 16) as u8),
            b64_char(((b[1] % 16) * 4) as u8),
            61u8,
        ]
    } else {
        seq![
            b64_char(b[0] / 4),
            b64_char(((b[0] % 4) * 16 + b[1] / 16) as u8),
            b64_char(((b[1] % 16) * 4 + b[2] / 64) as u8),
            b64_char(b[2] % 64),
        ] + b64_encode_spec(b.subrange(3, b.len() as int))
    }
}

proof fn lemma_b64_char_val(v: u8)
    requires
        v < 64,
    ensures
        b64_val(b64_char(v)) == Some(v),
        b64_val_or_pad(b64_char(v)) == Some(v),
        b64_char(v) != 61,
{
}

/// Decoding after a prefix reads the rest as if it stood alone.
proof fn lemma_b64_decode_shift(pre: Seq<u8>, s: Seq<u8>, i: nat)
    ensures
        b64_decode_from(pre + s, pre.len() + i) == b64_decode_from(s, i),
    decreases s.len() - i,
{
    let t = pre + s;
    let j = pre.len() + i;
    if i < s.len() {
        assert(t[j as int] == s[i as int]);
        if i + 1 < s.len() {
            assert(t[j + 1 as int] == s[i + 1 as int]);
        }
        if i + 2 < s.len() {
            assert(t[j + 2 as int] == s[i + 2 as int]);
        }
        if i + 3 < s.len() {
            assert(t[j + 3 as int] == s[i + 3 as int]);
        }
        if i + 3 < s.len() {
            lemma_b64_decode_shift(pre, s, i + 4);
            assert(pre.len() + (i + 4) == j + 4);
        }
    }
}

proof fn lemma_b64_bits(b0: u8, b1: u8, b2: u8)
    ensures
        b0 / 4 < 64,
        (b0 % 4) * 16 + b1 / 16 < 64,
        (b1 % 16) * 4 + b2 / 64 < 64,
        (b0 % 4) * 16 < 64,
        (b1 % 16) * 4 < 64,
        (b0 / 4) * 4 + ((b0 % 4) * 16 + b1 / 16) / 16 == b0,
        (((b0 % 4) * 16 + b1 / 16) % 16) * 16 + ((b1 % 16) * 4 + b2 / 64) / 4 == b1,
        (((b1 % 16) * 4 + b2 / 64) % 4) * 64 + b2 % 64 == b2,
        (b0 / 4) * 4 + ((b0 % 4) * 16) / 16 == b0,
        (((b0 % 4) * 16 + b1 / 16) % 16) * 16 + ((b1 % 16) * 4) / 4 == b1,
{
}

/// One group of four alphabet characters in front of `rest` decodes to its three bytes
/// followed by what `rest` decodes to.
proof fn lemma_b64_full_group(v1: u8, v2: u8, v3: u8, v4: u8, rest: Seq<u8>)
    requires
        v1 < 64 && v2 < 64 && v3 < 64 && v4 < 64,
    ensures
        b64_decode_from(seq![b64_char(v1), b64_char(v2), b64_char(v3), b64_char(v4)] + rest, 0)
            == b64_prepend(b64_group(v1, v2, v3, v4, false, false), b64_decode_from(rest, 0)),
{
    let g = seq![b64_char(v1), b64_char(v2), b64_char(v3), b64_char(v4)];
    let t = g + rest;
    lemma_b64_char_val(v1);
    lemma_b64_char_val(v2);
    lemma_b64_char_val(v3);
    lemma_b64_char_val(v4);
    assert(t[0] == b64_char(v1) && t[1] == b64_char(v2) && t[2] == b64_char(v3) && t[3] == b64_char(v4));
    lemma_b64_decode_shift(g, rest, 0);
}

proof fn lemma_b64_last_one(b: Seq<u8>)
    requires
        b.len() == 1,
    ensures
        b64_decode_from(b64_encode_spec(b), 0) == B64Outcome::Decoded(b),
{
    let e = b64_encode_spec(b);
    lemma_b64_bits(b[0], 0, 0);
    let (v1, v2) = (b[0] / 4, ((b[0] % 4) * 16) as u8);
    lemma_b64_char_val(v1);
    lemma_b64_char_val(v2);
    assert(e =~= seq![b64_char(v1), b64_char(v2), 61u8, 61u8]);
    assert(b64_decode_from(e, 4) == B64Outcome::Decoded(Seq::<u8>::empty()));
    assert(b64_group(v1, v2, 0, 0, true, true) =~= b);
    assert(b + Seq::<u8>::empty() =~= b);
}

proof fn lemma_b64_last_two(b: Seq<u8>)
    requires
        b.len() == 2,
    ensures
        b64_decode_from(b64_encode_spec(b), 0) == B64Outcome::Decoded(b),
{
    let e = b64_encode_spec(b);
    lemma_b64_bits(b[0], b[1], 0);
    let (v1, v2, v3) = (b[0] / 4, ((b[0] % 4) * 16 + b[1] / 16) as u8, ((b[1] % 16) * 4) as u8);
    lemma_b64_char_val(v1);
    lemma_b64_char_val(v2);
    lemma_b64_char_val(v3);
    assert(e =~= seq![b64_char(v1), b64_char(v2), b64_char(v3), 61u8]);
    assert(b64_decode_from(e, 4) == B64Outcome::Decoded(Seq::<u8>::empty()));
    assert(b64_group(v1, v2, v3, 0, false, true) =~= b);
    assert(b + Seq::<u8>::empty() =~= b);
}

proof fn lemma_b64_first_three(b: Seq<u8>)
    requires
        b.len() >= 3,
        b64_decode_from(b64_encode_spec(b.subrange(3, b.len() as int)), 0) == B64Outcome::Decoded(
            b.subrange(3, b.len() as int),
        ),
    ensures
        b64_decode_from(b64_encode_spec(b), 0) == B64Outcome::Decoded(b),
{
    lemma_b64_bits(b[0], b[1], b[2]);
    let v1 = b[0] / 4;
    let v2 = ((b[0] % 4) * 16 + b[1] / 16) as u8;
    let v3 = ((b[1] % 16) * 4 + b[2] / 64) as u8;
    let v4 = b[2] % 64;
    let rest = b.subrange(3, b.len() as int);
    lemma_b64_full_group(v1, v2, v3, v4, b64_encode_spec(rest));
    assert(b64_group(v1, v2, v3, v4, false, false) =~= b.subrange(0, 3));
    assert(b.subrange(0, 3) + rest =~= b);
}

/// Decoding what the standard encoding wrote gives the bytes back: `base64_custom_decode`
/// of the RFC 4648 base64 of `b` is `b`.
pub proof fn law_b64_round_trip(b: Seq<u8>)
    ensures
        b64_decode_from(b64_encode_spec(b), 0) == B64Outcome::Decoded(b),
    decreases b.len(),
{
    if b.len() == 0 {
        assert(b64_encode_spec(b).len() == 0);
        assert(b =~= Seq::<u8>::empty());
    } else if b.len() == 1 {
        lemma_b64_last_one(b);
    } else if b.len() == 2 {
        lemma_b64_last_two(b);
    } else {
        law_b64_round_trip(b.subrange(3, b.len() as int));
        lemma_b64_first_three(b);
    }
}

/// URL-safe alphabet mapped back to the standard one: `-` to `+`, `_` to `/`.
pub open spec fn url_to_std(c: u8) -> u8 {
    if c == 45 {
        43
    } else if c == 95 {
        47
    } else {
        c
    }
}

/// Bytes of URL-safe base64 text in the standard alphabet, padded with `=` to a multiple
/// of four.
pub open spec fn b64url_prepared(b: Seq<u8>) -> Seq<u8> {
    let m = b.map_values(|c: u8| url_to_std(c));
    let pad = if b.len() % 4 == 0 { 0 } else { 4 - b.len() % 4 };
    m + Seq::new(pad as nat, |k: int| 61u8)
}

proof fn lemma_b64_no_overrun(b: Seq<u8>, i: nat)
    requires
        b.len() % 4 == 0,
        i % 4 == 0,
    ensures
        !(b64_decode_from(b, i) is Overrun),
    decreases b.len() - i,
{
    if i < b.len() {
        lemma_b64_no_overrun(b, i + 4);
    }
}

/// Decodes URL-safe base64 (unpadded or padded), as a JWT segment is written.
pub fn base64_url_decode(input: &str) -> (r: Result<Vec<u8>, String>)
    ensures
        match r {
            Ok(v) => b64_decode_from(b64url_prepared(input.spec_bytes()), 0) == B64Outcome::Decoded(v@),
            Err(m) => b64_decode_from(b64url_prepared(input.spec_bytes()), 0) is Invalid && m@ == "Invalid char"@,
        },
{
    let src = input.as_bytes();
    let mut b: Vec<u8> = Vec::new();
    let mut i: usize = 0;
    while i < src.len()
        invariant
            i <= src@.len(),
            b@ == src@.subrange(0, i as int).map_values(|c: u8| url_to_std(c)),
        decreases src@.len() - i,
    {
        let c = src[i];
        let d = if c == 45 {
            43u8
        } else if c == 95 {
            47u8
        } else {
            c
        };
        b.push(d);
        i = i + 1;
        assert(b@ =~= src@.subrange(0, i as int).map_values(|c: u8| url_to_std(c)));
    }
    assert(src@.subrange(0, src@.len() as int) =~= src@);
    let ghost mapped = b@;
    let n = src.len();
    let pad: usize = if n % 4 == 0 {
        0
    } else {
        4 - n % 4
    };
    let mut k: usize = 0;
    while k < pad
        invariant
            k <= pad <= 3,
            b@ == mapped + Seq::new(k as nat, |j: int| 61u8),
        decreases pad - k,
    {
        b.push(61);
        k = k + 1;
        assert(b@ =~= mapped + Seq::new(k as nat, |j: int| 61u8));
    }
    assert(b@ == b64url_prepared(src@));
    proof {
        lemma_b64_no_overrun(b@, 0);
    }
    b64_decode_bytes(b.as_slice())
}

/// The middle segment of a JWT-shaped token: the text after the first `.` up to the next
/// `.` or the end; none when there is no `.`.
pub open spec fn jwt_payload_segment(token: Seq<char>) -> Option<Seq<char>> {
    match find_char_spec(token, '.') {
        None => None,
        Some(k) => {
            let rest = token.subrange(k + 1 as int, token.len() as int);
            match find_char_spec(rest, '.') {
                None => Some(rest),
                Some(j) => Some(rest.subrange(0, j as int)),
            }
        },
    }
}

/// Extracts and decodes the payload segment of a CrazyGames SDK token. Refused: a token
/// with no `.`, a payload that is not URL-safe base64.
pub fn crazygames_payload(token: &str) -> (r: Result<Vec<u8>, WouError>)
    ensures
        jwt_payload_segment(token@) is None ==> (r matches Err(WouError::ProviderVerificationFailed(m))
            && m@ == "Invalid JWT format from CrazyGames"@),
        jwt_payload_segment(token@) matches Some(seg) ==> match b64_decode_from(
            b64url_prepared(vstd::utf8::encode_utf8(seg)),
            0,
        ) {
            B64Outcome::Decoded(v) => r matches Ok(bytes) && bytes@ == v,
            _ => r matches Err(WouError::ProviderVerificationFailed(m)) && m@
                == "Base64 decode failed: Invalid char"@,
        },
{
    proof {
        reveal_strlit("Invalid JWT format from CrazyGames");
        reveal_strlit("Base64 decode failed: Invalid char");
    }
    let v = chars_vec(token);
    let k = match find_char(&v, '.') {
        None => {
            return Err(WouError::ProviderVerificationFailed(string_of("Invalid JWT format from CrazyGames")));
        },
        Some(k) => k,
    };
    let rest = string_from_char_range(&v, k + 1, v.len());
    let rv = chars_vec(rest.as_str());
    let seg = match find_char(&rv, '.') {
        None => rest,
        Some(j) => string_from_char_range(&rv, 0, j),
    };
    match base64_url_decode(seg.as_str()) {
        Ok(bytes) => Ok(bytes),
        Err(_) => Err(WouError::ProviderVerificationFailed(string_of("Base64 decode failed: Invalid char"))),
    }
}

/// The user id of a CrazyGames token payload: `userId`, else `user_id`, else `sub`.
pub fn select_crazygames_user_id(
    user_id_camel: Option<String>,
    user_id: Option<String>,
    sub: Option<String>,
) -> (r: Result<String, WouError>)
    ensures
        match (user_id_camel, user_id, sub) {
            (Some(a), _, _) => r == Ok::<String, WouError>(a),
            (None, Some(b), _) => r == Ok::<String, WouError>(b),
            (None, None, Some(c)) => r == Ok::<String, WouError>(c),
            (None, None, None) => r matches Err(WouError::ProviderVerificationFailed(m)) && m@
                == "CrazyGames token missing user ID"@,
        },
{
    proof {
        reveal_strlit("CrazyGames token missing user ID");
    }
    match user_id_camel {
        Some(a) => Ok(a),
        None => match user_id {
            Some(b) => Ok(b),
            None => match sub {
                Some(c) => Ok(c),
                None => Err(WouError::ProviderVerificationFailed(string_of("CrazyGames token missing user ID"))),
            },
        },
    }
}

/// The user id `select_crazygames_user_id` picks from these fields, as a result over views.
pub open spec fn picked_user_id(
    fields: (Option<Seq<char>>, Option<Seq<char>>, Option<Seq<char>>),
    r: Result<String, WouError>,
) -> bool {
    match fields {
        (Some(a), _, _) => r matches Ok(s) && s@ == a,
        (None, Some(b), _) => r matches Ok(s) && s@ == b,
        (None, None, Some(c)) => r matches Ok(s) && s@ == c,
        (None, None, None) => r matches Err(WouError::ProviderVerificationFailed(m)) && m@
            == "CrazyGames token missing user ID"@,
    }
}

/// Name for what `serde_json` reads from a CrazyGames payload as the fields `userId`,
/// `user_id` and `sub`, each absent/`null` or a string: from a JSON object by name, or from
/// a JSON array of exactly three values in that order; none for any other JSON, or when one
/// of those fields has another JSON type.
pub uninterp spec fn cg_id_fields(payload: Seq<u8>) -> Option<(Option<Seq<char>>, Option<Seq<char>>, Option<Seq<char>>)>;

/// Calls `serde_json::from_slice` for a JSON value, then `serde_json::from_value`: for an
/// array, as a triple of optional strings; otherwise as an object, and each of `userId`,
/// `user_id` and `sub` as an optional string (a missing field read as `null`). Claims: the
/// result is the named fields of the payload, failing exactly where they are none. The
/// failure text is the crate's own; nothing is claimed about it.
#[verifier::external_body]
fn cg_payload_fields(payload: &[u8]) -> (r: Result<(Option<String>, Option<String>, Option<String>), String>)
    ensures
        match r {
            Ok((a, b, c)) => cg_id_fields(payload@) == Some((opt_view(a), opt_view(b), opt_view(c))),
            Err(_) => cg_id_fields(payload@) is None,
        },
{
    let v: serde_json::Value = serde_json::from_slice(payload).map_err(|e| e.to_string())?;
    if let serde_json::Value::Array(a) = v {
        return serde_json::from_value(serde_json::Value::Array(a)).map_err(|e| e.to_string());
    }
    let m: serde_json::Map<String, serde_json::Value> = serde_json::from_value(v).map_err(|e| e.to_string())?;
    let field = |k: &str| {
        serde_json::from_value::<Option<String>>(m.get(k).cloned().unwrap_or_default()).map_err(|e| e.to_string())
    };
    Ok((field("userId")?, field("user_id")?, field("sub")?))
}

/// The user id a CrazyGames SDK token carries: the payload segment is framed and decoded
/// (see `crazygames_payload`), its id fields read (see `cg_id_fields`) and one picked (see
/// `select_crazygames_user_id`). Every refusal is `ProviderVerificationFailed`; a payload
/// that does not read is refused with a text starting `Payload parse failed: `.
pub fn verify_crazygames_token(token: &str) -> (r: Result<String, WouError>)
    ensures
        jwt_payload_segment(token@) is None ==> (r matches Err(WouError::ProviderVerificationFailed(m))
            && m@ == "Invalid JWT format from CrazyGames"@),
        jwt_payload_segment(token@) matches Some(seg) ==> match b64_decode_from(
            b64url_prepared(vstd::utf8::encode_utf8(seg)),
            0,
        ) {
            B64Outcome::Decoded(v) => match cg_id_fields(v) {
                Some(fields) => picked_user_id(fields, r),
                None => r matches Err(WouError::ProviderVerificationFailed(m)) && begins_with(
                    m@,
                    "Payload parse failed: "@,
                ),
            },
            _ => r matches Err(WouError::ProviderVerificationFailed(m)) && m@
                == "Base64 decode failed: Invalid char"@,
        },
{
    proof {
        reveal_strlit("Payload parse failed: ");
    }
    let bytes = match crazygames_payload(token) {
        Ok(b) => b,
        Err(e) => {
            return Err(e);
        },
    };
    match cg_payload_fields(bytes.as_slice()) {
        Ok((a, b, c)) => select_crazygames_user_id(a, b, c),
        Err(e) => {
            let m = concat2("Payload parse failed: ", e.as_str());
            assert(m@.subrange(0, "Payload parse failed: "@.len() as int) =~= "Payload parse failed: "@);
            Err(WouError::ProviderVerificationFailed(m))
        },
    }
}

/// The JSON Web Key set CrazyGames publishes.
pub struct CrazyGamesPublicKey {
    pub keys: Vec<CrazyGamesJwk>,
}

/// One published key: its type and the parameters of its curve or modulus.
pub struct CrazyGamesJwk {
    pub kty: String,
    pub crv: Option<String>,
    pub x: Option<String>,
    pub y: Option<String>,
    pub n: Option<String>,
    pub e: Option<String>,
}

} // verus!
