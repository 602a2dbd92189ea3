use vstd::prelude::*;
use vstd::string::*;
use sha2::Digest;

verus! {

/// Name for the SHA-256 digest that `sha2::Sha256::digest` computes over a byte string.
pub uninterp spec fn sha256_of(data: Seq<u8>) -> Seq<u8>;

/// Calls `sha2::Sha256::digest`. Claims: the result is the named digest of the input and,
/// as for every SHA-256 output, it is 32 bytes long.
#[verifier::external_body]
pub fn sha256(data: &[u8]) -> (r: Vec<u8>)
    ensures
        r@ == sha256_of(data@),
        r@.len() == 32,
{
    sha2::Sha256::digest(data).to_vec()
}

/// Lower-case hexadecimal digit for a nibble.
pub open spec fn hex_digit(n: u8) -> char {
    if n < 10 {
        ((n + 48) as u8) as char
    } else {
        ((n + 87) as u8) as char
    }
}

/// Lower-case hexadecimal text of a byte string, two digits per byte, high nibble first.
pub open spec fn hex_lower(data: Seq<u8>) -> Seq<char>
    decreases data.len(),
{
    if data.len() == 0 {
        Seq::empty()
    } else {
        seq![hex_digit(data[0] / 16), hex_digit(data[0] % 16)] + hex_lower(data.drop_first())
    }
}

/// Calls `hex::encode`, which writes each byte as two lower-case hexadecimal digits, high
/// nibble first.
#[verifier::external_body]
pub fn hex_encode(data: &[u8]) -> (r: String)
    ensures
        r@ == hex_lower(data@),
{
    hex::encode(data)
}

/// Value of an ASCII hexadecimal digit byte (either case), if it is one.
pub open spec fn hex_val(b: u8) -> Option<u8> {
    if 48 <= b && b <= 57 {
        Some((b - 48) as u8)
    } else if 97 <= b && b <= 102 {
        Some((b - 87) as u8)
    } else if 65 <= b && b <= 70 {
        Some((b - 55) as u8)
    } else {
        None
    }
}

/// What `hex::decode` gives for a byte string: `None` for odd length or a non-hex byte,
/// otherwise one byte per pair of digits.
pub open spec fn hex_decode_spec(text: Seq<u8>) -> Option<Seq<u8>>
    decreases text.len(),
{
    if text.len() == 0 {
        Some(Seq::empty())
    } else if text.len() == 1 {
        None
    } else {
        match (hex_val(text[0]), hex_val(text[1]), hex_decode_spec(text.subrange(2, text.len() as int))) {
            (Some(h), Some(l), Some(rest)) => Some(seq![(h * 16 + l) as u8] + rest),
            _ => None,
        }
    }
}

/// Calls `hex::decode` on the UTF-8 bytes of `s`: an error for odd length or any non-hex
/// byte, otherwise the decoded bytes. The error's text is `hex`'s own description; nothing
/// is claimed about it.
#[verifier::external_body]
pub fn hex_decode(s: &str) -> (r: Result<Vec<u8>, String>)
    ensures
        match r {
            Ok(v) => hex_decode_spec(s.spec_bytes()) == Some(v@),
            Err(_) => hex_decode_spec(s.spec_bytes()) is None,
        },
{
    hex::decode(s).map_err(|e| e.to_string())
}

proof fn lemma_hex_lower_len(data: Seq<u8>)
    ensures
        hex_lower(data).len() == 2 * data.len(),
    decreases data.len(),
{
    if data.len() > 0 {
        lemma_hex_lower_len(data.drop_first());
    }
}

proof fn lemma_hex_lower_digits(data: Seq<u8>)
    ensures
        forall|i: int| 0 <= i < hex_lower(data).len() ==> is_hex_char(#[trigger] hex_lower(data)[i]),
    decreases data.len(),
{
    lemma_hex_lower_len(data);
    if data.len() > 0 {
        lemma_hex_lower_digits(data.drop_first());
        let h = hex_lower(data);
        let t = hex_lower(data.drop_first());
        assert forall|i: int| 0 <= i < h.len() implies is_hex_char(#[trigger] h[i]) by {
            if i >= 2 {
                assert(h[i] == t[i - 2]);
            }
        }
    }
}

/// Hex text of bytes is ASCII, so its UTF-8 encoding is its characters, byte for byte.
proof fn lemma_hex_lower_bytes(data: Seq<u8>)
    ensures
        vstd::utf8::encode_utf8(hex_lower(data)).len() == hex_lower(data).len(),
        forall|i: int| 0 <= i < hex_lower(data).len() ==> #[trigger] vstd::utf8::encode_utf8(hex_lower(data))[i]
            == hex_lower(data)[i] as u8,
{
    let h = hex_lower(data);
    lemma_hex_lower_digits(data);
    assert(vstd::utf8::is_ascii_chars(h)) by {
        assert forall|i: int| 0 <= i < h.len() implies '\0' <= #[trigger] h[i] <= '\u{7f}' by {
            assert(is_hex_char(h[i]));
        }
    }
    vstd::utf8::is_ascii_chars_encode_utf8(h);
}

proof fn lemma_hex_digit_val(n: u8)
    requires
        n < 16,
    ensures
        hex_val(hex_digit(n) as u8) == Some(n),
{
}

/// Decoding what encoding wrote gives the bytes back: `hex::decode` of the UTF-8 bytes of
/// `hex::encode(data)` is `data`.
pub proof fn law_hex_round_trip(data: Seq<u8>)
    ensures
        hex_decode_spec(vstd::utf8::encode_utf8(hex_lower(data))) == Some(data),
    decreases data.len(),
{
    let h = hex_lower(data);
    let b = vstd::utf8::encode_utf8(h);
    lemma_hex_lower_bytes(data);
    lemma_hex_lower_len(data);
    if data.len() == 0 {
        assert(b.len() == 0);
    } else {
        let rest = data.drop_first();
        law_hex_round_trip(rest);
        lemma_hex_lower_bytes(rest);
        lemma_hex_lower_len(rest);
        let t = hex_lower(rest);
        assert(h == seq![hex_digit(data[0] / 16), hex_digit(data[0] % 16)] + t);
        assert(b.subrange(2, b.len() as int) =~= vstd::utf8::encode_utf8(t)) by {
            assert forall|i: int| 0 <= i < t.len() implies b.subrange(2, b.len() as int)[i]
                == vstd::utf8::encode_utf8(t)[i] by {
                assert(b[i + 2] == h[i + 2] as u8);
                assert(h[i + 2] == t[i]);
            }
        }
        lemma_hex_digit_val(data[0] / 16);
        lemma_hex_digit_val(data[0] % 16);
        assert(b[0] == h[0] as u8);
        assert(b[1] == h[1] as u8);
        assert(((data[0] / 16) * 16 + data[0] % 16) as u8 == data[0]);
        assert(seq![data[0]] + rest =~= data);
    }
}

/// A lower-case hexadecimal digit character.
pub open spec fn is_hex_char(c: char) -> bool {
    ('0' <= c && c <= '9') || ('a' <= c && c <= 'f')
}

/// Lower-case hex text of the SHA-256 digest of `data`, and its shape.
pub fn sha256_hex(data: &[u8]) -> (r: String)
    ensures
        r@ == hex_lower(sha256_of(data@)),
        r@.len() == 64,
        forall|i: int| 0 <= i < r@.len() ==> is_hex_char(#[trigger] r@[i]),
{
    let d = sha256(data);
    let r = hex_encode(d.as_slice());
    proof {
        lemma_hex_lower_len(d@);
        lemma_hex_lower_digits(d@);
    }
    r
}

/// Constant-time equality of two 32-byte digests: no early exit, no branch on content.
pub fn ct_eq(a: &[u8; 32], b: &[u8; 32]) -> (r: bool)
    ensures
        r == (a@ == b@),
{
    let mut diff: u8 = 0;
    let mut i: usize = 0;
    while i < 32
        invariant
            i <= 32,
            a@.len() == 32,
            b@.len() == 32,
            (diff == 0) == (forall|j: int| 0 <= j < i ==> a@[j] == b@[j]),
        decreases 32 - i,
    {
        let x = a[i];
        let y = b[i];
        let d = diff;
        assert((d | (x ^ y)) == 0 <==> (d == 0 && x == y)) by (bit_vector);
        diff = d | (x ^ y);
        i = i + 1;
    }
    if diff == 0 {
        assert(a@ =~= b@);
    }
    diff == 0
}

} // verus!
