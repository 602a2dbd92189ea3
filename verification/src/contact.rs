use vstd::prelude::*;
use vstd::string::*;
use crate::digest::{hex_decode, hex_decode_spec, hex_lower, sha256_hex, sha256_of};
use crate::email::{canonical_email, canonical_email_spec};
use crate::oauth::before_char;
use crate::text::{
    chars_vec, concat2, concat3, decimal_spec, decimal_string, find_char, lemma_find_char_after, push_char, string_from_char_range,
    string_of, trim, trim_spec,
};

verus! {

/// Default proof-of-work difficulty, in leading zero bits.
pub const DEFAULT_DIFFICULTY_BITS: u32 = 18;

/// Seconds a contact challenge lives.
pub const CHALLENGE_TTL_SECS: u64 = 300;

/// Configured difficulty held to 8..=28 bits.
pub fn contact_difficulty(configured: u32) -> (r: u32)
    ensures
        r == (if configured < 8 { 8 } else if configured > 28 { 28 } else { configured }),
{
    if configured < 8 {
        8
    } else if configured > 28 {
        28
    } else {
        configured
    }
}

/// The bytes begin with `bits` zero bits: the first `bits / 8` bytes are zero and, when
/// `bits` is not a multiple of 8, the top `bits % 8` bits of the next byte are zero.
pub open spec fn leading_zero_bits(b: Seq<u8>, bits: u32) -> bool {
    let full = (bits / 8) as int;
    let rem = bits % 8;
    &&& b.len() >= full + (if rem != 0 { 1int } else { 0int })
    &&& forall|i: int| 0 <= i < full ==> #[trigger] b[i] == 0
    &&& (rem == 0 || b[full] >> ((8 - rem) as u8) == 0)
}

/// Whether hex text decodes to bytes with at least `bits` leading zero bits.
pub open spec fn meets_difficulty_spec(hex: Seq<u8>, bits: u32) -> bool {
    match hex_decode_spec(hex) {
        Some(b) => leading_zero_bits(b, bits),
        None => false,
    }
}

/// Whether a hex digest has at least `bits` leading zero bits (see `leading_zero_bits`);
/// text that is not hex never does.
pub fn meets_difficulty(hex: &str, bits: u32) -> (b: bool)
    ensures
        b == meets_difficulty_spec(hex.spec_bytes(), bits),
{
    let bytes = match hex_decode(hex) {
        Ok(b) => b,
        Err(_) => {
            return false;
        },
    };
    let full = (bits / 8) as usize;
    let rem = bits % 8;
    let extra: usize = if rem != 0 {
        1
    } else {
        0
    };
    if bytes.len() < full || bytes.len() - full < extra {
        return false;
    }
    let mut i: usize = 0;
    while i < full
        invariant
            i <= full <= bytes@.len(),
            full == (bits / 8) as int,
            hex_decode_spec(hex.spec_bytes()) == Some(bytes@),
            forall|j: int| 0 <= j < i ==> #[trigger] bytes@[j] == 0,
        decreases full - i,
    {
        if bytes[i] != 0 {
            assert(bytes@[i as int] != 0);
            return false;
        }
        i = i + 1;
    }
    if rem == 0 {
        return true;
    }
    let shift = (8 - rem) as u8;
    bytes[full] >> shift == 0
}

/// Bit `k` of `b`, counting from the most significant bit of `b[0]`.
pub open spec fn bit_at(b: Seq<u8>, k: int) -> u8 {
    (b[k / 8] >> ((7 - k % 8) as u8)) & 1u8
}

/// `b` holds at least `bits` bits and the first `bits` of them are zero.
pub open spec fn first_bits_zero(b: Seq<u8>, bits: u32) -> bool {
    &&& b.len() * 8 >= bits
    &&& forall|k: int| 0 <= k < bits ==> #[trigger] bit_at(b, k) == 0
}

proof fn lemma_bits_of_byte(x: u8)
    by (bit_vector)
    ensures
        x == 0 <==> ((x >> 7u8) & 1u8 == 0 && (x >> 6u8) & 1u8 == 0 && (x >> 5u8) & 1u8 == 0 && (x
            >> 4u8) & 1u8 == 0 && (x >> 3u8) & 1u8 == 0 && (x >> 2u8) & 1u8 == 0 && (x >> 1u8)
            & 1u8 == 0 && (x >> 0u8) & 1u8 == 0),
{
}

proof fn lemma_top_bits_of_byte(x: u8, r: u8)
    by (bit_vector)
    requires
        1 <= r && r <= 7,
    ensures
        (x >> ((8 - r) as u8)) == 0 <==> ((x >> 7u8) & 1u8 == 0 && (r < 2 || (x >> 6u8) & 1u8 == 0)
            && (r < 3 || (x >> 5u8) & 1u8 == 0) && (r < 4 || (x >> 4u8) & 1u8 == 0) && (r < 5 || (x
            >> 3u8) & 1u8 == 0) && (r < 6 || (x >> 2u8) & 1u8 == 0) && (r < 7 || (x >> 1u8) & 1u8
            == 0)),
{
}

/// The difficulty test counts bits: `bits` leading zero bits of `b` (as `leading_zero_bits`
/// states them, by whole bytes and a shifted last byte) are exactly the first `bits` bits
/// of `b`, most significant bit of `b[0]` first, all being zero.
pub proof fn law_difficulty_counts_bits(b: Seq<u8>, bits: u32)
    ensures
        leading_zero_bits(b, bits) == first_bits_zero(b, bits),
{
    let full = (bits / 8) as int;
    let rem = bits % 8;
    assert(bits == full * 8 + rem);
    if leading_zero_bits(b, bits) {
        assert forall|k: int| 0 <= k < bits implies #[trigger] bit_at(b, k) == 0 by {
            let i = k / 8;
            let j = k % 8;
            if i < full {
                assert(b[i] == 0);
                lemma_bits_of_byte(b[i]);
                assert(0 <= j < 8);
                assert(j == 0 || j == 1 || j == 2 || j == 3 || j == 4 || j == 5 || j == 6 || j == 7);
            } else {
                assert(i == full);
                assert(j < rem);
                lemma_top_bits_of_byte(b[full], rem as u8);
                assert(j == 0 || j == 1 || j == 2 || j == 3 || j == 4 || j == 5 || j == 6);
            }
        }
    }
    if first_bits_zero(b, bits) {
        assert forall|i: int| 0 <= i < full implies #[trigger] b[i] == 0 by {
            lemma_bits_of_byte(b[i]);
            assert(bit_at(b, 8 * i) == 0);
            assert(bit_at(b, 8 * i + 1) == 0);
            assert(bit_at(b, 8 * i + 2) == 0);
            assert(bit_at(b, 8 * i + 3) == 0);
            assert(bit_at(b, 8 * i + 4) == 0);
            assert(bit_at(b, 8 * i + 5) == 0);
            assert(bit_at(b, 8 * i + 6) == 0);
            assert(bit_at(b, 8 * i + 7) == 0);
        }
        if rem != 0 {
            lemma_top_bits_of_byte(b[full], rem as u8);
            assert(bit_at(b, 8 * full) == 0);
            if rem >= 2 {
                assert(bit_at(b, 8 * full + 1) == 0);
            }
            if rem >= 3 {
                assert(bit_at(b, 8 * full + 2) == 0);
            }
            if rem >= 4 {
                assert(bit_at(b, 8 * full + 3) == 0);
            }
            if rem >= 5 {
                assert(bit_at(b, 8 * full + 4) == 0);
            }
            if rem >= 6 {
                assert(bit_at(b, 8 * full + 5) == 0);
            }
            if rem >= 7 {
                assert(bit_at(b, 8 * full + 6) == 0);
            }
        }
    }
}

/// `s` without its `<` and `>` characters.
pub open spec fn without_angles(s: Seq<char>) -> Seq<char>
    decreases s.len(),
{
    if s.len() == 0 {
        Seq::empty()
    } else if s.last() == '<' || s.last() == '>' {
        without_angles(s.drop_last())
    } else {
        without_angles(s.drop_last()).push(s.last())
    }
}

/// A contact field as it is kept: trimmed, with `<` and `>` removed.
pub open spec fn clean_field(s: Seq<char>) -> Seq<char> {
    without_angles(trim_spec(s))
}

/// Trims a contact field and removes `<` and `>`.
pub fn clean_contact_field(s: &str) -> (r: String)
    ensures
        r@ == clean_field(s@),
{
    let t = trim(s);
    let v = chars_vec(t.as_str());
    let mut out = String::new();
    let mut i: usize = 0;
    while i < v.len()
        invariant
            i <= v@.len(),
            v@ == trim_spec(s@),
            out@ == without_angles(v@.subrange(0, i as int)),
        decreases v@.len() - i,
    {
        let c = v[i];
        let ghost sub = v@.subrange(0, i + 1);
        assert(sub.drop_last() =~= v@.subrange(0, i as int));
        assert(sub.last() == c);
        if c != '<' && c != '>' {
            push_char(&mut out, c);
        }
        i = i + 1;
    }
    assert(v@.subrange(0, v@.len() as int) =~= v@);
    out
}

/// A contact form: the visible fields, the honeypot, and the solved proof of work.
pub struct ContactPayload {
    pub name: String,
    pub email: String,
    pub message: String,
    pub website: String,
    pub challenge_id: String,
    pub counter: u64,
}

/// A proof-of-work challenge handed to a contact form.
pub struct ContactChallenge {
    pub id: String,
    pub nonce: String,
    pub difficulty: u32,
    pub expires_in_seconds: u64,
}

/// Seconds a contact challenge lives.
pub const CONTACT_CHALLENGE_TTL_SECONDS: u64 = 300;

/// The challenge under `id` and `nonce` at the configured difficulty (clamped), with the
/// text to store under its key.
pub fn contact_challenge(id: String, nonce: String, configured: u32) -> (r: (ContactChallenge, String))
    ensures
        r.0.id == id,
        r.0.nonce == nonce,
        r.0.difficulty == (if configured < 8 { 8 } else if configured > 28 { 28 } else { configured }),
        r.0.expires_in_seconds == CONTACT_CHALLENGE_TTL_SECONDS,
        r.1@ == nonce@ + ":"@ + decimal_spec(r.0.difficulty as nat),
{
    let bits = contact_difficulty(configured);
    let record = contact_challenge_record(nonce.as_str(), bits);
    (ContactChallenge { id, nonce, difficulty: bits, expires_in_seconds: CONTACT_CHALLENGE_TTL_SECONDS }, record)
}

/// Outcome of checking a contact form.
pub enum ContactCheck {
    /// The hidden field was filled: answer as if received, deliver nothing.
    Honeypot,
    /// Refused with this message.
    Rejected(String),
    /// Accepted, with the cleaned fields.
    Accepted { name: String, email: String, message: String },
}

/// UTF-8 length of a text.
pub open spec fn byte_len(s: Seq<char>) -> nat {
    vstd::utf8::encode_utf8(s).len()
}

fn byte_length(s: &str) -> (n: usize)
    ensures
        n == byte_len(s@),
{
    s.as_bytes().len()
}

/// Checks a contact form: a filled honeypot is silently accepted; else the cleaned name
/// must be 1-100 bytes, the canonical email hold `@` and `.` within 254 bytes, and the
/// cleaned message be 1-2000 bytes (checked in that order).
pub fn check_contact(name: &str, email: &str, message: &str, website: &str) -> (r: ContactCheck)
    ensures
        trim_spec(website@).len() > 0 ==> r is Honeypot,
        trim_spec(website@).len() == 0 ==> {
            let n = clean_field(name@);
            let e = canonical_email_spec(email@);
            let m = clean_field(message@);
            if n.len() == 0 || byte_len(n) > 100 {
                r matches ContactCheck::Rejected(t) && t@ == "Name must be 1-100 characters"@
            } else if !e.contains('@') || !e.contains('.') || byte_len(e) > 254 {
                r matches ContactCheck::Rejected(t) && t@ == "Invalid email format"@
            } else if m.len() == 0 || byte_len(m) > 2000 {
                r matches ContactCheck::Rejected(t) && t@ == "Message must be 1-2000 characters"@
            } else {
                r matches ContactCheck::Accepted { name: a, email: b, message: c } && a@ == n && b@ == e
                    && c@ == m
            }
        },
{
    if chars_vec(trim(website).as_str()).len() > 0 {
        return ContactCheck::Honeypot;
    }
    let n = clean_contact_field(name);
    let e = canonical_email(email);
    let m = clean_contact_field(message);
    if chars_vec(n.as_str()).len() == 0 || byte_length(n.as_str()) > 100 {
        return ContactCheck::Rejected(string_of("Name must be 1-100 characters"));
    }
    if !crate::text::contains_char(e.as_str(), '@') || !crate::text::contains_char(e.as_str(), '.')
        || byte_length(e.as_str()) > 254 {
        return ContactCheck::Rejected(string_of("Invalid email format"));
    }
    if chars_vec(m.as_str()).len() == 0 || byte_length(m.as_str()) > 2000 {
        return ContactCheck::Rejected(string_of("Message must be 1-2000 characters"));
    }
    ContactCheck::Accepted { name: n, email: e, message: m }
}

/// Value of an ASCII decimal digit.
pub open spec fn digit_value(c: char) -> nat {
    ((c as u32) - 48) as nat
}

/// Value of a run of decimal digits.
pub open spec fn digits_value(s: Seq<char>) -> nat
    decreases s.len(),
{
    if s.len() == 0 {
        0
    } else {
        digits_value(s.drop_last()) * 10 + digit_value(s.last())
    }
}

/// What `u32::from_str` accepts: an optional `+`, then one or more ASCII digits whose value
/// fits in 32 bits.
pub open spec fn parse_u32_spec(s: Seq<char>) -> Option<u32> {
    let d = unsigned_part(s);
    if d.len() > 0 && all_digits(d) && digits_value(d) <= u32::MAX {
        Some(digits_value(d) as u32)
    } else {
        None
    }
}

/// The text after an optional leading `+`.
pub open spec fn unsigned_part(s: Seq<char>) -> Seq<char> {
    if s.len() > 0 && s[0] == '+' {
        s.drop_first()
    } else {
        s
    }
}

/// Every character is an ASCII digit.
pub open spec fn all_digits(d: Seq<char>) -> bool {
    forall|i: int| 0 <= i < d.len() ==> '0' <= #[trigger] d[i] <= '9'
}

proof fn lemma_digits_value_mono(s: Seq<char>, i: int)
    requires
        0 <= i <= s.len(),
        forall|k: int| 0 <= k < s.len() ==> '0' <= #[trigger] s[k] <= '9',
    ensures
        digits_value(s.subrange(0, i)) <= digits_value(s),
    decreases s.len() - i,
{
    if i < s.len() {
        lemma_digits_value_mono(s, i + 1);
        let a = s.subrange(0, i + 1);
        assert(a.drop_last() =~= s.subrange(0, i));
    } else {
        assert(s.subrange(0, i) =~= s);
    }
}

/// Parses decimal text as `u32::from_str` does (see `parse_u32_spec`).
pub fn parse_u32(s: &str) -> (r: Option<u32>)
    ensures
        r == parse_u32_spec(s@),
{
    let v0 = chars_vec(s);
    let start: usize = if v0.len() > 0 && v0[0] == '+' {
        1
    } else {
        0
    };
    let v = crate::text::string_from_char_range(&v0, start, v0.len());
    let d = chars_vec(v.as_str());
    proof {
        if v0@.len() > 0 && v0@[0] == '+' {
            assert(d@ =~= s@.drop_first());
        } else {
            assert(d@ =~= s@);
        }
    }
    if d.len() == 0 {
        return None;
    }
    let mut acc: u64 = 0;
    let mut i: usize = 0;
    while i < d.len()
        invariant
            i <= d@.len(),
            d@ == unsigned_part(s@),
            acc == digits_value(d@.subrange(0, i as int)),
            acc <= u32::MAX,
            forall|k: int| 0 <= k < i ==> '0' <= #[trigger] d@[k] <= '9',
        decreases d@.len() - i,
    {
        let c = d[i];
        if !('0' <= c && c <= '9') {
            proof {
                assert(!('0' <= d@[i as int] <= '9'));
                assert(!all_digits(d@));
                assert(parse_u32_spec(s@) is None);
            }
            return None;
        }
        let ghost sub = d@.subrange(0, i + 1);
        assert(sub.drop_last() =~= d@.subrange(0, i as int));
        let next = acc * 10 + ((c as u32) - 48) as u64;
        if next > 4294967295 {
            proof {
                assert(sub.last() == c);
                assert(digits_value(sub) == digits_value(sub.drop_last()) * 10 + digit_value(c));
                assert(digits_value(sub) > u32::MAX);
                if all_digits(d@) {
                    lemma_digits_value_mono(d@, i + 1);
                }
                assert(parse_u32_spec(s@) is None);
            }
            return None;
        }
        acc = next;
        i = i + 1;
    }
    assert(d@.subrange(0, d@.len() as int) =~= d@);
    Some(acc as u32)
}

/// Text that a contact challenge stores: the nonce and the difficulty.
pub fn contact_challenge_record(nonce: &str, bits: u32) -> (r: String)
    ensures
        r@ == nonce@ + ":"@ + decimal_spec(bits as nat),
{
    concat3(nonce, ":", decimal_string(bits as u64).as_str())
}

/// The part of `s` after its first `:`.
pub open spec fn after_colon(s: Seq<char>) -> Seq<char> {
    match crate::text::find_char_spec(s, ':') {
        Some(k) => s.subrange(k + 1 as int, s.len() as int),
        None => s,
    }
}

/// Whether a solved proof of work answers a stored challenge `nonce:bits`: the SHA-256 of
/// `nonce:counter` must have the stored number of leading zero bits (18 when the stored
/// number does not parse). `None` when the record has no `:`.
pub fn contact_work_ok(stored: &str, counter: u64) -> (r: Option<bool>)
    ensures
        !stored@.contains(':') ==> r is None,
        stored@.contains(':') ==> {
            let nonce = before_char(stored@, ':');
            let bits = match parse_u32_spec(after_colon(stored@)) {
                Some(b) => b,
                None => DEFAULT_DIFFICULTY_BITS,
            };
            let input = nonce + ":"@ + decimal_spec(counter as nat);
            r == Some(meets_difficulty_spec(vstd::utf8::encode_utf8(hex_lower(sha256_of(vstd::utf8::encode_utf8(input)))), bits))
        },
{
    let v = chars_vec(stored);
    let k = match find_char(&v, ':') {
        Some(k) => k,
        None => {
            proof {
                crate::text::lemma_find_char_contains(stored@, ':');
            }
            return None;
        },
    };
    proof {
        crate::text::lemma_find_char_contains(stored@, ':');
    }
    let nonce = string_from_char_range(&v, 0, k);
    let vl = v.len();
    assert(k < vl);
    let bits_text = string_from_char_range(&v, k + 1, vl);
    let bits = match parse_u32(bits_text.as_str()) {
        Some(b) => b,
        None => DEFAULT_DIFFICULTY_BITS,
    };
    let input = concat3(nonce.as_str(), ":", decimal_string(counter).as_str());
    let hex = sha256_hex(input.as_str().as_bytes());
    Some(meets_difficulty(hex.as_str(), bits))
}

/// Messages one IP may send per hour.
pub const CONTACT_SLOTS_PER_HOUR: u64 = 3;

/// Storage key of a challenge.
pub fn contact_challenge_key(id: &str) -> (r: String)
    ensures
        r@ == "wou_contact_ch:"@ + id@,
{
    concat2("wou_contact_ch:", id)
}

/// Rate key of one of an IP's hourly message slots (`hour` counts hours since the epoch).
pub fn contact_slot_key(ip: &str, hour: u64, slot: u64) -> (r: String)
    ensures
        r@ == "wou_contact_hr:"@ + ip@ + ":"@ + decimal_spec(hour as nat) + ":"@ + decimal_spec(
            slot as nat,
        ),
{
    let mut r = concat3("wou_contact_hr:", ip, ":");
    r.append(decimal_string(hour).as_str());
    r.append(":");
    r.append(decimal_string(slot).as_str());
    r
}

/// The note an accepted contact message is delivered as, with the sender's IP and the
/// time it arrived.
pub fn contact_notice(name: &str, email: &str, message: &str, ip: &str, when: &str) -> (r: String)
    ensures
        r@ == "**New inquiry**\n**Name:** "@ + name@ + "\n**Email:** "@ + email@
            + "\n**Message:**\n"@ + message@ + "\n\u{2014}\nIP: "@ + ip@ + " \u{b7} "@ + when@,
{
    let mut r = concat3("**New inquiry**\n**Name:** ", name, "\n**Email:** ");
    r.append(email);
    r.append("\n**Message:**\n");
    r.append(message);
    r.append("\n\u{2014}\nIP: ");
    r.append(ip);
    r.append(" \u{b7} ");
    r.append(when);
    r
}

proof fn lemma_decimal_digits(n: nat)
    ensures
        decimal_spec(n).len() > 0,
        all_digits(decimal_spec(n)),
        digits_value(decimal_spec(n)) == n,
    decreases n,
{
    let d = decimal_spec(n);
    if n < 10 {
        assert(d.drop_last() =~= Seq::<char>::empty());
        assert(digits_value(d.drop_last()) == 0);
        assert(digit_value(d.last()) == n);
        assert(digits_value(d) == digits_value(d.drop_last()) * 10 + digit_value(d.last()));
    } else {
        lemma_decimal_digits(n / 10);
        let p = decimal_spec(n / 10);
        assert(d == p.push(crate::text::digit_char(n % 10)));
        assert(d.drop_last() =~= p);
        assert(digit_value(d.last()) == n % 10);
        assert(digits_value(d) == digits_value(p) * 10 + digit_value(d.last()));
        assert((n / 10) * 10 + n % 10 == n);
        assert forall|i: int| 0 <= i < d.len() implies '0' <= #[trigger] d[i] <= '9' by {
            if i < p.len() {
                assert(d[i] == p[i]);
            }
        }
    }
}

/// What a contact challenge stores reads back as it was issued (for a nonce without `:`):
/// the nonce before the first `:`, and the difficulty after it.
pub proof fn law_contact_record_read_back(nonce: Seq<char>, bits: u32)
    requires
        !nonce.contains(':'),
    ensures
        ({
            let rec = nonce + ":"@ + decimal_spec(bits as nat);
            &&& rec.contains(':')
            &&& before_char(rec, ':') == nonce
            &&& parse_u32_spec(after_colon(rec)) == Some(bits)
        }),
{
    reveal_strlit(":");
    let dec = decimal_spec(bits as nat);
    let rec = nonce + ":"@ + dec;
    assert(":"@ =~= seq![':']);
    lemma_find_char_after(nonce, ':', dec);
    assert(rec[nonce.len() as int] == ':');
    assert(rec.subrange(0, nonce.len() as int) =~= nonce);
    assert(rec.subrange((nonce.len() + 1) as int, rec.len() as int) =~= dec);
    lemma_decimal_digits(bits as nat);
    assert(dec[0] != '+');
    assert(unsigned_part(dec) == dec);
}

} // verus!
