use vstd::prelude::*;
use vstd::string::*;
use crate::digest::{hex_lower, is_hex_char, sha256_hex, sha256_of};
use crate::text::{
    ascii_lower, ascii_lower_text, is_ws, trim_end_spec, trim_start_spec, concat3, find_char, find_char_spec, is_ascii_text, lemma_find_char_after, lemma_trim_keeps_ascii,
    lemma_trim_lower_commute, lowercase_of, string_from_char_range, string_of, to_lowercase,
    trim, trim_spec, chars_vec,
};

verus! {

/// Local part of an address with any `+tag` suffix removed.
pub open spec fn strip_plus_tag(local: Seq<char>) -> Seq<char> {
    match find_char_spec(local, '+') {
        Some(k) => local.subrange(0, k as int),
        None => local,
    }
}

/// Canonical form of an email address: trimmed, lower-cased, and with the `+tag` of the
/// local part (before the first `@`) dropped, so that plus-addresses share one mailbox.
pub open spec fn canonical_email_spec(email: Seq<char>) -> Seq<char> {
    canonical_of_lowered(lowercase_of(trim_spec(email)))
}

/// The canonical form of an already trimmed and lower-cased address `t`: the `+tag` of the
/// local part (before the first `@`) dropped.
pub open spec fn canonical_of_lowered(t: Seq<char>) -> Seq<char> {
    match find_char_spec(t, '@') {
        Some(k) => strip_plus_tag(t.subrange(0, k as int)) + t.subrange(k as int, t.len() as int),
        None => t,
    }
}

/// Canonical form of an ASCII address: as `canonical_email_spec`, the lower case being
/// ASCII lower case.
pub open spec fn canonical_ascii_spec(email: Seq<char>) -> Seq<char> {
    canonical_of_lowered(ascii_lower_text(trim_spec(email)))
}

/// Canonical form of an email address (see `canonical_email_spec`; for an ASCII address,
/// `canonical_ascii_spec`).
pub fn canonical_email(email: &str) -> (r: String)
    ensures
        r@ == canonical_email_spec(email@),
        is_ascii_text(email@) ==> r@ == canonical_ascii_spec(email@),
{
    let trimmed = trim(email);
    proof {
        if is_ascii_text(email@) {
            lemma_trim_keeps_ascii(email@);
        }
    }
    let lower = to_lowercase(trimmed.as_str());
    let v = chars_vec(lower.as_str());
    match find_char(&v, '@') {
        None => lower,
        Some(k) => {
            let local = string_from_char_range(&v, 0, k);
            let lv = chars_vec(local.as_str());
            let kept = match find_char(&lv, '+') {
                Some(p) => string_from_char_range(&lv, 0, p),
                None => local,
            };
            let rest = string_from_char_range(&v, k, v.len());
            let mut r = kept;
            r.append(rest.as_str());
            r
        },
    }
}

/// Short de-identified tag of an address: the first 12 hex digits of the SHA-256 of its
/// canonical form.
pub open spec fn key_tag_spec(email: Seq<char>) -> Seq<char> {
    hex_lower(sha256_of(vstd::utf8::encode_utf8(canonical_email_spec(email)))).subrange(0, 12)
}

/// The tag of an ASCII address: as `key_tag_spec`, over `canonical_ascii_spec`.
pub open spec fn ascii_key_tag(email: Seq<char>) -> Seq<char> {
    hex_lower(sha256_of(vstd::utf8::encode_utf8(canonical_ascii_spec(email)))).subrange(0, 12)
}

/// De-identified 12-character tag for keys and logs (never carries the raw address).
pub fn key_tag(email: &str) -> (r: String)
    ensures
        r@ == key_tag_spec(email@),
        r@.len() == 12,
        forall|i: int| 0 <= i < 12 ==> is_hex_char(#[trigger] r@[i]),
        is_ascii_text(email@) ==> r@ == ascii_key_tag(email@),
{
    let c = canonical_email(email);
    let h = sha256_hex(c.as_str().as_bytes());
    let v = chars_vec(h.as_str());
    string_from_char_range(&v, 0, 12)
}

/// Short de-identified tag for logs (no personal data on disk): 12 hex digits.
pub fn log_tag(email: &str) -> (r: String)
    ensures
        r@ == key_tag_spec(email@),
        r@.len() == 12,
        forall|i: int| 0 <= i < 12 ==> is_hex_char(#[trigger] r@[i]),
        is_ascii_text(email@) ==> r@ == ascii_key_tag(email@),
{
    key_tag(email)
}

/// Two ASCII addresses that differ only in the case of their letters have one canonical
/// form, and so one tag: tags ignore letter case.
pub proof fn law_tag_ignores_ascii_case(a: Seq<char>, b: Seq<char>)
    requires
        is_ascii_text(a),
        is_ascii_text(b),
        ascii_lower_text(a) == ascii_lower_text(b),
    ensures
        canonical_ascii_spec(a) == canonical_ascii_spec(b),
        ascii_key_tag(a) == ascii_key_tag(b),
{
    lemma_trim_lower_commute(a);
    lemma_trim_lower_commute(b);
}

/// Plus-addresses share one mailbox: for a lower-cased address whose local part has no `+`
/// or `@` and whose tag has no `@`, `local+tag@domain` and `local@domain` have the one
/// canonical form `local@domain`.
pub proof fn lemma_plus_tag_dropped(local: Seq<char>, tag: Seq<char>, domain: Seq<char>)
    requires
        !local.contains('+'),
        !local.contains('@'),
        !tag.contains('@'),
    ensures
        canonical_of_lowered(local + seq!['+'] + tag + seq!['@'] + domain) == local + seq!['@'] + domain,
        canonical_of_lowered(local + seq!['@'] + domain) == local + seq!['@'] + domain,
{
    let head = local + seq!['+'] + tag;
    assert(!head.contains('@')) by {
        if head.contains('@') {
            let j = choose|j: int| 0 <= j < head.len() && head[j] == '@';
            if j < local.len() {
                assert(local[j] == '@');
            } else if j > local.len() {
                assert(tag[j - local.len() - 1] == '@');
            }
        }
    }
    let t1 = local + seq!['+'] + tag + seq!['@'] + domain;
    lemma_find_char_after(head, '@', domain);
    assert(t1 =~= head + seq!['@'] + domain);
    assert(t1.subrange(0, head.len() as int) =~= head);
    lemma_find_char_after(local, '+', tag);
    assert(head.subrange(0, local.len() as int) =~= local);
    assert(t1.subrange(head.len() as int, t1.len() as int) =~= seq!['@'] + domain);
    assert(local + (seq!['@'] + domain) =~= local + seq!['@'] + domain);
    let t2 = local + seq!['@'] + domain;
    lemma_find_char_after(local, '@', domain);
    assert(t2.subrange(0, local.len() as int) =~= local);
    assert(t2.subrange(local.len() as int, t2.len() as int) =~= seq!['@'] + domain);
    assert(strip_plus_tag(local) == local) by {
        crate::text::lemma_find_char_contains(local, '+');
    }
}

/// `s` without `c` keeps no `c` after ASCII lower-casing, for `c` not an upper-case letter.
proof fn lemma_lower_keeps_absent(s: Seq<char>, c: char)
    requires
        !s.contains(c),
        (c as u32) < 65,
    ensures
        !ascii_lower_text(s).contains(c),
{
    if ascii_lower_text(s).contains(c) {
        let j = choose|j: int| 0 <= j < ascii_lower_text(s).len() && ascii_lower_text(s)[j] == c;
        let u = s[j];
        assert(ascii_lower(u) == c);
        if 'A' <= u && u <= 'Z' {
            let b = u as u8;
            assert(65 <= b && b <= 90);
            assert(((b + 32u8) as char) as u32 == (b + 32u8) as u32);
        }
        assert(s[j] == c);
    }
}

/// Plus-addresses share one mailbox whatever the letter case: for ASCII parts, a local part
/// with no `+` or `@` that does not start with whitespace, a tag with no `@` and a domain
/// that does not end with whitespace, `local+tag@domain` and `local@domain` have the one
/// canonical form: the local part and domain in lower case, joined by `@`.
pub proof fn law_plus_address_shares_mailbox(local: Seq<char>, tag: Seq<char>, domain: Seq<char>)
    requires
        is_ascii_text(local),
        is_ascii_text(tag),
        is_ascii_text(domain),
        !local.contains('+'),
        !local.contains('@'),
        !tag.contains('@'),
        local.len() > 0 && !is_ws(local[0]),
        domain.len() > 0 && !is_ws(domain.last()),
    ensures
        canonical_ascii_spec(local + seq!['+'] + tag + seq!['@'] + domain) == ascii_lower_text(local)
            + seq!['@'] + ascii_lower_text(domain),
        canonical_ascii_spec(local + seq!['@'] + domain) == ascii_lower_text(local) + seq!['@']
            + ascii_lower_text(domain),
{
    let x1 = local + seq!['+'] + tag + seq!['@'] + domain;
    let x2 = local + seq!['@'] + domain;
    assert(x1[0] == local[0] && x1.last() == domain.last());
    assert(x2[0] == local[0] && x2.last() == domain.last());
    assert(trim_start_spec(x1) == x1);
    assert(trim_end_spec(x1) == x1);
    assert(trim_start_spec(x2) == x2);
    assert(trim_end_spec(x2) == x2);
    let (l, t, d) = (ascii_lower_text(local), ascii_lower_text(tag), ascii_lower_text(domain));
    assert(ascii_lower_text(x1) =~= l + seq!['+'] + t + seq!['@'] + d);
    assert(ascii_lower_text(x2) =~= l + seq!['@'] + d);
    lemma_lower_keeps_absent(local, '+');
    lemma_lower_keeps_absent(local, '@');
    lemma_lower_keeps_absent(tag, '@');
    lemma_plus_tag_dropped(l, t, d);
}

} // verus!
