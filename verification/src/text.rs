use vstd::prelude::*;
use vstd::string::*;

verus! {

/// Name for what `str::to_lowercase` returns (Unicode lowercase mapping).
pub uninterp spec fn lowercase_of(s: Seq<char>) -> Seq<char>;

/// Name for what `str::to_uppercase` returns (Unicode uppercase mapping).
pub uninterp spec fn uppercase_of(s: Seq<char>) -> Seq<char>;

/// Calls `String::push`: the string grows by exactly the given character.
#[verifier::external_body]
pub fn push_char(s: &mut String, c: char)
    ensures
        final(s)@ == old(s)@.push(c),
{
    s.push(c);
}

/// Lower-case form of an ASCII letter; other characters unchanged.
pub open spec fn ascii_lower(c: char) -> char {
    if 'A' <= c && c <= 'Z' {
        ((c as u8) + 32u8) as char
    } else {
        c
    }
}

/// Upper-case form of an ASCII letter; other characters unchanged.
pub open spec fn ascii_upper(c: char) -> char {
    if 'a' <= c && c <= 'z' {
        ((c as u8) - 32u8) as char
    } else {
        c
    }
}

/// Every character of `s` is ASCII.
pub open spec fn is_ascii_text(s: Seq<char>) -> bool {
    forall|i: int| 0 <= i < s.len() ==> (#[trigger] s[i] as u32) < 128
}

/// `s` with its ASCII letters in lower case.
pub open spec fn ascii_lower_text(s: Seq<char>) -> Seq<char> {
    s.map_values(|c: char| ascii_lower(c))
}

/// `s` with its ASCII letters in upper case.
pub open spec fn ascii_upper_text(s: Seq<char>) -> Seq<char> {
    s.map_values(|c: char| ascii_upper(c))
}

/// Calls `str::to_lowercase`; the result is named by `lowercase_of`. Claimed beyond the
/// name, as std documents it: on ASCII text it lower-cases exactly the ASCII letters.
#[verifier::external_body]
pub fn to_lowercase(s: &str) -> (r: String)
    ensures
        r@ == lowercase_of(s@),
        is_ascii_text(s@) ==> r@ == ascii_lower_text(s@),
{
    s.to_lowercase()
}

/// Calls `str::to_uppercase`; the result is named by `uppercase_of`. Claimed beyond the
/// name, as std documents it: on ASCII text it upper-cases exactly the ASCII letters.
#[verifier::external_body]
pub fn to_uppercase(s: &str) -> (r: String)
    ensures
        r@ == uppercase_of(s@),
        is_ascii_text(s@) ==> r@ == ascii_upper_text(s@),
{
    s.to_uppercase()
}

/// Owned copy of a string slice.
pub fn string_of(s: &str) -> (r: String)
    ensures
        r@ == s@,
{
    String::from_str(s)
}

/// The characters of a string slice, in order.
pub fn chars_vec(s: &str) -> (v: Vec<char>)
    ensures
        v@ == s@,
{
    let n = s.unicode_len();
    let mut v: Vec<char> = Vec::new();
    let mut i: usize = 0;
    while i < n
        invariant
            n == s@.len(),
            i <= n,
            v@ == s@.subrange(0, i as int),
        decreases n - i,
    {
        let c = s.get_char(i);
        v.push(c);
        i = i + 1;
        assert(v@ =~= s@.subrange(0, i as int));
    }
    assert(v@ =~= s@);
    v
}

/// A string holding exactly the characters of `v[from..to]`.
pub fn string_from_char_range(v: &Vec<char>, from: usize, to: usize) -> (r: String)
    requires
        from <= to <= v@.len(),
    ensures
        r@ == v@.subrange(from as int, to as int),
{
    let mut r = String::new();
    let mut i: usize = from;
    while i < to
        invariant
            from <= i <= to <= v@.len(),
            r@ == v@.subrange(from as int, i as int),
        decreases to - i,
    {
        push_char(&mut r, v[i]);
        i = i + 1;
        assert(r@ =~= v@.subrange(from as int, i as int));
    }
    r
}

/// A string holding exactly the characters of `v`.
pub fn string_from_chars(v: &Vec<char>) -> (r: String)
    ensures
        r@ == v@,
{
    let r = string_from_char_range(v, 0, v.len());
    assert(v@.subrange(0, v@.len() as int) =~= v@);
    r
}

/// Unicode `White_Space` property, as used by `char::is_whitespace` and `str::trim`.
pub open spec fn is_ws(c: char) -> bool {
    let u = c as u32;
    (0x09 <= u && u <= 0x0d) || u == 0x20 || u == 0x85 || u == 0xa0 || u == 0x1680 || (0x2000
        <= u && u <= 0x200a) || u == 0x2028 || u == 0x2029 || u == 0x202f || u == 0x205f || u
        == 0x3000
}

pub fn char_is_ws(c: char) -> (b: bool)
    ensures
        b == is_ws(c),
{
    let u = c as u32;
    (0x09 <= u && u <= 0x0d) || u == 0x20 || u == 0x85 || u == 0xa0 || u == 0x1680 || (0x2000
        <= u && u <= 0x200a) || u == 0x2028 || u == 0x2029 || u == 0x202f || u == 0x205f || u
        == 0x3000
}

/// `s` without its leading whitespace.
pub open spec fn trim_start_spec(s: Seq<char>) -> Seq<char>
    decreases s.len(),
{
    if s.len() > 0 && is_ws(s[0]) {
        trim_start_spec(s.drop_first())
    } else {
        s
    }
}

/// `s` without its trailing whitespace.
pub open spec fn trim_end_spec(s: Seq<char>) -> Seq<char>
    decreases s.len(),
{
    if s.len() > 0 && is_ws(s.last()) {
        trim_end_spec(s.drop_last())
    } else {
        s
    }
}

/// `s` without leading and trailing whitespace (what `str::trim` gives).
pub open spec fn trim_spec(s: Seq<char>) -> Seq<char> {
    trim_end_spec(trim_start_spec(s))
}

/// Trimming keeps ASCII text ASCII.
pub proof fn lemma_trim_keeps_ascii(s: Seq<char>)
    requires
        is_ascii_text(s),
    ensures
        is_ascii_text(trim_spec(s)),
{
    lemma_trim_start_ascii(s);
    lemma_trim_end_ascii(trim_start_spec(s));
}

proof fn lemma_trim_start_ascii(s: Seq<char>)
    requires
        is_ascii_text(s),
    ensures
        is_ascii_text(trim_start_spec(s)),
    decreases s.len(),
{
    if s.len() > 0 && is_ws(s[0]) {
        assert forall|i: int| 0 <= i < s.drop_first().len() implies (#[trigger] s.drop_first()[i] as u32) < 128 by {
            assert(s.drop_first()[i] == s[i + 1]);
        }
        lemma_trim_start_ascii(s.drop_first());
    }
}

proof fn lemma_trim_end_ascii(s: Seq<char>)
    requires
        is_ascii_text(s),
    ensures
        is_ascii_text(trim_end_spec(s)),
    decreases s.len(),
{
    if s.len() > 0 && is_ws(s.last()) {
        assert forall|i: int| 0 <= i < s.drop_last().len() implies (#[trigger] s.drop_last()[i] as u32) < 128 by {
            assert(s.drop_last()[i] == s[i]);
        }
        lemma_trim_end_ascii(s.drop_last());
    }
}

/// Trimming and ASCII lower-casing commute (no ASCII letter is whitespace).
pub proof fn lemma_trim_lower_commute(s: Seq<char>)
    ensures
        trim_spec(ascii_lower_text(s)) == ascii_lower_text(trim_spec(s)),
{
    lemma_trim_start_lower(s);
    lemma_trim_end_lower(trim_start_spec(s));
}

proof fn lemma_trim_start_lower(s: Seq<char>)
    ensures
        trim_start_spec(ascii_lower_text(s)) == ascii_lower_text(trim_start_spec(s)),
    decreases s.len(),
{
    let l = ascii_lower_text(s);
    if s.len() > 0 {
        assert(l[0] == ascii_lower(s[0]));
        assert(is_ws(l[0]) == is_ws(s[0]));
        if is_ws(s[0]) {
            assert(l.drop_first() =~= ascii_lower_text(s.drop_first()));
            lemma_trim_start_lower(s.drop_first());
        }
    } else {
        assert(l =~= s);
    }
}

proof fn lemma_trim_end_lower(s: Seq<char>)
    ensures
        trim_end_spec(ascii_lower_text(s)) == ascii_lower_text(trim_end_spec(s)),
    decreases s.len(),
{
    let l = ascii_lower_text(s);
    if s.len() > 0 {
        assert(l.last() == ascii_lower(s.last()));
        assert(is_ws(l.last()) == is_ws(s.last()));
        if is_ws(s.last()) {
            assert(l.drop_last() =~= ascii_lower_text(s.drop_last()));
            lemma_trim_end_lower(s.drop_last());
        }
    } else {
        assert(l =~= s);
    }
}

proof fn lemma_trim_start_skip(s: Seq<char>, i: int)
    requires
        0 <= i <= s.len(),
        forall|j: int| 0 <= j < i ==> is_ws(#[trigger] s[j]),
    ensures
        trim_start_spec(s) == trim_start_spec(s.subrange(i, s.len() as int)),
    decreases i,
{
    if i > 0 {
        assert(s.drop_first() =~= s.subrange(1, s.len() as int));
        lemma_trim_start_skip(s.drop_first(), i - 1);
        assert(s.drop_first().subrange(i - 1, s.drop_first().len() as int) =~= s.subrange(
            i,
            s.len() as int,
        ));
    } else {
        assert(s.subrange(0, s.len() as int) =~= s);
    }
}

proof fn lemma_trim_end_skip(s: Seq<char>, k: int)
    requires
        0 <= k <= s.len(),
        forall|j: int| k <= j < s.len() ==> is_ws(#[trigger] s[j]),
    ensures
        trim_end_spec(s) == trim_end_spec(s.subrange(0, k)),
    decreases s.len() - k,
{
    if k < s.len() {
        assert(s.drop_last() =~= s.subrange(0, s.len() - 1));
        lemma_trim_end_skip(s.drop_last(), k);
        assert(s.drop_last().subrange(0, k) =~= s.subrange(0, k));
    } else {
        assert(s.subrange(0, k) =~= s);
    }
}

/// Indices `[a, b)` of `v` that `trim` keeps.
pub fn trim_bounds(v: &Vec<char>) -> (r: (usize, usize))
    ensures
        r.0 <= r.1 <= v@.len(),
        v@.subrange(r.0 as int, r.1 as int) == trim_spec(v@),
{
    let n = v.len();
    let mut a: usize = 0;
    while a < n && char_is_ws(v[a])
        invariant
            a <= n == v@.len(),
            forall|j: int| 0 <= j < a ==> is_ws(#[trigger] v@[j]),
        decreases n - a,
    {
        a = a + 1;
    }
    proof {
        lemma_trim_start_skip(v@, a as int);
    }
    let ghost t = v@.subrange(a as int, n as int);
    assert(trim_start_spec(t) == t);
    let mut b: usize = n;
    while b > a && char_is_ws(v[b - 1])
        invariant
            a <= b <= n == v@.len(),
            t == v@.subrange(a as int, n as int),
            forall|j: int| b <= j < n ==> is_ws(#[trigger] v@[j]),
        decreases b - a,
    {
        b = b - 1;
    }
    proof {
        assert forall|j: int| (b - a) <= j < t.len() implies is_ws(#[trigger] t[j]) by {
            assert(t[j] == v@[j + a]);
        }
        lemma_trim_end_skip(t, (b - a) as int);
        assert(t.subrange(0, (b - a) as int) =~= v@.subrange(a as int, b as int));
    }
    (a, b)
}

/// What `str::trim` gives, as an owned string.
pub fn trim(s: &str) -> (r: String)
    ensures
        r@ == trim_spec(s@),
{
    let v = chars_vec(s);
    let (a, b) = trim_bounds(&v);
    string_from_char_range(&v, a, b)
}

/// `s` without any leading copies of `c` (what `str::trim_start_matches(c)` gives).
pub open spec fn strip_leading_spec(s: Seq<char>, c: char) -> Seq<char>
    decreases s.len(),
{
    if s.len() > 0 && s[0] == c {
        strip_leading_spec(s.drop_first(), c)
    } else {
        s
    }
}

proof fn lemma_strip_leading_skip(s: Seq<char>, c: char, i: int)
    requires
        0 <= i <= s.len(),
        forall|j: int| 0 <= j < i ==> #[trigger] s[j] == c,
    ensures
        strip_leading_spec(s, c) == strip_leading_spec(s.subrange(i, s.len() as int), c),
    decreases i,
{
    if i > 0 {
        lemma_strip_leading_skip(s.drop_first(), c, i - 1);
        assert(s.drop_first().subrange(i - 1, s.drop_first().len() as int) =~= s.subrange(
            i,
            s.len() as int,
        ));
    } else {
        assert(s.subrange(0, s.len() as int) =~= s);
    }
}

/// What `str::trim_start_matches(c)` gives for a single character pattern.
pub fn strip_leading(s: &str, c: char) -> (r: String)
    ensures
        r@ == strip_leading_spec(s@, c),
{
    let v = chars_vec(s);
    let n = v.len();
    let mut a: usize = 0;
    while a < n && v[a] == c
        invariant
            a <= n == v@.len(),
            forall|j: int| 0 <= j < a ==> #[trigger] v@[j] == c,
        decreases n - a,
    {
        a = a + 1;
    }
    proof {
        lemma_strip_leading_skip(v@, c, a as int);
    }
    string_from_char_range(&v, a, n)
}

/// `s` without any trailing copies of `c` (what `str::trim_end_matches(c)` gives).
pub open spec fn strip_trailing_spec(s: Seq<char>, c: char) -> Seq<char>
    decreases s.len(),
{
    if s.len() > 0 && s.last() == c {
        strip_trailing_spec(s.drop_last(), c)
    } else {
        s
    }
}

proof fn lemma_strip_trailing_skip(s: Seq<char>, c: char, e: int)
    requires
        0 <= e <= s.len(),
        forall|j: int| e <= j < s.len() ==> #[trigger] s[j] == c,
    ensures
        strip_trailing_spec(s, c) == strip_trailing_spec(s.subrange(0, e), c),
    decreases s.len() - e,
{
    if e < s.len() {
        assert(s.drop_last().subrange(0, e) =~= s.subrange(0, e));
        lemma_strip_trailing_skip(s.drop_last(), c, e);
    } else {
        assert(s.subrange(0, e) =~= s);
    }
}

/// What `str::trim_end_matches(c)` gives for a single character pattern.
pub fn strip_trailing(s: &str, c: char) -> (r: String)
    ensures
        r@ == strip_trailing_spec(s@, c),
{
    let v = chars_vec(s);
    let mut e: usize = v.len();
    while e > 0 && v[e - 1] == c
        invariant
            e <= v@.len(),
            forall|j: int| e <= j < v@.len() ==> #[trigger] v@[j] == c,
        decreases e,
    {
        e = e - 1;
    }
    proof {
        lemma_strip_trailing_skip(v@, c, e as int);
    }
    string_from_char_range(&v, 0, e)
}

/// Whether character `c` occurs in `s`.
pub fn contains_char(s: &str, c: char) -> (b: bool)
    ensures
        b == s@.contains(c),
{
    let v = chars_vec(s);
    let mut i: usize = 0;
    while i < v.len()
        invariant
            i <= v@.len(),
            v@ == s@,
            forall|j: int| 0 <= j < i ==> v@[j] != c,
        decreases v@.len() - i,
    {
        if v[i] == c {
            assert(s@[i as int] == c);
            return true;
        }
        i = i + 1;
    }
    false
}

/// `sub` occurs at position `i` of `s`.
pub open spec fn occurs_at(s: Seq<char>, sub: Seq<char>, i: int) -> bool {
    0 <= i && i + sub.len() <= s.len() && s.subrange(i, i + sub.len()) == sub
}

/// `sub` occurs somewhere in `s` (what `str::contains` tests for a string pattern).
pub open spec fn contains_seq(s: Seq<char>, sub: Seq<char>) -> bool {
    exists|i: int| occurs_at(s, sub, i)
}

pub fn matches_at(v: &Vec<char>, w: &Vec<char>, i: usize) -> (b: bool)
    requires
        i + w@.len() <= v@.len(),
    ensures
        b == (v@.subrange(i as int, i + w@.len()) == w@),
{
    let n = v.len();
    let mut k: usize = 0;
    while k < w.len()
        invariant
            n == v@.len(),
            i + w@.len() <= v@.len(),
            k <= w@.len(),
            forall|j: int| 0 <= j < k ==> v@[i + j] == w@[j],
        decreases w@.len() - k,
    {
        assert(i + k < n);
        if v[i + k] != w[k] {
            assert(v@.subrange(i as int, i + w@.len())[k as int] != w@[k as int]);
            return false;
        }
        k = k + 1;
    }
    assert(v@.subrange(i as int, i + w@.len()) =~= w@);
    true
}

/// Whether `sub` occurs in `s`.
pub fn contains_str(s: &str, sub: &str) -> (b: bool)
    ensures
        b == contains_seq(s@, sub@),
{
    let v = chars_vec(s);
    let w = chars_vec(sub);
    if w.len() > v.len() {
        assert forall|i: int| !occurs_at(s@, sub@, i) by {}
        return false;
    }
    if w.len() == 0 {
        assert(s@.subrange(0, 0) =~= sub@);
        assert(occurs_at(s@, sub@, 0));
        return true;
    }
    let n = v.len();
    let last = n - w.len();
    let mut i: usize = 0;
    while i <= last
        invariant
            n == v@.len(),
            w@.len() >= 1,
            last + w@.len() == v@.len(),
            v@ == s@,
            w@ == sub@,
            forall|j: int| 0 <= j < i ==> !occurs_at(s@, sub@, j),
        decreases last + 1 - i,
    {
        if matches_at(&v, &w, i) {
            assert(occurs_at(s@, sub@, i as int));
            return true;
        }
        i = i + 1;
    }
    assert forall|j: int| !occurs_at(s@, sub@, j) by {
        if 0 <= j && j + sub@.len() <= s@.len() {
            assert(j < i);
        }
    }
    false
}

/// Whether `s` starts with `p`.
pub fn starts_with(s: &str, p: &str) -> (b: bool)
    ensures
        b == (p@.len() <= s@.len() && s@.subrange(0, p@.len() as int) == p@),
{
    let v = chars_vec(s);
    let w = chars_vec(p);
    if w.len() > v.len() {
        return false;
    }
    matches_at(&v, &w, 0)
}

/// Whether `s` ends with `p`.
pub fn ends_with(s: &str, p: &str) -> (b: bool)
    ensures
        b == (p@.len() <= s@.len() && s@.subrange(s@.len() - p@.len(), s@.len() as int) == p@),
{
    let v = chars_vec(s);
    let w = chars_vec(p);
    if w.len() > v.len() {
        return false;
    }
    matches_at(&v, &w, v.len() - w.len())
}

/// Character-wise equality of two strings.
pub fn str_eq(a: &str, b: &str) -> (r: bool)
    ensures
        r == (a@ == b@),
{
    let v = chars_vec(a);
    let w = chars_vec(b);
    if v.len() != w.len() {
        return false;
    }
    let r = matches_at(&v, &w, 0);
    assert(v@.subrange(0, w@.len() as int) =~= v@);
    r
}

/// `a` followed by `b`.
pub fn concat2(a: &str, b: &str) -> (r: String)
    ensures
        r@ == a@ + b@,
{
    let mut r = String::from_str(a);
    r.append(b);
    r
}

/// `a`, `b`, `c` one after the other.
pub fn concat3(a: &str, b: &str, c: &str) -> (r: String)
    ensures
        r@ == a@ + b@ + c@,
{
    let mut r = String::from_str(a);
    r.append(b);
    r.append(c);
    r
}

} // verus!

verus! {

/// ASCII digit character for `d` (0..=9).
pub open spec fn digit_char(d: nat) -> char {
    ((d + 48) as u8) as char
}

/// Decimal representation of `n`, most significant digit first, no leading zeros.
pub open spec fn decimal_spec(n: nat) -> Seq<char>
    decreases n,
{
    if n < 10 {
        seq![digit_char(n)]
    } else {
        decimal_spec(n / 10).push(digit_char(n % 10))
    }
}

/// Decimal text of `n` (what `to_string` gives for an unsigned integer).
pub fn decimal_string(n: u64) -> (r: String)
    ensures
        r@ == decimal_spec(n as nat),
    decreases n,
{
    let d = (n % 10) as u8;
    let c = (d + 48u8) as char;
    if n < 10 {
        let mut r = String::new();
        push_char(&mut r, c);
        assert(r@ =~= decimal_spec(n as nat));
        r
    } else {
        let mut r = decimal_string(n / 10);
        push_char(&mut r, c);
        r
    }
}

} // verus!

verus! {

/// Position of the first occurrence of `c` in `s`.
pub open spec fn find_char_spec(s: Seq<char>, c: char) -> Option<nat>
    decreases s.len(),
{
    if s.len() == 0 {
        None
    } else if s[0] == c {
        Some(0)
    } else {
        match find_char_spec(s.drop_first(), c) {
            Some(k) => Some(k + 1),
            None => None,
        }
    }
}

proof fn lemma_find_char(s: Seq<char>, c: char, i: int)
    requires
        0 <= i <= s.len(),
        forall|j: int| 0 <= j < i ==> #[trigger] s[j] != c,
        i == s.len() || s[i] == c,
    ensures
        find_char_spec(s, c) == (if i < s.len() { Some(i as nat) } else { None::<nat> }),
    decreases i,
{
    if i > 0 {
        lemma_find_char(s.drop_first(), c, i - 1);
    }
}

/// Index of the first `c` in `v`.
pub fn find_char(v: &Vec<char>, c: char) -> (r: Option<usize>)
    ensures
        match r {
            Some(k) => find_char_spec(v@, c) == Some(k as nat) && k < v@.len(),
            None => find_char_spec(v@, c) is None,
        },
{
    let mut i: usize = 0;
    while i < v.len() && v[i] != c
        invariant
            i <= v@.len(),
            forall|j: int| 0 <= j < i ==> #[trigger] v@[j] != c,
        decreases v@.len() - i,
    {
        i = i + 1;
    }
    proof {
        lemma_find_char(v@, c, i as int);
    }
    if i < v.len() {
        Some(i)
    } else {
        None
    }
}

proof fn lemma_find_char_none_not_contains(s: Seq<char>, c: char)
    ensures
        find_char_spec(s, c) is None <==> !s.contains(c),
        find_char_spec(s, c) matches Some(k) ==> k < s.len() && s[k as int] == c,
    decreases s.len(),
{
    if s.len() > 0 {
        lemma_find_char_none_not_contains(s.drop_first(), c);
        if s[0] != c {
            if s.contains(c) {
                let j = choose|j: int| 0 <= j < s.len() && s[j] == c;
                assert(s.drop_first()[j - 1] == c);
            }
            if s.drop_first().contains(c) {
                let j = choose|j: int| 0 <= j < s.drop_first().len() && s.drop_first()[j] == c;
                assert(s[j + 1] == c);
            }
        } else {
            assert(s[0] == c);
        }
    }
}

/// `find_char_spec` agrees with `contains`.
pub proof fn lemma_find_char_contains(s: Seq<char>, c: char)
    ensures
        find_char_spec(s, c) is None <==> !s.contains(c),
        find_char_spec(s, c) matches Some(k) ==> k < s.len() && s[k as int] == c,
{
    lemma_find_char_none_not_contains(s, c);
}

/// The first `c` of `a + [c] + b`, where `a` has none, is at `a.len()`.
pub proof fn lemma_find_char_after(a: Seq<char>, c: char, b: Seq<char>)
    requires
        !a.contains(c),
    ensures
        find_char_spec(a + seq![c] + b, c) == Some(a.len()),
    decreases a.len(),
{
    let s = a + seq![c] + b;
    if a.len() == 0 {
        assert(s[0] == c);
    } else {
        assert(s[0] == a[0]);
        assert(a[0] != c) by {
            if a[0] == c {
                assert(a.contains(c));
            }
        }
        let d = a.drop_first();
        assert(!d.contains(c)) by {
            if d.contains(c) {
                let k = choose|k: int| 0 <= k < d.len() && d[k] == c;
                assert(a[k + 1] == c);
            }
        }
        lemma_find_char_after(d, c, b);
        assert(s.drop_first() =~= d + seq![c] + b);
    }
}

} // verus!
