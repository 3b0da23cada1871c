//! Character-level helpers shared by the domain modules: conversions between
//! strings and character vectors, decimal rendering, and substring tests.
use vstd::prelude::*;
use vstd::utf8::{decode_utf8, valid_utf8};

verus! {

/// Appends one character to a string (`String::push`).
/// Trusted: the new contents are the old contents followed by `c`.
#[verifier::external_body]
pub fn push_char(s: &mut String, c: char)
    ensures
        final(s)@ == old(s)@.push(c),
{
    s.push(c);
}

/// `String::from_utf8` on a copy of the bytes, the error given by its text.
/// Trusted: std documents that the conversion succeeds exactly on valid UTF-8
/// and then holds the characters the bytes encode (vstd's `valid_utf8` and
/// `decode_utf8`); the error's text is not stated.
#[verifier::external_body]
pub(crate) fn utf8_to_string(bytes: &Vec<u8>) -> (r: Result<String, String>)
    ensures
        r is Ok <==> valid_utf8(bytes@),
        r matches Ok(s) ==> s@ == decode_utf8(bytes@),
{
    String::from_utf8(bytes.clone()).map_err(|e| e.to_string())
}

/// What `str::to_lowercase` returns for a string, by its characters.
pub uninterp spec fn unicode_lowercase(s: Seq<char>) -> Seq<char>;

/// Every character is ASCII.
pub open spec fn is_ascii_text(s: Seq<char>) -> bool {
    forall|i: int| 0 <= i < s.len() ==> (#[trigger] s[i] as u32) < 128
}

/// An ASCII capital letter turned to small; any other character unchanged.
pub open spec fn ascii_lower_char(c: char) -> char {
    if 'A' <= c && c <= 'Z' {
        ((c as u32) + 32) as char
    } else {
        c
    }
}

/// The ASCII lowercase of a text, character by character.
pub open spec fn ascii_lower(s: Seq<char>) -> Seq<char> {
    s.map_values(|c: char| ascii_lower_char(c))
}

/// Lower-cases a string with `str::to_lowercase`.
/// Trusted: the result is the Unicode lowercase mapping of the argument's
/// characters, a function of the argument alone. Of an all-ASCII argument it
/// is also stated that the mapping turns `A`..`Z` into `a`..`z` and keeps every
/// other character, as the Unicode lowercase mapping does for ASCII; nothing
/// more is stated of other arguments.
#[verifier::external_body]
pub fn to_lowercase(s: &str) -> (r: String)
    ensures
        r@ == unicode_lowercase(s@),
        is_ascii_text(s@) ==> r@ == ascii_lower(s@),
{
    s.to_lowercase()
}

/// The characters of a string, in order.
pub fn chars_of(s: &str) -> (v: Vec<char>)
    ensures
        v@ == s@,
{
    let mut v: Vec<char> = Vec::new();
    for c in it: s.chars()
        invariant
            v@ == it.seq().take(it.index() as int),
            it.seq() == s@,
    {
        v.push(c);
    }
    v
}

/// A string holding the given characters.
pub fn string_of_chars(v: &Vec<char>) -> (s: String)
    ensures
        s@ == v@,
{
    let mut s = String::new();
    let mut i: usize = 0;
    while i < v.len()
        invariant
            i <= v.len(),
            s@ == v@.take(i as int),
        decreases v.len() - i,
    {
        push_char(&mut s, v[i]);
        assert(v@.take(i as int).push(v@[i as int]) =~= v@.take(i + 1));
        i = i + 1;
    }
    assert(v@.take(v.len() as int) =~= v@);
    s
}

/// The decimal digit character for a value below ten.
pub open spec fn digit_char(d: nat) -> char {
    if d == 0 { '0' } else if d == 1 { '1' } else if d == 2 { '2' } else if d == 3 { '3' }
    else if d == 4 { '4' } else if d == 5 { '5' } else if d == 6 { '6' } else if d == 7 { '7' }
    else if d == 8 { '8' } else { '9' }
}

/// The decimal rendering of a natural number, without sign or leading zeros.
pub open spec fn decimal(n: nat) -> Seq<char>
    decreases n,
{
    if n < 10 {
        seq![digit_char(n)]
    } else {
        decimal(n / 10).push(digit_char(n % 10))
    }
}

fn digit_to_char(d: u64) -> (c: char)
    requires
        d < 10,
    ensures
        c == digit_char(d as nat),
{
    if d == 0 { '0' } else if d == 1 { '1' } else if d == 2 { '2' } else if d == 3 { '3' }
    else if d == 4 { '4' } else if d == 5 { '5' } else if d == 6 { '6' } else if d == 7 { '7' }
    else if d == 8 { '8' } else { '9' }
}

/// Characters of the decimal rendering of `n`.
pub fn decimal_chars(n: u64) -> (v: Vec<char>)
    ensures
        v@ == decimal(n as nat),
    decreases n,
{
    if n < 10 {
        let mut v: Vec<char> = Vec::new();
        v.push(digit_to_char(n));
        v
    } else {
        let mut v = decimal_chars(n / 10);
        v.push(digit_to_char(n % 10));
        v
    }
}

/// The decimal rendering of `n` as a string (what `n.to_string()` gives).
pub fn u64_to_string(n: u64) -> (s: String)
    ensures
        s@ == decimal(n as nat),
{
    let v = decimal_chars(n);
    string_of_chars(&v)
}

/// `a` begins with `prefix`.
pub open spec fn seq_starts_with(a: Seq<char>, prefix: Seq<char>) -> bool {
    prefix.len() <= a.len() && a.subrange(0, prefix.len() as int) == prefix
}

/// `a` ends with `suffix`.
pub open spec fn seq_ends_with(a: Seq<char>, suffix: Seq<char>) -> bool {
    suffix.len() <= a.len() && a.subrange(a.len() - suffix.len(), a.len() as int) == suffix
}

/// `needle` occurs in `hay` at position `i`.
pub open spec fn occurs_at(hay: Seq<char>, needle: Seq<char>, i: int) -> bool {
    0 <= i && i + needle.len() <= hay.len() && hay.subrange(i, i + needle.len()) == needle
}

/// `needle` occurs somewhere in `hay` (the empty sequence occurs everywhere).
pub open spec fn seq_contains(hay: Seq<char>, needle: Seq<char>) -> bool {
    exists|i: int| occurs_at(hay, needle, i)
}

/// `a` and `b` agree from position `start` of `a` for the length of `b`.
pub fn matches_at(a: &Vec<char>, b: &Vec<char>, start: usize) -> (r: bool)
    requires
        start + b.len() <= a.len(),
    ensures
        r == (a@.subrange(start as int, start + b.len()) == b@),
{
    let mut j: usize = 0;
    while j < b.len()
        invariant
            j <= b.len(),
            start + b.len() <= a.len(),
            forall|k: int| 0 <= k < j ==> a@[start + k] == b@[k],
        decreases b.len() - j,
    {
        if a[start + j] != b[j] {
            assert(a@.subrange(start as int, start + b.len())[j as int] != b@[j as int]);
            return false;
        }
        j = j + 1;
    }
    assert(a@.subrange(start as int, start + b.len()) =~= b@);
    true
}

/// Whether `a` begins with `prefix`.
pub fn vec_starts_with(a: &Vec<char>, prefix: &Vec<char>) -> (r: bool)
    ensures
        r == seq_starts_with(a@, prefix@),
{
    if prefix.len() > a.len() {
        false
    } else {
        matches_at(a, prefix, 0)
    }
}

/// Whether `a` ends with `suffix`.
pub fn vec_ends_with(a: &Vec<char>, suffix: &Vec<char>) -> (r: bool)
    ensures
        r == seq_ends_with(a@, suffix@),
{
    if suffix.len() > a.len() {
        false
    } else {
        matches_at(a, suffix, a.len() - suffix.len())
    }
}

/// Whether `needle` occurs in `hay`.
pub fn vec_contains(hay: &Vec<char>, needle: &Vec<char>) -> (r: bool)
    ensures
        r == seq_contains(hay@, needle@),
{
    if needle.len() > hay.len() {
        assert forall|i: int| !occurs_at(hay@, needle@, i) by {}
        return false;
    }
    let last = hay.len() - needle.len();
    let mut i: usize = 0;
    while i < last
        invariant
            last + needle.len() == hay.len(),
            i <= last,
            forall|k: int| 0 <= k < i ==> !occurs_at(hay@, needle@, k),
        decreases last - i,
    {
        if matches_at(hay, needle, i) {
            assert(occurs_at(hay@, needle@, i as int));
            return true;
        }
        i = i + 1;
    }
    if matches_at(hay, needle, last) {
        assert(occurs_at(hay@, needle@, last as int));
        return true;
    }
    assert forall|k: int| !occurs_at(hay@, needle@, k) by {
        if 0 <= k && k + needle@.len() <= hay@.len() {
            assert(k <= last);
        }
    }
    false
}

/// Whether two character vectors are equal.
pub fn vec_eq(a: &Vec<char>, b: &Vec<char>) -> (r: bool)
    ensures
        r == (a@ == b@),
{
    if a.len() != b.len() {
        return false;
    }
    let r = matches_at(a, b, 0);
    assert(a@.subrange(0, b.len() as int) =~= a@);
    r
}

/// Whether two strings have the same characters.
pub fn str_eq(a: &str, b: &str) -> (r: bool)
    ensures
        r == (a@ == b@),
{
    let va = chars_of(a);
    let vb = chars_of(b);
    vec_eq(&va, &vb)
}

/// Position of the first `c` in `s`, or the length of `s` when there is none.
pub open spec fn find_char(s: Seq<char>, c: char) -> int
    decreases s.len(),
{
    if s.len() == 0 {
        0
    } else if s[0] == c {
        0
    } else {
        1 + find_char(s.drop_first(), c)
    }
}

/// `find_char` is the first position of `c`, or the length when `c` is absent.
pub proof fn lemma_find_char(s: Seq<char>, c: char)
    ensures
        0 <= find_char(s, c) <= s.len(),
        forall|j: int| 0 <= j < find_char(s, c) ==> s[j] != c,
        find_char(s, c) < s.len() ==> s[find_char(s, c)] == c,
    decreases s.len(),
{
    if s.len() > 0 && s[0] != c {
        lemma_find_char(s.drop_first(), c);
        assert forall|j: int| 0 <= j < find_char(s, c) implies s[j] != c by {
            if j > 0 {
                assert(s[j] == s.drop_first()[j - 1]);
            }
        }
    }
}

/// Characterises `find_char` by the first position of `c`.
pub proof fn lemma_find_char_is(s: Seq<char>, c: char, i: int)
    requires
        0 <= i <= s.len(),
        forall|j: int| 0 <= j < i ==> s[j] != c,
        i < s.len() ==> s[i] == c,
    ensures
        find_char(s, c) == i,
{
    lemma_find_char(s, c);
    let f = find_char(s, c);
    if f < i {
        assert(s[f] == c);
    } else if f > i {
        assert(s[i] != c);
    }
}

/// The position of the first `c` in `v`, or its length.
pub fn vec_find_char(v: &Vec<char>, c: char) -> (r: usize)
    ensures
        r == find_char(v@, c),
{
    let mut i: usize = 0;
    while i < v.len()
        invariant
            i <= v@.len(),
            forall|j: int| 0 <= j < i ==> v@[j] != c,
        decreases v.len() - i,
    {
        if v[i] == c {
            proof { lemma_find_char_is(v@, c, i as int); }
            return i;
        }
        i = i + 1;
    }
    proof { lemma_find_char_is(v@, c, i as int); }
    i
}

/// The characters of `v` from `start` to `end`.
pub fn vec_slice(v: &Vec<char>, start: usize, end: usize) -> (r: Vec<char>)
    requires
        start <= end <= v@.len(),
    ensures
        r@ == v@.subrange(start as int, end as int),
{
    let mut r: Vec<char> = Vec::new();
    let mut i = start;
    while i < end
        invariant
            start <= i <= end <= v@.len(),
            r@ == v@.subrange(start as int, i as int),
        decreases end - i,
    {
        r.push(v[i]);
        assert(v@.subrange(start as int, i + 1) =~= v@.subrange(start as int, i as int).push(v@[i as int]));
        i = i + 1;
    }
    r
}

/// Whether `c` is an ASCII decimal digit.
pub open spec fn is_digit(c: char) -> bool {
    '0' <= c <= '9'
}

/// The value of a string of decimal digits.
pub open spec fn digits_value(s: Seq<char>) -> nat
    decreases s.len(),
{
    if s.len() == 0 {
        0
    } else {
        digits_value(s.drop_last()) * 10 + ((s.last() as int - '0' as int) as nat)
    }
}

/// The characters after an optional leading `+`.
pub open spec fn unsigned_part(s: Seq<char>) -> Seq<char> {
    if s.len() > 0 && s[0] == '+' { s.drop_first() } else { s }
}

/// Every character is a decimal digit.
pub open spec fn all_digits(d: Seq<char>) -> bool {
    forall|i: int| 0 <= i < d.len() ==> is_digit(#[trigger] d[i])
}

/// What `str::parse::<u16>` accepts: an optional `+`, then one or more decimal
/// digits whose value is at most 65535.
pub open spec fn parse_u16_spec(s: Seq<char>) -> Option<u16> {
    let d = unsigned_part(s);
    if d.len() > 0 && all_digits(d) && digits_value(d) <= 65535 {
        Some(digits_value(d) as u16)
    } else {
        None
    }
}

/// Adding a digit never lowers the value.
proof fn lemma_digits_value_grows(s: Seq<char>, i: int)
    requires
        0 <= i <= s.len(),
        forall|k: int| 0 <= k < s.len() ==> is_digit(#[trigger] s[k]),
    ensures
        digits_value(s.take(i)) <= digits_value(s),
    decreases s.len() - i,
{
    if i < s.len() {
        lemma_digits_value_grows(s, i + 1);
        assert(s.take(i + 1).drop_last() =~= s.take(i));
    } else {
        assert(s.take(i) =~= s);
    }
}

/// Parses decimal characters as a `u16`, as `str::parse::<u16>` does.
pub fn parse_u16_chars(s: &Vec<char>) -> (r: Option<u16>)
    ensures
        r == parse_u16_spec(s@),
{
    let start: usize = if s.len() > 0 && s[0] == '+' { 1 } else { 0 };
    let ghost d = unsigned_part(s@);
    assert(d =~= s@.subrange(start as int, s@.len() as int));
    if start >= s.len() {
        return None;
    }
    if exists_non_digit(s, start) {
        proof {
            let k = choose|k: int| start <= k < s@.len() && !is_digit(#[trigger] s@[k]);
            assert(!is_digit(d[k - start]));
            assert(parse_u16_spec(s@) is None);
        }
        return None;
    }
    assert forall|k: int| 0 <= k < d.len() implies is_digit(#[trigger] d[k]) by {
        assert(d[k] == s@[k + start]);
    }
    let mut value: u32 = 0;
    let mut i = start;
    while i < s.len()
        invariant
            start <= i <= s@.len(),
            d =~= s@.subrange(start as int, s@.len() as int),
            d == unsigned_part(s@),
            forall|k: int| 0 <= k < d.len() ==> is_digit(#[trigger] d[k]),
            value == digits_value(d.take(i - start)),
            value <= 65535,
        decreases s.len() - i,
    {
        let c = s[i];
        assert(is_digit(d[i - start]));
        let digit: u32 = (c as u32) - ('0' as u32);
        assert(d.take(i - start + 1).drop_last() =~= d.take(i - start));
        assert(d.take(i - start + 1).last() == c);
        let next = value * 10 + digit;
        if next > 65535 {
            proof {
                lemma_digits_value_grows(d, i - start + 1);
                assert(digits_value(d.take(i - start + 1)) == next);
                assert(digits_value(d) > 65535);
                assert(parse_u16_spec(s@) is None);
            }
            return None;
        }
        value = next;
        i = i + 1;
    }
    assert(d.take(i - start) =~= d);
    Some(value as u16)
}

/// Whether some character of `s` from `from` on is not a digit.
fn exists_non_digit(s: &Vec<char>, from: usize) -> (r: bool)
    requires
        from <= s@.len(),
    ensures
        r == exists|k: int| from <= k < s@.len() && !is_digit(#[trigger] s@[k]),
{
    let mut i = from;
    while i < s.len()
        invariant
            from <= i <= s@.len(),
            forall|k: int| from <= k < i ==> is_digit(#[trigger] s@[k]),
        decreases s.len() - i,
    {
        let c = s[i];
        if !('0' <= c && c <= '9') {
            return true;
        }
        i = i + 1;
    }
    false
}

/// Whether `needle` occurs in `hay` (what `str::contains` answers for a string pattern).
pub fn str_contains(hay: &str, needle: &str) -> (r: bool)
    ensures
        r == seq_contains(hay@, needle@),
{
    let h = chars_of(hay);
    let n = chars_of(needle);
    vec_contains(&h, &n)
}

/// Whether `s` holds the character `c`.
pub fn vec_has_char(v: &Vec<char>, c: char) -> (r: bool)
    ensures
        r == v@.contains(c),
{
    let mut i: usize = 0;
    while i < v.len()
        invariant
            i <= v.len(),
            forall|k: int| 0 <= k < i ==> v@[k] != c,
        decreases v.len() - i,
    {
        if v[i] == c {
            return true;
        }
        i = i + 1;
    }
    false
}

/// Three pieces of text joined into one string.
pub fn join3(a: &str, b: &str, c: &str) -> (r: String)
    ensures
        r@ == a@ + b@ + c@,
{
    let mut s = String::from_str(a);
    s.append(b);
    s.append(c);
    s
}

/// The decimal rendering of an integer, with a leading `-` when negative.
pub open spec fn signed_decimal(n: int) -> Seq<char> {
    if n < 0 { "-"@ + decimal((-n) as nat) } else { decimal(n as nat) }
}

/// The decimal rendering of `n` as a string (what `n.to_string()` gives).
pub fn i64_to_string(n: i64) -> (s: String)
    ensures
        s@ == signed_decimal(n as int),
{
    if n < 0 {
        let m: u64 = (-(n as i128)) as u64;
        let mut s = String::from_str("-");
        let d = u64_to_string(m);
        s.append(d.as_str());
        s
    } else {
        u64_to_string(n as u64)
    }
}

/// `name` appended to the path `base` as a path component: a `/` separates
/// them unless `base` is empty or already ends with one.
pub open spec fn path_join(base: Seq<char>, name: Seq<char>) -> Seq<char> {
    if base.len() == 0 || base.last() == '/' { base + name } else { base + "/"@ + name }
}

/// The path `base` joined with a relative `name`.
pub fn join_path(base: &str, name: &str) -> (r: String)
    ensures
        r@ == path_join(base@, name@),
{
    let b = chars_of(base);
    let mut s = String::from_str(base);
    if b.len() > 0 && b[b.len() - 1] == '/' {
        s.append(name);
    } else if b.len() == 0 {
        s.append(name);
    } else {
        s.append("/");
        s.append(name);
    }
    s
}

/// The decimal rendering of a number is a non-empty run of digits that
/// reads back as the number.
pub proof fn lemma_decimal_digits(n: nat)
    ensures
        decimal(n).len() > 0,
        all_digits(decimal(n)),
        digits_value(decimal(n)) == n,
    decreases n,
{
    if n < 10 {
        assert(digits_value(decimal(n)) == digits_value(decimal(n).drop_last()) * 10 + ((decimal(n).last() as int - '0' as int) as nat));
        assert(decimal(n).drop_last() =~= Seq::<char>::empty());
    } else {
        lemma_decimal_digits(n / 10);
        let d = decimal(n);
        assert(d.drop_last() =~= decimal(n / 10));
        assert forall|i: int| 0 <= i < d.len() implies is_digit(#[trigger] d[i]) by {
            if i < d.len() - 1 {
                assert(d[i] == decimal(n / 10)[i]);
            }
        }
    }
}



/// ASCII lower-casing keeps text ASCII and, done twice, does no more than
/// done once.
pub proof fn lemma_ascii_lower_idempotent(s: Seq<char>)
    ensures
        ascii_lower(ascii_lower(s)) == ascii_lower(s),
        is_ascii_text(s) ==> is_ascii_text(ascii_lower(s)),
{
    assert(ascii_lower(ascii_lower(s)) =~= ascii_lower(s));
    if is_ascii_text(s) {
        assert forall|i: int| 0 <= i < ascii_lower(s).len() implies (#[trigger] ascii_lower(s)[i] as u32) < 128 by {
            assert((s[i] as u32) < 128);
        }
    }
}

} // verus!
