//! Text helpers used to build the labels and messages shown to the user:
//! decimal and hexadecimal rendering, substring tests and the
//! lexicographic order of strings.

use vstd::prelude::*;
use vstd::utf8::{decode_utf8, valid_utf8};

verus! {

/// The ASCII digit for `d` (`0 <= d < 10`).
pub open spec fn digit_char(d: nat) -> char {
    (48 + d) as char
}

/// Upper-case hexadecimal digit for `d` (`0 <= d < 16`).
pub open spec fn hex_char(d: nat) -> char {
    if d < 10 {
        (48 + d) as char
    } else {
        (55 + d) as char
    }
}

/// Decimal rendering of `n`, without leading zeros (as `{}` prints it).
pub open spec fn spec_decimal(n: nat) -> Seq<char>
    decreases n,
{
    if n < 10 {
        seq![digit_char(n)]
    } else {
        spec_decimal(n / 10).push(digit_char(n % 10))
    }
}

/// Upper-case hexadecimal rendering of `n`, without leading zeros.
pub open spec fn spec_hex(n: nat) -> Seq<char>
    decreases n,
{
    if n < 16 {
        seq![hex_char(n)]
    } else {
        spec_hex(n / 16).push(hex_char(n % 16))
    }
}

/// `s` padded on the left with `'0'` up to `width` characters (as `{:0width$}`).
pub open spec fn zero_padded(s: Seq<char>, width: nat) -> Seq<char> {
    if s.len() >= width {
        s
    } else {
        Seq::new((width - s.len()) as nat, |i: int| '0') + s
    }
}

/// Upper-case hexadecimal rendering of `n` padded to `width` digits (as `{:0width$X}`).
pub open spec fn spec_hex_padded(n: nat, width: nat) -> Seq<char> {
    zero_padded(spec_hex(n), width)
}

/// The one-character string of the hexadecimal digit `d`.
pub fn digit_str(d: u64) -> (s: &'static str)
    requires
        d < 16,
    ensures
        s@ == seq![hex_char(d as nat)],
{
    match d {
        0 => { proof { reveal_strlit("0"); } "0" },
        1 => { proof { reveal_strlit("1"); } "1" },
        2 => { proof { reveal_strlit("2"); } "2" },
        3 => { proof { reveal_strlit("3"); } "3" },
        4 => { proof { reveal_strlit("4"); } "4" },
        5 => { proof { reveal_strlit("5"); } "5" },
        6 => { proof { reveal_strlit("6"); } "6" },
        7 => { proof { reveal_strlit("7"); } "7" },
        8 => { proof { reveal_strlit("8"); } "8" },
        9 => { proof { reveal_strlit("9"); } "9" },
        10 => { proof { reveal_strlit("A"); } "A" },
        11 => { proof { reveal_strlit("B"); } "B" },
        12 => { proof { reveal_strlit("C"); } "C" },
        13 => { proof { reveal_strlit("D"); } "D" },
        14 => { proof { reveal_strlit("E"); } "E" },
        _ => { proof { reveal_strlit("F"); } "F" },
    }
}

/// The one-character string of the upper-case letter `'A' + i`.
pub fn letter_str(i: u32) -> (s: &'static str)
    requires
        i < 26,
    ensures
        s@ == seq![(65 + i) as char],
{
    match i {
        0 => { proof { reveal_strlit("A"); } "A" },
        1 => { proof { reveal_strlit("B"); } "B" },
        2 => { proof { reveal_strlit("C"); } "C" },
        3 => { proof { reveal_strlit("D"); } "D" },
        4 => { proof { reveal_strlit("E"); } "E" },
        5 => { proof { reveal_strlit("F"); } "F" },
        6 => { proof { reveal_strlit("G"); } "G" },
        7 => { proof { reveal_strlit("H"); } "H" },
        8 => { proof { reveal_strlit("I"); } "I" },
        9 => { proof { reveal_strlit("J"); } "J" },
        10 => { proof { reveal_strlit("K"); } "K" },
        11 => { proof { reveal_strlit("L"); } "L" },
        12 => { proof { reveal_strlit("M"); } "M" },
        13 => { proof { reveal_strlit("N"); } "N" },
        14 => { proof { reveal_strlit("O"); } "O" },
        15 => { proof { reveal_strlit("P"); } "P" },
        16 => { proof { reveal_strlit("Q"); } "Q" },
        17 => { proof { reveal_strlit("R"); } "R" },
        18 => { proof { reveal_strlit("S"); } "S" },
        19 => { proof { reveal_strlit("T"); } "T" },
        20 => { proof { reveal_strlit("U"); } "U" },
        21 => { proof { reveal_strlit("V"); } "V" },
        22 => { proof { reveal_strlit("W"); } "W" },
        23 => { proof { reveal_strlit("X"); } "X" },
        24 => { proof { reveal_strlit("Y"); } "Y" },
        _ => { proof { reveal_strlit("Z"); } "Z" },
    }
}

/// Renders `n` in decimal.
pub fn decimal(n: u64) -> (s: String)
    ensures
        s@ == spec_decimal(n as nat),
    decreases n,
{
    if n < 10 {
        String::from_str(digit_str(n))
    } else {
        let mut s = decimal(n / 10);
        s.append(digit_str(n % 10));
        s
    }
}

/// Decimal rendering of a signed number (as `{}` prints it).
pub open spec fn spec_signed_decimal(n: int) -> Seq<char> {
    if n < 0 {
        seq!['-'] + spec_decimal((-n) as nat)
    } else {
        spec_decimal(n as nat)
    }
}

/// Renders the signed `n` in decimal.
pub fn signed_decimal(n: i32) -> (s: String)
    ensures
        s@ == spec_signed_decimal(n as int),
{
    if n < 0 {
        let m: u64 = (0 - (n as i64)) as u64;
        let mut s = String::from_str("-");
        proof {
            reveal_strlit("-");
        }
        let d = decimal(m);
        s.append(d.as_str());
        s
    } else {
        decimal(n as u64)
    }
}

/// Renders `n` in upper-case hexadecimal, without leading zeros.
pub fn hex(n: u64) -> (s: String)
    ensures
        s@ == spec_hex(n as nat),
    decreases n,
{
    if n < 16 {
        String::from_str(digit_str(n))
    } else {
        let mut s = hex(n / 16);
        s.append(digit_str(n % 16));
        s
    }
}

/// Renders `n` in upper-case hexadecimal with at least `width` digits.
pub fn hex_padded(n: u64, width: usize) -> (s: String)
    ensures
        s@ == spec_hex_padded(n as nat, width as nat),
{
    let digits = hex(n);
    let len = digits.as_str().unicode_len();
    if len >= width {
        return digits;
    }
    let mut out = String::new();
    let mut i: usize = len;
    while i < width
        invariant
            len <= i <= width,
            len == spec_hex(n as nat).len(),
            out@ == Seq::new((i - len) as nat, |k: int| '0'),
        decreases width - i,
    {
        proof { reveal_strlit("0"); }
        out.append("0");
        i = i + 1;
        assert(out@ =~= Seq::new((i - len) as nat, |k: int| '0'));
    }
    out.append(digits.as_str());
    out
}

/// Whether two strings hold the same characters.
pub fn str_eq(a: &str, b: &str) -> (same: bool)
    ensures
        same == (a@ == b@),
{
    let n = a.unicode_len();
    if n != b.unicode_len() {
        return false;
    }
    let mut i: usize = 0;
    while i < n
        invariant
            n == a@.len(),
            n == b@.len(),
            i <= n,
            forall|k: int| 0 <= k < i ==> a@[k] == b@[k],
        decreases n - i,
    {
        if a.get_char(i) != b.get_char(i) {
            return false;
        }
        i = i + 1;
    }
    assert(a@ =~= b@);
    true
}

/// The characters of `s`.
pub fn to_chars(s: &str) -> (v: Vec<char>)
    ensures
        v@ == s@,
{
    let n = s.unicode_len();
    let mut v: Vec<char> = Vec::new();
    let mut i: usize = 0;
    while i < n
        invariant
            n == s@.len(),
            i <= n,
            v@ == s@.take(i as int),
        decreases n - i,
    {
        v.push(s.get_char(i));
        i = i + 1;
        assert(v@ =~= s@.take(i as int));
    }
    assert(s@.take(n as int) =~= s@);
    v
}

/// What `str::to_lowercase` makes of a string: its Unicode lower-case
/// mapping.
pub uninterp spec fn spec_lowercase(s: Seq<char>) -> Seq<char>;

/// The ASCII lower-case of `c`: `A`..`Z` become `a`..`z`, anything else
/// is kept.
pub open spec fn ascii_lower(c: char) -> char {
    if 'A' <= c && c <= 'Z' {
        ((c as u32) + 32) as char
    } else {
        c
    }
}

/// All characters of `s` are ASCII.
pub open spec fn all_ascii(s: Seq<char>) -> bool {
    forall|i: int| 0 <= i < s.len() ==> (#[trigger] s[i] as u32) < 128
}

/// Lower-cases `s` with `str::to_lowercase`. Its result is named; of an
/// ASCII string it is the character-by-character ASCII lower-case (the
/// Unicode mapping agrees with it there).
#[verifier::external_body]
pub(crate) fn lowercase(s: &str) -> (l: String)
    ensures
        l@ == spec_lowercase(s@),
        all_ascii(s@) ==> l@ == s@.map_values(|c: char| ascii_lower(c)),
{
    s.to_lowercase()
}

/// `needle` occurs in `hay` at position `at`.
pub open spec fn occurs_at(hay: Seq<char>, needle: Seq<char>, at: int) -> bool {
    0 <= at && at + needle.len() <= hay.len() && hay.subrange(at, at + needle.len()) == needle
}

/// `needle` occurs somewhere in `hay` (as `str::contains` tests).
pub open spec fn seq_contains(hay: Seq<char>, needle: Seq<char>) -> bool {
    exists|at: int| occurs_at(hay, needle, at)
}

/// `hay` begins with `needle` (as `str::starts_with` tests).
pub open spec fn seq_starts_with(hay: Seq<char>, needle: Seq<char>) -> bool {
    occurs_at(hay, needle, 0)
}

/// Whether `needle` occurs in `hay` at position `at`.
pub fn occurs_at_exec(hay: &Vec<char>, needle: &Vec<char>, at: usize) -> (b: bool)
    ensures
        b == occurs_at(hay@, needle@, at as int),
{
    let hl = hay.len();
    if at > hl || needle.len() > hl - at {
        return false;
    }
    let mut i: usize = 0;
    while i < needle.len()
        invariant
            hl == hay@.len(),
            at + needle@.len() <= hl,
            i <= needle@.len(),
            forall|k: int| 0 <= k < i ==> hay@[at + k] == needle@[k],
        decreases needle.len() - i,
    {
        let idx = at + i;
        if hay[idx] != needle[i] {
            assert(hay@.subrange(at as int, at + needle@.len())[i as int] != needle@[i as int]);
            return false;
        }
        i = i + 1;
    }
    assert(hay@.subrange(at as int, at + needle@.len()) =~= needle@);
    true
}

/// Whether `needle` occurs in `hay`.
pub fn contains_chars(hay: &Vec<char>, needle: &Vec<char>) -> (b: bool)
    ensures
        b == seq_contains(hay@, needle@),
{
    if needle.len() > hay.len() {
        assert(forall|at: int| !occurs_at(hay@, needle@, at));
        return false;
    }
    let last = hay.len() - needle.len();
    let mut at: usize = 0;
    loop
        invariant
            last == hay@.len() - needle@.len(),
            at <= last,
            forall|k: int| 0 <= k < at ==> !occurs_at(hay@, needle@, k),
        ensures
            forall|k: int| 0 <= k <= last ==> !occurs_at(hay@, needle@, k),
        decreases last - at,
    {
        if occurs_at_exec(hay, needle, at) {
            return true;
        }
        if at == last {
            break;
        }
        at = at + 1;
    }
    assert forall|k: int| !occurs_at(hay@, needle@, k) by {
        if 0 <= k <= last {
        }
    }
    false
}

/// Whether `hay` begins with `needle`.
pub fn starts_with_chars(hay: &Vec<char>, needle: &Vec<char>) -> (b: bool)
    ensures
        b == seq_starts_with(hay@, needle@),
{
    occurs_at_exec(hay, needle, 0)
}

/// Decodes UTF-8 bytes with `String::from_utf8`: `None` when they are not
/// valid UTF-8.
#[verifier::external_body]
pub(crate) fn utf8_decode(bytes: Vec<u8>) -> (s: Option<String>)
    ensures
        s is Some <==> valid_utf8(bytes@),
        s matches Some(t) ==> t@ == decode_utf8(bytes@),
{
    String::from_utf8(bytes).ok()
}

/// What `String::from_utf8_lossy` makes of bytes: their decoding, with
/// each invalid sequence replaced by U+FFFD.
pub uninterp spec fn spec_utf8_lossy(bytes: Seq<u8>) -> Seq<char>;

/// Decodes bytes with `String::from_utf8_lossy`. Of valid UTF-8 it gives
/// the plain decoding; how invalid sequences are replaced is left unsaid.
#[verifier::external_body]
pub(crate) fn utf8_lossy(bytes: &[u8]) -> (s: String)
    ensures
        s@ == spec_utf8_lossy(bytes@),
        valid_utf8(bytes@) ==> s@ == decode_utf8(bytes@),
{
    String::from_utf8_lossy(bytes).into_owned()
}

/// Characters with the Unicode `White_Space` property (what
/// `char::is_whitespace` tests).
pub open spec fn spec_is_whitespace(c: char) -> bool {
    let v = c as u32;
    (0x09 <= v <= 0x0D) || v == 0x20 || v == 0x85 || v == 0xA0 || v == 0x1680 || (0x2000 <= v
        <= 0x200A) || v == 0x2028 || v == 0x2029 || v == 0x202F || v == 0x205F || v == 0x3000
}

/// Whether `c` is white space.
pub fn is_whitespace(c: char) -> (b: bool)
    ensures
        b == spec_is_whitespace(c),
{
    let v = c as u32;
    (0x09 <= v && v <= 0x0D) || v == 0x20 || v == 0x85 || v == 0xA0 || v == 0x1680 || (0x2000
        <= v && v <= 0x200A) || v == 0x2028 || v == 0x2029 || v == 0x202F || v == 0x205F || v
        == 0x3000
}

/// `s` is empty once trimmed: all its characters are white space.
pub open spec fn spec_is_blank(s: Seq<char>) -> bool {
    forall|i: int| 0 <= i < s.len() ==> spec_is_whitespace(#[trigger] s[i])
}

/// Whether `s` is empty once trimmed.
pub fn is_blank(s: &str) -> (b: bool)
    ensures
        b == spec_is_blank(s@),
{
    let n = s.unicode_len();
    let mut i: usize = 0;
    while i < n
        invariant
            n == s@.len(),
            i <= n,
            forall|k: int| 0 <= k < i ==> spec_is_whitespace(#[trigger] s@[k]),
        decreases n - i,
    {
        if !is_whitespace(s.get_char(i)) {
            return false;
        }
        i = i + 1;
    }
    true
}

/// What `String::from_utf16_lossy` makes of UTF-16 code units: their
/// decoding, with each unpaired surrogate replaced by U+FFFD.
pub uninterp spec fn spec_utf16_lossy(units: Seq<u16>) -> Seq<char>;

/// No unit is a surrogate (`0xD800..=0xDFFF`).
pub open spec fn no_surrogates(units: Seq<u16>) -> bool {
    forall|i: int| 0 <= i < units.len() ==> !(0xD800 <= #[trigger] units[i] && units[i] <= 0xDFFF)
}

/// Decodes UTF-16 code units with `String::from_utf16_lossy`. Its result
/// is named; units without surrogates decode one character each.
#[verifier::external_body]
pub(crate) fn utf16_lossy(units: &[u16]) -> (s: String)
    ensures
        s@ == spec_utf16_lossy(units@),
        no_surrogates(units@) ==> s@ == units@.map_values(|u: u16| u as char),
{
    String::from_utf16_lossy(units)
}

/// `s` without its trailing NUL characters (as `trim_end_matches('\0')`).
pub open spec fn spec_trim_nuls(s: Seq<char>) -> Seq<char>
    decreases s.len(),
{
    if s.len() > 0 && s.last() == '\0' {
        spec_trim_nuls(s.drop_last())
    } else {
        s
    }
}

/// `s` without its trailing NUL characters.
pub fn trim_nuls(s: &str) -> (t: String)
    ensures
        t@ == spec_trim_nuls(s@),
{
    let n = s.unicode_len();
    let mut end: usize = n;
    assert(s@.take(n as int) =~= s@);
    while end > 0 && s.get_char(end - 1) == '\0'
        invariant
            n == s@.len(),
            end <= n,
            spec_trim_nuls(s@) == spec_trim_nuls(s@.take(end as int)),
        decreases end,
    {
        assert(s@.take(end as int).drop_last() =~= s@.take(end - 1));
        assert(s@.take(end as int).last() == s@[end - 1]);
        end = end - 1;
    }
    assert(end > 0 ==> s@.take(end as int).last() == s@[end - 1]);
    String::from_str(s.substring_char(0, end))
}

/// `s` without its leading and trailing white space (as `str::trim`).
pub open spec fn spec_trim(s: Seq<char>) -> Seq<char>
    decreases s.len(),
{
    if s.len() > 0 && spec_is_whitespace(s[0]) {
        spec_trim(s.drop_first())
    } else if s.len() > 0 && spec_is_whitespace(s.last()) {
        spec_trim(s.drop_last())
    } else {
        s
    }
}

proof fn lemma_trim_end(s: Seq<char>)
    requires
        s.len() > 0 ==> !spec_is_whitespace(s[0]),
    ensures
        s.len() > 0 && spec_is_whitespace(s.last()) ==> spec_trim(s) == spec_trim(s.drop_last()),
{
}

/// `s` without its leading and trailing white space.
pub fn trim(s: &str) -> (t: String)
    ensures
        t@ == spec_trim(s@),
{
    let n = s.unicode_len();
    let mut start: usize = 0;
    assert(s@.skip(0) =~= s@);
    while start < n && is_whitespace(s.get_char(start))
        invariant
            n == s@.len(),
            start <= n,
            spec_trim(s@) == spec_trim(s@.skip(start as int)),
        decreases n - start,
    {
        assert(s@.skip(start as int).drop_first() =~= s@.skip(start + 1));
        start = start + 1;
    }
    let mut end: usize = n;
    assert(s@.subrange(start as int, n as int) =~= s@.skip(start as int));
    while end > start && is_whitespace(s.get_char(end - 1))
        invariant
            n == s@.len(),
            start <= end <= n,
            start < n ==> !spec_is_whitespace(s@[start as int]),
            spec_trim(s@) == spec_trim(s@.subrange(start as int, end as int)),
        decreases end,
    {
        let ghost cur = s@.subrange(start as int, end as int);
        assert(cur[0] == s@[start as int]);
        assert(cur.last() == s@[end - 1]);
        proof {
            lemma_trim_end(cur);
        }
        assert(cur.drop_last() =~= s@.subrange(start as int, end - 1));
        end = end - 1;
    }
    let ghost fin = s@.subrange(start as int, end as int);
    assert(fin.len() > 0 ==> fin[0] == s@[start as int]);
    assert(fin.len() > 0 ==> fin.last() == s@[end - 1]);
    String::from_str(s.substring_char(start, end))
}

/// The order of `String`s: lexicographic by character (UTF-8 byte order
/// and code-point order agree).
pub open spec fn chars_lt(a: Seq<char>, b: Seq<char>) -> bool
    decreases a.len(),
{
    if a.len() == 0 {
        b.len() > 0
    } else if b.len() == 0 {
        false
    } else if a[0] == b[0] {
        chars_lt(a.drop_first(), b.drop_first())
    } else {
        (a[0] as int) < (b[0] as int)
    }
}

/// Whether `a` comes before `b` in the order of strings.
pub fn chars_less(a: &Vec<char>, b: &Vec<char>) -> (lt: bool)
    ensures
        lt == chars_lt(a@, b@),
{
    let mut i: usize = 0;
    assert(a@.skip(0) =~= a@);
    assert(b@.skip(0) =~= b@);
    while i < a.len() && i < b.len()
        invariant
            i <= a@.len(),
            i <= b@.len(),
            a@.take(i as int) == b@.take(i as int),
            chars_lt(a@, b@) == chars_lt(a@.skip(i as int), b@.skip(i as int)),
        decreases a.len() - i,
    {
        let ghost sa = a@.skip(i as int);
        let ghost sb = b@.skip(i as int);
        assert(sa[0] == a@[i as int]);
        assert(sb[0] == b@[i as int]);
        if a[i] != b[i] {
            return a[i] < b[i];
        }
        assert(sa.drop_first() =~= a@.skip(i + 1));
        assert(sb.drop_first() =~= b@.skip(i + 1));
        assert(a@.take(i + 1) =~= a@.take(i as int).push(a@[i as int]));
        assert(b@.take(i + 1) =~= b@.take(i as int).push(b@[i as int]));
        i = i + 1;
    }
    i < b.len()
}

} // verus!
