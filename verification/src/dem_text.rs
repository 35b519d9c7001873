//! The textual sidecars of an elevation raster: world files, SRTM-style
//! file names, and WKT projection text.  Everything here works on bytes
//! and exact integers; turning a numeric token into a floating-point
//! value is the caller's business.

use vstd::prelude::*;

verus! {

/// ASCII upper-casing of one byte.
pub open spec fn spec_upper(b: u8) -> u8 {
    if 97 <= b <= 122 {
        (b - 32) as u8
    } else {
        b
    }
}

/// ASCII upper-casing of a byte sequence.
pub open spec fn spec_upper_seq(s: Seq<u8>) -> Seq<u8> {
    Seq::new(s.len(), |i: int| spec_upper(s[i]))
}

/// Whether `needle` occurs in `hay` starting at `i`.
pub open spec fn matches_at(hay: Seq<u8>, needle: Seq<u8>, i: int) -> bool {
    &&& 0 <= i
    &&& i + needle.len() <= hay.len()
    &&& hay.subrange(i, i + needle.len()) == needle
}

/// The first position at or after `from` where `needle` occurs, or the
/// length of `hay` when it never does.
pub open spec fn spec_find(hay: Seq<u8>, needle: Seq<u8>, from: int) -> int
    decreases hay.len() - from,
{
    if from + needle.len() > hay.len() {
        hay.len() as int
    } else if matches_at(hay, needle, from) {
        from
    } else if from >= hay.len() {
        hay.len() as int
    } else {
        spec_find(hay, needle, from + 1)
    }
}

/// Whether the byte is an ASCII decimal digit.
pub open spec fn is_digit(b: u8) -> bool {
    48 <= b <= 57
}

/// The first position at or after `i` holding a digit, or the length.
pub open spec fn spec_first_digit(s: Seq<u8>, i: int) -> int
    decreases s.len() - i,
{
    if i < 0 || i >= s.len() {
        s.len() as int
    } else if is_digit(s[i]) {
        i
    } else {
        spec_first_digit(s, i + 1)
    }
}

/// The first position at or after `i` holding a non-digit, or the length.
pub open spec fn spec_digit_run_end(s: Seq<u8>, i: int) -> int
    decreases s.len() - i,
{
    if i < 0 || i >= s.len() {
        s.len() as int
    } else if !is_digit(s[i]) {
        i
    } else {
        spec_digit_run_end(s, i + 1)
    }
}

/// The numeric value of the digits at positions `i` up to `j`.
pub open spec fn spec_digits_value(s: Seq<u8>, i: int, j: int) -> int
    decreases j - i,
{
    if j <= i {
        0
    } else {
        spec_digits_value(s, i, j - 1) * 10 + (s[j - 1] - 48)
    }
}

fn upper_byte(b: u8) -> (r: u8)
    ensures
        r == spec_upper(b),
{
    if 97 <= b && b <= 122 {
        b - 32
    } else {
        b
    }
}

/// ASCII upper-casing of a whole buffer.
pub fn to_upper(s: &[u8]) -> (r: Vec<u8>)
    ensures
        r@ == spec_upper_seq(s@),
{
    let mut out: Vec<u8> = Vec::new();
    let mut i: usize = 0;
    while i < s.len()
        invariant
            i <= s@.len(),
            out@.len() == i,
            forall|j: int| 0 <= j < i ==> out@[j] == spec_upper(s@[j]),
        decreases s@.len() - i,
    {
        out.push(upper_byte(s[i]));
        i = i + 1;
    }
    proof {
        assert(out@ =~= spec_upper_seq(s@));
    }
    out
}

fn eq_at(hay: &[u8], needle: &[u8], at: usize) -> (r: bool)
    requires
        at + needle@.len() <= hay@.len(),
    ensures
        r == matches_at(hay@, needle@, at as int),
{
    let hay_len = hay.len();
    let mut k: usize = 0;
    while k < needle.len()
        invariant
            k <= needle@.len(),
            at + needle@.len() <= hay@.len(),
            hay_len == hay@.len(),
            forall|j: int| 0 <= j < k ==> hay@[at + j] == needle@[j],
        decreases needle@.len() - k,
    {
        if hay[at + k] != needle[k] {
            proof {
                assert(hay@.subrange(at as int, at + needle@.len())[k as int] == hay@[at + k]);
            }
            return false;
        }
        k = k + 1;
    }
    proof {
        assert(hay@.subrange(at as int, at + needle@.len()) =~= needle@);
    }
    true
}

/// The first occurrence of `needle` at or after `from`, or the length of
/// `hay` when there is none.
pub fn find_from(hay: &[u8], needle: &[u8], from: usize) -> (r: usize)
    requires
        from <= hay@.len(),
    ensures
        r == spec_find(hay@, needle@, from as int),
        from <= r <= hay@.len(),
{
    let hay_len = hay.len();
    let needle_len = needle.len();
    if needle_len > hay_len {
        return hay_len;
    }
    if needle_len == 0 {
        proof {
            assert(hay@.subrange(from as int, from as int) =~= needle@);
        }
        return from;
    }
    let mut i: usize = from;
    while i <= hay_len - needle_len
        invariant
            from <= i,
            1 <= needle_len <= hay_len,
            hay_len == hay@.len(),
            needle_len == needle@.len(),
            i <= hay_len + 1,
            spec_find(hay@, needle@, from as int) == spec_find(hay@, needle@, i as int),
        decreases hay@.len() - i,
    {
        if eq_at(hay, needle, i) {
            return i;
        }
        i = i + 1;
    }
    hay_len
}

/// The first digit position at or after `from`, or the length.
pub fn first_digit_from(s: &[u8], from: usize) -> (r: usize)
    requires
        from <= s@.len(),
    ensures
        r == spec_first_digit(s@, from as int),
        r <= s@.len(),
{
    let mut i: usize = from;
    while i < s.len()
        invariant
            from <= i <= s@.len(),
            spec_first_digit(s@, from as int) == spec_first_digit(s@, i as int),
        decreases s@.len() - i,
    {
        if 48 <= s[i] && s[i] <= 57 {
            return i;
        }
        i = i + 1;
    }
    s.len()
}

/// The end of the digit run starting at `from`.
pub fn digit_run_end(s: &[u8], from: usize) -> (r: usize)
    requires
        from <= s@.len(),
    ensures
        r == spec_digit_run_end(s@, from as int),
        from <= r <= s@.len(),
    decreases s@.len() - from,
{
    let mut i: usize = from;
    while i < s.len()
        invariant
            from <= i <= s@.len(),
            spec_digit_run_end(s@, from as int) == spec_digit_run_end(s@, i as int),
        decreases s@.len() - i,
    {
        if !(48 <= s[i] && s[i] <= 57) {
            return i;
        }
        i = i + 1;
    }
    s.len()
}

/// The value of the digits in positions `from` up to `to`, clamped to
/// `cap + 1` as soon as it passes `cap`.
fn digits_value_capped(s: &[u8], from: usize, to: usize, cap: u64) -> (r: u64)
    requires
        from <= to <= s@.len(),
        forall|j: int| from <= j < to ==> is_digit(s@[j]),
        cap <= 2_000_000_000_000,
    ensures
        spec_digits_value(s@, from as int, to as int) <= cap ==> r == spec_digits_value(
            s@,
            from as int,
            to as int,
        ),
        spec_digits_value(s@, from as int, to as int) > cap <==> r == cap + 1,
{
    let mut acc: u64 = 0;
    let mut i: usize = from;
    while i < to
        invariant
            from <= i <= to <= s@.len(),
            cap <= 2_000_000_000_000,
            forall|j: int| from <= j < to ==> is_digit(s@[j]),
            (acc <= cap && acc == spec_digits_value(s@, from as int, i as int)) || (acc == cap
                + 1 && spec_digits_value(s@, from as int, i as int) > cap),
        decreases to - i,
    {
        let d = (s[i] - 48) as u64;
        proof {
            assert(spec_digits_value(s@, from as int, i as int + 1) == spec_digits_value(
                s@,
                from as int,
                i as int,
            ) * 10 + (s@[i as int] - 48));
            if acc == cap + 1 {
                assert(spec_digits_value(s@, from as int, i as int) * 10 + (s@[i as int] - 48)
                    > cap) by (nonlinear_arith)
                    requires
                        spec_digits_value(s@, from as int, i as int) > cap,
                        cap >= 0,
                        s@[i as int] - 48 >= 0,
                ;
            } else {
                assert(spec_digits_value(s@, from as int, i as int) * 10 + (s@[i as int] - 48)
                    >= spec_digits_value(s@, from as int, i as int)) by (nonlinear_arith)
                    requires
                        spec_digits_value(s@, from as int, i as int) >= 0,
                        s@[i as int] - 48 >= 0,
                ;
            }
            assert(spec_digits_value(s@, from as int, i as int) >= 0) by {
                lemma_digits_value_nonneg(s@, from as int, i as int);
            }
        }
        if acc > cap {
            acc = cap + 1;
        } else {
            acc = acc * 10 + d;
            if acc > cap {
                acc = cap + 1;
            }
        }
        i = i + 1;
    }
    acc
}

/// The value of a run of digits is never negative.
proof fn lemma_digits_value_nonneg(s: Seq<u8>, i: int, j: int)
    requires
        forall|k: int| i <= k < j ==> is_digit(s[k]),
    ensures
        spec_digits_value(s, i, j) >= 0,
    decreases j - i,
{
    if j > i {
        lemma_digits_value_nonneg(s, i, j - 1);
        assert(spec_digits_value(s, i, j - 1) * 10 >= 0) by (nonlinear_arith)
            requires
                spec_digits_value(s, i, j - 1) >= 0,
        ;
    }
}

/// Whether `needle` occurs anywhere in `hay`.
pub open spec fn contains_seq(hay: Seq<u8>, needle: Seq<u8>) -> bool {
    exists|i: int| matches_at(hay, needle, i)
}

/// What `spec_find` returns: the first match position, or the length
/// when nothing at or after `from` matches.
proof fn lemma_spec_find(hay: Seq<u8>, needle: Seq<u8>, from: int)
    requires
        0 <= from <= hay.len(),
    ensures
        from <= spec_find(hay, needle, from) <= hay.len(),
        matches_at(hay, needle, spec_find(hay, needle, from)) || (forall|j: int|
            from <= j ==> !matches_at(hay, needle, j)),
        forall|j: int| from <= j < spec_find(hay, needle, from) ==> !matches_at(hay, needle, j),
    decreases hay.len() - from,
{
    if from + needle.len() > hay.len() {
        assert forall|j: int| from <= j implies !matches_at(hay, needle, j) by {
            if matches_at(hay, needle, j) {
                assert(j + needle.len() <= hay.len());
            }
        }
    } else if matches_at(hay, needle, from) {
    } else if from >= hay.len() {
        assert(needle.len() == 0);
        assert(hay.subrange(from, from + needle.len()) =~= needle);
        assert(matches_at(hay, needle, from));
    } else {
        lemma_spec_find(hay, needle, from + 1);
    }
}

/// Whether `needle` occurs anywhere in `hay`.
pub fn contains_bytes(hay: &[u8], needle: &[u8]) -> (r: bool)
    ensures
        r == contains_seq(hay@, needle@),
{
    let hay_len = hay.len();
    let needle_len = needle.len();
    let idx = find_from(hay, needle, 0);
    proof {
        lemma_spec_find(hay@, needle@, 0);
    }
    if needle_len <= hay_len && idx <= hay_len - needle_len {
        let m = eq_at(hay, needle, idx);
        proof {
            if m {
                assert(contains_seq(hay@, needle@));
            } else {
                assert forall|j: int| !matches_at(hay@, needle@, j) by {
                    if matches_at(hay@, needle@, j) {
                        assert(j >= 0);
                    }
                }
            }
        }
        m
    } else {
        proof {
            assert(!matches_at(hay@, needle@, idx as int));
            assert forall|j: int| !matches_at(hay@, needle@, j) by {
                if matches_at(hay@, needle@, j) {
                    assert(j >= 0);
                }
            }
        }
        false
    }
}

/// The horizontal datum a WKT projection text names.
#[derive(Clone, Copy, Debug, PartialEq, Eq, Structural)]
pub enum Datum {
    Wgs84,
    Nad83,
    Nad27,
}

/// The ASCII bytes of `NAD83`.
pub open spec fn nad83_tag() -> Seq<u8> {
    seq![78u8, 65u8, 68u8, 56u8, 51u8]
}

/// The ASCII bytes of `North_American_Datum_1983`.
pub open spec fn nad83_long_tag() -> Seq<u8> {
    seq![78u8, 111u8, 114u8, 116u8, 104u8, 95u8, 65u8, 109u8, 101u8, 114u8, 105u8, 99u8,
        97u8, 110u8, 95u8, 68u8, 97u8, 116u8, 117u8, 109u8, 95u8, 49u8, 57u8, 56u8, 51u8]
}

/// The ASCII bytes of `NAD27`.
pub open spec fn nad27_tag() -> Seq<u8> {
    seq![78u8, 65u8, 68u8, 50u8, 55u8]
}

/// The ASCII bytes of `North_American_1927`.
pub open spec fn nad27_long_tag() -> Seq<u8> {
    seq![78u8, 111u8, 114u8, 116u8, 104u8, 95u8, 65u8, 109u8, 101u8, 114u8, 105u8, 99u8,
        97u8, 110u8, 95u8, 49u8, 57u8, 50u8, 55u8]
}

/// The datum named by the text: the 1983 North American datum takes
/// precedence, then the 1927 one, and anything else reads as WGS84.
pub open spec fn spec_detect_datum(s: Seq<u8>) -> Datum {
    if contains_seq(s, nad83_tag()) || contains_seq(s, nad83_long_tag()) {
        Datum::Nad83
    } else if contains_seq(s, nad27_tag()) || contains_seq(s, nad27_long_tag()) {
        Datum::Nad27
    } else {
        Datum::Wgs84
    }
}

/// Reads which datum a WKT projection text names, by substring search,
/// case-sensitively.
pub fn detect_datum(prj: &[u8]) -> (r: Datum)
    ensures
        r == spec_detect_datum(prj@),
{
    let nad83: [u8; 5] = [78, 65, 68, 56, 51];
    let nad83_long: [u8; 25] = [78, 111, 114, 116, 104, 95, 65, 109, 101, 114, 105, 99, 97,
        110, 95, 68, 97, 116, 117, 109, 95, 49, 57, 56, 51];
    let nad27: [u8; 5] = [78, 65, 68, 50, 55];
    let nad27_long: [u8; 19] = [78, 111, 114, 116, 104, 95, 65, 109, 101, 114, 105, 99, 97,
        110, 95, 49, 57, 50, 55];
    proof {
        assert(nad83@ =~= nad83_tag());
        assert(nad83_long@ =~= nad83_long_tag());
        assert(nad27@ =~= nad27_tag());
        assert(nad27_long@ =~= nad27_long_tag());
    }
    if contains_bytes(prj, nad83.as_slice()) || contains_bytes(prj, nad83_long.as_slice()) {
        Datum::Nad83
    } else if contains_bytes(prj, nad27.as_slice()) || contains_bytes(
        prj,
        nad27_long.as_slice(),
    ) {
        Datum::Nad27
    } else {
        Datum::Wgs84
    }
}

/// The ASCII bytes of `UTM`.
pub open spec fn utm_tag() -> Seq<u8> {
    seq![85u8, 84u8, 77u8]
}

/// The ASCII bytes of `ZONE`.
pub open spec fn zone_tag() -> Seq<u8> {
    seq![90u8, 79u8, 78u8, 69u8]
}

/// The ASCII bytes of `Transverse_Mercator`.
pub open spec fn transverse_mercator_tag() -> Seq<u8> {
    seq![84u8, 114u8, 97u8, 110u8, 115u8, 118u8, 101u8, 114u8, 115u8, 101u8, 95u8, 77u8,
        101u8, 114u8, 99u8, 97u8, 116u8, 111u8, 114u8]
}

/// Whether the text names a transverse Mercator projection,
/// case-sensitively.
pub fn mentions_transverse_mercator(prj: &[u8]) -> (r: bool)
    ensures
        r == contains_seq(prj@, transverse_mercator_tag()),
{
    let tag: [u8; 19] = [84, 114, 97, 110, 115, 118, 101, 114, 115, 101, 95, 77, 101, 114, 99,
        97, 116, 111, 114];
    proof {
        assert(tag@ =~= transverse_mercator_tag());
    }
    contains_bytes(prj, tag.as_slice())
}

/// The zone number a WKT text spells after `UTM ... ZONE`, read
/// case-insensitively: the first digit run after the first `ZONE` that
/// follows the first `UTM`, accepted when its value lies in one through
/// sixty.
pub open spec fn spec_extract_utm_zone(s: Seq<u8>) -> Option<u8> {
    let up = spec_upper_seq(s);
    let utm_at = spec_find(up, utm_tag(), 0);
    if utm_at >= up.len() {
        None
    } else {
        let zone_at = spec_find(up, zone_tag(), utm_at);
        if zone_at >= up.len() {
            None
        } else {
            let d0 = spec_first_digit(up, zone_at + 4);
            if d0 >= up.len() {
                None
            } else {
                let d1 = spec_digit_run_end(up, d0);
                let v = spec_digits_value(up, d0, d1);
                if 1 <= v <= 60 {
                    Some(v as u8)
                } else {
                    None
                }
            }
        }
    }
}

/// Extracts a UTM zone number from WKT projection text, when one is
/// spelled out as `UTM ... Zone NN` in any letter case.
pub fn extract_utm_zone(prj: &[u8]) -> (r: Option<u8>)
    ensures
        r == spec_extract_utm_zone(prj@),
        r is Some ==> 1 <= r->Some_0 <= 60,
{
    let up_vec = to_upper(prj);
    let up = up_vec.as_slice();
    let utm_needle: [u8; 3] = [85, 84, 77];
    let zone_needle: [u8; 4] = [90, 79, 78, 69];
    proof {
        assert(utm_needle@ =~= utm_tag());
        assert(zone_needle@ =~= zone_tag());
    }
    let utm_at = find_from(up, utm_needle.as_slice(), 0);
    if utm_at >= up.len() {
        return None;
    }
    let zone_at = find_from(up, zone_needle.as_slice(), utm_at);
    if zone_at >= up.len() {
        return None;
    }
    let search_from = if up.len() - zone_at > 4 {
        zone_at + 4
    } else {
        up.len()
    };
    proof {
        if up@.len() - zone_at <= 4 {
            assert(spec_first_digit(up@, zone_at as int + 4) == up@.len());
            assert(spec_first_digit(up@, search_from as int) == up@.len());
        }
    }
    let d0 = first_digit_from(up, search_from);
    if d0 >= up.len() {
        return None;
    }
    let d1 = digit_run_end(up, d0);
    proof {
        assert forall|j: int| d0 <= j < d1 implies is_digit(up@[j]) by {
            lemma_digit_run(up@, d0 as int, j);
        }
    }
    let v = digits_value_capped(up, d0, d1, 60);
    if 1 <= v && v <= 60 {
        Some(v as u8)
    } else {
        None
    }
}

/// Every position before the end of a digit run holds a digit.
proof fn lemma_digit_run(s: Seq<u8>, i: int, j: int)
    requires
        0 <= i <= j,
        j < spec_digit_run_end(s, i),
    ensures
        is_digit(s[j]),
    decreases j - i,
{
    if j > i {
        lemma_digit_run(s, i + 1, j);
    }
}

/// Whether the byte can appear in a signed decimal or scientific-notation
/// number token.
pub open spec fn is_number_byte(b: u8) -> bool {
    is_digit(b) || b == 45 || b == 46 || b == 101 || b == 69 || b == 43
}

/// The first position at or after `i` that cannot belong to a number
/// token, or the length.
pub open spec fn spec_number_token_end(s: Seq<u8>, i: int) -> int
    decreases s.len() - i,
{
    if i < 0 || i >= s.len() {
        s.len() as int
    } else if !is_number_byte(s[i]) {
        i
    } else {
        spec_number_token_end(s, i + 1)
    }
}

fn number_token_end(s: &[u8], from: usize) -> (r: usize)
    requires
        from <= s@.len(),
    ensures
        r == spec_number_token_end(s@, from as int),
        from <= r <= s@.len(),
{
    let mut i: usize = from;
    while i < s.len()
        invariant
            from <= i <= s@.len(),
            spec_number_token_end(s@, from as int) == spec_number_token_end(s@, i as int),
        decreases s@.len() - i,
    {
        let b = s[i];
        if !((48 <= b && b <= 57) || b == 45 || b == 46 || b == 101 || b == 69 || b == 43) {
            return i;
        }
        i = i + 1;
    }
    s.len()
}

/// The ASCII bytes of `PARAMETER["`.
pub open spec fn parameter_prefix() -> Seq<u8> {
    seq![80u8, 65u8, 82u8, 65u8, 77u8, 69u8, 84u8, 69u8, 82u8, 91u8, 34u8]
}

/// The number token that follows `PARAMETER["<name>`, located by a
/// case-insensitive search, then the first quote at or after the match,
/// then the first comma after that quote; the token runs over digits,
/// signs, dots, and exponent letters and may be empty.
pub open spec fn spec_parameter_token(content: Seq<u8>, name: Seq<u8>) -> Option<Seq<u8>> {
    let up = spec_upper_seq(content);
    let pat = parameter_prefix() + spec_upper_seq(name);
    let idx = spec_find(up, pat, 0);
    if idx >= up.len() {
        None
    } else {
        let qi = spec_find(content, seq![34u8], idx);
        if qi >= content.len() {
            None
        } else {
            let ci = spec_find(content, seq![44u8], qi + 1);
            if ci >= content.len() {
                None
            } else {
                Some(content.subrange(ci + 1, spec_number_token_end(content, ci + 1)))
            }
        }
    }
}

/// Pulls the numeric text of one `PARAMETER["<name>", <number>]` entry
/// out of WKT projection text.  The name is matched without regard to
/// letter case; the returned bytes still have to be parsed, and parsing
/// may fail, as when the token is empty.
pub fn extract_parameter_token(content: &[u8], name: &[u8]) -> (r: Option<Vec<u8>>)
    ensures
        match r {
            Some(tok) => spec_parameter_token(content@, name@) == Some(tok@),
            None => spec_parameter_token(content@, name@) is None,
        },
{
    let up_vec = to_upper(content);
    let up = up_vec.as_slice();
    let prefix: [u8; 11] = [80, 65, 82, 65, 77, 69, 84, 69, 82, 91, 34];
    let mut pattern: Vec<u8> = vstd::slice::slice_to_vec(prefix.as_slice());
    let mut name_up = to_upper(name);
    pattern.append(&mut name_up);
    proof {
        assert(prefix@ =~= parameter_prefix());
        assert(pattern@ =~= parameter_prefix() + spec_upper_seq(name@));
    }
    let idx = find_from(up, pattern.as_slice(), 0);
    if idx >= up.len() {
        return None;
    }
    let quote: [u8; 1] = [34];
    proof {
        assert(quote@ =~= seq![34u8]);
    }
    let qi = find_from(content, quote.as_slice(), idx);
    if qi >= content.len() {
        return None;
    }
    let comma: [u8; 1] = [44];
    proof {
        assert(comma@ =~= seq![44u8]);
    }
    let ci = find_from(content, comma.as_slice(), qi + 1);
    if ci >= content.len() {
        return None;
    }
    let te = number_token_end(content, ci + 1);
    Some(vstd::slice::slice_to_vec(vstd::slice::slice_subrange(content, ci + 1, te)))
}

/// Why a world file was refused.
#[derive(Clone, Copy, Debug, PartialEq, Eq, Structural)]
pub enum WorldFileError {
    /// The file holds fewer than the six required lines.
    TooFewLines,
}

/// The six lines of a world file, in file order: pixel width, rotation
/// about y, rotation about x, pixel height, origin x, origin y.  Each
/// line is raw bytes with any trailing carriage return removed; parsing
/// the numbers is the caller's business.
pub struct WorldFileFields {
    pub pixel_width: Vec<u8>,
    pub rotation_y: Vec<u8>,
    pub rotation_x: Vec<u8>,
    pub pixel_height: Vec<u8>,
    pub origin_x: Vec<u8>,
    pub origin_y: Vec<u8>,
}

/// Where line `n` starts, counting lines as text editors do; the length
/// marks a line that does not exist.
pub open spec fn spec_line_start(s: Seq<u8>, n: int) -> int
    decreases n,
{
    if n <= 0 {
        0
    } else {
        let prev = spec_line_start(s, n - 1);
        let nl = spec_find(s, seq![10u8], prev);
        if nl < s.len() {
            nl + 1
        } else {
            s.len() as int
        }
    }
}

/// The body of the line starting at `start`: up to the next newline,
/// with a trailing carriage return removed.
pub open spec fn spec_line_body(s: Seq<u8>, start: int) -> Seq<u8> {
    let nl = spec_find(s, seq![10u8], start);
    let end = if nl > start && s[nl - 1] == 13 {
        nl - 1
    } else {
        nl
    };
    s.subrange(start, end)
}

/// Reads the line starting at `cur`, or nothing when `cur` is past the
/// last line.
fn read_line(content: &[u8], cur: usize) -> (r: Option<(Vec<u8>, usize)>)
    requires
        cur <= content@.len(),
    ensures
        cur >= content@.len() ==> r is None,
        cur < content@.len() ==> {
            &&& r is Some
            &&& r->Some_0.0@ == spec_line_body(content@, cur as int)
            &&& r->Some_0.1 == ({
                let nl = spec_find(content@, seq![10u8], cur as int);
                if nl < content@.len() {
                    nl + 1
                } else {
                    content@.len() as int
                }
            })
            &&& cur < r->Some_0.1 <= content@.len()
        },
{
    if cur >= content.len() {
        return None;
    }
    let newline: [u8; 1] = [10];
    proof {
        assert(newline@ =~= seq![10u8]);
    }
    let nl = find_from(content, newline.as_slice(), cur);
    let mut end = nl;
    if end > cur && content[end - 1] == 13 {
        end = end - 1;
    }
    let body = vstd::slice::slice_to_vec(vstd::slice::slice_subrange(content, cur, end));
    let next = if nl < content.len() {
        nl + 1
    } else {
        content.len()
    };
    Some((body, next))
}

/// Splits a world file into its six lines.  Fails exactly when the text
/// has fewer than six lines; the numeric parsing of each line is the
/// caller's business.
pub fn world_file_fields(content: &[u8]) -> (r: Result<WorldFileFields, WorldFileError>)
    ensures
        r is Ok <==> spec_line_start(content@, 5) < content@.len(),
        r is Ok ==> {
            &&& r->Ok_0.pixel_width@ == spec_line_body(content@, spec_line_start(content@, 0))
            &&& r->Ok_0.rotation_y@ == spec_line_body(content@, spec_line_start(content@, 1))
            &&& r->Ok_0.rotation_x@ == spec_line_body(content@, spec_line_start(content@, 2))
            &&& r->Ok_0.pixel_height@ == spec_line_body(content@, spec_line_start(content@, 3))
            &&& r->Ok_0.origin_x@ == spec_line_body(content@, spec_line_start(content@, 4))
            &&& r->Ok_0.origin_y@ == spec_line_body(content@, spec_line_start(content@, 5))
        },
{
    proof {
        lemma_line_start_monotonic(content@, 0);
        lemma_line_start_monotonic(content@, 1);
        lemma_line_start_monotonic(content@, 2);
        lemma_line_start_monotonic(content@, 3);
        lemma_line_start_monotonic(content@, 4);
    }
    let (pixel_width, c1) = match read_line(content, 0) {
        Some(p) => p,
        None => {
            return Err(WorldFileError::TooFewLines);
        },
    };
    let (rotation_y, c2) = match read_line(content, c1) {
        Some(p) => p,
        None => {
            return Err(WorldFileError::TooFewLines);
        },
    };
    let (rotation_x, c3) = match read_line(content, c2) {
        Some(p) => p,
        None => {
            return Err(WorldFileError::TooFewLines);
        },
    };
    let (pixel_height, c4) = match read_line(content, c3) {
        Some(p) => p,
        None => {
            return Err(WorldFileError::TooFewLines);
        },
    };
    let (origin_x, c5) = match read_line(content, c4) {
        Some(p) => p,
        None => {
            return Err(WorldFileError::TooFewLines);
        },
    };
    let (origin_y, _c6) = match read_line(content, c5) {
        Some(p) => p,
        None => {
            return Err(WorldFileError::TooFewLines);
        },
    };
    Ok(
        WorldFileFields {
            pixel_width,
            rotation_y,
            rotation_x,
            pixel_height,
            origin_x,
            origin_y,
        },
    )
}

/// Line starts never run backwards, and an existing line places the next
/// start exactly one past its newline.
proof fn lemma_line_start_monotonic(s: Seq<u8>, n: int)
    requires
        n >= 0,
    ensures
        spec_line_start(s, n) <= spec_line_start(s, n + 1) <= s.len(),
        spec_line_start(s, n) >= 0,
    decreases n + 1,
{
    if n > 0 {
        lemma_line_start_monotonic(s, n - 1);
    }
    lemma_spec_find_clamped(s, seq![10u8], spec_line_start(s, n));
}

/// `spec_find` never answers below `from` nor above the length.
proof fn lemma_spec_find_clamped(hay: Seq<u8>, needle: Seq<u8>, from: int)
    requires
        from >= 0,
    ensures
        spec_find(hay, needle, from) <= hay.len(),
        spec_find(hay, needle, from) >= from || spec_find(hay, needle, from) == hay.len(),
    decreases hay.len() - from,
{
    if !(from + needle.len() > hay.len()) && !matches_at(hay, needle, from) && from < hay.len() {
        lemma_spec_find_clamped(hay, needle, from + 1);
    }
}

/// What an SRTM-style file name locates: either a one-degree geographic
/// tile by its south-west corner, or a fifty-kilometer projected tile by
/// the meters of its corner.
#[derive(Clone, Copy, Debug, PartialEq, Eq, Structural)]
pub enum SrtmCoords {
    Geographic { lat_deg: i64, lon_deg: i64 },
    Projected { easting_m: i64, northing_m: i64 },
}

/// The first `E` or `W` at or after `i` in upper-cased text, or the
/// length.
pub open spec fn spec_first_ew(up: Seq<u8>, i: int) -> int
    decreases up.len() - i,
{
    if i < 0 || i >= up.len() {
        up.len() as int
    } else if up[i] == 69 || up[i] == 87 {
        i
    } else {
        spec_first_ew(up, i + 1)
    }
}

/// The last `N` or `S` strictly before `j`, carrying `cur` as the best
/// index seen so far; minus one means none.
pub open spec fn spec_last_ns_before(up: Seq<u8>, i: int, j: int, cur: int) -> int
    decreases j - i,
{
    if i < 0 || i >= j {
        cur
    } else if up[i] == 78 || up[i] == 83 {
        spec_last_ns_before(up, i + 1, j, i)
    } else {
        spec_last_ns_before(up, i + 1, j, cur)
    }
}

/// The value of the digit run starting right after `dir`, or nothing
/// when no digit follows immediately or the value passes one trillion.
pub open spec fn spec_coord_after(up: Seq<u8>, dir: int) -> Option<int> {
    let d0 = dir + 1;
    let d1 = spec_digit_run_end(up, d0);
    if d1 <= d0 {
        None
    } else {
        let v = spec_digits_value(up, d0, d1);
        if v > 1_000_000_000_000 {
            None
        } else {
            Some(v)
        }
    }
}

/// What an SRTM-style name `N47E007...` or `S12W034...` (any letter
/// case) locates: the last north/south letter before the first
/// east/west letter carries the latitude, the east/west letter the
/// longitude.  A number over one hundred eighty reads as a projected
/// tile corner in units of ten kilometers.
pub open spec fn spec_parse_srtm(name: Seq<u8>) -> Option<SrtmCoords> {
    let up = spec_upper_seq(name);
    let ew = spec_first_ew(up, 0);
    if ew >= up.len() {
        None
    } else {
        let ns = spec_last_ns_before(up, 0, ew, -1);
        if ns < 0 {
            None
        } else {
            match (spec_coord_after(up, ns), spec_coord_after(up, ew)) {
                (Some(latv), Some(lonv)) => {
                    let lat = if up[ns] == 83 {
                        -latv
                    } else {
                        latv
                    };
                    let lon = if up[ew] == 87 {
                        -lonv
                    } else {
                        lonv
                    };
                    if latv > 180 || lonv > 180 {
                        Some(
                            SrtmCoords::Projected {
                                easting_m: (lon * 10_000) as i64,
                                northing_m: (lat * 10_000) as i64,
                            },
                        )
                    } else {
                        Some(SrtmCoords::Geographic { lat_deg: lat as i64, lon_deg: lon as i64 })
                    }
                },
                _ => None,
            }
        }
    }
}

/// Reads the tile corner out of an SRTM-style file name, if the name
/// carries one.
pub fn parse_srtm_filename(name: &[u8]) -> (r: Option<SrtmCoords>)
    ensures
        r == spec_parse_srtm(name@),
{
    let up_vec = to_upper(name);
    let up = up_vec.as_slice();
    let n = up.len();
    let mut ew: usize = n;
    let mut ns: usize = n;
    let mut i: usize = 0;
    while i < n && ew == n
        invariant
            i <= n,
            n == up@.len(),
            ns == n || (ns < i && (up@[ns as int] == 78 || up@[ns as int] == 83)),
            ew == n || (ew < n && ew == spec_first_ew(up@, 0) && (if ns == n {
                -1int
            } else {
                ns as int
            }) == spec_last_ns_before(up@, 0, ew as int, -1)),
            ew == n ==> {
                &&& spec_first_ew(up@, i as int) == spec_first_ew(up@, 0)
                &&& spec_last_ns_before(
                    up@,
                    i as int,
                    spec_first_ew(up@, 0),
                    (if ns == n {
                        -1int
                    } else {
                        ns as int
                    }),
                ) == spec_last_ns_before(up@, 0, spec_first_ew(up@, 0), -1)
            },
        decreases n - i + (if ew == n {
            1int
        } else {
            0int
        }),
    {
        let b = up[i];
        if b == 69 || b == 87 {
            proof {
                assert(spec_first_ew(up@, i as int) == i);
                lemma_last_ns_past_ew(up@, i as int, i as int, (if ns == n {
                    -1int
                } else {
                    ns as int
                }));
            }
            ew = i;
        } else {
            proof {
                lemma_first_ew_clamped(up@, i as int + 1);
                assert(spec_first_ew(up@, i as int) == spec_first_ew(up@, i as int + 1));
                assert(i < spec_first_ew(up@, 0));
            }
            if b == 78 || b == 83 {
                ns = i;
            }
            i = i + 1;
        }
    }
    if ew >= n {
        proof {
            assert(i == n);
            assert(spec_first_ew(up@, n as int) == up@.len());
        }
        return None;
    }
    if ns >= n {
        return None;
    }
    let ns_u = ns;
    let lat = match coord_after(up, ns_u) {
        Some(v) => v,
        None => {
            return None;
        },
    };
    let lon = match coord_after(up, ew) {
        Some(v) => v,
        None => {
            return None;
        },
    };
    let lat_signed: i64 = if up[ns_u] == 83 {
        -(lat as i64)
    } else {
        lat as i64
    };
    let lon_signed: i64 = if up[ew] == 87 {
        -(lon as i64)
    } else {
        lon as i64
    };
    if lat > 180 || lon > 180 {
        Some(
            SrtmCoords::Projected {
                easting_m: lon_signed * 10_000,
                northing_m: lat_signed * 10_000,
            },
        )
    } else {
        Some(SrtmCoords::Geographic { lat_deg: lat_signed, lon_deg: lon_signed })
    }
}

/// Once the scan reaches the east/west letter, the best north/south
/// index seen so far is the final answer.
proof fn lemma_last_ns_past_ew(up: Seq<u8>, i: int, j: int, cur: int)
    requires
        i >= j,
    ensures
        spec_last_ns_before(up, i, j, cur) == cur,
{
}

/// The first east/west position never lies before where the scan
/// starts.
proof fn lemma_first_ew_clamped(up: Seq<u8>, i: int)
    requires
        0 <= i <= up.len(),
    ensures
        i <= spec_first_ew(up, i) <= up.len(),
    decreases up.len() - i,
{
    if i < up.len() && !(up[i] == 69 || up[i] == 87) {
        lemma_first_ew_clamped(up, i + 1);
    }
}

/// The digit run right after `dir`, as a number, when one starts there
/// and stays within one trillion.
fn coord_after(up: &[u8], dir: usize) -> (r: Option<u64>)
    requires
        dir < up@.len(),
    ensures
        match r {
            Some(v) => spec_coord_after(up@, dir as int) == Some(v as int) && v
                <= 1_000_000_000_000,
            None => spec_coord_after(up@, dir as int) is None,
        },
{
    let _n: usize = up.len();
    let d0 = dir + 1;
    let d1 = digit_run_end(up, d0);
    if d1 <= d0 {
        return None;
    }
    proof {
        assert forall|j: int| d0 <= j < d1 implies is_digit(up@[j]) by {
            lemma_digit_run(up@, d0 as int, j);
        }
    }
    let v = digits_value_capped(up, d0, d1, 1_000_000_000_000);
    if v > 1_000_000_000_000 {
        None
    } else {
        Some(v)
    }
}

} // verus!
