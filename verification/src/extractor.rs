//! The obfuscation key extractor.
//!
//! The embed player's minified script encodes a switch-like dispatch in
//! which each relevant `case` branch assigns two symbolic variables:
//! `case <hex>: <id> = <name1>, <id> = <name2>;` with flexible ASCII
//! whitespace. Each name resolves, by the first `,<name>=<hex>`
//! assignment found in the script, to a hexadecimal literal; a pair of
//! resolved values becomes one (offset, length) pair. An occurrence
//! whose matched text holds the marker `partKey` belongs to an
//! unrelated code path and is discarded, as is any occurrence either of
//! whose names does not resolve or parse as a 32-bit hex integer. The
//! pairs come back exactly in source-appearance order; an empty result
//! means the extractor is stale relative to the current obfuscation and
//! is surfaced by the caller as its own error.
//!
//! The word and whitespace classes here are deliberately ASCII:
//! identifiers are `[0-9A-Za-z_]` and spacing is ASCII whitespace. The
//! player scripts this targets are ASCII-minified JavaScript; a script
//! leaning on non-ASCII identifiers or exotic spacing is treated as a
//! shape change of the obfuscation, which this component is the single
//! place to adapt to.

use vstd::prelude::*;

use crate::errors::AniRustError;
use crate::utils::{first_non_ws, spec_contains, to_chars};

verus! {

/// `c` is a word character: an ASCII letter, digit or underscore.
pub open spec fn is_word_char(c: char) -> bool {
    (97 <= c as int && c as int <= 122) || (65 <= c as int && c as int <= 90) || (48 <= c as int
        && c as int <= 57) || c as int == 95
}

/// `c` is a lowercase hexadecimal digit.
pub open spec fn is_lhex_char(c: char) -> bool {
    (48 <= c as int && c as int <= 57) || (97 <= c as int && c as int <= 102)
}

/// `c` is a hexadecimal digit of either case.
pub open spec fn is_hex_char(c: char) -> bool {
    is_lhex_char(c) || (65 <= c as int && c as int <= 70)
}

/// The value of a hexadecimal digit.
pub open spec fn hex_char_val(c: char) -> nat {
    if 48 <= c as int && c as int <= 57 {
        ((c as int) - 48) as nat
    } else if 97 <= c as int && c as int <= 102 {
        ((c as int) - 87) as nat
    } else {
        ((c as int) - 55) as nat
    }
}

/// The value of the hexadecimal digit string `s[a..b]`.
pub open spec fn hex_val(s: Seq<char>, a: int, b: int) -> nat
    decreases b - a,
{
    if b <= a {
        0
    } else {
        hex_val(s, a, b - 1) * 16 + hex_char_val(s[b - 1])
    }
}

/// The first position `>= i` that does not hold a word character.
pub open spec fn word_end(s: Seq<char>, i: int) -> int
    decreases s.len() - i,
{
    if i < 0 || i >= s.len() {
        s.len() as int
    } else if is_word_char(s[i]) {
        word_end(s, i + 1)
    } else {
        i
    }
}

/// The first position `>= i` that does not hold a lowercase hex digit.
pub open spec fn lhex_end(s: Seq<char>, i: int) -> int
    decreases s.len() - i,
{
    if i < 0 || i >= s.len() {
        s.len() as int
    } else if is_lhex_char(s[i]) {
        lhex_end(s, i + 1)
    } else {
        i
    }
}

/// The first position `>= i` that does not hold a hex digit.
pub open spec fn hex_end(s: Seq<char>, i: int) -> int
    decreases s.len() - i,
{
    if i < 0 || i >= s.len() {
        s.len() as int
    } else if is_hex_char(s[i]) {
        hex_end(s, i + 1)
    } else {
        i
    }
}

/// A successful case-branch match: where it starts and ends, and the
/// two captured value-name spans.
pub struct CaseMatch {
    pub start: int,
    pub end: int,
    pub cap1: (int, int),
    pub cap2: (int, int),
}

/// Matches one case branch at position `i`:
/// `case <lhex>: <word> = <word>, <word> = <word>;` with optional ASCII
/// whitespace where the pattern allows it, capturing the two value
/// names (the right-hand sides of the assignments).
pub open spec fn match_case_at(s: Seq<char>, i: int) -> Option<CaseMatch> {
    if !(0 <= i && i + 4 <= s.len() && s[i] == 'c' && s[i + 1] == 'a' && s[i + 2] == 's' && s[i + 3]
        == 'e') {
        None
    } else {
        let j = first_non_ws(s, i + 4);
        if !(j + 2 <= s.len() && s[j] == '0' && s[j + 1] == 'x') {
            None
        } else {
            let h = lhex_end(s, j + 2);
            if !(h > j + 2 && h < s.len() && s[h] == ':') {
                None
            } else {
                let k1 = first_non_ws(s, h + 1);
                let w1 = word_end(s, k1);
                if !(w1 > k1) {
                    None
                } else {
                    let k2 = first_non_ws(s, w1);
                    if !(k2 < s.len() && s[k2] == '=') {
                        None
                    } else {
                        let k3 = first_non_ws(s, k2 + 1);
                        let c1 = word_end(s, k3);
                        if !(c1 > k3) {
                            None
                        } else {
                            let k4 = first_non_ws(s, c1);
                            if !(k4 < s.len() && s[k4] == ',') {
                                None
                            } else {
                                let k5 = first_non_ws(s, k4 + 1);
                                let w2 = word_end(s, k5);
                                if !(w2 > k5) {
                                    None
                                } else {
                                    let k6 = first_non_ws(s, w2);
                                    if !(k6 < s.len() && s[k6] == '=') {
                                        None
                                    } else {
                                        let k7 = first_non_ws(s, k6 + 1);
                                        let c2 = word_end(s, k7);
                                        if !(c2 > k7 && c2 < s.len() && s[c2] == ';') {
                                            None
                                        } else {
                                            Some(
                                                CaseMatch {
                                                    start: i,
                                                    end: c2 + 1,
                                                    cap1: (k3, c1),
                                                    cap2: (k7, c2),
                                                },
                                            )
                                        }
                                    }
                                }
                            }
                        }
                    }
                }
            }
        }
    }
}

/// As [`match_case_at`], over the in-memory character buffer, with
/// machine-sized positions.
fn match_case_exec(v: &Vec<char>, i: usize) -> (r: Option<(usize, (usize, usize), (usize, usize))>)
    requires
        i < v@.len(),
    ensures
        match r {
            Some(m) => match_case_at(v@, i as int) == Some(
                CaseMatch {
                    start: i as int,
                    end: m.0 as int,
                    cap1: (m.1.0 as int, m.1.1 as int),
                    cap2: (m.2.0 as int, m.2.1 as int),
                },
            ) && i < m.0 <= v@.len() && m.1.0 < m.1.1 <= v@.len() && m.2.0 < m.2.1 <= v@.len(),
            None => match_case_at(v@, i as int) is None,
        },
{
    let n = v.len();
    if !(n - i >= 4 && v[i] == 'c' && v[i + 1] == 'a' && v[i + 2] == 's' && v[i + 3] == 'e') {
        return None;
    }
    let j = skip_ws_exec(v, i + 4);
    if !(n - j >= 2 && v[j] == '0' && v[j + 1] == 'x') {
        return None;
    }
    let h = lhex_end_exec(v, j + 2);
    if !(h > j + 2 && h < n && v[h] == ':') {
        return None;
    }
    let k1 = skip_ws_exec(v, h + 1);
    let w1 = word_end_exec(v, k1);
    if !(w1 > k1) {
        return None;
    }
    let k2 = skip_ws_exec(v, w1);
    if !(k2 < n && v[k2] == '=') {
        return None;
    }
    let k3 = skip_ws_exec(v, k2 + 1);
    let c1 = word_end_exec(v, k3);
    if !(c1 > k3) {
        return None;
    }
    let k4 = skip_ws_exec(v, c1);
    if !(k4 < n && v[k4] == ',') {
        return None;
    }
    let k5 = skip_ws_exec(v, k4 + 1);
    let w2 = word_end_exec(v, k5);
    if !(w2 > k5) {
        return None;
    }
    let k6 = skip_ws_exec(v, w2);
    if !(k6 < n && v[k6] == '=') {
        return None;
    }
    let k7 = skip_ws_exec(v, k6 + 1);
    let c2 = word_end_exec(v, k7);
    if !(c2 > k7 && c2 < n && v[c2] == ';') {
        return None;
    }
    Some((c2 + 1, (k3, c1), (k7, c2)))
}

fn is_word_char_exec(c: char) -> (b: bool)
    ensures
        b == is_word_char(c),
{
    let u = c as u32;
    (97 <= u && u <= 122) || (65 <= u && u <= 90) || (48 <= u && u <= 57) || u == 95
}

fn is_lhex_char_exec(c: char) -> (b: bool)
    ensures
        b == is_lhex_char(c),
{
    let u = c as u32;
    (48 <= u && u <= 57) || (97 <= u && u <= 102)
}

fn is_hex_char_exec(c: char) -> (b: bool)
    ensures
        b == is_hex_char(c),
{
    let u = c as u32;
    is_lhex_char_exec(c) || (65 <= u && u <= 70)
}

fn skip_ws_exec(v: &Vec<char>, i: usize) -> (r: usize)
    requires
        i <= v@.len(),
    ensures
        r == first_non_ws(v@, i as int),
        i <= r <= v@.len(),
{
    let n = v.len();
    let mut j = i;
    while j < n && crate::utils::is_ws_exec(v[j])
        invariant
            n == v@.len(),
            i <= j <= n,
            first_non_ws(v@, i as int) == first_non_ws(v@, j as int),
        decreases n - j,
    {
        j = j + 1;
    }
    j
}

fn word_end_exec(v: &Vec<char>, i: usize) -> (r: usize)
    requires
        i <= v@.len(),
    ensures
        r == word_end(v@, i as int),
        i <= r <= v@.len(),
{
    let n = v.len();
    let mut j = i;
    while j < n && is_word_char_exec(v[j])
        invariant
            n == v@.len(),
            i <= j <= n,
            word_end(v@, i as int) == word_end(v@, j as int),
        decreases n - j,
    {
        j = j + 1;
    }
    j
}

fn lhex_end_exec(v: &Vec<char>, i: usize) -> (r: usize)
    requires
        i <= v@.len(),
    ensures
        r == lhex_end(v@, i as int),
        i <= r <= v@.len(),
{
    let n = v.len();
    let mut j = i;
    while j < n && is_lhex_char_exec(v[j])
        invariant
            n == v@.len(),
            i <= j <= n,
            lhex_end(v@, i as int) == lhex_end(v@, j as int),
        decreases n - j,
    {
        j = j + 1;
    }
    j
}

fn hex_end_exec(v: &Vec<char>, i: usize) -> (r: usize)
    requires
        i <= v@.len(),
    ensures
        r == hex_end(v@, i as int),
        i <= r <= v@.len(),
{
    let n = v.len();
    let mut j = i;
    while j < n && is_hex_char_exec(v[j])
        invariant
            n == v@.len(),
            i <= j <= n,
            hex_end(v@, i as int) == hex_end(v@, j as int),
        decreases n - j,
    {
        j = j + 1;
    }
    j
}

/// Matches `,<name>=<hex>` at position `i`, yielding the span of the
/// hex digits. A `0x` prefix is taken when at least one hex digit
/// follows it; otherwise its leading `0` alone is the digit string, as
/// a greedy optional-prefix match behaves.
pub open spec fn key_digits_at(s: Seq<char>, name: Seq<char>, i: int) -> Option<(int, int)> {
    let d = i + 2 + name.len();
    if !(0 <= i && d <= s.len() && s[i] == ',' && s.subrange(i + 1, i + 1 + name.len()) == name
        && s[d - 1] == '=') {
        None
    } else if d + 2 < s.len() && s[d] == '0' && s[d + 1] == 'x' && is_hex_char(s[d + 2]) {
        Some((d + 2, hex_end(s, d + 2)))
    } else if d < s.len() && is_hex_char(s[d]) {
        Some((d, hex_end(s, d)))
    } else {
        None
    }
}

/// The first position `>= i` where `,<name>=<hex>` matches, with the
/// hex digit span it yields.
pub open spec fn find_key_from(s: Seq<char>, name: Seq<char>, i: int) -> Option<(int, int)>
    decreases s.len() - i,
{
    if i < 0 || i >= s.len() {
        None
    } else {
        match key_digits_at(s, name, i) {
            Some(r) => Some(r),
            None => find_key_from(s, name, i + 1),
        }
    }
}

/// The value the script assigns to `name`, by the first
/// `,<name>=<hex>` occurrence.
pub open spec fn spec_resolve_name(s: Seq<char>, name: Seq<char>) -> Option<nat> {
    match find_key_from(s, name, 0) {
        None => None,
        Some((a, b)) => Some(hex_val(s, a, b)),
    }
}

/// As [`spec_resolve_name`], parsed as a 32-bit integer; a value that
/// does not fit drops the resolution.
pub open spec fn spec_resolved_u32(s: Seq<char>, name: Seq<char>) -> Option<u32> {
    match spec_resolve_name(s, name) {
        None => None,
        Some(v) => if v <= u32::MAX {
            Some(v as u32)
        } else {
            None
        },
    }
}

proof fn lemma_hex_end_chars(s: Seq<char>, i: int)
    requires
        0 <= i <= s.len(),
    ensures
        i <= hex_end(s, i) <= s.len(),
        forall|j: int| i <= j < hex_end(s, i) ==> is_hex_char(s[j]),
    decreases s.len() - i,
{
    if i < s.len() && is_hex_char(s[i]) {
        lemma_hex_end_chars(s, i + 1);
    }
}

proof fn lemma_hex_val_prefix(s: Seq<char>, a: int, i: int, b: int)
    requires
        a <= i <= b,
    ensures
        hex_val(s, a, i) <= hex_val(s, a, b),
    decreases b - i,
{
    if i < b {
        lemma_hex_val_prefix(s, a, i + 1, b);
        assert(hex_val(s, a, i + 1) == hex_val(s, a, i) * 16 + hex_char_val(s[i]));
        assert(hex_val(s, a, i) <= hex_val(s, a, i) * 16) by (nonlinear_arith)
            requires
                hex_val(s, a, i) >= 0,
        ;
    }
}

fn hex_digit_val_exec(c: char) -> (r: u32)
    requires
        is_hex_char(c),
    ensures
        r == hex_char_val(c),
{
    let u = c as u32;
    if 48 <= u && u <= 57 {
        u - 48
    } else if 97 <= u && u <= 102 {
        u - 87
    } else {
        u - 55
    }
}

/// The value of the hex digit span `v[a..b]`, or `None` when it does
/// not fit a `u32`.
fn hex_value_exec(v: &Vec<char>, a: usize, b: usize) -> (r: Option<u32>)
    requires
        a <= b <= v@.len(),
        forall|j: int| a <= j < b ==> is_hex_char(v@[j]),
    ensures
        (r is Some) == (hex_val(v@, a as int, b as int) <= u32::MAX),
        r matches Some(x) ==> x == hex_val(v@, a as int, b as int),
{
    let mut acc: u32 = 0;
    let mut i: usize = a;
    while i < b
        invariant
            a <= i <= b <= v@.len(),
            forall|j: int| a <= j < b ==> is_hex_char(v@[j]),
            acc == hex_val(v@, a as int, i as int),
        decreases b - i,
    {
        let d = hex_digit_val_exec(v[i]);
        if acc > (u32::MAX - d) / 16 {
            proof {
                assert(acc * 16 + d > u32::MAX) by (nonlinear_arith)
                    requires
                        acc > (u32::MAX - d) / 16,
                        d <= 15,
                ;
                assert(hex_val(v@, a as int, i + 1 as int) == acc * 16 + d);
                lemma_hex_val_prefix(v@, a as int, i + 1, b as int);
            }
            return None;
        }
        proof {
            assert(acc * 16 + d <= u32::MAX) by (nonlinear_arith)
                requires
                    acc <= (u32::MAX - d) / 16,
                    d <= 15,
            ;
        }
        acc = acc * 16 + d;
        i = i + 1;
    }
    Some(acc)
}

/// As [`key_digits_at`], over the buffer.
fn key_digits_exec(v: &Vec<char>, name: &Vec<char>, i: usize) -> (r: Option<(usize, usize)>)
    requires
        i < v@.len(),
    ensures
        match r {
            Some(p) => key_digits_at(v@, name@, i as int) == Some((p.0 as int, p.1 as int)) && p.0
                <= p.1 <= v@.len() && (forall|j: int| p.0 <= j < p.1 ==> is_hex_char(v@[j])),
            None => key_digits_at(v@, name@, i as int) is None,
        },
{
    let n = v.len();
    let nl = name.len();
    if !(n - i >= 2 && n - i - 2 >= nl) {
        return None;
    }
    if !(v[i] == ',') {
        return None;
    }
    if !crate::utils::match_at(v, name, i + 1) {
        return None;
    }
    if !(v[i + 1 + nl] == '=') {
        return None;
    }
    let d = i + 2 + nl;
    proof {
        assert(v@.subrange(i + 1, i + 1 + name@.len()) == name@);
    }
    if n - d >= 3 && v[d] == '0' && v[d + 1] == 'x' && is_hex_char_exec(v[d + 2]) {
        let e = hex_end_exec(v, d + 2);
        proof {
            lemma_hex_end_chars(v@, d + 2);
        }
        Some((d + 2, e))
    } else if d < n && is_hex_char_exec(v[d]) {
        let e = hex_end_exec(v, d);
        proof {
            lemma_hex_end_chars(v@, d as int);
        }
        Some((d, e))
    } else {
        None
    }
}

proof fn lemma_find_key_some(s: Seq<char>, name: Seq<char>, k: int, i: int, r: (int, int))
    requires
        0 <= k <= i < s.len(),
        key_digits_at(s, name, i) == Some(r),
        forall|j: int| k <= j < i ==> key_digits_at(s, name, j) is None,
    ensures
        find_key_from(s, name, k) == Some(r),
    decreases i - k,
{
    if k < i {
        lemma_find_key_some(s, name, k + 1, i, r);
    }
}

proof fn lemma_find_key_none(s: Seq<char>, name: Seq<char>, k: int)
    requires
        0 <= k,
        forall|j: int| k <= j < s.len() ==> key_digits_at(s, name, j) is None,
    ensures
        find_key_from(s, name, k) is None,
    decreases s.len() - k,
{
    if k < s.len() {
        lemma_find_key_none(s, name, k + 1);
    }
}

/// Resolves a captured value name to its 32-bit value by the first
/// `,<name>=<hex>` assignment in the script.
fn matching_key_value(v: &Vec<char>, name: &Vec<char>) -> (r: Option<u32>)
    ensures
        r == spec_resolved_u32(v@, name@),
{
    let n = v.len();
    let mut i: usize = 0;
    while i < n
        invariant
            n == v@.len(),
            i <= n,
            forall|j: int| 0 <= j < i ==> key_digits_at(v@, name@, j) is None,
        decreases n - i,
    {
        match key_digits_exec(v, name, i) {
            Some(p) => {
                proof {
                    lemma_find_key_some(
                        v@,
                        name@,
                        0,
                        i as int,
                        (p.0 as int, p.1 as int),
                    );
                }
                return hex_value_exec(v, p.0, p.1);
            },
            None => {
                i = i + 1;
            },
        }
    }
    proof {
        lemma_find_key_none(v@, name@, 0);
    }
    None
}

/// The case-branch matches of the script from position `i` on, in
/// source-appearance order, non-overlapping, leftmost first.
pub open spec fn scan_cases(s: Seq<char>, i: int) -> Seq<CaseMatch>
    decreases s.len() - i,
{
    if i < 0 || i >= s.len() {
        Seq::empty()
    } else {
        match match_case_at(s, i) {
            Some(m) => seq![m] + scan_cases(
                s,
                if i < m.end && m.end <= s.len() {
                    m.end
                } else {
                    i + 1
                },
            ),
            None => scan_cases(s, i + 1),
        }
    }
}

/// The pair one match yields: none when its text holds the `partKey`
/// marker or either captured name fails to resolve and parse.
pub open spec fn spec_pair_of_match(s: Seq<char>, m: CaseMatch) -> Option<(u32, u32)> {
    if spec_contains(s.subrange(m.start, m.end), "partKey"@) {
        None
    } else {
        match (spec_resolved_u32(s, s.subrange(m.cap1.0, m.cap1.1)), spec_resolved_u32(
            s,
            s.subrange(m.cap2.0, m.cap2.1),
        )) {
            (Some(a), Some(b)) => Some((a, b)),
            _ => None,
        }
    }
}

/// Law: a case branch whose matched text holds the `partKey` marker is
/// excluded from the pair list, even if it otherwise matches the case
/// pattern.
pub proof fn lemma_part_key_excluded(s: Seq<char>, m: CaseMatch)
    requires
        spec_contains(s.subrange(m.start, m.end), "partKey"@),
    ensures
        spec_pair_of_match(s, m) is None,
{
}

/// The pairs the matches yield, in order, dropped matches skipped.
pub open spec fn spec_pairs_of(s: Seq<char>, ms: Seq<CaseMatch>) -> Seq<(u32, u32)>
    decreases ms.len(),
{
    if ms.len() == 0 {
        Seq::empty()
    } else {
        (match spec_pair_of_match(s, ms[0]) {
            Some(p) => seq![p],
            None => Seq::empty(),
        }) + spec_pairs_of(s, ms.drop_first())
    }
}

/// The (offset, length) pairs the script encodes, in source-appearance
/// order.
pub open spec fn spec_extract_pairs(s: Seq<char>) -> Seq<(u32, u32)> {
    spec_pairs_of(s, scan_cases(s, 0))
}

/// Extracts the (offset, length) pairs from the player script, in
/// source-appearance order; a branch marked `partKey`, or one whose
/// names do not resolve, is dropped without aborting the extraction.
pub fn extract_variables(text: &str) -> (r: Result<Vec<(u32, u32)>, AniRustError>)
    ensures
        r matches Ok(vs) && vs@ == spec_extract_pairs(text@),
{
    let v = to_chars(text);
    let n = v.len();
    let needle = to_chars("partKey");
    let mut out: Vec<(u32, u32)> = Vec::new();
    let mut i: usize = 0;
    while i < n
        invariant
            n == v@.len(),
            v@ == text@,
            needle@ == "partKey"@,
            i <= n,
            out@ + spec_pairs_of(text@, scan_cases(text@, i as int)) == spec_extract_pairs(text@),
        decreases n - i,
    {
        match match_case_exec(&v, i) {
            None => {
                i = i + 1;
            },
            Some(m) => {
                let ghost mspec = CaseMatch {
                    start: i as int,
                    end: m.0 as int,
                    cap1: (m.1.0 as int, m.1.1 as int),
                    cap2: (m.2.0 as int, m.2.1 as int),
                };
                let ghost rest = scan_cases(text@, m.0 as int);
                proof {
                    assert(scan_cases(text@, i as int) == seq![mspec] + rest);
                    assert((seq![mspec] + rest)[0] == mspec);
                    assert((seq![mspec] + rest).drop_first() =~= rest);
                }
                let span = crate::utils::copy_range(&v, i, m.0);
                let ghost pre = out@;
                if !crate::utils::contains_sub(&span, &needle) {
                    let name1 = crate::utils::copy_range(&v, m.1.0, m.1.1);
                    let name2 = crate::utils::copy_range(&v, m.2.0, m.2.1);
                    let r1 = matching_key_value(&v, &name1);
                    let r2 = matching_key_value(&v, &name2);
                    match (r1, r2) {
                        (Some(a), Some(b)) => {
                            out.push((a, b));
                            assert(out@ =~= pre + seq![(a, b)]);
                            assert(pre + (seq![(a, b)] + spec_pairs_of(text@, rest)) =~= (pre
                                + seq![(a, b)]) + spec_pairs_of(text@, rest));
                        },
                        _ => {
                            assert(pre + (Seq::empty() + spec_pairs_of(text@, rest)) =~= pre
                                + spec_pairs_of(text@, rest));
                        },
                    }
                } else {
                    assert(pre + (Seq::empty() + spec_pairs_of(text@, rest)) =~= pre
                        + spec_pairs_of(text@, rest));
                }
                i = m.0;
            },
        }
    }
    assert(out@ =~= out@ + spec_pairs_of(text@, scan_cases(text@, n as int)));
    Ok(out)
}

} // verus!
