//! Small verified string and number utilities shared by the pipeline.

use vstd::prelude::*;
use vstd::string::*;

use crate::errors::AniRustError;

verus! {

/// `needle` occurs in `hay` at position `i`.
pub open spec fn occurs_at(hay: Seq<char>, needle: Seq<char>, i: int) -> bool {
    &&& 0 <= i
    &&& i + needle.len() <= hay.len()
    &&& hay.subrange(i, i + needle.len()) == needle
}

/// The least position `>= i` where `needle` occurs in `hay`, if any.
pub open spec fn spec_find_from(hay: Seq<char>, needle: Seq<char>, i: int) -> Option<int>
    decreases hay.len() - i,
{
    if i < 0 || i + needle.len() > hay.len() {
        None
    } else if needle.len() == 0 || occurs_at(hay, needle, i) {
        Some(i)
    } else {
        spec_find_from(hay, needle, i + 1)
    }
}

/// An empty needle occurs at every position inside the haystack.
pub proof fn lemma_empty_needle_occurs(hay: Seq<char>, needle: Seq<char>, i: int)
    requires
        needle.len() == 0,
        0 <= i <= hay.len(),
    ensures
        occurs_at(hay, needle, i),
{
    assert(hay.subrange(i, i) =~= needle);
}

/// The least position where `needle` occurs in `hay`, if any.
pub open spec fn spec_find(hay: Seq<char>, needle: Seq<char>) -> Option<int> {
    spec_find_from(hay, needle, 0)
}

/// `needle` occurs somewhere in `hay`.
pub open spec fn spec_contains(hay: Seq<char>, needle: Seq<char>) -> bool {
    exists|i: int| occurs_at(hay, needle, i)
}

proof fn lemma_find_from_some(hay: Seq<char>, needle: Seq<char>, k: int, i: int)
    requires
        0 <= k <= i,
        occurs_at(hay, needle, i),
        forall|j: int| k <= j < i ==> !occurs_at(hay, needle, j),
    ensures
        spec_find_from(hay, needle, k) == Some(i),
    decreases i - k,
{
    if needle.len() == 0 {
        lemma_empty_needle_occurs(hay, needle, k);
    }
    if k < i {
        lemma_find_from_some(hay, needle, k + 1, i);
    }
}

proof fn lemma_find_from_none(hay: Seq<char>, needle: Seq<char>, k: int)
    requires
        0 <= k,
        forall|j: int| k <= j ==> !occurs_at(hay, needle, j),
    ensures
        spec_find_from(hay, needle, k) is None,
    decreases hay.len() - k,
{
    if k + needle.len() <= hay.len() {
        if needle.len() == 0 {
            lemma_empty_needle_occurs(hay, needle, k);
        }
        lemma_find_from_none(hay, needle, k + 1);
    }
}

/// If `needle` is found at `i`, it indeed occurs there and nowhere earlier
/// (from the search start on).
pub proof fn lemma_find_spec(hay: Seq<char>, needle: Seq<char>, k: int)
    requires
        0 <= k,
    ensures
        match spec_find_from(hay, needle, k) {
            Some(i) => occurs_at(hay, needle, i) && k <= i && (forall|j: int|
                k <= j < i ==> !occurs_at(hay, needle, j)),
            None => forall|j: int| j >= k ==> !occurs_at(hay, needle, j),
        },
    decreases hay.len() - k,
{
    if k + needle.len() > hay.len() {
        assert forall|j: int| j >= k implies !occurs_at(hay, needle, j) by {}
    } else if needle.len() == 0 {
        lemma_empty_needle_occurs(hay, needle, k);
    } else if occurs_at(hay, needle, k) {
    } else {
        lemma_find_spec(hay, needle, k + 1);
    }
}

/// The greatest position `<= i` where `needle` occurs in `hay`, if any.
pub open spec fn spec_rfind_upto(hay: Seq<char>, needle: Seq<char>, i: int) -> Option<int>
    decreases i + 1,
{
    if i < 0 {
        None
    } else if occurs_at(hay, needle, i) {
        Some(i)
    } else {
        spec_rfind_upto(hay, needle, i - 1)
    }
}

/// The greatest position where `needle` occurs in `hay`, if any.
pub open spec fn spec_rfind(hay: Seq<char>, needle: Seq<char>) -> Option<int> {
    spec_rfind_upto(hay, needle, hay.len() - needle.len())
}

proof fn lemma_rfind_upto_some(hay: Seq<char>, needle: Seq<char>, k: int, i: int)
    requires
        0 <= i <= k,
        occurs_at(hay, needle, i),
        forall|j: int| i < j <= k ==> !occurs_at(hay, needle, j),
    ensures
        spec_rfind_upto(hay, needle, k) == Some(i),
    decreases k - i,
{
    if i < k {
        lemma_rfind_upto_some(hay, needle, k - 1, i);
    }
}

proof fn lemma_rfind_upto_none(hay: Seq<char>, needle: Seq<char>, k: int)
    requires
        forall|j: int| j <= k ==> !occurs_at(hay, needle, j),
    ensures
        spec_rfind_upto(hay, needle, k) is None,
    decreases k + 1,
{
    if k >= 0 {
        lemma_rfind_upto_none(hay, needle, k - 1);
    }
}

/// Finds the last occurrence of `needle` in `hay`.
pub fn rfind_sub(hay: &Vec<char>, needle: &Vec<char>) -> (r: Option<usize>)
    ensures
        match r {
            Some(i) => spec_rfind(hay@, needle@) == Some(i as int) && occurs_at(
                hay@,
                needle@,
                i as int,
            ),
            None => spec_rfind(hay@, needle@) is None,
        },
{
    if needle.len() > hay.len() {
        proof {
            lemma_rfind_upto_none(hay@, needle@, hay@.len() - needle@.len());
        }
        return None;
    }
    let top = hay.len() - needle.len();
    let mut i: usize = top;
    loop
        invariant
            i <= top,
            top == hay@.len() - needle@.len(),
            needle@.len() <= hay@.len(),
            forall|j: int| i < j <= top ==> !occurs_at(hay@, needle@, j),
        decreases i,
    {
        if match_at(hay, needle, i) {
            proof {
                lemma_rfind_upto_some(hay@, needle@, top as int, i as int);
            }
            return Some(i);
        }
        if i == 0 {
            proof {
                assert forall|j: int| j <= top as int implies !occurs_at(hay@, needle@, j) by {
                    if 0 < j <= top as int {
                        assert(!occurs_at(hay@, needle@, j));
                    } else if j == 0 {
                    } else {
                        assert(j < 0);
                    }
                }
                lemma_rfind_upto_none(hay@, needle@, top as int);
            }
            return None;
        }
        i = i - 1;
    }
}

/// Collects the characters of a string slice.
pub fn to_chars(s: &str) -> (v: Vec<char>)
    ensures
        v@ == s@,
{
    let n = s.unicode_len();
    let mut v: Vec<char> = Vec::new();
    let mut i: usize = 0;
    while i < n
        invariant
            n == s@.len(),
            i <= n,
            v@ == s@.subrange(0, i as int),
        decreases n - i,
    {
        v.push(s.get_char(i));
        assert(v@ =~= s@.subrange(0, i + 1 as int));
        i = i + 1;
    }
    assert(v@ =~= s@);
    v
}

/// Relies on `core::iter::Iterator::collect`: building a `String` out of
/// a sequence of characters preserves the sequence.
#[verifier::external_body]
pub fn chars_to_string(v: &Vec<char>) -> (s: String)
    ensures
        s@ == v@,
{
    v.iter().collect()
}

/// Whether `needle` matches `hay` exactly at position `i`.
pub fn match_at(hay: &Vec<char>, needle: &Vec<char>, i: usize) -> (b: bool)
    requires
        i + needle@.len() <= hay@.len(),
    ensures
        b == occurs_at(hay@, needle@, i as int),
{
    let hlen = hay.len();
    let nlen = needle.len();
    let mut j: usize = 0;
    while j < nlen
        invariant
            hlen == hay@.len(),
            nlen == needle@.len(),
            i + needle@.len() <= hay@.len(),
            j <= needle@.len(),
            forall|t: int| 0 <= t < j ==> hay@[i + t] == needle@[t],
        decreases needle@.len() - j,
    {
        if hay[i + j] != needle[j] {
            assert(hay@.subrange(i as int, i + needle@.len()) != needle@) by {
                assert(hay@.subrange(i as int, i + needle@.len())[j as int] != needle@[j as int]);
            }
            return false;
        }
        j = j + 1;
    }
    assert(hay@.subrange(i as int, i + needle@.len()) =~= needle@);
    true
}

/// Finds the first occurrence of `needle` in `hay` at or after `from`.
pub fn find_sub(hay: &Vec<char>, needle: &Vec<char>, from: usize) -> (r: Option<usize>)
    ensures
        match r {
            Some(i) => from <= i && spec_find_from(hay@, needle@, from as int) == Some(i as int),
            None => spec_find_from(hay@, needle@, from as int) is None,
        },
{
    let mut i: usize = from;
    if needle.len() > hay.len() || from > hay.len() - needle.len() {
        proof {
            lemma_find_from_none(hay@, needle@, from as int);
        }
        return None;
    }
    let hlen = hay.len();
    let last = hay.len() - needle.len();
    while i <= last
        invariant
            from <= i,
            hlen == hay@.len(),
            needle@.len() <= hay@.len(),
            last == hay@.len() - needle@.len(),
            forall|j: int| from <= j < i ==> !occurs_at(hay@, needle@, j),
        decreases last + 1 - i,
    {
        if match_at(hay, needle, i) {
            proof {
                lemma_find_from_some(hay@, needle@, from as int, i as int);
            }
            return Some(i);
        }
        proof {
            if needle@.len() == 0 {
                lemma_empty_needle_occurs(hay@, needle@, i as int);
            }
        }
        i = i + 1;
    }
    proof {
        lemma_find_from_none(hay@, needle@, from as int);
    }
    None
}

/// Whether `needle` occurs anywhere in `hay`.
pub fn contains_sub(hay: &Vec<char>, needle: &Vec<char>) -> (b: bool)
    ensures
        b == spec_contains(hay@, needle@),
{
    let r = find_sub(hay, needle, 0);
    proof {
        lemma_find_spec(hay@, needle@, 0);
    }
    match r {
        Some(_) => true,
        None => {
            assert forall|i: int| !occurs_at(hay@, needle@, i) by {
                if 0 <= i {
                    assert(!occurs_at(hay@, needle@, i));
                }
            }
            false
        },
    }
}

/// Character-by-character equality of two string slices.
pub fn str_eq(a: &str, b: &str) -> (r: bool)
    ensures
        r == (a@ == b@),
{
    let na = a.unicode_len();
    let nb = b.unicode_len();
    if na != nb {
        assert(a@ != b@);
        return false;
    }
    let mut i: usize = 0;
    while i < na
        invariant
            na == a@.len(),
            na == b@.len(),
            i <= na,
            forall|t: int| 0 <= t < i ==> a@[t] == b@[t],
        decreases na - i,
    {
        if a.get_char(i) != b.get_char(i) {
            return false;
        }
        i = i + 1;
    }
    assert(a@ =~= b@);
    true
}

/// `c` is an ASCII decimal digit.
pub open spec fn is_digit(c: char) -> bool {
    48 <= c as int && c as int <= 57
}

/// The value of an ASCII decimal digit.
pub open spec fn digit_val(c: char) -> nat {
    ((c as int) - 48) as nat
}

/// Every character of `s` is an ASCII decimal digit.
pub open spec fn all_digits(s: Seq<char>) -> bool {
    forall|i: int| 0 <= i < s.len() ==> is_digit(#[trigger] s[i])
}

/// The numeric value of a string of decimal digits.
pub open spec fn digits_val(s: Seq<char>) -> nat
    decreases s.len(),
{
    if s.len() == 0 {
        0
    } else {
        digits_val(s.drop_last()) * 10 + digit_val(s.last())
    }
}

proof fn lemma_digits_val_prefix(s: Seq<char>, i: int)
    requires
        0 <= i <= s.len(),
    ensures
        digits_val(s.subrange(0, i)) <= digits_val(s),
    decreases s.len() - i,
{
    if i < s.len() {
        lemma_digits_val_prefix(s, i + 1);
        let p = s.subrange(0, i + 1);
        assert(p.drop_last() =~= s.subrange(0, i));
        assert(digits_val(s.subrange(0, i)) <= digits_val(p));
    } else {
        assert(s.subrange(0, i) =~= s);
    }
}

/// The digits of `s` after an optional leading plus sign, as Rust's
/// unsigned integer parser reads them.
pub open spec fn spec_sign_stripped(s: Seq<char>) -> Seq<char> {
    if s.len() > 0 && s[0] == '+' {
        s.subrange(1, s.len() as int)
    } else {
        s
    }
}

/// The character at position `i`, by value.
fn char_at(v: &Vec<char>, i: usize) -> (c: char)
    requires
        i < v@.len(),
    ensures
        c == v@[i as int],
{
    v[i]
}

/// Parses `v[from..]` as decimal digits: the value when that span is a
/// non-empty digit string fitting `usize`, `None` otherwise.
fn digits_to_usize(v: &Vec<char>, from: usize) -> (r: Option<usize>)
    requires
        from <= v@.len(),
    ensures
        ({
            let d = v@.subrange(from as int, v@.len() as int);
            match r {
                Some(x) => d.len() > 0 && all_digits(d) && digits_val(d) <= usize::MAX && x
                    == digits_val(d),
                None => d.len() == 0 || !all_digits(d) || digits_val(d) > usize::MAX,
            }
        }),
{
    let ghost d = v@.subrange(from as int, v@.len() as int);
    let n = v.len();
    if from == n {
        return None;
    }
    let mut acc: usize = 0;
    let mut i: usize = from;
    while i < n
        invariant
            n == v@.len(),
            from <= i <= n,
            d == v@.subrange(from as int, v@.len() as int),
            all_digits(v@.subrange(from as int, i as int)),
            acc == digits_val(v@.subrange(from as int, i as int)),
        decreases n - i,
    {
        let c = char_at(v, i);
        let cu = c as u32;
        if cu < 48 || cu > 57 {
            assert(!all_digits(d)) by {
                assert(d[i - from] == v@[i as int]);
                assert(!is_digit(d[i - from]));
            }
            return None;
        }
        let dv = (cu - 48) as usize;
        if acc > (usize::MAX - dv) / 10 {
            proof {
                let p = v@.subrange(from as int, i + 1);
                assert(p.drop_last() =~= v@.subrange(from as int, i as int));
                assert(p.last() == v@[i as int]);
                assert(c == v@[i as int]);
                assert(c as int == cu as int);
                assert(48 <= c as int && c as int <= 57);
                assert(dv as int == c as int - 48);
                assert(digit_val(v@[i as int]) == dv as nat);
                assert(digits_val(p) == acc * 10 + dv);
                assert(acc * 10 + dv > usize::MAX) by (nonlinear_arith)
                    requires
                        acc > (usize::MAX - dv) / 10,
                        dv <= 9,
                ;
                assert(d.subrange(0, i + 1 - from) =~= p);
                lemma_digits_val_prefix(d, i + 1 - from);
            }
            return None;
        }
        proof {
            assert(acc * 10 + dv <= usize::MAX) by (nonlinear_arith)
                requires
                    acc <= (usize::MAX - dv) / 10,
                    dv <= 9,
            ;
        }
        let new_acc = acc * 10 + dv;
        proof {
            let p = v@.subrange(from as int, i + 1);
            assert(p.drop_last() =~= v@.subrange(from as int, i as int));
            assert(p.last() == v@[i as int]);
            assert(c == v@[i as int]);
            assert(c as int == cu as int);
            assert(48 <= c as int && c as int <= 57);
            assert(dv as int == c as int - 48);
            assert(digit_val(v@[i as int]) == dv as nat);
            assert(digits_val(p) == acc * 10 + dv);
        }
        acc = new_acc;
        i = i + 1;
    }
    assert(v@.subrange(from as int, n as int) =~= d);
    Some(acc)
}

/// Parses a decimal `usize` as Rust's parser does: an optional leading
/// `+`, then a non-empty digit string whose value fits; anything else
/// is a parse error.
pub fn parse_usize(s: &str) -> (r: Result<usize, AniRustError>)
    ensures
        ({
            let d = spec_sign_stripped(s@);
            match r {
                Ok(n) => d.len() > 0 && all_digits(d) && digits_val(d) <= usize::MAX && n
                    == digits_val(d),
                Err(e) => (d.len() == 0 || !all_digits(d) || digits_val(d) > usize::MAX) && e
                    is ParseIntError,
            }
        }),
{
    let chars = to_chars(s);
    let start: usize = if chars.len() > 0 && chars[0] == '+' {
        1
    } else {
        0
    };
    proof {
        assert(chars@.subrange(start as int, chars@.len() as int) =~= spec_sign_stripped(s@));
    }
    match digits_to_usize(&chars, start) {
        Some(x) => Ok(x),
        None => Err(AniRustError::ParseIntError(String::from_str("invalid digit string"))),
    }
}

/// The value of a decimal id attribute: after trimming and an optional
/// leading `+`, a non-empty digit string whose value fits 32 bits;
/// anything else reads as zero.
pub open spec fn spec_id_value(s: Seq<char>) -> u32 {
    let d = spec_sign_stripped(spec_trim(s));
    if d.len() > 0 && all_digits(d) && digits_val(d) <= u32::MAX {
        digits_val(d) as u32
    } else {
        0
    }
}

/// Reads a scraped id attribute, zero standing for a missing or
/// malformed value.
pub fn parse_u32_or_zero(s: &str) -> (r: u32)
    ensures
        r == spec_id_value(s@),
{
    let chars = to_chars(s);
    let t = trim_chars(&chars);
    let start: usize = if t.len() > 0 && t[0] == '+' {
        1
    } else {
        0
    };
    proof {
        assert(t@.subrange(start as int, t@.len() as int) =~= spec_sign_stripped(spec_trim(s@)));
    }
    match digits_to_usize(&t, start) {
        Some(x) => {
            if x <= u32::MAX as usize {
                x as u32
            } else {
                0
            }
        },
        None => 0,
    }
}

/// The suffix of `s` that follows the first occurrence of `to_find`,
/// or the empty string if `to_find` does not occur.
pub fn substring_after(s: &str, to_find: &str) -> (r: String)
    ensures
        match spec_find(s@, to_find@) {
            Some(i) => r@ == s@.subrange(i + to_find@.len(), s@.len() as int),
            None => r@ == Seq::<char>::empty(),
        },
{
    let hay = to_chars(s);
    let needle = to_chars(to_find);
    match find_sub(&hay, &needle, 0) {
        Some(i) => {
            proof {
                lemma_find_spec(s@, to_find@, 0);
            }
            let slen = s.unicode_len();
            let tlen = to_find.unicode_len();
            let sub = s.substring_char(i + tlen, slen);
            String::from_str(sub)
        },
        None => String::new(),
    }
}

/// The prefix of `s` before the first occurrence of `to_find`,
/// or the empty string if `to_find` does not occur.
pub fn substring_before(s: &str, to_find: &str) -> (r: String)
    ensures
        match spec_find(s@, to_find@) {
            Some(i) => r@ == s@.subrange(0, i),
            None => r@ == Seq::<char>::empty(),
        },
{
    let hay = to_chars(s);
    let needle = to_chars(to_find);
    match find_sub(&hay, &needle, 0) {
        Some(i) => {
            proof {
                lemma_find_spec(s@, to_find@, 0);
            }
            let sub = s.substring_char(0, i);
            String::from_str(sub)
        },
        None => String::new(),
    }
}

/// `c` is an ASCII whitespace character. Trimming and pattern spacing
/// throughout the crate are deliberately ASCII-only: the feeds and
/// scripts handled are ASCII text.
pub open spec fn is_ws(c: char) -> bool {
    c == ' ' || c == '\t' || c == '\r' || c == '\n' || c as int == 11 || c as int == 12
}

pub fn is_ws_exec(c: char) -> (b: bool)
    ensures
        b == is_ws(c),
{
    let u = c as u32;
    u == 32 || u == 9 || u == 13 || u == 10 || u == 11 || u == 12
}

/// The first position `>= i` in `s` holding a non-whitespace character,
/// or the length of `s` if there is none.
pub open spec fn first_non_ws(s: Seq<char>, i: int) -> int
    decreases s.len() - i,
{
    if i < 0 || i >= s.len() {
        s.len() as int
    } else if is_ws(s[i]) {
        first_non_ws(s, i + 1)
    } else {
        i
    }
}

/// One past the last position `< i` in `s` holding a non-whitespace
/// character, or 0 if there is none.
pub open spec fn last_non_ws(s: Seq<char>, i: int) -> int
    decreases i,
{
    if i <= 0 || i > s.len() {
        0
    } else if is_ws(s[i - 1]) {
        last_non_ws(s, i - 1)
    } else {
        i
    }
}

/// `s` with leading and trailing ASCII whitespace removed.
pub open spec fn spec_trim(s: Seq<char>) -> Seq<char> {
    let a = first_non_ws(s, 0);
    if a >= s.len() {
        Seq::empty()
    } else {
        s.subrange(a, last_non_ws(s, s.len() as int))
    }
}

proof fn lemma_first_non_ws(s: Seq<char>, i: int)
    requires
        0 <= i <= s.len(),
    ensures
        i <= first_non_ws(s, i) <= s.len(),
        forall|j: int| i <= j < first_non_ws(s, i) ==> is_ws(s[j]),
        first_non_ws(s, i) < s.len() ==> !is_ws(s[first_non_ws(s, i)]),
    decreases s.len() - i,
{
    if i < s.len() && is_ws(s[i]) {
        lemma_first_non_ws(s, i + 1);
    }
}

proof fn lemma_last_non_ws(s: Seq<char>, i: int)
    requires
        0 <= i <= s.len(),
    ensures
        0 <= last_non_ws(s, i) <= i,
        forall|j: int| last_non_ws(s, i) <= j < i ==> is_ws(s[j]),
        last_non_ws(s, i) > 0 ==> !is_ws(s[last_non_ws(s, i) - 1]),
    decreases i,
{
    if i > 0 && is_ws(s[i - 1]) {
        lemma_last_non_ws(s, i - 1);
    }
}

/// Copies `v[from..to]` into a fresh vector.
pub fn copy_range(v: &Vec<char>, from: usize, to: usize) -> (r: Vec<char>)
    requires
        from <= to <= v@.len(),
    ensures
        r@ == v@.subrange(from as int, to as int),
{
    let mut r: Vec<char> = Vec::new();
    let mut i: usize = from;
    while i < to
        invariant
            from <= i <= to <= v@.len(),
            r@ == v@.subrange(from as int, i as int),
        decreases to - i,
    {
        r.push(v[i]);
        assert(r@ =~= v@.subrange(from as int, i + 1 as int));
        i = i + 1;
    }
    r
}

/// Removes leading and trailing ASCII whitespace.
pub fn trim_chars(v: &Vec<char>) -> (r: Vec<char>)
    ensures
        r@ == spec_trim(v@),
{
    let n = v.len();
    let mut a: usize = 0;
    while a < n && is_ws_exec(v[a])
        invariant
            n == v@.len(),
            a <= n,
            first_non_ws(v@, 0) == first_non_ws(v@, a as int),
        decreases n - a,
    {
        a = a + 1;
    }
    assert(first_non_ws(v@, 0) == a as int);
    if a == n {
        let r: Vec<char> = Vec::new();
        return r;
    }
    let mut b: usize = n;
    while b > a && is_ws_exec(v[b - 1])
        invariant
            n == v@.len(),
            a < n,
            a < b <= n,
            !is_ws(v@[a as int]),
            last_non_ws(v@, n as int) == last_non_ws(v@, b as int),
        decreases b,
    {
        b = b - 1;
    }
    assert(last_non_ws(v@, n as int) == b as int);
    copy_range(v, a, b)
}

/// The decimal digit character for `n < 10`.
pub open spec fn spec_digit_char(n: nat) -> char {
    if n == 0 {
        '0'
    } else if n == 1 {
        '1'
    } else if n == 2 {
        '2'
    } else if n == 3 {
        '3'
    } else if n == 4 {
        '4'
    } else if n == 5 {
        '5'
    } else if n == 6 {
        '6'
    } else if n == 7 {
        '7'
    } else if n == 8 {
        '8'
    } else {
        '9'
    }
}

/// The decimal representation of `n`, most significant digit first.
pub open spec fn spec_dec_digits(n: nat) -> Seq<char>
    decreases n,
{
    if n < 10 {
        seq![spec_digit_char(n)]
    } else {
        spec_dec_digits(n / 10) + seq![spec_digit_char(n % 10)]
    }
}

fn digit_char(n: u64) -> (c: char)
    requires
        n < 10,
    ensures
        c == spec_digit_char(n as nat),
{
    if n == 0 {
        '0'
    } else if n == 1 {
        '1'
    } else if n == 2 {
        '2'
    } else if n == 3 {
        '3'
    } else if n == 4 {
        '4'
    } else if n == 5 {
        '5'
    } else if n == 6 {
        '6'
    } else if n == 7 {
        '7'
    } else if n == 8 {
        '8'
    } else {
        '9'
    }
}

fn push_dec(n: u64, out: &mut Vec<char>)
    ensures
        final(out)@ == old(out)@ + spec_dec_digits(n as nat),
    decreases n,
{
    if n >= 10 {
        push_dec(n / 10, out);
    }
    out.push(digit_char(n % 10));
    proof {
        if n < 10 {
            assert(n % 10 == n);
            assert(out@ =~= old(out)@ + spec_dec_digits(n as nat));
        } else {
            assert(out@ =~= old(out)@ + spec_dec_digits(n as nat));
        }
    }
}

/// Renders `n` in decimal.
pub fn u64_to_dec_string(n: u64) -> (r: String)
    ensures
        r@ == spec_dec_digits(n as nat),
{
    let mut v: Vec<char> = Vec::new();
    push_dec(n, &mut v);
    assert(v@ =~= spec_dec_digits(n as nat));
    chars_to_string(&v)
}

/// The lowercase hex digit character for `n < 16`.
pub open spec fn spec_hex_char(n: nat) -> char {
    if n < 10 {
        spec_digit_char(n)
    } else if n == 10 {
        'a'
    } else if n == 11 {
        'b'
    } else if n == 12 {
        'c'
    } else if n == 13 {
        'd'
    } else if n == 14 {
        'e'
    } else {
        'f'
    }
}

/// The two lowercase hex characters of one byte.
pub open spec fn spec_hex_byte(b: u8) -> Seq<char> {
    seq![spec_hex_char((b / 16) as nat), spec_hex_char((b % 16) as nat)]
}

/// The lowercase hex encoding of a byte string.
pub open spec fn spec_hex_bytes(b: Seq<u8>) -> Seq<char>
    decreases b.len(),
{
    if b.len() == 0 {
        Seq::empty()
    } else {
        spec_hex_bytes(b.drop_last()) + spec_hex_byte(b.last())
    }
}

fn hex_char(n: u8) -> (c: char)
    requires
        n < 16,
    ensures
        c == spec_hex_char(n as nat),
{
    if n < 10 {
        digit_char(n as u64)
    } else if n == 10 {
        'a'
    } else if n == 11 {
        'b'
    } else if n == 12 {
        'c'
    } else if n == 13 {
        'd'
    } else if n == 14 {
        'e'
    } else {
        'f'
    }
}

/// Renders a byte string as lowercase hex, two digits per byte.
pub fn bytes_to_hex(bytes: &Vec<u8>) -> (r: String)
    ensures
        r@ == spec_hex_bytes(bytes@),
{
    let mut v: Vec<char> = Vec::new();
    let mut i: usize = 0;
    while i < bytes.len()
        invariant
            i <= bytes@.len(),
            v@ == spec_hex_bytes(bytes@.subrange(0, i as int)),
        decreases bytes@.len() - i,
    {
        let b = bytes[i];
        v.push(hex_char(b / 16));
        v.push(hex_char(b % 16));
        proof {
            let p = bytes@.subrange(0, i + 1);
            assert(p.drop_last() =~= bytes@.subrange(0, i as int));
            assert(v@ =~= spec_hex_bytes(bytes@.subrange(0, i as int)) + spec_hex_byte(
                bytes@[i as int],
            ));
        }
        i = i + 1;
    }
    assert(bytes@.subrange(0, bytes@.len() as int) =~= bytes@);
    chars_to_string(&v)
}

} // verus!
