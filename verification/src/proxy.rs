//! The proxy pool: parsing proxy feed lists and uniform-random selection.
//!
//! A proxy feed is plain text with one `host:port`-style address per
//! line; blank lines are ignored. Fetching the feeds is network I/O and
//! stays with the caller; this module turns the fetched text into a pool
//! and picks from it.

use vstd::prelude::*;
use vstd::string::*;

use crate::utils::{chars_to_string, copy_range, spec_trim, to_chars, trim_chars};

verus! {

/// One proxy endpoint.
#[derive(Debug, Clone)]
pub struct Proxy {
    pub address: String,
}

/// The pieces of `s` split at every occurrence of `sep`, scanning from
/// position `i` with the current piece having started at `start`.
pub open spec fn spec_split_from(s: Seq<char>, sep: char, i: int, start: int) -> Seq<Seq<char>>
    decreases s.len() - i,
{
    if i < 0 || start < 0 || start > i || i >= s.len() {
        seq![s.subrange(if 0 <= start <= s.len() { start } else { 0 }, s.len() as int)]
    } else if s[i] == sep {
        seq![s.subrange(start, i)] + spec_split_from(s, sep, i + 1, i + 1)
    } else {
        spec_split_from(s, sep, i + 1, start)
    }
}

/// The addresses that remain of a list of raw lines after trimming each
/// and dropping the blank ones.
pub open spec fn spec_clean_lines(lines: Seq<Seq<char>>) -> Seq<Seq<char>>
    decreases lines.len(),
{
    if lines.len() == 0 {
        Seq::empty()
    } else {
        let t = spec_trim(lines[0]);
        (if t.len() > 0 {
            seq![t]
        } else {
            Seq::empty()
        }) + spec_clean_lines(lines.subrange(1, lines.len() as int))
    }
}

/// The proxy addresses of a newline-delimited feed body.
pub open spec fn spec_proxy_addresses(text: Seq<char>) -> Seq<Seq<char>> {
    spec_clean_lines(spec_split_from(text, '\n', 0, 0))
}

/// Parses a proxy feed body: one address per line, trimmed, with blank
/// lines ignored.
pub fn parse_proxy_list(text: &str) -> (r: Vec<Proxy>)
    ensures
        r@.map(|i: int, p: Proxy| p.address@) == spec_proxy_addresses(text@),
{
    let chars = to_chars(text);
    let n = chars.len();
    let mut out: Vec<Proxy> = Vec::new();
    let mut start: usize = 0;
    let mut i: usize = 0;
    while i < n
        invariant
            n == chars@.len(),
            chars@ == text@,
            start <= i <= n,
            out@.map(|k: int, p: Proxy| p.address@) + spec_clean_lines(
                spec_split_from(text@, '\n', i as int, start as int),
            ) == spec_proxy_addresses(text@),
        decreases n - i,
    {
        if chars[i] == '\n' {
            proof {
                let x = text@.subrange(start as int, i as int);
                let rest = spec_split_from(text@, '\n', i + 1, i + 1);
                let pieces = spec_split_from(text@, '\n', i as int, start as int);
                assert(pieces == seq![x] + rest);
                assert(pieces[0] == x);
                assert(pieces.subrange(1, pieces.len() as int) =~= rest);
            }
            let piece = copy_range(&chars, start, i);
            let t = trim_chars(&piece);
            let ghost pre = out@;
            let ghost tspec = spec_trim(text@.subrange(start as int, i as int));
            if t.len() > 0 {
                out.push(Proxy { address: chars_to_string(&t) });
                assert(out@.map(|k: int, p: Proxy| p.address@) =~= pre.map(
                    |k: int, p: Proxy| p.address@,
                ) + seq![tspec]);
                assert(pre.map(|k: int, p: Proxy| p.address@) + (seq![tspec]
                    + spec_clean_lines(spec_split_from(text@, '\n', i + 1, i + 1))) =~= (pre.map(
                    |k: int, p: Proxy| p.address@,
                ) + seq![tspec]) + spec_clean_lines(spec_split_from(text@, '\n', i + 1, i + 1)));
            } else {
                assert(pre.map(|k: int, p: Proxy| p.address@) + (Seq::empty() + spec_clean_lines(
                    spec_split_from(text@, '\n', i + 1, i + 1),
                )) =~= pre.map(|k: int, p: Proxy| p.address@) + spec_clean_lines(
                    spec_split_from(text@, '\n', i + 1, i + 1),
                ));
            }
            start = i + 1;
        }
        i = i + 1;
    }
    proof {
        let x = text@.subrange(start as int, n as int);
        let pieces = spec_split_from(text@, '\n', n as int, start as int);
        assert(pieces == seq![x]);
        assert(pieces[0] == x);
        assert(pieces.subrange(1, 1) =~= Seq::<Seq<char>>::empty());
        assert(spec_clean_lines(Seq::<Seq<char>>::empty()) == Seq::<Seq<char>>::empty());
    }
    let piece = copy_range(&chars, start, n);
    let t = trim_chars(&piece);
    let ghost pre = out@;
    let ghost tspec = spec_trim(text@.subrange(start as int, n as int));
    if t.len() > 0 {
        out.push(Proxy { address: chars_to_string(&t) });
        assert(out@.map(|k: int, p: Proxy| p.address@) =~= pre.map(|k: int, p: Proxy| p.address@)
            + seq![tspec]);
        assert(pre.map(|k: int, p: Proxy| p.address@) + (seq![tspec] + Seq::empty()) =~= pre.map(
            |k: int, p: Proxy| p.address@,
        ) + seq![tspec]);
    } else {
        assert(pre.map(|k: int, p: Proxy| p.address@) + (Seq::empty() + Seq::empty()) =~= pre.map(
            |k: int, p: Proxy| p.address@,
        ));
    }
    out
}

/// Concatenates the pools parsed from the three proxy feeds into one
/// flat pool, feed order kept.
pub fn combine_proxy_pools(sock5: Vec<Proxy>, sock4: Vec<Proxy>, http: Vec<Proxy>) -> (r: Vec<
    Proxy,
>)
    ensures
        r@ == sock5@ + sock4@ + http@,
{
    let mut all = sock5;
    let mut sock4 = sock4;
    let mut http = http;
    all.append(&mut sock4);
    all.append(&mut http);
    all
}

/// Relies on `rand::Rng::gen_range`: the result of sampling `0..n` is
/// below `n`; which value comes back is left open.
#[verifier::external_body]
fn random_index(n: usize) -> (r: usize)
    requires
        n > 0,
    ensures
        r < n,
{
    <rand::rngs::ThreadRng as rand::Rng>::gen_range(&mut rand::thread_rng(), 0..n)
}

/// Picks a proxy uniformly at random; none if the pool is empty. The
/// contract pins only that the pick, when there is one, is an element of
/// the pool.
pub fn get_random_proxy(proxies: &[Proxy]) -> (r: Option<Proxy>)
    ensures
        (r is Some) == (proxies@.len() > 0),
        r matches Some(p) ==> exists|i: int|
            0 <= i < proxies@.len() && p.address@ == proxies@[i].address@,
{
    if proxies.len() == 0 {
        return None;
    }
    let i = random_index(proxies.len());
    let p = Proxy { address: proxies[i].address.clone() };
    assert(p.address@ == proxies@[i as int].address@);
    Some(p)
}

} // verus!
