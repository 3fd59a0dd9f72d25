//! The secret reconstructor.
//!
//! The encrypted source blob carries the cipher secret spliced into
//! itself at the offsets the player script encodes. Walking the
//! (offset, length) pairs in order with a cumulative cursor — each
//! offset is relative to the cursor, and the cursor advances by each
//! pair's length, not by offset plus length — the secret's characters
//! are read out of the original, unmodified string, and the remaining
//! ciphertext is the original with exactly the consumed positions
//! removed, in original order. Out-of-bounds reads silently truncate
//! instead of failing: they consume nothing.

use vstd::prelude::*;
use vstd::string::*;

use crate::utils::{chars_to_string, to_chars};

verus! {

/// `a + b`, clamped to `n`.
pub open spec fn clamp_add(a: nat, b: nat, n: nat) -> nat {
    if a + b <= n {
        (a + b) as nat
    } else {
        n
    }
}

/// `mask` with positions `a <= i < b` marked consumed.
pub open spec fn spec_mark(mask: Seq<bool>, a: int, b: int) -> Seq<bool> {
    Seq::new(
        mask.len(),
        |i: int|
            if a <= i < b {
                true
            } else {
                mask[i]
            },
    )
}

/// One pair's effect on the reconstruction state: the in-bounds part of
/// the addressed slice joins the secret and is marked consumed, and the
/// cursor advances by the pair's length.
pub open spec fn spec_split_step(
    s: Seq<char>,
    secret: Seq<char>,
    mask: Seq<bool>,
    cursor: nat,
    off: nat,
    len: nat,
) -> (Seq<char>, Seq<bool>, nat) {
    let start = clamp_add(cursor, off, s.len());
    let end = clamp_add(start, len, s.len());
    (
        secret + s.subrange(start as int, end as int),
        spec_mark(mask, start as int, end as int),
        clamp_add(cursor, len, s.len()),
    )
}

/// The reconstruction state after the pairs from index `k` on.
pub open spec fn spec_run_pairs(
    s: Seq<char>,
    pairs: Seq<(u32, u32)>,
    k: int,
    secret: Seq<char>,
    mask: Seq<bool>,
    cursor: nat,
) -> (Seq<char>, Seq<bool>, nat)
    decreases pairs.len() - k,
{
    if k < 0 || k >= pairs.len() {
        (secret, mask, cursor)
    } else {
        let st = spec_split_step(s, secret, mask, cursor, pairs[k].0 as nat, pairs[k].1 as nat);
        spec_run_pairs(s, pairs, k + 1, st.0, st.1, st.2)
    }
}

/// The all-unconsumed mask.
pub open spec fn spec_initial_mask(n: nat) -> Seq<bool> {
    Seq::new(n, |i: int| false)
}

/// The reconstruction state after all pairs.
pub open spec fn spec_final_state(s: Seq<char>, pairs: Seq<(u32, u32)>) -> (
    Seq<char>,
    Seq<bool>,
    nat,
) {
    spec_run_pairs(s, pairs, 0, Seq::empty(), spec_initial_mask(s.len()), 0)
}

/// The reconstructed secret.
pub open spec fn spec_secret_of(s: Seq<char>, pairs: Seq<(u32, u32)>) -> Seq<char> {
    spec_final_state(s, pairs).0
}

/// The characters of `s` from position `i` on whose mask bit is clear,
/// in order.
pub open spec fn keep_unmasked(s: Seq<char>, mask: Seq<bool>, i: int) -> Seq<char>
    decreases s.len() - i,
{
    if i < 0 || i >= s.len() || mask.len() != s.len() {
        Seq::empty()
    } else {
        (if mask[i] {
            Seq::empty()
        } else {
            seq![s[i]]
        }) + keep_unmasked(s, mask, i + 1)
    }
}

/// The remaining ciphertext: the original string with the consumed
/// positions removed.
pub open spec fn spec_remaining_of(s: Seq<char>, pairs: Seq<(u32, u32)>) -> Seq<char> {
    keep_unmasked(s, spec_final_state(s, pairs).1, 0)
}

/// The cursor before pair `k`: the sum of the lengths of the pairs
/// before it.
pub open spec fn spec_cursor_at(pairs: Seq<(u32, u32)>, k: int) -> int
    decreases k,
{
    if k <= 0 {
        0
    } else {
        spec_cursor_at(pairs, k - 1) + pairs[k - 1].1
    }
}

/// Where pair `k` starts reading.
pub open spec fn spec_start_at(pairs: Seq<(u32, u32)>, k: int) -> int {
    spec_cursor_at(pairs, k) + pairs[k].0
}

/// One past where pair `k` stops reading.
pub open spec fn spec_end_at(pairs: Seq<(u32, u32)>, k: int) -> int {
    spec_start_at(pairs, k) + pairs[k].1
}

/// Every pair reads entirely inside a string of length `n`.
pub open spec fn pairs_in_bounds(pairs: Seq<(u32, u32)>, n: int) -> bool {
    forall|k: int| 0 <= k < pairs.len() ==> spec_end_at(pairs, k) <= n
}

/// No two pairs read a common position.
pub open spec fn pairs_disjoint(pairs: Seq<(u32, u32)>) -> bool {
    forall|k1: int, k2: int|
        0 <= k1 < k2 < pairs.len() ==> spec_end_at(pairs, k1) <= spec_start_at(pairs, k2)
            || spec_end_at(pairs, k2) <= spec_start_at(pairs, k1)
}

/// How many positions from `i` on are marked consumed.
pub open spec fn count_true(mask: Seq<bool>, i: int) -> int
    decreases mask.len() - i,
{
    if i < 0 || i >= mask.len() {
        0
    } else {
        (if mask[i] {
            1int
        } else {
            0int
        }) + count_true(mask, i + 1)
    }
}

proof fn lemma_keep_len(s: Seq<char>, mask: Seq<bool>, i: int)
    requires
        mask.len() == s.len(),
        0 <= i <= s.len(),
    ensures
        keep_unmasked(s, mask, i).len() == (s.len() - i) - count_true(mask, i),
        0 <= count_true(mask, i) <= s.len() - i,
    decreases s.len() - i,
{
    if i < s.len() {
        lemma_keep_len(s, mask, i + 1);
    }
}

proof fn lemma_count_mark(mask: Seq<bool>, a: int, b: int, i: int)
    requires
        0 <= a <= b <= mask.len(),
        0 <= i <= mask.len(),
        forall|j: int| a <= j < b ==> !mask[j],
    ensures
        count_true(spec_mark(mask, a, b), i) == count_true(mask, i) + (if i <= a {
            b - a
        } else if i < b {
            b - i
        } else {
            0
        }),
    decreases mask.len() - i,
{
    if i < mask.len() {
        lemma_count_mark(mask, a, b, i + 1);
    }
}

proof fn lemma_count_init(n: nat, i: int)
    requires
        0 <= i <= n,
    ensures
        count_true(spec_initial_mask(n), i) == 0,
    decreases n - i,
{
    if i < n {
        lemma_count_init(n, i + 1);
    }
}

proof fn lemma_run_pairs_counts(
    s: Seq<char>,
    pairs: Seq<(u32, u32)>,
    k: int,
    secret: Seq<char>,
    mask: Seq<bool>,
    cursor: nat,
)
    requires
        0 <= k <= pairs.len(),
        mask.len() == s.len(),
        cursor == spec_cursor_at(pairs, k),
        cursor <= s.len(),
        secret.len() == cursor,
        count_true(mask, 0) == cursor,
        forall|i: int|
            0 <= i < s.len() ==> ((#[trigger] mask[i]) <==> exists|j: int|
                0 <= j < k && (#[trigger] spec_start_at(pairs, j)) <= i < spec_end_at(pairs, j)),
        pairs_in_bounds(pairs, s.len() as int),
        pairs_disjoint(pairs),
    ensures
        spec_run_pairs(s, pairs, k, secret, mask, cursor).0.len() == spec_cursor_at(
            pairs,
            pairs.len() as int,
        ),
        count_true(spec_run_pairs(s, pairs, k, secret, mask, cursor).1, 0) == spec_cursor_at(
            pairs,
            pairs.len() as int,
        ),
        spec_run_pairs(s, pairs, k, secret, mask, cursor).1.len() == s.len(),
        spec_cursor_at(pairs, pairs.len() as int) <= s.len(),
    decreases pairs.len() - k,
{
    if k == pairs.len() {
    } else {
        let off = pairs[k].0 as nat;
        let len = pairs[k].1 as nat;
        assert(spec_end_at(pairs, k) <= s.len());
        let start = (cursor + off) as nat;
        let end = (start + len) as nat;
        assert(clamp_add(cursor, off, s.len()) == start);
        assert(clamp_add(start, len, s.len()) == end);
        assert(clamp_add(cursor, len, s.len()) == cursor + len);
        let st = spec_split_step(s, secret, mask, cursor, off, len);
        assert(st.0.len() == secret.len() + len);
        assert forall|j: int| start <= j < end implies !mask[j] by {
            if mask[j] {
                let j0 = choose|j0: int|
                    0 <= j0 < k && (#[trigger] spec_start_at(pairs, j0)) <= j < spec_end_at(
                        pairs,
                        j0,
                    );
                assert(spec_end_at(pairs, j0) <= spec_start_at(pairs, k) || spec_end_at(pairs, k)
                    <= spec_start_at(pairs, j0));
            }
        }
        lemma_count_mark(mask, start as int, end as int, 0);
        assert(count_true(st.1, 0) == cursor + len);
        assert forall|i: int| 0 <= i < s.len() implies ((#[trigger] st.1[i]) <==> exists|j: int|
            0 <= j < k + 1 && (#[trigger] spec_start_at(pairs, j)) <= i < spec_end_at(pairs, j)) by {
            if st.1[i] {
                if mask[i] {
                    let j0 = choose|j0: int|
                        0 <= j0 < k && (#[trigger] spec_start_at(pairs, j0)) <= i < spec_end_at(
                            pairs,
                            j0,
                        );
                    assert(0 <= j0 < k + 1 && spec_start_at(pairs, j0) <= i < spec_end_at(
                        pairs,
                        j0,
                    ));
                } else {
                    assert(spec_start_at(pairs, k) <= i < spec_end_at(pairs, k));
                }
            } else {
                assert(!mask[i]);
                if exists|j: int|
                    0 <= j < k + 1 && (#[trigger] spec_start_at(pairs, j)) <= i < spec_end_at(
                        pairs,
                        j,
                    ) {
                    let j0 = choose|j0: int|
                        0 <= j0 < k + 1 && (#[trigger] spec_start_at(pairs, j0)) <= i
                            < spec_end_at(pairs, j0);
                    if j0 < k {
                        assert(mask[i]);
                    } else {
                        assert(start <= i < end);
                    }
                    assert(false);
                }
            }
        }
        lemma_run_pairs_counts(s, pairs, k + 1, st.0, st.1, st.2);
    }
}

/// Law: for a non-overlapping, in-bounds pair list, the secret and the
/// remaining ciphertext partition the original string — their lengths
/// add up to its length, the secret's length is the sum of the pairs'
/// lengths, and the remainder is exactly the original with the consumed
/// positions removed, in original order.
pub proof fn lemma_reconstruction_invariant(s: Seq<char>, pairs: Seq<(u32, u32)>)
    requires
        pairs_in_bounds(pairs, s.len() as int),
        pairs_disjoint(pairs),
    ensures
        spec_secret_of(s, pairs).len() + spec_remaining_of(s, pairs).len() == s.len(),
        spec_secret_of(s, pairs).len() == spec_cursor_at(pairs, pairs.len() as int),
        spec_remaining_of(s, pairs) == keep_unmasked(s, spec_final_state(s, pairs).1, 0),
{
    let n = s.len();
    lemma_count_init(n, 0);
    assert forall|i: int| 0 <= i < n implies !(spec_initial_mask(n)[i]) by {}
    if pairs.len() > 0 {
        assert(spec_end_at(pairs, 0) <= n);
    }
    lemma_run_pairs_counts(s, pairs, 0, Seq::empty(), spec_initial_mask(n), 0);
    let fin = spec_final_state(s, pairs);
    lemma_keep_len(s, fin.1, 0);
}

/// Splits the encrypted string into the reconstructed secret and the
/// remaining ciphertext by the (offset, length) pairs, offsets relative
/// to a cumulative cursor.
pub fn get_secret(encrypted_string: &str, values: &Vec<(u32, u32)>) -> (r: (String, String))
    ensures
        r.0@ == spec_secret_of(encrypted_string@, values@),
        r.1@ == spec_remaining_of(encrypted_string@, values@),
{
    let chars = to_chars(encrypted_string);
    let n = chars.len();
    let mut mask: Vec<bool> = Vec::new();
    let mut t: usize = 0;
    while t < n
        invariant
            t <= n,
            mask@ =~= spec_initial_mask(t as nat),
        decreases n - t,
    {
        mask.push(false);
        assert(mask@ =~= spec_initial_mask((t + 1) as nat));
        t = t + 1;
    }
    assert(mask@ =~= spec_initial_mask(n as nat));
    let mut secret: Vec<char> = Vec::new();
    let mut cursor: usize = 0;
    let mut k: usize = 0;
    let npairs = values.len();
    while k < npairs
        invariant
            npairs == values@.len(),
            k <= npairs,
            n == chars@.len(),
            chars@ == encrypted_string@,
            cursor <= n,
            mask@.len() == n,
            spec_run_pairs(
                encrypted_string@,
                values@,
                k as int,
                secret@,
                mask@,
                cursor as nat,
            ) == spec_final_state(encrypted_string@, values@),
        decreases npairs - k,
    {
        let off = values[k].0 as usize;
        let len = values[k].1 as usize;
        let start: usize = if off > n - cursor {
            n
        } else {
            cursor + off
        };
        let end: usize = if len > n - start {
            n
        } else {
            start + len
        };
        let ghost secret0 = secret@;
        let ghost mask0 = mask@;
        let mut i: usize = start;
        while i < end
            invariant
                start <= i <= end <= n,
                n == chars@.len(),
                mask@.len() == n,
                secret@ == secret0 + chars@.subrange(start as int, i as int),
                mask@ =~= spec_mark(mask0, start as int, i as int),
            decreases end - i,
        {
            secret.push(chars[i]);
            mask[i] = true;
            assert(secret@ =~= secret0 + chars@.subrange(start as int, i + 1 as int));
            assert(mask@ =~= spec_mark(mask0, start as int, i + 1 as int));
            i = i + 1;
        }
        let new_cursor: usize = if len > n - cursor {
            n
        } else {
            cursor + len
        };
        proof {
            let st = spec_split_step(
                encrypted_string@,
                secret0,
                mask0,
                cursor as nat,
                values@[k as int].0 as nat,
                values@[k as int].1 as nat,
            );
            assert(st.0 =~= secret@);
            assert(st.1 =~= mask@);
            assert(st.2 == new_cursor as nat);
        }
        cursor = new_cursor;
        k = k + 1;
    }
    let mut rem: Vec<char> = Vec::new();
    let mut j: usize = 0;
    while j < n
        invariant
            j <= n,
            n == chars@.len(),
            chars@ == encrypted_string@,
            mask@.len() == n,
            keep_unmasked(encrypted_string@, mask@, 0) == rem@ + keep_unmasked(
                encrypted_string@,
                mask@,
                j as int,
            ),
        decreases n - j,
    {
        if !mask[j] {
            rem.push(chars[j]);
        }
        proof {
            if !mask@[j as int] {
                assert(rem@ =~= rem@.subrange(0, rem@.len() - 1) + seq![
                    encrypted_string@[j as int],
                ]);
            }
        }
        j = j + 1;
    }
    (chars_to_string(&secret), chars_to_string(&rem))
}

} // verus!
