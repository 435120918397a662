//! The pagination laws: what holds when a caller walks the collection page
//! by page, feeding each page's end cursor back as the next `after`.

use vstd::prelude::*;
use vstd::arithmetic::div_mod::{lemma_div_pos_is_pos, lemma_fundamental_div_mod, lemma_mod_bound};
use crate::connection::{end_cursor_id, window_end, window_len, window_start};
use crate::cursor::{cursor_chars, cursor_value, cursor_wf, lemma_cursor_round_trip};

verus! {

/// The window end over plain integers: `first + a`, clamped to `n`.
pub open spec fn window_end_at(first: int, a: int, n: int) -> int {
    if n < first + a {
        n
    } else {
        first + a
    }
}

/// The position reached after `k` pages of size `first`, starting from the
/// beginning of a universe of `n` images: each page moves the position to
/// the window end taken from the previous position.
pub open spec fn pages_end(first: int, k: nat, n: int) -> int
    decreases k,
{
    if k == 0 {
        0
    } else {
        window_end_at(first, pages_end(first, (k - 1) as nat, n), n)
    }
}

/// Page `k` (counting from 1) holds exactly the identifiers after the
/// position reached by `k - 1` pages, up to the one reached by `k` pages.
pub open spec fn page_covers(first: int, n: int, k: nat, id: int) -> bool {
    k >= 1 && pages_end(first, (k - 1) as nat, n) < id <= pages_end(first, k, n)
}

/// RANGE LAW: from the start of the collection (`after` absent), a page of
/// `first >= 1` covers the identifiers `1` through `min(first, n)`: the
/// window starts at 1 and holds `min(first, n)` identifiers, which the edge
/// contract lists in ascending order as `1, 2, ...`.
pub proof fn lemma_first_page_range(first: int, n: int)
    requires
        1 <= first,
        0 <= n,
    ensures
        window_start(None::<i32>) == 1,
        window_end(first, None::<i32>, n) == (if first < n { first } else { n }),
        window_len(first, None::<i32>, n) == (if first < n { first } else { n }),
{
}

/// CLAMPING LAW: for every `first` and every cursor position `0 <= a < n`,
/// the last identifier of the window is `min(first + a, n)`, and it never
/// exceeds `n`.
pub proof fn lemma_clamping(first: int, a: i32, n: int)
    requires
        0 <= a,
        (a as int) < n,
    ensures
        window_end(first, Some(a), n) == (if first + a < n { first + a } else { n }),
        window_end(first, Some(a), n) <= n,
{
}

/// The position after `k` pages in closed form: `k * first`, clamped to
/// `n`. Pages advance by `first` until the universe is exhausted.
pub proof fn lemma_pages_end_value(first: int, k: nat, n: int)
    requires
        1 <= first,
        0 <= n,
    ensures
        pages_end(first, k, n) == (if k * first < n { k * first } else { n }),
    decreases k,
{
    if k == 0 {
    } else {
        lemma_pages_end_value(first, (k - 1) as nat, n);
        assert(((k - 1) as nat) * first + first == k * first) by (nonlinear_arith)
            requires
                k >= 1,
        ;
    }
}

/// The position reached never moves backward as pages are consumed.
pub proof fn lemma_pages_end_mono(first: int, j: nat, k: nat, n: int)
    requires
        1 <= first,
        0 <= n,
        j <= k,
    ensures
        pages_end(first, j, n) <= pages_end(first, k, n),
{
    lemma_pages_end_value(first, j, n);
    lemma_pages_end_value(first, k, n);
    assert(j * first <= k * first) by (nonlinear_arith)
        requires
            j <= k,
            1 <= first,
    ;
}

/// MONOTONIC-PAGINATION LAW, one step: while the position `a` has not
/// reached the end, the page starting there is never empty, stays inside
/// the universe, begins exactly one past `a`, and publishes its own last
/// identifier as the end cursor — so feeding that cursor back continues
/// with no gap and no overlap. The first request (`after` absent) is the
/// step from position 0.
pub proof fn lemma_pagination_step(first: int, a: int, n: int)
    requires
        1 <= first,
        0 <= a < n,
        n <= i32::MAX,
    ensures
        window_start(Some(a as i32)) == a + 1,
        window_end(first, Some(a as i32), n) == window_end_at(first, a, n),
        a + 1 <= window_end_at(first, a, n) <= n,
        end_cursor_id(first, Some(a as i32), n) == window_end_at(first, a, n),
        window_len(first, Some(a as i32), n) == window_end_at(first, a, n) - a,
        window_end(first, None::<i32>, n) == window_end_at(first, 0, n),
        window_start(None::<i32>) == 0 + 1,
{
}

/// MONOTONIC-PAGINATION LAW, whole walk: every identifier of the universe
/// is listed by exactly one page. Page `k` covers the interval from the
/// position after `k - 1` pages (exclusive) to the position after `k`
/// pages (inclusive), so the pages tile `[1, n]` with no gap, no overlap
/// and no repetition.
pub proof fn lemma_pagination_exactly_once(first: int, n: int, id: int)
    requires
        1 <= first,
        1 <= id <= n,
    ensures
        exists|k: nat| page_covers(first, n, k, id),
        forall|k1: nat, k2: nat|
            page_covers(first, n, k1, id) && page_covers(first, n, k2, id) ==> k1 == k2,
{
    let q = (id - 1) / first;
    lemma_div_pos_is_pos(id - 1, first);
    lemma_fundamental_div_mod(id - 1, first);
    lemma_mod_bound(id - 1, first);
    let k = (q + 1) as nat;
    lemma_pages_end_value(first, (k - 1) as nat, n);
    lemma_pages_end_value(first, k, n);
    assert((q + 1) * first == q * first + first) by (nonlinear_arith);
    assert(q * first == first * q) by (nonlinear_arith);
    assert(page_covers(first, n, k, id));
    assert forall|k1: nat, k2: nat|
        page_covers(first, n, k1, id) && page_covers(first, n, k2, id) implies k1 == k2 by {
        if k1 < k2 {
            lemma_pages_end_mono(first, k1, (k2 - 1) as nat, n);
        }
        if k2 < k1 {
            lemma_pages_end_mono(first, k2, (k1 - 1) as nat, n);
        }
    };
}

/// MONOTONIC-PAGINATION LAW, hand-back: the end cursor a page publishes
/// decodes back to the page's last identifier, and the resolver's
/// past-the-end test on that identifier fails exactly while the next-page
/// flag is up — so the walk that feeds each end cursor back connects again
/// precisely until `has_next_page` goes down.
pub proof fn lemma_hand_back(first: int, a: int, n: int)
    requires
        1 <= first,
        0 <= a < n,
        n <= i32::MAX,
    ensures
        cursor_wf(cursor_chars(end_cursor_id(first, Some(a as i32), n))),
        cursor_value(cursor_chars(end_cursor_id(first, Some(a as i32), n))) == window_end_at(
            first,
            a,
            n,
        ),
        (n < window_end_at(first, a, n) + 1) == !(window_end_at(first, a, n) < n),
{
    lemma_pagination_step(first, a, n);
    lemma_cursor_round_trip(window_end_at(first, a, n));
}

/// MONOTONIC-PAGINATION LAW, termination: the position never passes `n`;
/// after page `k` the next-page flag — `window_end < n` by the page-info
/// contract — is up exactly while `k * first` has not reached `n`, and once
/// `k * first >= n` the walk has arrived at the end and stops.
pub proof fn lemma_pagination_terminates(first: int, n: int, k: nat)
    requires
        1 <= first,
        0 <= n,
        1 <= k,
    ensures
        pages_end(first, k, n) <= n,
        (pages_end(first, k, n) < n) == (k * first < n),
        k * first >= n ==> pages_end(first, k, n) == n,
{
    lemma_pages_end_value(first, k, n);
}

} // verus!
