//! Paging the trip list (US-63): 50 rows to a page, over the rows the screen
//! has already read.

use vstd::prelude::*;

verus! {

pub const PAGE_SIZE: usize = 50;

/// How many pages `len` rows make: at least one, so there is always a page
/// to be on.
pub open spec fn pages(len: nat) -> nat {
    if len == 0 {
        1
    } else {
        ((len + 49) / 50) as nat
    }
}

/// The first row of `page`, once clamped to the last page.
pub open spec fn page_start(page: nat, len: nat) -> nat {
    let p = if page < pages(len) {
        page
    } else {
        (pages(len) - 1) as nat
    };
    p * 50
}

/// One past the last row of `page`.
pub open spec fn page_end(page: nat, len: nat) -> nat {
    if page_start(page, len) + 50 <= len {
        page_start(page, len) + 50
    } else {
        len
    }
}

/// How many pages `len` rows make. An empty list is still one (empty) page.
pub fn page_count(len: usize) -> (r: usize)
    ensures
        r == pages(len as nat),
{
    let count = len / PAGE_SIZE + if len % PAGE_SIZE == 0 {
        0
    } else {
        1
    };
    if count == 0 {
        1
    } else {
        count
    }
}

/// The rows `page` shows, out of `len`. A page past the end — the list
/// shrank under the owner — shows the last page rather than a blank table.
pub fn page_range(page: usize, len: usize) -> (r: std::ops::Range<usize>)
    ensures
        r.start == page_start(page as nat, len as nat),
        r.end == page_end(page as nat, len as nat),
{
    let count = page_count(len);
    let p = if page < count - 1 {
        page
    } else {
        count - 1
    };
    assert(p * 50 <= len) by (nonlinear_arith)
        requires
            p <= count - 1,
            count == pages(len as nat),
    ;
    let start = p * PAGE_SIZE;
    let end = if len - start >= PAGE_SIZE {
        start + PAGE_SIZE
    } else {
        len
    };
    start..end
}

/// What the pager shows: the page as shown (the one asked for, or the last
/// one once the list shrank under it), how many there are, and where the
/// previous and next buttons go — none at the ends, where they are disabled.
#[derive(Debug, Clone, Copy, PartialEq, Eq)]
pub struct PagerView {
    pub current: usize,
    pub count: usize,
    pub previous: Option<usize>,
    pub next: Option<usize>,
}

/// The page as shown: the one asked for, or the last.
pub open spec fn shown_page(page: nat, len: nat) -> nat {
    if page < pages(len) {
        page
    } else {
        (pages(len) - 1) as nat
    }
}

/// The pager for `len` rows on `page`: nothing for a list that fits on one
/// page.
pub fn pager_view(page: usize, len: usize) -> (r: Option<PagerView>)
    ensures
        pages(len as nat) <= 1 ==> r is None,
        pages(len as nat) > 1 ==> (r matches Some(v) && v.count == pages(len as nat) && v.current
            == shown_page(page as nat, len as nat) && v.previous == (if v.current == 0 {
            None
        } else {
            Some((v.current - 1) as usize)
        }) && v.next == (if v.current + 1 == v.count {
            None
        } else {
            Some((v.current + 1) as usize)
        })),
{
    let count = page_count(len);
    if count <= 1 {
        return None;
    }
    let current = if page < count - 1 {
        page
    } else {
        count - 1
    };
    let previous = if current == 0 {
        None
    } else {
        Some(current - 1)
    };
    let next = if current + 1 == count {
        None
    } else {
        Some(current + 1)
    };
    Some(PagerView { current, count, previous, next })
}

/// The pages tile the rows: the first starts at row 0, each one ends where
/// the next begins, the last ends at the last row, every page holds at most
/// fifty rows, and only an empty list has an empty page.
pub proof fn lemma_pages_tile(len: nat)
    ensures
        page_start(0, len) == 0,
        page_end((pages(len) - 1) as nat, len) == len,
        forall|p: nat|
            p + 1 < pages(len) ==> #[trigger] page_end(p, len) == page_start(p + 1, len),
        forall|p: nat|
            #![trigger page_start(p, len)]
            page_start(p, len) <= page_end(p, len) <= len && page_end(p, len) - page_start(p, len)
                <= 50,
        forall|p: nat| len > 0 ==> #[trigger] page_start(p, len) < page_end(p, len),
{
    let n = pages(len);
    assert(n >= 1);
    assert((n - 1) * 50 < len || len == 0) by (nonlinear_arith)
        requires
            n == (if len == 0 {
                1
            } else {
                ((len + 49) / 50) as nat
            }),
    ;
    assert(len <= n * 50) by (nonlinear_arith)
        requires
            n == (if len == 0 {
                1
            } else {
                ((len + 49) / 50) as nat
            }),
    ;
    assert forall|p: nat| p + 1 < n implies #[trigger] page_end(p, len) == page_start(p + 1, len) by {
        assert((p + 1) * 50 <= (n - 1) * 50) by (nonlinear_arith)
            requires
                p + 1 <= n - 1,
        ;
        assert((p + 1) * 50 == p * 50 + 50) by (nonlinear_arith);
    }
    assert forall|p: nat|
        #![trigger page_start(p, len)]
        page_start(p, len) <= page_end(p, len) <= len && page_end(p, len) - page_start(p, len)
            <= 50 by {
        let q = if p < n {
            p
        } else {
            (n - 1) as nat
        };
        assert(q * 50 <= (n - 1) * 50) by (nonlinear_arith)
            requires
                q <= n - 1,
        ;
    }
    assert forall|p: nat| len > 0 implies #[trigger] page_start(p, len) < page_end(p, len) by {
        let q = if p < n {
            p
        } else {
            (n - 1) as nat
        };
        assert(q * 50 <= (n - 1) * 50) by (nonlinear_arith)
            requires
                q <= n - 1,
        ;
    }
    assert(page_start((n - 1) as nat, len) == (n - 1) * 50);
}

} // verus!
