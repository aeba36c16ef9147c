//! Where the elements stand that are kept of a list, and the tasks that are gathered from pages.

use vstd::prelude::*;

use crate::pages::PageV;
use crate::task::TaskV;

verus! {

/// How many of the first `n` elements are kept.
pub open spec fn among<T>(list: Seq<T>, keep: spec_fn(T) -> bool, n: int) -> int
    decreases n,
{
    if n <= 0 {
        0
    } else if keep(list[n - 1]) {
        among(list, keep, n - 1) + 1
    } else {
        among(list, keep, n - 1)
    }
}

/// Lists that begin alike keep as many of their first elements.
pub proof fn among_alike<T>(a: Seq<T>, b: Seq<T>, keep: spec_fn(T) -> bool, n: int)
    requires
        forall|i: int| 0 <= i < n ==> #[trigger] a[i] == b[i],
    ensures
        among(a, keep, n) == among(b, keep, n),
    decreases n,
{
    if n > 0 {
        among_alike(a, b, keep, n - 1);
        assert(a[n - 1] == b[n - 1]);
    }
}

/// Of more elements no fewer are kept, and more where a kept one lies between.
pub proof fn among_grows<T>(list: Seq<T>, keep: spec_fn(T) -> bool, i: int, j: int)
    requires
        0 <= i <= j,
    ensures
        0 <= among(list, keep, i) <= among(list, keep, j),
        among(list, keep, j) - among(list, keep, i) <= j - i,
        i < j && keep(list[i]) ==> among(list, keep, i) < among(list, keep, j),
    decreases j,
{
    if i < j {
        among_grows(list, keep, i, j - 1);
    } else if j > 0 {
        among_grows(list, keep, j - 1, j - 1);
    }
}

/// A kept element stands behind as many others as are kept before it.
pub proof fn filter_places<T>(list: Seq<T>, keep: spec_fn(T) -> bool)
    ensures
        list.filter(keep).len() == among(list, keep, list.len() as int),
        forall|i: int|
            0 <= i < list.len() && keep(#[trigger] list[i]) ==> 0 <= among(list, keep, i)
                < list.filter(keep).len() && list.filter(keep)[among(list, keep, i)] == list[i],
    decreases list.len(),
{
    reveal(Seq::filter);
    if list.len() > 0 {
        let rest = list.drop_last();
        let n = rest.len() as int;
        filter_places(rest, keep);
        among_alike(rest, list, keep, n);
        assert forall|i: int| 0 <= i < list.len() && keep(#[trigger] list[i]) implies 0 <= among(
            list,
            keep,
            i,
        ) < list.filter(keep).len() && list.filter(keep)[among(list, keep, i)] == list[i] by {
            among_alike(rest, list, keep, i);
            among_grows(list, keep, i, n);
            if i < n {
                assert(keep(rest[i]));
            }
        }
    }
}

/// Conditions that agree keep the same elements.
pub proof fn same_filter<T>(list: Seq<T>, a: spec_fn(T) -> bool, b: spec_fn(T) -> bool)
    requires
        forall|t: T| #[trigger] a(t) == b(t),
    ensures
        list.filter(a) == list.filter(b),
    decreases list.len(),
{
    reveal(Seq::filter);
    if list.len() > 0 {
        same_filter(list.drop_last(), a, b);
        assert(a(list.last()) == b(list.last()));
    }
}

/// What is kept stands at one place of the list.
pub proof fn filter_sources<T>(list: Seq<T>, keep: spec_fn(T) -> bool, k: int) -> (i: int)
    requires
        0 <= k < list.filter(keep).len(),
    ensures
        0 <= i < list.len(),
        keep(list[i]),
        list[i] == list.filter(keep)[k],
        among(list, keep, i) == k,
    decreases list.len(),
{
    reveal(Seq::filter);
    let rest = list.drop_last();
    if list.len() == 0 {
        0
    } else if k < rest.filter(keep).len() {
        let i = filter_sources(rest, keep, k);
        among_alike(rest, list, keep, i);
        i
    } else {
        let n = rest.len() as int;
        filter_places(rest, keep);
        among_alike(rest, list, keep, n);
        n
    }
}

/// The tasks of some kind on some pages, page by page.
pub open spec fn gathered(
    pages: Seq<PageV>,
    on: spec_fn(PageV) -> bool,
    keep: spec_fn(TaskV) -> bool,
) -> Seq<TaskV>
    decreases pages.len(),
{
    if pages.len() == 0 {
        Seq::empty()
    } else if on(pages.last()) {
        gathered(pages.drop_last(), on, keep) + pages.last().tasks.filter(keep)
    } else {
        gathered(pages.drop_last(), on, keep)
    }
}

/// How many tasks of some kind the first `n` pages hold, where only some pages count.
pub open spec fn ahead(
    pages: Seq<PageV>,
    on: spec_fn(PageV) -> bool,
    keep: spec_fn(TaskV) -> bool,
    n: int,
) -> int
    decreases n,
{
    if n <= 0 {
        0
    } else if on(pages[n - 1]) {
        ahead(pages, on, keep, n - 1) + among(
            pages[n - 1].tasks,
            keep,
            pages[n - 1].tasks.len() as int,
        )
    } else {
        ahead(pages, on, keep, n - 1)
    }
}

/// Pages that begin alike hold as many tasks on their first pages.
pub proof fn ahead_alike(
    a: Seq<PageV>,
    b: Seq<PageV>,
    on: spec_fn(PageV) -> bool,
    keep: spec_fn(TaskV) -> bool,
    n: int,
)
    requires
        forall|i: int| 0 <= i < n ==> #[trigger] a[i] == b[i],
    ensures
        ahead(a, on, keep, n) == ahead(b, on, keep, n),
    decreases n,
{
    if n > 0 {
        ahead_alike(a, b, on, keep, n - 1);
        assert(a[n - 1] == b[n - 1]);
    }
}

/// More pages hold no fewer tasks.
pub proof fn ahead_grows(
    pages: Seq<PageV>,
    on: spec_fn(PageV) -> bool,
    keep: spec_fn(TaskV) -> bool,
    p: int,
    q: int,
)
    requires
        0 <= p <= q,
    ensures
        0 <= ahead(pages, on, keep, p) <= ahead(pages, on, keep, q),
        p < q && on(pages[p]) ==> ahead(pages, on, keep, p) + among(
            pages[p].tasks,
            keep,
            pages[p].tasks.len() as int,
        ) <= ahead(pages, on, keep, q),
    decreases q,
{
    if q > 0 {
        among_grows(pages[q - 1].tasks, keep, 0, pages[q - 1].tasks.len() as int);
    }
    if p < q {
        ahead_grows(pages, on, keep, p, q - 1);
    } else if q > 0 {
        ahead_grows(pages, on, keep, q - 1, q - 1);
    }
}

/// A gathered task stands behind those of the pages before its own and those before it on its own.
pub proof fn gathered_places(
    pages: Seq<PageV>,
    on: spec_fn(PageV) -> bool,
    keep: spec_fn(TaskV) -> bool,
)
    ensures
        gathered(pages, on, keep).len() == ahead(pages, on, keep, pages.len() as int),
        forall|p: int, i: int|
            0 <= p < pages.len() && on(pages[p]) && 0 <= i < pages[p].tasks.len() && keep(
                #[trigger] pages[p].tasks[i],
            ) ==> {
                let at = ahead(pages, on, keep, p) + among(pages[p].tasks, keep, i);
                0 <= at < gathered(pages, on, keep).len() && gathered(pages, on, keep)[at]
                    == pages[p].tasks[i]
            },
    decreases pages.len(),
{
    if pages.len() > 0 {
        let rest = pages.drop_last();
        let last = pages.last();
        let n = rest.len() as int;
        gathered_places(rest, on, keep);
        ahead_alike(rest, pages, on, keep, n);
        filter_places(last.tasks, keep);
        assert forall|p: int, i: int|
            0 <= p < pages.len() && on(pages[p]) && 0 <= i < pages[p].tasks.len() && keep(
                #[trigger] pages[p].tasks[i],
            ) implies {
            let at = ahead(pages, on, keep, p) + among(pages[p].tasks, keep, i);
            0 <= at < gathered(pages, on, keep).len() && gathered(pages, on, keep)[at]
                == pages[p].tasks[i]
        } by {
            ahead_alike(rest, pages, on, keep, p);
            ahead_grows(pages, on, keep, p, n);
            if p < n {
                assert(keep(rest[p].tasks[i]));
            } else {
                assert(keep(last.tasks[i]));
            }
        }
    }
}

/// What was gathered stands at one place of the pages.
pub proof fn gathered_sources(
    pages: Seq<PageV>,
    on: spec_fn(PageV) -> bool,
    keep: spec_fn(TaskV) -> bool,
    k: int,
) -> (at: (int, int))
    requires
        0 <= k < gathered(pages, on, keep).len(),
    ensures
        0 <= at.0 < pages.len(),
        on(pages[at.0]),
        0 <= at.1 < pages[at.0].tasks.len(),
        keep(pages[at.0].tasks[at.1]),
        pages[at.0].tasks[at.1] == gathered(pages, on, keep)[k],
        k == ahead(pages, on, keep, at.0) + among(pages[at.0].tasks, keep, at.1),
    decreases pages.len(),
{
    let rest = pages.drop_last();
    if pages.len() == 0 {
        (0, 0)
    } else if k < gathered(rest, on, keep).len() {
        let at = gathered_sources(rest, on, keep, k);
        ahead_alike(rest, pages, on, keep, at.0);
        at
    } else {
        let n = rest.len() as int;
        gathered_places(rest, on, keep);
        ahead_alike(rest, pages, on, keep, n);
        (n, filter_sources(pages.last().tasks, keep, k - gathered(rest, on, keep).len()))
    }
}

} // verus!
