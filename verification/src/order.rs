//! Headers in the order of their block numbers.

use crate::header::sealed_views;
use crate::header::SealedHeader;
use crate::header::SealedHeaderView;
use vstd::prelude::*;

verus! {

/// The headers that carry the given number, in the order in which they are listed.
pub open spec fn numbered(headers: Seq<SealedHeaderView>, number: u64) -> Seq<SealedHeaderView> {
    headers.filter(|h: SealedHeaderView| h.header.number == number)
}

/// The numbers never go down.
pub open spec fn in_number_order(headers: Seq<SealedHeaderView>) -> bool {
    forall|i: int, j: int|
        0 <= i <= j < headers.len() ==> (#[trigger] headers[i]).header.number <= (
        #[trigger] headers[j]).header.number
}

/// `sorted` lists `headers` in number order, and keeps headers of equal number in the order in
/// which they were listed.
pub open spec fn is_stable_sort(
    headers: Seq<SealedHeaderView>,
    sorted: Seq<SealedHeaderView>,
) -> bool {
    &&& in_number_order(sorted)
    &&& forall|number: u64| #[trigger] numbered(sorted, number) == numbered(headers, number)
}

/// `headers` in number order, headers of equal number in the order in which they were listed.
/// There is exactly one such list.
pub open spec fn sorted_by_number(headers: Seq<SealedHeaderView>) -> Seq<SealedHeaderView> {
    choose|sorted: Seq<SealedHeaderView>| is_stable_sort(headers, sorted)
}

/// What [`numbered`] gives for a list with one more header at its end.
proof fn lemma_numbered_push(headers: Seq<SealedHeaderView>, last: SealedHeaderView, number: u64)
    ensures
        numbered(headers.push(last), number) == if last.header.number == number {
            numbered(headers, number).push(last)
        } else {
            numbered(headers, number)
        },
{
    reveal(Seq::filter);
    assert(headers.push(last).drop_last() =~= headers);
}

/// What [`numbered`] gives for a list, by its last header.
proof fn lemma_numbered_last(headers: Seq<SealedHeaderView>, number: u64)
    requires
        headers.len() > 0,
    ensures
        numbered(headers, number) == if headers.last().header.number == number {
            numbered(headers.drop_last(), number).push(headers.last())
        } else {
            numbered(headers.drop_last(), number)
        },
{
    lemma_numbered_push(headers.drop_last(), headers.last(), number);
    assert(headers.drop_last().push(headers.last()) =~= headers);
}

/// A header that [`numbered`] picks is in the list and has the number.
proof fn lemma_numbered_picks(headers: Seq<SealedHeaderView>, number: u64)
    requires
        numbered(headers, number).len() > 0,
    ensures
        exists|i: int| 0 <= i < headers.len() && #[trigger] headers[i].header.number == number,
    decreases headers.len(),
{
    if headers.len() == 0 {
        reveal(Seq::filter);
    } else {
        lemma_numbered_last(headers, number);
        let i = headers.len() - 1;
        if headers[i].header.number != number {
            lemma_numbered_picks(headers.drop_last(), number);
            let k = choose|k: int|
                0 <= k < headers.drop_last().len()
                    && #[trigger] headers.drop_last()[k].header.number == number;
            assert(headers[k].header.number == number);
        }
    }
}

/// What [`numbered`] gives once a header is put in front of all those that do not come before it.
proof fn lemma_numbered_insert(
    sorted: Seq<SealedHeaderView>,
    at: int,
    header: SealedHeaderView,
    number: u64,
)
    requires
        0 <= at <= sorted.len(),
        forall|j: int| 0 <= j < at ==> (#[trigger] sorted[j]).header.number < header.header.number,
    ensures
        numbered(sorted.insert(at, header), number) == if header.header.number == number {
            seq![header] + numbered(sorted, number)
        } else {
            numbered(sorted, number)
        },
{
    let front = sorted.subrange(0, at);
    let back = sorted.subrange(at, sorted.len() as int);
    let pred = |h: SealedHeaderView| h.header.number == number;
    Seq::filter_distributes_over_add(front, back, pred);
    Seq::filter_distributes_over_add(front.push(header), back, pred);
    lemma_numbered_push(front, header, number);
    assert(front + back =~= sorted);
    if header.header.number == number {
        if numbered(front, number).len() > 0 {
            lemma_numbered_picks(front, number);
        }
        assert(numbered(front, number) =~= seq![]);
        assert(numbered(front, number).push(header) + numbered(back, number) =~= seq![header]
            + numbered(sorted, number));
    }
}

/// Putting a header between the smaller numbers and the others keeps the order.
proof fn lemma_insert_in_order(sorted: Seq<SealedHeaderView>, at: int, header: SealedHeaderView)
    requires
        in_number_order(sorted),
        0 <= at <= sorted.len(),
        forall|j: int| 0 <= j < at ==> (#[trigger] sorted[j]).header.number < header.header.number,
        at < sorted.len() ==> header.header.number <= sorted[at].header.number,
    ensures
        in_number_order(sorted.insert(at, header)),
{
    let after = sorted.insert(at, header);
    assert forall|i: int, j: int| 0 <= i <= j < after.len() implies (#[trigger] after[i]).header.number
        <= (#[trigger] after[j]).header.number by {
        let old_i = if i < at { i } else { i - 1 };
        let old_j = if j < at { j } else { j - 1 };
        if i != at {
            assert(after[i] == sorted[old_i]);
        }
        if j != at {
            assert(after[j] == sorted[old_j]);
        }
    }
}

/// Two lists in number order that agree on every number are the same list.
proof fn lemma_sort_unique(a: Seq<SealedHeaderView>, b: Seq<SealedHeaderView>)
    requires
        in_number_order(a),
        in_number_order(b),
        forall|number: u64| #[trigger] numbered(a, number) == numbered(b, number),
    ensures
        a == b,
    decreases a.len(),
{
    if a.len() == 0 {
        if b.len() > 0 {
            lemma_numbered_last(b, b.last().header.number);
            assert(numbered(a, b.last().header.number).len() > 0);
            lemma_numbered_picks(a, b.last().header.number);
        }
        assert(a =~= b);
    } else {
        let number = a.last().header.number;
        lemma_numbered_last(a, number);
        assert(numbered(a, number) == numbered(b, number));
        lemma_numbered_picks(b, number);
        let in_b = choose|i: int| 0 <= i < b.len() && #[trigger] b[i].header.number == number;
        assert(b[in_b].header.number <= b[b.len() - 1].header.number);
        let other = b.last().header.number;
        lemma_numbered_last(b, other);
        assert(numbered(a, other) == numbered(b, other));
        lemma_numbered_picks(a, other);
        let in_a = choose|i: int| 0 <= i < a.len() && #[trigger] a[i].header.number == other;
        assert(a[in_a].header.number <= a[a.len() - 1].header.number);
        assert(numbered(a, number).last() == a.last());
        assert(numbered(b, number).last() == b.last());
        let (c, d) = (a.drop_last(), b.drop_last());
        assert forall|n: u64| #[trigger] numbered(c, n) == numbered(d, n) by {
            lemma_numbered_last(a, n);
            lemma_numbered_last(b, n);
            assert(numbered(a, n) == numbered(b, n));
            if n == number {
                assert(numbered(c, n) =~= numbered(a, n).drop_last());
                assert(numbered(d, n) =~= numbered(b, n).drop_last());
            }
        }
        lemma_sort_unique(c, d);
        assert(a =~= c.push(a.last()));
        assert(b =~= d.push(b.last()));
    }
}

/// Sorts headers by number. Headers of equal number keep the order in which they were listed.
pub fn sort_by_number(headers: Vec<SealedHeader>) -> (sorted: Vec<SealedHeader>)
    ensures
        is_stable_sort(sealed_views(headers@), sealed_views(sorted@)),
        sealed_views(sorted@) == sorted_by_number(sealed_views(headers@)),
        sorted.len() == headers.len(),
{
    let ghost all = sealed_views(headers@);
    let mut rest = headers;
    let mut sorted: Vec<SealedHeader> = Vec::new();
    proof {
        assert forall|n: u64|
            numbered(all, n) == #[trigger] numbered(sealed_views(rest@), n) + numbered(
                sealed_views(sorted@),
                n,
            ) by {
            reveal(Seq::filter);
            assert(sealed_views(sorted@) =~= seq![]);
            assert(numbered(all, n) + seq![] =~= numbered(all, n));
        }
    }
    while rest.len() > 0
        invariant
            rest.len() + sorted.len() == headers.len(),
            in_number_order(sealed_views(sorted@)),
            forall|n: u64|
                numbered(all, n) == #[trigger] numbered(sealed_views(rest@), n) + numbered(
                    sealed_views(sorted@),
                    n,
                ),
        decreases rest.len(),
    {
        let ghost before = rest@;
        let ghost placed = sealed_views(sorted@);
        let header = rest.pop().unwrap();
        let mut at: usize = 0;
        while at < sorted.len() && sorted[at].header.number < header.header.number
            invariant
                at <= sorted.len(),
                forall|j: int|
                    0 <= j < at ==> (#[trigger] sorted@[j]).header.number < header.header.number,
            decreases sorted.len() - at,
        {
            at += 1;
        }
        sorted.insert(at, header);
        proof {
            assert(sealed_views(sorted@) =~= placed.insert(at as int, header@));
            assert(sealed_views(before) =~= sealed_views(rest@).push(header@));
            assert(forall|j: int|
                0 <= j < at ==> (#[trigger] placed[j]).header.number < header@.header.number);
            assert(at < placed.len() ==> header@.header.number <= placed[at as int].header.number);
            assert(in_number_order(sealed_views(sorted@))) by {
                lemma_insert_in_order(placed, at as int, header@);
            }
            assert forall|n: u64|
                numbered(all, n) == #[trigger] numbered(sealed_views(rest@), n) + numbered(
                    sealed_views(sorted@),
                    n,
                ) by {
                assert(numbered(all, n) == numbered(sealed_views(before), n) + numbered(placed, n));
                lemma_numbered_push(sealed_views(rest@), header@, n);
                lemma_numbered_insert(placed, at as int, header@, n);
                assert(numbered(all, n) =~= numbered(sealed_views(rest@), n) + numbered(
                    sealed_views(sorted@),
                    n,
                ));
            }
        }
    }
    proof {
        let result = sealed_views(sorted@);
        assert forall|n: u64| #[trigger] numbered(result, n) == numbered(all, n) by {
            reveal(Seq::filter);
            assert(sealed_views(rest@) =~= seq![]);
            assert(numbered(all, n) == numbered(sealed_views(rest@), n) + numbered(result, n));
            assert(seq![] + numbered(result, n) =~= numbered(result, n));
        }
        assert(is_stable_sort(all, result));
        lemma_sort_unique(result, sorted_by_number(all));
    }
    sorted
}

/// Where a header of the given number goes in a list in number order: in front of the first that
/// does not come before it.
proof fn lemma_place(sorted: Seq<SealedHeaderView>, number: u64) -> (at: int)
    requires
        in_number_order(sorted),
    ensures
        0 <= at <= sorted.len(),
        forall|j: int| 0 <= j < at ==> (#[trigger] sorted[j]).header.number < number,
        at < sorted.len() ==> number <= sorted[at].header.number,
    decreases sorted.len(),
{
    if sorted.len() == 0 {
        0
    } else {
        let front = sorted.drop_last();
        let at = lemma_place(front, number);
        assert(forall|j: int| 0 <= j < front.len() ==> front[j] == sorted[j]);
        if at < front.len() || number <= sorted.last().header.number {
            at
        } else {
            at + 1
        }
    }
}

/// Every list of headers has a stable sort.
proof fn lemma_sort_exists(headers: Seq<SealedHeaderView>) -> (sorted: Seq<SealedHeaderView>)
    ensures
        is_stable_sort(headers, sorted),
    decreases headers.len(),
{
    if headers.len() == 0 {
        headers
    } else {
        let first = headers.first();
        let rest = lemma_sort_exists(headers.drop_first());
        let at = lemma_place(rest, first.header.number);
        lemma_insert_in_order(rest, at, first);
        let sorted = rest.insert(at, first);
        assert forall|n: u64| #[trigger] numbered(sorted, n) == numbered(headers, n) by {
            lemma_numbered_insert(rest, at, first, n);
            lemma_numbered_insert(headers.drop_first(), 0, first, n);
            assert(headers.drop_first().insert(0, first) =~= headers);
            assert(numbered(rest, n) == numbered(headers.drop_first(), n));
        }
        sorted
    }
}

/// How often a header occurs among those of its number.
proof fn lemma_numbered_count(headers: Seq<SealedHeaderView>, header: SealedHeaderView)
    ensures
        headers.to_multiset().count(header) == numbered(
            headers,
            header.header.number,
        ).to_multiset().count(header),
    decreases headers.len(),
{
    broadcast use vstd::seq_lib::to_multiset_build;

    if headers.len() == 0 {
        reveal(Seq::filter);
    } else {
        lemma_numbered_count(headers.drop_last(), header);
        lemma_numbered_last(headers, header.header.number);
        assert(headers =~= headers.drop_last().push(headers.last()));
    }
}

/// Sorting is well defined: the sorted list is a stable sort of the given one, and the only one.
pub proof fn law_sort_is_unique(headers: Seq<SealedHeaderView>, sorted: Seq<SealedHeaderView>)
    ensures
        is_stable_sort(headers, sorted) <==> sorted == sorted_by_number(headers),
{
    let some = lemma_sort_exists(headers);
    assert(is_stable_sort(headers, sorted_by_number(headers)));
    if is_stable_sort(headers, sorted) {
        lemma_sort_unique(sorted, sorted_by_number(headers));
    }
}

/// Sorting neither adds nor drops a header.
pub proof fn law_sort_is_permutation(headers: Seq<SealedHeaderView>)
    ensures
        sorted_by_number(headers).to_multiset() == headers.to_multiset(),
        sorted_by_number(headers).len() == headers.len(),
{
    broadcast use vstd::seq_lib::group_to_multiset_ensures;

    let sorted = sorted_by_number(headers);
    law_sort_is_unique(headers, sorted);
    assert forall|header: SealedHeaderView|
        sorted.to_multiset().count(header) == headers.to_multiset().count(header) by {
        lemma_numbered_count(sorted, header);
        lemma_numbered_count(headers, header);
        assert(numbered(sorted, header.header.number) == numbered(headers, header.header.number));
    }
    assert(sorted.to_multiset() =~= headers.to_multiset());
    assert(sorted.len() == sorted.to_multiset().len());
    assert(headers.len() == headers.to_multiset().len());
}

/// Where no two headers share a number, their order does not depend on how they were listed.
pub(crate) proof fn lemma_distinct_order_unique(
    a: Seq<SealedHeaderView>,
    b: Seq<SealedHeaderView>,
)
    requires
        forall|i: int, j: int|
            0 <= i < j < a.len() ==> (#[trigger] a[i]).header.number < (
            #[trigger] a[j]).header.number,
        in_number_order(b),
        a.to_multiset() == b.to_multiset(),
    ensures
        a == b,
    decreases a.len(),
{
    broadcast use vstd::seq_lib::group_to_multiset_ensures;

    assert(a.len() == a.to_multiset().len());
    assert(b.len() == b.to_multiset().len());
    if a.len() == 0 {
        assert(a =~= b);
    } else {
        let last = a.len() - 1;
        assert(a.contains(a[last]));
        assert(b.to_multiset().count(a[last]) > 0);
        let in_b = choose|i: int| 0 <= i < b.len() && b[i] == a[last];
        assert(b[in_b].header.number <= b[last].header.number);
        assert(b.contains(b[last]));
        assert(a.to_multiset().count(b[last]) > 0);
        let in_a = choose|i: int| 0 <= i < a.len() && a[i] == b[last];
        assert(in_a < last ==> a[in_a].header.number < a[last].header.number);
        assert(a[last] == b[last]);
        assert(a.remove(last) =~= a.drop_last());
        assert(b.remove(last) =~= b.drop_last());
        assert(a.drop_last().to_multiset() == a.to_multiset().remove(a[last]));
        assert(b.drop_last().to_multiset() == b.to_multiset().remove(b[last]));
        lemma_distinct_order_unique(a.drop_last(), b.drop_last());
        assert(a =~= a.drop_last().push(a[last]));
        assert(b =~= b.drop_last().push(b[last]));
    }
}

/// Sorting lists the same headers, by numbers that never go down, and keeps those of equal number
/// in the order in which they were listed.
pub proof fn law_sorted(headers: Vec<SealedHeader>, sorted: Vec<SealedHeader>, number: u64)
    requires
        call_ensures(sort_by_number, (headers,), sorted),
    ensures
        ({
            let given = headers@.map_values(|header: SealedHeader| header@);
            let result = sorted@.map_values(|header: SealedHeader| header@);
            &&& sorted@.len() == headers@.len()
            &&& result.to_multiset() == given.to_multiset()
            &&& forall|i: int, j: int|
                0 <= i <= j < sorted@.len() ==> (#[trigger] sorted@[i]).header.number <= (
                #[trigger] sorted@[j]).header.number
            &&& result.filter(|h: SealedHeaderView| h.header.number == number) == given.filter(
                |h: SealedHeaderView| h.header.number == number,
            )
        }),
{
    let given = headers@.map_values(|header: SealedHeader| header@);
    let result = sorted@.map_values(|header: SealedHeader| header@);
    assert(given =~= sealed_views(headers@));
    assert(result =~= sealed_views(sorted@));
    law_sort_is_permutation(given);
    assert forall|i: int, j: int| 0 <= i <= j < sorted@.len() implies (
    #[trigger] sorted@[i]).header.number <= (#[trigger] sorted@[j]).header.number by {
        assert(result[i].header.number <= result[j].header.number);
    }
    assert(numbered(result, number) == numbered(given, number));
}

} // verus!
