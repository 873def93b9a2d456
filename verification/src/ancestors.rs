//! The ancestors of a block, as its witness gives them.

use crate::codec::decode_header;
use crate::codec::header_of_rlp;
use crate::codec::keccak256;
use crate::codec::keccak256_of;
use crate::error::StatelessValidationError;
use crate::hash::b256_eq;
use crate::hash::B256;
use crate::header::sealed_views;
use crate::header::Header;
use crate::header::HeaderView;
use crate::header::SealedHeader;
use crate::header::SealedHeaderView;
use crate::order::law_sort_is_permutation;
use crate::order::law_sort_is_unique;
use crate::order::lemma_distinct_order_unique;
use crate::order::sort_by_number;
use crate::order::sorted_by_number;
use std::collections::BTreeMap;
use vstd::prelude::*;

verus! {

/// How many of the most recent blocks the BLOCKHASH instruction can look up.
pub const BLOCKHASH_ANCESTOR_LIMIT: usize = 256;

/// The part of a witness that this crate reads: the RLP encodings of ancestor headers, in any
/// order. Trie nodes and bytecode go from the caller to its trie.
#[derive(Clone, Debug, PartialEq, Eq)]
pub struct ExecutionWitness {
    /// RLP-encoded ancestor headers.
    pub headers: Vec<Vec<u8>>,
}

impl View for ExecutionWitness {
    type V = Seq<Seq<u8>>;

    open spec fn view(&self) -> Seq<Seq<u8>> {
        self.headers@.map_values(|bytes: Vec<u8>| bytes@)
    }
}

/// What a block's execution needs to know of its ancestors.
#[derive(Clone, Debug, PartialEq, Eq)]
pub struct Ancestry {
    /// The parent. Its state root is the state before the block.
    pub parent: SealedHeader,
    /// The hashes that BLOCKHASH can look up, by block number.
    pub hashes: BTreeMap<u64, B256>,
}

/// The value of an [`Ancestry`].
pub struct AncestryView {
    pub parent: SealedHeaderView,
    pub hashes: Map<u64, B256>,
}

impl View for Ancestry {
    type V = AncestryView;

    open spec fn view(&self) -> AncestryView {
        AncestryView { parent: self.parent@, hashes: self.hashes@ }
    }
}

/// The value of what a search for a block's ancestry came to.
pub open spec fn found_view<C>(found: Result<Ancestry, StatelessValidationError<C>>) -> Result<
    AncestryView,
    StatelessValidationError<C>,
> {
    match found {
        Ok(ancestry) => Ok(ancestry@),
        Err(err) => Err(err),
    }
}

/// `child` names `parent` as its parent, and comes right after it.
pub open spec fn follows(child: HeaderView, parent: SealedHeaderView) -> bool {
    &&& child.parent_hash == parent.hash
    &&& parent.header.number + 1 == child.number
}

/// The header after `headers[i]`; `current` comes after the last.
pub open spec fn successor(
    current: HeaderView,
    headers: Seq<SealedHeaderView>,
    i: int,
) -> HeaderView {
    if i + 1 < headers.len() {
        headers[i + 1].header
    } else {
        current
    }
}

/// `headers`, oldest first, lead up to `current` without a gap.
pub open spec fn is_ancestor_chain(current: HeaderView, headers: Seq<SealedHeaderView>) -> bool {
    forall|i: int|
        0 <= i < headers.len() ==> follows(#[trigger] successor(current, headers, i), headers[i])
}

/// The hashes of a chain of ancestors by block number: the numbers right below `current`, as many
/// as there are ancestors.
pub open spec fn ancestor_hashes(
    current: HeaderView,
    headers: Seq<SealedHeaderView>,
) -> Map<u64, B256> {
    Map::new(
        |number: u64| current.number - headers.len() <= number < current.number,
        |number: u64| headers[number - (current.number - headers.len())].hash,
    )
}

/// Where `headers`, from position `from` on, lead up to `current`, their numbers count up to it.
proof fn lemma_chain_numbers(current: HeaderView, headers: Seq<SealedHeaderView>, from: int, i: int)
    requires
        0 <= from <= i < headers.len(),
        forall|j: int|
            from <= j < headers.len() ==> follows(
                #[trigger] successor(current, headers, j),
                headers[j],
            ),
    ensures
        headers[i].header.number == current.number - (headers.len() - i),
    decreases headers.len() - i,
{
    assert(follows(successor(current, headers, i), headers[i]));
    if i + 1 < headers.len() {
        lemma_chain_numbers(current, headers, from, i + 1);
    }
}

/// Checks that `ancestors`, oldest first, lead up to `current` without a gap, and collects their
/// hashes by block number. No block comes after the largest number, so an ancestor that carries
/// it never does.
pub fn compute_ancestor_hashes<C>(current: &Header, ancestors: &Vec<SealedHeader>) -> (hashes: Result<
    BTreeMap<u64, B256>,
    StatelessValidationError<C>,
>)
    ensures
        match hashes {
            Ok(hashes) => {
                &&& is_ancestor_chain(current@, sealed_views(ancestors@))
                &&& hashes@ == ancestor_hashes(current@, sealed_views(ancestors@))
            },
            Err(err) => {
                &&& !is_ancestor_chain(current@, sealed_views(ancestors@))
                &&& err == StatelessValidationError::<C>::InvalidAncestorChain
            },
        },
{
    broadcast use vstd::std_specs::btree::group_btree_axioms;

    let ghost headers = sealed_views(ancestors@);
    let mut hashes: BTreeMap<u64, B256> = BTreeMap::new();
    let mut child: &Header = current;
    let mut left: usize = ancestors.len();
    assert(hashes@ =~= ancestor_hashes(current@, headers.skip(left as int)));
    while left > 0
        invariant
            left <= headers.len(),
            headers == sealed_views(ancestors@),
            child@ == successor(current@, headers, left - 1),
            forall|j: int|
                left <= j < headers.len() ==> follows(
                    #[trigger] successor(current@, headers, j),
                    headers[j],
                ),
            hashes@ == ancestor_hashes(current@, headers.skip(left as int)),
        decreases left,
    {
        let at: usize = left - 1;
        let parent: &SealedHeader = &ancestors[at];
        let ghost collected = hashes@;
        hashes.insert(parent.header.number, child.parent_hash);
        assert(headers[at as int] == parent@);
        if !b256_eq(&child.parent_hash, &parent.hash) {
            assert(!follows(successor(current@, headers, at as int), headers[at as int]));
            return Err(StatelessValidationError::InvalidAncestorChain);
        }
        if parent.header.number == u64::MAX || parent.header.number + 1 != child.number {
            assert(!follows(successor(current@, headers, at as int), headers[at as int]));
            return Err(StatelessValidationError::InvalidAncestorChain);
        }
        proof {
            lemma_chain_numbers(current@, headers, at as int, at as int);
            assert(hashes@ =~= ancestor_hashes(current@, headers.skip(at as int)));
        }
        child = &parent.header;
        left = at;
    }
    assert(headers.skip(0) =~= headers);
    Ok(hashes)
}

/// The sealed headers that a witness encodes, in the order in which it lists them: each with the
/// Keccak-256 digest of its own encoding. `None` where an entry encodes no header.
pub open spec fn decoded_ancestors(encoded: Seq<Seq<u8>>) -> Option<Seq<SealedHeaderView>> {
    if forall|i: int| 0 <= i < encoded.len() ==> header_of_rlp(#[trigger] encoded[i]) is Some {
        Some(
            encoded.map_values(
                |bytes: Seq<u8>|
                    SealedHeaderView {
                        header: header_of_rlp(bytes)->Some_0,
                        hash: keccak256_of(bytes),
                    },
            ),
        )
    } else {
        None
    }
}

/// Decodes and seals the headers of a witness. Fails if any of them does not decode.
pub fn decode_ancestor_headers<C>(witness: &ExecutionWitness) -> (decoded: Result<
    Vec<SealedHeader>,
    StatelessValidationError<C>,
>)
    ensures
        match decoded {
            Ok(headers) => decoded_ancestors(witness@) == Some(sealed_views(headers@)),
            Err(err) => {
                &&& decoded_ancestors(witness@) is None
                &&& err == StatelessValidationError::<C>::HeaderDeserializationFailed
            },
        },
{
    let mut headers: Vec<SealedHeader> = Vec::new();
    let mut i: usize = 0;
    while i < witness.headers.len()
        invariant
            i <= witness.headers.len(),
            headers.len() == i,
            forall|j: int|
                #![trigger witness@[j]]
                0 <= j < i ==> {
                    &&& header_of_rlp(witness@[j]) == Some(headers@[j].header@)
                    &&& headers@[j].hash == keccak256_of(witness@[j])
                },
        decreases witness.headers.len() - i,
    {
        let bytes = &witness.headers[i];
        assert(witness@[i as int] == bytes@);
        let hash = keccak256(bytes);
        match decode_header(bytes) {
            Ok(header) => {
                headers.push(SealedHeader::new(header, hash));
            },
            Err(_) => {
                return Err(StatelessValidationError::HeaderDeserializationFailed);
            },
        }
        i += 1;
    }
    proof {
        let views = sealed_views(headers@);
        assert(decoded_ancestors(witness@)->Some_0 =~= views);
    }
    Ok(headers)
}

/// What becomes of the ancestors that a witness gave for a block: too many are refused, then any
/// that do not lead up to the block, then none at all.
pub open spec fn ancestry_of<C>(current: HeaderView, headers: Seq<SealedHeaderView>) -> Result<
    AncestryView,
    StatelessValidationError<C>,
> {
    let sorted = sorted_by_number(headers);
    if headers.len() > BLOCKHASH_ANCESTOR_LIMIT {
        Err(
            StatelessValidationError::AncestorHeaderLimitExceeded {
                count: headers.len() as usize,
                limit: BLOCKHASH_ANCESTOR_LIMIT,
            },
        )
    } else if !is_ancestor_chain(current, sorted) {
        Err(StatelessValidationError::InvalidAncestorChain)
    } else if headers.len() == 0 {
        Err(StatelessValidationError::MissingAncestorHeader)
    } else {
        Ok(AncestryView { parent: sorted.last(), hashes: ancestor_hashes(current, sorted) })
    }
}

/// Orders the ancestors of a block by number, and checks that they are few enough, lead up to the
/// block without a gap, and include its parent.
pub fn ancestry<C>(current: &Header, headers: Vec<SealedHeader>) -> (found: Result<
    Ancestry,
    StatelessValidationError<C>,
>)
    ensures
        found_view(found) == ancestry_of::<C>(current@, sealed_views(headers@)),
{
    let count: usize = headers.len();
    if count > BLOCKHASH_ANCESTOR_LIMIT {
        return Err(
            StatelessValidationError::AncestorHeaderLimitExceeded {
                count,
                limit: BLOCKHASH_ANCESTOR_LIMIT,
            },
        );
    }
    let mut sorted = sort_by_number(headers);
    let hashes = match compute_ancestor_hashes::<C>(current, &sorted) {
        Ok(hashes) => hashes,
        Err(err) => {
            return Err(err);
        },
    };
    let ghost views = sealed_views(sorted@);
    match sorted.pop() {
        Some(parent) => {
            assert(views.last() == parent@);
            Ok(Ancestry { parent, hashes })
        },
        None => Err(StatelessValidationError::MissingAncestorHeader),
    }
}

/// What becomes of a block's witness before anything is executed.
pub open spec fn witnessed_ancestry_of<C>(current: HeaderView, encoded: Seq<Seq<u8>>) -> Result<
    AncestryView,
    StatelessValidationError<C>,
> {
    match decoded_ancestors(encoded) {
        Some(headers) => ancestry_of(current, headers),
        None => Err(StatelessValidationError::HeaderDeserializationFailed),
    }
}

/// Reads the ancestors of a block from its witness.
pub fn witnessed_ancestry<C>(current: &Header, witness: &ExecutionWitness) -> (found: Result<
    Ancestry,
    StatelessValidationError<C>,
>)
    ensures
        found_view(found) == witnessed_ancestry_of::<C>(current@, witness@),
{
    match decode_ancestor_headers::<C>(witness) {
        Ok(headers) => ancestry(current, headers),
        Err(err) => Err(err),
    }
}

/// The numbers of a chain count up to the block, one by one.
pub proof fn law_chain_is_consecutive(current: HeaderView, headers: Seq<SealedHeaderView>)
    requires
        is_ancestor_chain(current, headers),
    ensures
        headers.len() <= current.number,
        forall|i: int|
            0 <= i < headers.len() ==> (#[trigger] headers[i]).header.number == current.number - (
            headers.len() - i),
{
    assert forall|i: int| 0 <= i < headers.len() implies (#[trigger] headers[i]).header.number
        == current.number - (headers.len() - i) by {
        lemma_chain_numbers(current, headers, 0, i);
    }
    if headers.len() > 0 {
        assert(headers[0].header.number >= 0);
    }
}

/// A list of headers has at most one order in which it is a chain: that of the numbers.
proof fn lemma_chain_is_sorted(
    current: HeaderView,
    headers: Seq<SealedHeaderView>,
    chain: Seq<SealedHeaderView>,
)
    requires
        chain.to_multiset() == headers.to_multiset(),
        is_ancestor_chain(current, chain),
    ensures
        chain == sorted_by_number(headers),
{
    law_chain_is_consecutive(current, chain);
    law_sort_is_unique(headers, sorted_by_number(headers));
    law_sort_is_permutation(headers);
    lemma_distinct_order_unique(chain, sorted_by_number(headers));
}

/// A witness is accepted if and only if it gives at least one header and at most the limit, and
/// there is an order in which they lead up to the block without a gap.
pub proof fn law_accepts_chains_only<C>(current: HeaderView, headers: Seq<SealedHeaderView>)
    ensures
        ancestry_of::<C>(current, headers) is Ok <==> {
            &&& 1 <= headers.len() <= BLOCKHASH_ANCESTOR_LIMIT
            &&& exists|chain: Seq<SealedHeaderView>|
                chain.to_multiset() == headers.to_multiset() && #[trigger] is_ancestor_chain(
                    current,
                    chain,
                )
        },
{
    law_sort_is_permutation(headers);
    if exists|chain: Seq<SealedHeaderView>|
        chain.to_multiset() == headers.to_multiset() && #[trigger] is_ancestor_chain(
            current,
            chain,
        ) {
        let chain = choose|chain: Seq<SealedHeaderView>|
            chain.to_multiset() == headers.to_multiset() && #[trigger] is_ancestor_chain(
                current,
                chain,
            );
        lemma_chain_is_sorted(current, headers, chain);
    }
}

/// What becomes of ancestors does not depend on the order in which they are listed.
pub proof fn law_any_order<C>(
    current: HeaderView,
    headers: Seq<SealedHeaderView>,
    listed: Seq<SealedHeaderView>,
)
    requires
        headers.to_multiset() == listed.to_multiset(),
    ensures
        ancestry_of::<C>(current, headers) == ancestry_of::<C>(current, listed),
{
    law_sort_is_permutation(headers);
    law_sort_is_permutation(listed);
    assert(headers.len() == listed.len()) by {
        broadcast use vstd::seq_lib::group_to_multiset_ensures;

        assert(headers.len() == headers.to_multiset().len());
        assert(listed.len() == listed.to_multiset().len());
    }
    if is_ancestor_chain(current, sorted_by_number(headers)) {
        lemma_chain_is_sorted(current, listed, sorted_by_number(headers));
    }
    if is_ancestor_chain(current, sorted_by_number(listed)) {
        lemma_chain_is_sorted(current, headers, sorted_by_number(listed));
    }
}

/// Every header of a list is in the sorted list, and the other way round.
proof fn lemma_sort_keeps_members(headers: Seq<SealedHeaderView>)
    ensures
        forall|header: SealedHeaderView| #[trigger]
            sorted_by_number(headers).contains(header) <==> headers.contains(header),
{
    let sorted = sorted_by_number(headers);
    law_sort_is_permutation(headers);
    assert forall|header: SealedHeaderView| #[trigger] sorted.contains(header) <==> headers.contains(
        header,
    ) by {
        broadcast use vstd::seq_lib::group_to_multiset_ensures;

        assert(sorted.contains(header) <==> sorted.to_multiset().count(header) > 0);
        assert(headers.contains(header) <==> headers.to_multiset().count(header) > 0);
    }
}

/// The ancestry of a block, where its ancestors are accepted: the parent is one of them and comes
/// right before the block, which names it; and the hashes are theirs, one for each, under the
/// numbers right below the block's.
pub proof fn law_ancestry<C>(current: HeaderView, headers: Seq<SealedHeaderView>)
    requires
        ancestry_of::<C>(current, headers) is Ok,
    ensures
        ({
            let found = ancestry_of::<C>(current, headers)->Ok_0;
            &&& headers.contains(found.parent)
            &&& follows(current, found.parent)
            &&& found.hashes.dom().finite()
            &&& found.hashes.len() == headers.len()
            &&& forall|number: u64| #[trigger]
                found.hashes.contains_key(number) <==> current.number - headers.len() <= number
                    < current.number
            &&& forall|i: int|
                0 <= i < headers.len() ==> {
                    &&& found.hashes.contains_key((#[trigger] headers[i]).header.number)
                    &&& found.hashes[headers[i].header.number] == headers[i].hash
                }
            &&& forall|number: u64| #[trigger]
                found.hashes.contains_key(number) ==> exists|i: int|
                    {
                        &&& 0 <= i < headers.len()
                        &&& (#[trigger] headers[i]).header.number == number
                        &&& headers[i].hash == found.hashes[number]
                    }
        }),
{
    let sorted = sorted_by_number(headers);
    let found = ancestry_of::<C>(current, headers)->Ok_0;
    law_sort_is_permutation(headers);
    law_chain_is_consecutive(current, sorted);
    lemma_sort_keeps_members(headers);
    assert(sorted.contains(sorted.last()));
    assert(follows(successor(current, sorted, sorted.len() - 1), sorted.last()));
    assert forall|i: int| 0 <= i < headers.len() implies {
        &&& found.hashes.contains_key((#[trigger] headers[i]).header.number)
        &&& found.hashes[headers[i].header.number] == headers[i].hash
    } by {
        assert(headers.contains(headers[i]));
        assert(sorted.contains(headers[i]));
        let k = choose|k: int| 0 <= k < sorted.len() && sorted[k] == headers[i];
        assert(sorted[k].header.number == current.number - (sorted.len() - k));
    }
    assert forall|number: u64| #[trigger] found.hashes.contains_key(number) implies exists|i: int|
        {
            &&& 0 <= i < headers.len()
            &&& (#[trigger] headers[i]).header.number == number
            &&& headers[i].hash == found.hashes[number]
        } by {
        let k = number - (current.number - sorted.len());
        assert(sorted[k].header.number == number);
        assert(sorted.contains(sorted[k]));
        assert(headers.contains(sorted[k]));
        let i = choose|i: int| 0 <= i < headers.len() && headers[i] == sorted[k];
        assert(headers[i].header.number == number);
    }
    let numbers = sorted.map_values(|header: SealedHeaderView| header.header.number);
    assert(numbers.no_duplicates());
    numbers.unique_seq_to_set();
    assert(found.hashes.dom() =~= numbers.to_set()) by {
        assert forall|number: u64| found.hashes.contains_key(number) implies numbers.contains(
            number,
        ) by {
            let k = number - (current.number - sorted.len());
            assert(numbers[k] == sorted[k].header.number);
        }
    }
    vstd::seq_lib::seq_to_set_is_finite(numbers);
}

/// Applying a function to each entry of a reordered list reorders the results.
proof fn lemma_map_permutation<A, B>(a: Seq<A>, b: Seq<A>, f: spec_fn(A) -> B)
    requires
        a.to_multiset() == b.to_multiset(),
    ensures
        a.map_values(f).to_multiset() == b.map_values(f).to_multiset(),
    decreases a.len(),
{
    broadcast use vstd::seq_lib::group_to_multiset_ensures;

    assert(a.len() == a.to_multiset().len());
    assert(b.len() == b.to_multiset().len());
    if a.len() == 0 {
        assert(a.map_values(f) =~= b.map_values(f));
    } else {
        let last = a.len() - 1;
        assert(a.contains(a[last]));
        assert(b.to_multiset().count(a[last]) > 0);
        let i = choose|i: int| 0 <= i < b.len() && b[i] == a[last];
        assert(a.remove(last).to_multiset() == b.remove(i).to_multiset());
        lemma_map_permutation(a.remove(last), b.remove(i), f);
        let (fa, fb) = (a.map_values(f), b.map_values(f));
        assert(a.remove(last).map_values(f) =~= fa.remove(last));
        assert(b.remove(i).map_values(f) =~= fb.remove(i));
        assert(fa.remove(last).insert(last, fa[last]) =~= fa);
        assert(fb.remove(i).insert(i, fb[i]) =~= fb);
        vstd::seq_lib::to_multiset_insert(fa.remove(last), last, fa[last]);
        vstd::seq_lib::to_multiset_insert(fb.remove(i), i, fb[i]);
    }
}

/// What becomes of a witness does not depend on the order in which it lists the headers.
pub proof fn law_any_witness_order<C>(
    current: HeaderView,
    encoded: Seq<Seq<u8>>,
    listed: Seq<Seq<u8>>,
)
    requires
        encoded.to_multiset() == listed.to_multiset(),
    ensures
        witnessed_ancestry_of::<C>(current, encoded) == witnessed_ancestry_of::<C>(current, listed),
{
    assert forall|bytes: Seq<u8>| #[trigger] encoded.contains(bytes) <==> listed.contains(bytes) by {
        broadcast use vstd::seq_lib::group_to_multiset_ensures;

        assert(encoded.contains(bytes) <==> encoded.to_multiset().count(bytes) > 0);
        assert(listed.contains(bytes) <==> listed.to_multiset().count(bytes) > 0);
    }
    let seal = |bytes: Seq<u8>|
        SealedHeaderView { header: header_of_rlp(bytes)->Some_0, hash: keccak256_of(bytes) };
    if decoded_ancestors(encoded) is Some {
        assert forall|i: int| 0 <= i < listed.len() implies header_of_rlp(
            #[trigger] listed[i],
        ) is Some by {
            assert(encoded.contains(listed[i]));
        }
    }
    if decoded_ancestors(listed) is Some {
        assert forall|i: int| 0 <= i < encoded.len() implies header_of_rlp(
            #[trigger] encoded[i],
        ) is Some by {
            assert(encoded.contains(encoded[i]));
            assert(listed.contains(encoded[i]));
        }
        lemma_map_permutation(encoded, listed, seal);
        assert(decoded_ancestors(encoded)->Some_0 =~= encoded.map_values(seal));
        assert(decoded_ancestors(listed)->Some_0 =~= listed.map_values(seal));
        law_any_order::<C>(
            current,
            decoded_ancestors(encoded)->Some_0,
            decoded_ancestors(listed)->Some_0,
        );
    }
}

/// Every hash that execution can look up is the Keccak-256 digest of an entry of the witness that
/// encodes the header of that number, and the block names the digest of its parent's entry.
pub proof fn law_hashes_are_digests<C>(current: HeaderView, encoded: Seq<Seq<u8>>)
    requires
        witnessed_ancestry_of::<C>(current, encoded) is Ok,
    ensures
        ({
            let found = witnessed_ancestry_of::<C>(current, encoded)->Ok_0;
            &&& forall|number: u64| #[trigger]
                found.hashes.contains_key(number) ==> exists|i: int|
                    {
                        &&& 0 <= i < encoded.len()
                        &&& header_of_rlp(#[trigger] encoded[i]) matches Some(header)
                            && header.number == number
                        &&& keccak256_of(encoded[i]) == found.hashes[number]
                    }
            &&& exists|i: int|
                {
                    &&& 0 <= i < encoded.len()
                    &&& header_of_rlp(#[trigger] encoded[i]) == Some(found.parent.header)
                    &&& keccak256_of(encoded[i]) == current.parent_hash
                }
        }),
{
    let headers = decoded_ancestors(encoded)->Some_0;
    let found = ancestry_of::<C>(current, headers)->Ok_0;
    law_ancestry::<C>(current, headers);
    assert forall|number: u64| #[trigger] found.hashes.contains_key(number) implies exists|i: int|
        {
            &&& 0 <= i < encoded.len()
            &&& header_of_rlp(#[trigger] encoded[i]) matches Some(header) && header.number == number
            &&& keccak256_of(encoded[i]) == found.hashes[number]
        } by {
        let i = choose|i: int|
            {
                &&& 0 <= i < headers.len()
                &&& (#[trigger] headers[i]).header.number == number
                &&& headers[i].hash == found.hashes[number]
            };
        assert(header_of_rlp(encoded[i]) is Some);
    }
    let i = choose|i: int| 0 <= i < headers.len() && headers[i] == found.parent;
    assert(header_of_rlp(encoded[i]) is Some);
}

/// Numbers that go up, all of them among as many right below `end`, are consecutive.
proof fn lemma_window_is_filled(headers: Seq<SealedHeaderView>, end: int, i: int)
    requires
        0 <= i < headers.len(),
        forall|j: int|
            0 <= j < headers.len() ==> end - headers.len() <= (
            #[trigger] headers[j]).header.number < end,
        forall|j: int, k: int|
            0 <= j < k < headers.len() ==> (#[trigger] headers[j]).header.number < (
            #[trigger] headers[k]).header.number,
    ensures
        headers[i].header.number == end - headers.len() + i,
{
    lemma_window_from_below(headers, end - headers.len(), i);
    lemma_window_from_above(headers, end, i);
}

/// Numbers that go up from `start` are no smaller than if they counted up.
proof fn lemma_window_from_below(headers: Seq<SealedHeaderView>, start: int, i: int)
    requires
        0 <= i < headers.len(),
        start <= headers[0].header.number,
        forall|j: int, k: int|
            0 <= j < k < headers.len() ==> (#[trigger] headers[j]).header.number < (
            #[trigger] headers[k]).header.number,
    ensures
        start + i <= headers[i].header.number,
    decreases i,
{
    if i > 0 {
        lemma_window_from_below(headers, start, i - 1);
        assert(headers[i - 1].header.number < headers[i].header.number);
    }
}

/// Numbers that go up to below `end` are no larger than if they counted up to it.
proof fn lemma_window_from_above(headers: Seq<SealedHeaderView>, end: int, i: int)
    requires
        0 <= i < headers.len(),
        headers.last().header.number < end,
        forall|j: int, k: int|
            0 <= j < k < headers.len() ==> (#[trigger] headers[j]).header.number < (
            #[trigger] headers[k]).header.number,
    ensures
        headers[i].header.number <= end - headers.len() + i,
    decreases headers.len() - i,
{
    if i + 1 < headers.len() {
        lemma_window_from_above(headers, end, i + 1);
        assert(headers[i].header.number < headers[i + 1].header.number);
    }
}

/// Headers can be arranged as a chain if and only if their numbers are those right below the
/// block's, no two share one, and each header, the block's too, names the hash of the one before.
proof fn lemma_chain_by_numbers(current: HeaderView, headers: Seq<SealedHeaderView>)
    ensures
        is_ancestor_chain(current, sorted_by_number(headers)) <==> {
            &&& forall|i: int|
                0 <= i < headers.len() ==> current.number - headers.len() <= (
                #[trigger] headers[i]).header.number < current.number
            &&& forall|i: int, j: int|
                0 <= i < j < headers.len() ==> (#[trigger] headers[i]).header.number != (
                #[trigger] headers[j]).header.number
            &&& forall|i: int|
                0 <= i < headers.len() && (#[trigger] headers[i]).header.number + 1
                    == current.number ==> current.parent_hash == headers[i].hash
            &&& forall|i: int, j: int|
                #![trigger headers[i], headers[j]]
                0 <= i < headers.len() && 0 <= j < headers.len() && headers[i].header.number + 1
                    == headers[j].header.number ==> headers[j].header.parent_hash == headers[i].hash
        },
{
    let sorted = sorted_by_number(headers);
    law_sort_is_unique(headers, sorted);
    law_sort_is_permutation(headers);
    lemma_sort_keeps_members(headers);
    if is_ancestor_chain(current, sorted) {
        law_chain_is_consecutive(current, sorted);
        assert(sorted.no_duplicates());
        sorted.lemma_multiset_has_no_duplicates();
        headers.lemma_multiset_has_no_duplicates_conv();
        assert forall|i: int| 0 <= i < headers.len() implies exists|k: int|
            0 <= k < sorted.len() && sorted[k] == #[trigger] headers[i] by {
            assert(headers.contains(headers[i]));
            assert(sorted.contains(headers[i]));
        }
        assert forall|i: int|
            0 <= i < headers.len() && (#[trigger] headers[i]).header.number + 1
                == current.number implies current.parent_hash == headers[i].hash by {
            let k = choose|k: int| 0 <= k < sorted.len() && sorted[k] == headers[i];
            assert(follows(successor(current, sorted, k), sorted[k]));
        }
        assert forall|i: int, j: int|
            #![trigger headers[i], headers[j]]
            0 <= i < headers.len() && 0 <= j < headers.len() && headers[i].header.number + 1
                == headers[j].header.number implies headers[j].header.parent_hash
            == headers[i].hash by {
            let k = choose|k: int| 0 <= k < sorted.len() && sorted[k] == headers[i];
            let l = choose|l: int| 0 <= l < sorted.len() && sorted[l] == headers[j];
            assert(sorted[k].header.number == current.number - (sorted.len() - k));
            assert(sorted[l].header.number == current.number - (sorted.len() - l));
            assert(follows(successor(current, sorted, k), sorted[k]));
        }
    }
    if {
        &&& forall|i: int|
            0 <= i < headers.len() ==> current.number - headers.len() <= (
            #[trigger] headers[i]).header.number < current.number
        &&& forall|i: int, j: int|
            0 <= i < j < headers.len() ==> (#[trigger] headers[i]).header.number != (
            #[trigger] headers[j]).header.number
        &&& forall|i: int|
            0 <= i < headers.len() && (#[trigger] headers[i]).header.number + 1
                == current.number ==> current.parent_hash == headers[i].hash
        &&& forall|i: int, j: int|
            #![trigger headers[i], headers[j]]
            0 <= i < headers.len() && 0 <= j < headers.len() && headers[i].header.number + 1
                == headers[j].header.number ==> headers[j].header.parent_hash == headers[i].hash
    } {
        assert(headers.no_duplicates());
        headers.lemma_multiset_has_no_duplicates();
        sorted.lemma_multiset_has_no_duplicates_conv();
        assert forall|k: int| 0 <= k < sorted.len() implies exists|i: int|
            0 <= i < headers.len() && headers[i] == #[trigger] sorted[k] by {
            assert(sorted.contains(sorted[k]));
            assert(headers.contains(sorted[k]));
        }
        assert forall|k: int, l: int| 0 <= k < l < sorted.len() implies (
        #[trigger] sorted[k]).header.number < (#[trigger] sorted[l]).header.number by {
            let i = choose|i: int| 0 <= i < headers.len() && headers[i] == sorted[k];
            let j = choose|j: int| 0 <= j < headers.len() && headers[j] == sorted[l];
            assert(i != j);
            assert(headers[i].header.number != headers[j].header.number);
        }
        assert forall|k: int| 0 <= k < sorted.len() implies current.number - sorted.len() <= (
        #[trigger] sorted[k]).header.number < current.number by {
            let i = choose|i: int| 0 <= i < headers.len() && headers[i] == sorted[k];
        }
        assert forall|k: int| 0 <= k < sorted.len() implies follows(
            #[trigger] successor(current, sorted, k),
            sorted[k],
        ) by {
            lemma_window_is_filled(sorted, current.number as int, k);
            let i = choose|i: int| 0 <= i < headers.len() && headers[i] == sorted[k];
            if k + 1 < sorted.len() {
                lemma_window_is_filled(sorted, current.number as int, k + 1);
                let j = choose|j: int| 0 <= j < headers.len() && headers[j] == sorted[k + 1];
                assert(headers[i].header.number + 1 == headers[j].header.number);
            } else {
                assert(headers[i].header.number + 1 == current.number);
            }
        }
    }
}

/// A list of ancestors, oldest first, is accepted if and only if each comes right after the one
/// before and names its hash, and the block does so after the last. The hashes that are collected
/// are theirs, each under its own number, and no others.
pub proof fn law_ancestor_hashes<C>(
    current: Header,
    ancestors: Vec<SealedHeader>,
    hashes: Result<BTreeMap<u64, B256>, StatelessValidationError<C>>,
)
    requires
        call_ensures(compute_ancestor_hashes::<C>, (&current, &ancestors), hashes),
    ensures
        hashes is Ok <==> {
            &&& ancestors@.len() > 0 ==> {
                &&& ancestors@.last().header.number + 1 == current.number
                &&& ancestors@.last().hash == current.parent_hash
            }
            &&& forall|i: int, j: int|
                #![trigger ancestors@[i], ancestors@[j]]
                0 <= i && i + 1 == j && j < ancestors@.len() ==> {
                    &&& ancestors@[i].header.number + 1 == ancestors@[j].header.number
                    &&& ancestors@[i].hash == ancestors@[j].header.parent_hash
                }
        },
        hashes matches Err(err) ==> err == StatelessValidationError::<C>::InvalidAncestorChain,
        hashes matches Ok(hashes) ==> {
            &&& forall|i: int|
                0 <= i < ancestors@.len() ==> {
                    &&& hashes@.contains_key((#[trigger] ancestors@[i]).header.number)
                    &&& hashes@[ancestors@[i].header.number] == ancestors@[i].hash
                }
            &&& forall|number: u64| #[trigger]
                hashes@.contains_key(number) ==> exists|i: int|
                    0 <= i < ancestors@.len() && (#[trigger] ancestors@[i]).header.number == number
        },
{
    let headers = sealed_views(ancestors@);
    let chained = {
        &&& ancestors@.len() > 0 ==> {
            &&& ancestors@.last().header.number + 1 == current.number
            &&& ancestors@.last().hash == current.parent_hash
        }
        &&& forall|i: int, j: int|
            #![trigger ancestors@[i], ancestors@[j]]
            0 <= i && i + 1 == j && j < ancestors@.len() ==> {
                &&& ancestors@[i].header.number + 1 == ancestors@[j].header.number
                &&& ancestors@[i].hash == ancestors@[j].header.parent_hash
            }
    };
    if chained {
        assert forall|i: int| 0 <= i < headers.len() implies follows(
            #[trigger] successor(current@, headers, i),
            headers[i],
        ) by {
            assert(headers[i] == ancestors@[i]@);
            if i + 1 < headers.len() {
                assert(headers[i + 1] == ancestors@[i + 1]@);
            }
        }
    }
    if is_ancestor_chain(current@, headers) {
        law_chain_is_consecutive(current@, headers);
        assert forall|i: int, j: int|
            #![trigger ancestors@[i], ancestors@[j]]
            0 <= i && i + 1 == j && j < ancestors@.len() implies {
            &&& ancestors@[i].header.number + 1 == ancestors@[j].header.number
            &&& ancestors@[i].hash == ancestors@[j].header.parent_hash
        } by {
            assert(follows(successor(current@, headers, i), headers[i]));
        }
        if headers.len() > 0 {
            assert(follows(successor(current@, headers, headers.len() - 1), headers.last()));
        }
        assert forall|i: int| 0 <= i < ancestors@.len() implies {
            &&& hashes->Ok_0@.contains_key((#[trigger] ancestors@[i]).header.number)
            &&& hashes->Ok_0@[ancestors@[i].header.number] == ancestors@[i].hash
        } by {
            assert(headers[i] == ancestors@[i]@);
        }
        assert forall|number: u64| #[trigger] hashes->Ok_0@.contains_key(number) implies exists|i: int|
            0 <= i < ancestors@.len() && (#[trigger] ancestors@[i]).header.number == number by {
            let i = number - (current.number - headers.len());
            assert(headers[i] == ancestors@[i]@);
        }
    }
}

/// Decoding succeeds if and only if every entry of the witness encodes a header. It gives these
/// headers, in the order of the entries, each sealed with the digest of its entry.
pub proof fn law_decoded_headers<C>(
    witness: ExecutionWitness,
    decoded: Result<Vec<SealedHeader>, StatelessValidationError<C>>,
)
    requires
        call_ensures(decode_ancestor_headers::<C>, (&witness,), decoded),
    ensures
        decoded is Ok <==> forall|i: int|
            0 <= i < witness.headers@.len() ==> header_of_rlp(
                (#[trigger] witness.headers@[i])@,
            ) is Some,
        decoded matches Err(err) ==> err
            == StatelessValidationError::<C>::HeaderDeserializationFailed,
        decoded matches Ok(headers) ==> {
            &&& headers@.len() == witness.headers@.len()
            &&& forall|i: int|
                #![trigger headers@[i]]
                #![trigger witness.headers@[i]]
                0 <= i < headers@.len() ==> {
                    &&& header_of_rlp(witness.headers@[i]@) == Some(headers@[i].header@)
                    &&& headers@[i].hash == keccak256_of(witness.headers@[i]@)
                }
        },
{
    assert forall|i: int| 0 <= i < witness.headers@.len() implies witness@[i] == (
    #[trigger] witness.headers@[i])@ by {}
    if forall|i: int|
        0 <= i < witness.headers@.len() ==> header_of_rlp(
            (#[trigger] witness.headers@[i])@,
        ) is Some {
        assert forall|i: int| 0 <= i < witness@.len() implies header_of_rlp(
            #[trigger] witness@[i],
        ) is Some by {
            assert(header_of_rlp(witness.headers@[i]@) is Some);
        }
    }
    if let Ok(headers) = decoded {
        let views = sealed_views(headers@);
        assert(decoded_ancestors(witness@) == Some(views));
        assert(views.len() == witness@.len());
        assert forall|i: int|
            #![trigger headers@[i]]
            #![trigger witness.headers@[i]]
            0 <= i < headers@.len() implies {
            &&& header_of_rlp(witness.headers@[i]@) == Some(headers@[i].header@)
            &&& headers@[i].hash == keccak256_of(witness.headers@[i]@)
        } by {
            assert(header_of_rlp(witness@[i]) is Some);
            assert(views[i] == headers@[i]@);
        }
    }
}

/// Ancestors are accepted if and only if there are 1 to 256 of them, their numbers are those right
/// below the block's, no two share one, and each header, the block's too, names the hash of the
/// one before. Too many are refused as such, none at all as missing, and the rest as no chain.
pub proof fn law_ancestors_decide<C>(
    current: Header,
    headers: Vec<SealedHeader>,
    found: Result<Ancestry, StatelessValidationError<C>>,
)
    requires
        call_ensures(ancestry::<C>, (&current, headers), found),
    ensures
        found is Ok <==> {
            &&& 1 <= headers@.len() <= 256
            &&& forall|i: int|
                0 <= i < headers@.len() ==> current.number - headers@.len() <= (
                #[trigger] headers@[i]).header.number < current.number
            &&& forall|i: int, j: int|
                0 <= i < j < headers@.len() ==> (#[trigger] headers@[i]).header.number != (
                #[trigger] headers@[j]).header.number
            &&& forall|i: int|
                0 <= i < headers@.len() && (#[trigger] headers@[i]).header.number + 1
                    == current.number ==> current.parent_hash == headers@[i].hash
            &&& forall|i: int, j: int|
                #![trigger headers@[i], headers@[j]]
                0 <= i < headers@.len() && 0 <= j < headers@.len() && headers@[i].header.number + 1
                    == headers@[j].header.number ==> headers@[j].header.parent_hash
                    == headers@[i].hash
        },
        found matches Err(err) ==> err == if headers@.len() > 256 {
            StatelessValidationError::<C>::AncestorHeaderLimitExceeded {
                count: headers@.len() as usize,
                limit: 256,
            }
        } else if headers@.len() == 0 {
            StatelessValidationError::MissingAncestorHeader
        } else {
            StatelessValidationError::InvalidAncestorChain
        },
        found matches Ok(ancestry) ==> {
            &&& ancestry.parent.header.number + 1 == current.number
            &&& exists|i: int|
                0 <= i < headers@.len() && ancestry.parent@ == (#[trigger] headers@[i])@
            &&& forall|i: int|
                0 <= i < headers@.len() ==> {
                    &&& ancestry.hashes@.contains_key((#[trigger] headers@[i]).header.number)
                    &&& ancestry.hashes@[headers@[i].header.number] == headers@[i].hash
                }
            &&& forall|number: u64| #[trigger]
                ancestry.hashes@.contains_key(number) ==> exists|i: int|
                    0 <= i < headers@.len() && (#[trigger] headers@[i]).header.number == number
        },
{
    let views = sealed_views(headers@);
    assert forall|i: int| 0 <= i < headers@.len() implies #[trigger] views[i] == headers@[i]@ by {}
    assert(forall|i: int| 0 <= i < headers@.len() ==> (#[trigger] headers@[i])@ == views[i]);
    lemma_chain_by_numbers(current@, views);
    if found is Ok {
        law_ancestry::<C>(current@, views);
        let at = choose|i: int| 0 <= i < views.len() && views[i] == found->Ok_0.parent@;
        assert(found->Ok_0.parent@ == headers@[at]@);
        assert forall|number: u64| #[trigger]
            found->Ok_0.hashes@.contains_key(number) implies exists|i: int|
            0 <= i < headers@.len() && (#[trigger] headers@[i]).header.number == number by {
            let i = choose|i: int|
                {
                    &&& 0 <= i < views.len()
                    &&& (#[trigger] views[i]).header.number == number
                    &&& views[i].hash == found->Ok_0@.hashes[number]
                };
            assert(headers@[i]@ == views[i]);
        }
    }
}

/// A witness is accepted if and only if it has 1 to 256 entries, all of which encode headers; their
/// numbers are those right below the block's, and no two share one; and each header, the block's
/// too, names the digest of the entry before. An entry that encodes no header is reported first,
/// then too many entries, then none at all; anything else is no chain.
pub proof fn law_witness_decides<C>(
    current: Header,
    witness: ExecutionWitness,
    found: Result<Ancestry, StatelessValidationError<C>>,
)
    requires
        call_ensures(witnessed_ancestry::<C>, (&current, &witness), found),
    ensures
        ({
            let entries = witness.headers@;
            &&& found is Ok <==> {
                &&& 1 <= entries.len() <= 256
                &&& forall|i: int|
                    0 <= i < entries.len() ==> (header_of_rlp(
                        (#[trigger] entries[i])@,
                    ) matches Some(header) && current.number - entries.len() <= header.number
                        < current.number)
                &&& forall|i: int, j: int|
                    #![trigger entries[i], entries[j]]
                    0 <= i < j < entries.len() ==> header_of_rlp(entries[i]@)->Some_0.number
                        != header_of_rlp(entries[j]@)->Some_0.number
                &&& forall|i: int|
                    #![trigger entries[i]]
                    0 <= i < entries.len() && header_of_rlp(entries[i]@)->Some_0.number + 1
                        == current.number ==> current.parent_hash == keccak256_of(entries[i]@)
                &&& forall|i: int, j: int|
                    #![trigger entries[i], entries[j]]
                    0 <= i < entries.len() && 0 <= j < entries.len() && header_of_rlp(
                        entries[i]@,
                    )->Some_0.number + 1 == header_of_rlp(entries[j]@)->Some_0.number
                        ==> header_of_rlp(entries[j]@)->Some_0.parent_hash == keccak256_of(
                        entries[i]@,
                    )
            }
            &&& found matches Err(err) ==> err == if exists|i: int|
                0 <= i < entries.len() && header_of_rlp((#[trigger] entries[i])@) is None {
                StatelessValidationError::<C>::HeaderDeserializationFailed
            } else if entries.len() > 256 {
                StatelessValidationError::AncestorHeaderLimitExceeded {
                    count: entries.len() as usize,
                    limit: 256,
                }
            } else if entries.len() == 0 {
                StatelessValidationError::MissingAncestorHeader
            } else {
                StatelessValidationError::InvalidAncestorChain
            }
        }),
{
    let entries = witness.headers@;
    lemma_witness_entries(witness);
    if decoded_ancestors(witness@) is Some {
        let headers = decoded_ancestors(witness@)->Some_0;
        assert forall|i: int| 0 <= i < entries.len() implies {
            &&& header_of_rlp((#[trigger] entries[i])@) == Some(headers[i].header)
            &&& headers[i].hash == keccak256_of(entries[i]@)
        } by {
            assert(header_of_rlp(witness@[i]) is Some);
        }
        lemma_chain_by_numbers(current@, headers);
    }
}

/// A witness decodes if and only if each of its entries does.
proof fn lemma_witness_entries(witness: ExecutionWitness)
    ensures
        witness@.len() == witness.headers@.len(),
        forall|i: int| 0 <= i < witness@.len() ==> #[trigger] witness@[i] == witness.headers@[i]@,
        decoded_ancestors(witness@) is Some <==> forall|i: int|
            0 <= i < witness.headers@.len() ==> header_of_rlp(
                (#[trigger] witness.headers@[i])@,
            ) is Some,
{
    let entries = witness.headers@;
    if decoded_ancestors(witness@) is Some {
        assert forall|i: int| 0 <= i < entries.len() implies header_of_rlp(
            (#[trigger] entries[i])@,
        ) is Some by {
            assert(header_of_rlp(witness@[i]) is Some);
        }
    } else {
        let i = choose|i: int|
            0 <= i < witness@.len() && header_of_rlp(#[trigger] witness@[i]) is None;
        assert(header_of_rlp(entries[i]@) is None);
    }
}

/// What an accepted witness gives: the parent is the header of the entry whose digest the block
/// names; and the hashes are the digests of the entries, each under the number of the header that
/// the entry encodes, and no others.
pub proof fn law_witness_gives<C>(
    current: Header,
    witness: ExecutionWitness,
    found: Result<Ancestry, StatelessValidationError<C>>,
)
    requires
        call_ensures(witnessed_ancestry::<C>, (&current, &witness), found),
        found is Ok,
    ensures
        ({
            let entries = witness.headers@;
            let parent = found->Ok_0.parent;
            let hashes = found->Ok_0.hashes@;
            &&& parent.header.number + 1 == current.number
            &&& parent.hash == current.parent_hash
            &&& exists|i: int|
                {
                    &&& 0 <= i < entries.len()
                    &&& header_of_rlp((#[trigger] entries[i])@) == Some(parent.header@)
                    &&& keccak256_of(entries[i]@) == parent.hash
                }
            &&& forall|i: int|
                0 <= i < entries.len() ==> (header_of_rlp(
                    (#[trigger] entries[i])@,
                ) matches Some(header) && hashes.contains_key(header.number)
                    && hashes[header.number] == keccak256_of(entries[i]@))
            &&& forall|number: u64| #[trigger]
                hashes.contains_key(number) ==> exists|i: int|
                    {
                        &&& 0 <= i < entries.len()
                        &&& header_of_rlp((#[trigger] entries[i])@) matches Some(header)
                            && header.number == number
                    }
        }),
{
    lemma_found_in_witness::<C>(current@, witness, found->Ok_0@);
}

/// What [`law_witness_gives`] states, of the value of an ancestry.
pub(crate) proof fn lemma_found_in_witness<C>(
    current: HeaderView,
    witness: ExecutionWitness,
    found: AncestryView,
)
    requires
        witnessed_ancestry_of::<C>(current, witness@) == Ok::<
            AncestryView,
            StatelessValidationError<C>,
        >(found),
    ensures
        ({
            let entries = witness.headers@;
            &&& found.parent.header.number + 1 == current.number
            &&& found.parent.hash == current.parent_hash
            &&& exists|i: int|
                {
                    &&& 0 <= i < entries.len()
                    &&& header_of_rlp((#[trigger] entries[i])@) == Some(found.parent.header)
                    &&& keccak256_of(entries[i]@) == found.parent.hash
                }
            &&& forall|i: int|
                0 <= i < entries.len() ==> (header_of_rlp(
                    (#[trigger] entries[i])@,
                ) matches Some(header) && found.hashes.contains_key(header.number)
                    && found.hashes[header.number] == keccak256_of(entries[i]@))
            &&& forall|number: u64| #[trigger]
                found.hashes.contains_key(number) ==> exists|i: int|
                    {
                        &&& 0 <= i < entries.len()
                        &&& header_of_rlp((#[trigger] entries[i])@) matches Some(header)
                            && header.number == number
                    }
        }),
{
    let entries = witness.headers@;
    let headers = decoded_ancestors(witness@)->Some_0;
    lemma_witness_entries(witness);
    law_ancestry::<C>(current, headers);
    assert forall|i: int| 0 <= i < entries.len() implies {
        &&& header_of_rlp((#[trigger] entries[i])@) == Some(headers[i].header)
        &&& headers[i].hash == keccak256_of(entries[i]@)
    } by {
        assert(header_of_rlp(witness@[i]) is Some);
    }
    let at = choose|i: int| 0 <= i < headers.len() && headers[i] == found.parent;
    assert(header_of_rlp(entries[at]@) == Some(found.parent.header));
    assert forall|number: u64| #[trigger] found.hashes.contains_key(number) implies exists|i: int|
        {
            &&& 0 <= i < entries.len()
            &&& header_of_rlp((#[trigger] entries[i])@) matches Some(header) && header.number
                == number
        } by {
        let i = choose|i: int|
            {
                &&& 0 <= i < headers.len()
                &&& (#[trigger] headers[i]).header.number == number
                &&& headers[i].hash == found.hashes[number]
            };
        assert(header_of_rlp(entries[i]@) == Some(headers[i].header));
    }
}

} // verus!
