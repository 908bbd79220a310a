//! Usage analytics of multiplexed account addresses.
//!
//! A multiplexed address is recognised by its shape alone: a fixed length
//! and a fixed first character. Decoding it into a base account and an
//! embedded identifier is left to a decoder that the caller supplies.

use crate::text::{
    lemma_lexical_total, lemma_lexical_transitive, lexical_less, str_less, text_of,
};
use vstd::prelude::*;

verus! {

/// Number of characters of a multiplexed address.
pub const MUXED_ADDRESS_LEN: usize = 69;

/// What a decoder found inside a multiplexed address.
#[derive(Debug, Clone)]
pub struct MuxedInfo {
    pub base_account: Option<String>,
    pub muxed_id: Option<u64>,
}

/// Activity of one multiplexed address.
#[derive(Debug, Clone)]
pub struct MuxedAccountUsage {
    pub account_address: String,
    pub base_account: Option<String>,
    pub muxed_id: Option<u64>,
    pub payment_count_as_source: u64,
    pub payment_count_as_destination: u64,
    pub total_payments: u128,
}

/// Result of one analysis of the payments.
#[derive(Debug, Clone)]
pub struct MuxedAccountAnalytics {
    /// Payments that touch a multiplexed address as source or destination.
    pub total_muxed_payments: u64,
    /// Distinct multiplexed addresses among the payments.
    pub unique_muxed_addresses: u64,
    /// The most active multiplexed addresses, most active first.
    pub top_muxed_by_activity: Vec<MuxedAccountUsage>,
    /// The distinct base accounts of the listed addresses, in lexical order.
    pub base_accounts_with_muxed: Vec<String>,
}

/// Occurrences of one multiplexed address, before decoding.
#[derive(Debug, Clone)]
pub struct AddressTally {
    pub address: String,
    pub as_source: u64,
    pub as_destination: u64,
}

/// Whether an address has the shape of a multiplexed address.
pub open spec fn is_muxed_address(address: Seq<char>) -> bool {
    address.len() == MUXED_ADDRESS_LEN && address[0] == 'M'
}

/// Number of payments among `pairs` whose source account is `address`.
pub open spec fn source_count(pairs: Seq<(String, String)>, address: Seq<char>) -> nat
    decreases pairs.len(),
{
    if pairs.len() == 0 {
        0
    } else {
        source_count(pairs.drop_last(), address) + if pairs.last().0@ == address {
            1nat
        } else {
            0nat
        }
    }
}

/// Number of payments among `pairs` whose destination account is `address`.
pub open spec fn destination_count(pairs: Seq<(String, String)>, address: Seq<char>) -> nat
    decreases pairs.len(),
{
    if pairs.len() == 0 {
        0
    } else {
        destination_count(pairs.drop_last(), address) + if pairs.last().1@ == address {
            1nat
        } else {
            0nat
        }
    }
}

/// Number of payments among `pairs` that touch a multiplexed address on
/// either side.
pub open spec fn muxed_payment_count(pairs: Seq<(String, String)>) -> nat
    decreases pairs.len(),
{
    if pairs.len() == 0 {
        0
    } else {
        muxed_payment_count(pairs.drop_last()) + if is_muxed_address(pairs.last().0@)
            || is_muxed_address(pairs.last().1@) {
            1nat
        } else {
            0nat
        }
    }
}

/// Whether `address` is a multiplexed address that occurs as the source of
/// one of `sources` or as the destination of one of `destinations`.
pub open spec fn active_in(
    sources: Seq<(String, String)>,
    destinations: Seq<(String, String)>,
    address: Seq<char>,
) -> bool {
    is_muxed_address(address) && source_count(sources, address) + destination_count(
        destinations,
        address,
    ) > 0
}

/// Whether `address` is a multiplexed address that occurs in `pairs`.
pub open spec fn active_muxed(pairs: Seq<(String, String)>, address: Seq<char>) -> bool {
    active_in(pairs, pairs, address)
}

/// The distinct multiplexed addresses that occur in `pairs`.
pub open spec fn muxed_addresses(pairs: Seq<(String, String)>) -> Set<Seq<char>> {
    Set::new(|address: Seq<char>| active_muxed(pairs, address))
}

/// Whether the tallies record, once each, exactly the multiplexed addresses
/// that occur as source in `sources` or as destination in `destinations`,
/// with their counts.
pub open spec fn tallies_cover(
    sources: Seq<(String, String)>,
    destinations: Seq<(String, String)>,
    tallies: Seq<AddressTally>,
) -> bool {
    &&& forall|i: int|
        0 <= i < tallies.len() ==> {
            &&& active_in(sources, destinations, (#[trigger] tallies[i]).address@)
            &&& tallies[i].as_source == source_count(sources, tallies[i].address@)
            &&& tallies[i].as_destination == destination_count(destinations, tallies[i].address@)
        }
    &&& forall|i: int, j: int|
        0 <= i < j < tallies.len() ==> (#[trigger] tallies[i]).address@ != (
        #[trigger] tallies[j]).address@
    &&& forall|address: Seq<char>| #[trigger]
        active_in(sources, destinations, address) ==> exists|i: int|
            0 <= i < tallies.len() && (#[trigger] tallies[i]).address@ == address
}

/// Position of the tally kept for `address`, if any.
pub open spec fn recorded_at(tallies: Seq<AddressTally>, address: Seq<char>) -> Option<int> {
    if exists|k: int| 0 <= k < tallies.len() && (#[trigger] tallies[k]).address@ == address {
        Some(choose|k: int| 0 <= k < tallies.len() && (#[trigger] tallies[k]).address@ == address)
    } else {
        None
    }
}

/// A tally with one more occurrence on the given side.
pub open spec fn bumped(tally: AddressTally, as_source: bool) -> AddressTally {
    if as_source {
        AddressTally {
            address: tally.address,
            as_source: (tally.as_source + 1) as u64,
            as_destination: tally.as_destination,
        }
    } else {
        AddressTally {
            address: tally.address,
            as_source: tally.as_source,
            as_destination: (tally.as_destination + 1) as u64,
        }
    }
}

/// The tally of an address seen for the first time on the given side.
pub open spec fn first_seen(address: String, as_source: bool) -> AddressTally {
    if as_source {
        AddressTally { address, as_source: 1, as_destination: 0 }
    } else {
        AddressTally { address, as_source: 0, as_destination: 1 }
    }
}

proof fn lemma_recorded_at(tallies: Seq<AddressTally>, address: Seq<char>, k: int)
    requires
        0 <= k < tallies.len(),
        tallies[k].address@ == address,
        forall|i: int, j: int|
            0 <= i < j < tallies.len() ==> (#[trigger] tallies[i]).address@ != (
            #[trigger] tallies[j]).address@,
    ensures
        recorded_at(tallies, address) == Some(k),
{
    let c = choose|c: int| 0 <= c < tallies.len() && (#[trigger] tallies[c]).address@ == address;
    if c < k {
        assert(tallies[c].address@ != tallies[k].address@);
    } else if k < c {
        assert(tallies[k].address@ != tallies[c].address@);
    }
}

proof fn lemma_counts_bounded(pairs: Seq<(String, String)>, address: Seq<char>)
    ensures
        source_count(pairs, address) <= pairs.len(),
        destination_count(pairs, address) <= pairs.len(),
    decreases pairs.len(),
{
    if pairs.len() > 0 {
        lemma_counts_bounded(pairs.drop_last(), address);
    }
}

/// Decides whether an address has the shape of a multiplexed address.
pub fn has_muxed_shape(address: &str) -> (muxed: bool)
    ensures
        muxed == is_muxed_address(address@),
{
    address.unicode_len() == MUXED_ADDRESS_LEN && address.get_char(0) == 'M'
}

/// Position of the tally kept for `address`, if there is one.
fn find_tally(tallies: &Vec<AddressTally>, address: &String) -> (found: Option<usize>)
    ensures
        match found {
            Some(k) => k < tallies.len() && tallies[k as int].address@ == address@,
            None => forall|i: int| 0 <= i < tallies.len() ==> tallies[i].address@ != address@,
        },
{
    let mut k: usize = 0;
    while k < tallies.len()
        invariant
            k <= tallies.len(),
            forall|i: int| 0 <= i < k ==> tallies[i].address@ != address@,
        decreases tallies.len() - k,
    {
        if tallies[k].address == *address {
            return Some(k);
        }
        k = k + 1;
    }
    None
}

/// Records one more occurrence of `address` on the given side, if it has
/// the shape of a multiplexed address.
fn note_occurrence(tallies: &mut Vec<AddressTally>, address: &String, as_source: bool)
    requires
        forall|i: int, j: int|
            0 <= i < j < old(tallies).len() ==> (#[trigger] old(tallies)[i]).address@ != (
            #[trigger] old(tallies)[j]).address@,
        forall|i: int|
            0 <= i < old(tallies).len() ==> if as_source {
                (#[trigger] old(tallies)[i]).as_source < u64::MAX
            } else {
                (#[trigger] old(tallies)[i]).as_destination < u64::MAX
            },
    ensures
        !is_muxed_address(address@) ==> final(tallies)@ == old(tallies)@,
        is_muxed_address(address@) ==> match recorded_at(old(tallies)@, address@) {
            Some(k) => final(tallies)@ == old(tallies)@.update(
                k,
                bumped(old(tallies)@[k], as_source),
            ),
            None => final(tallies)@ == old(tallies)@.push(first_seen(*address, as_source)),
        },
{
    if !has_muxed_shape(address.as_str()) {
        return ;
    }
    match find_tally(tallies, address) {
        Some(k) => {
            proof {
                lemma_recorded_at(tallies@, address@, k as int);
            }
            let entry = &tallies[k];
            let updated = if as_source {
                AddressTally {
                    address: entry.address.clone(),
                    as_source: entry.as_source + 1,
                    as_destination: entry.as_destination,
                }
            } else {
                AddressTally {
                    address: entry.address.clone(),
                    as_source: entry.as_source,
                    as_destination: entry.as_destination + 1,
                }
            };
            tallies.set(k, updated);
        },
        None => {
            let fresh = if as_source {
                AddressTally { address: address.clone(), as_source: 1, as_destination: 0 }
            } else {
                AddressTally { address: address.clone(), as_source: 0, as_destination: 1 }
            };
            tallies.push(fresh);
        },
    }
}

/// Whether `after` is `before` with one more occurrence of `address`
/// recorded on the given side.
pub open spec fn occurrence_noted(
    before: Seq<AddressTally>,
    after: Seq<AddressTally>,
    address: String,
    as_source: bool,
) -> bool {
    if is_muxed_address(address@) {
        match recorded_at(before, address@) {
            Some(k) => after == before.update(k, bumped(before[k], as_source)),
            None => after == before.push(first_seen(address, as_source)),
        }
    } else {
        after == before
    }
}

proof fn lemma_occurrence_noted(
    sources: Seq<(String, String)>,
    destinations: Seq<(String, String)>,
    pair: (String, String),
    as_source: bool,
    before: Seq<AddressTally>,
    after: Seq<AddressTally>,
)
    requires
        tallies_cover(sources, destinations, before),
        occurrence_noted(
            before,
            after,
            if as_source {
                pair.0
            } else {
                pair.1
            },
            as_source,
        ),
        as_source ==> sources.len() < u64::MAX,
        !as_source ==> destinations.len() < u64::MAX,
    ensures
        tallies_cover(
            if as_source {
                sources.push(pair)
            } else {
                sources
            },
            if as_source {
                destinations
            } else {
                destinations.push(pair)
            },
            after,
        ),
{
    let address = if as_source {
        pair.0@
    } else {
        pair.1@
    };
    let more_sources = if as_source {
        sources.push(pair)
    } else {
        sources
    };
    let more_destinations = if as_source {
        destinations
    } else {
        destinations.push(pair)
    };
    assert(sources.push(pair).drop_last() == sources);
    assert(destinations.push(pair).drop_last() == destinations);
    assert forall|a: Seq<char>|
        source_count(more_sources, a) == source_count(sources, a) + if as_source && a == address {
            1nat
        } else {
            0nat
        } && destination_count(more_destinations, a) == destination_count(destinations, a)
            + if !as_source && a == address {
            1nat
        } else {
            0nat
        } by {}
    if is_muxed_address(address) {
        match recorded_at(before, address) {
            Some(k) => {
                lemma_counts_bounded(sources, address);
                lemma_counts_bounded(destinations, address);
                assert forall|i: int| 0 <= i < after.len() implies {
                    &&& active_in(more_sources, more_destinations, (#[trigger] after[i]).address@)
                    &&& after[i].as_source == source_count(more_sources, after[i].address@)
                    &&& after[i].as_destination == destination_count(
                        more_destinations,
                        after[i].address@,
                    )
                } by {
                    assert(after[i].address@ == before[i].address@);
                    if i < k {
                        assert(before[i].address@ != before[k].address@);
                    } else if k < i {
                        assert(before[k].address@ != before[i].address@);
                    }
                }
                assert forall|i: int, j: int| 0 <= i < j < after.len() implies (
                #[trigger] after[i]).address@ != (#[trigger] after[j]).address@ by {
                    assert(after[i].address@ == before[i].address@);
                    assert(after[j].address@ == before[j].address@);
                }
                assert forall|a: Seq<char>| #[trigger]
                    active_in(more_sources, more_destinations, a) implies exists|i: int|
                    0 <= i < after.len() && (#[trigger] after[i]).address@ == a by {
                    if a == address {
                        assert(after[k].address@ == a);
                    } else {
                        assert(active_in(sources, destinations, a));
                        let i = choose|i: int|
                            0 <= i < before.len() && (#[trigger] before[i]).address@ == a;
                        assert(after[i].address@ == a);
                    }
                }
            },
            None => {
                assert(!active_in(sources, destinations, address));
                assert forall|i: int| 0 <= i < after.len() implies {
                    &&& active_in(more_sources, more_destinations, (#[trigger] after[i]).address@)
                    &&& after[i].as_source == source_count(more_sources, after[i].address@)
                    &&& after[i].as_destination == destination_count(
                        more_destinations,
                        after[i].address@,
                    )
                } by {
                    if i < before.len() {
                        assert(after[i] == before[i]);
                    }
                }
                assert forall|i: int, j: int| 0 <= i < j < after.len() implies (
                #[trigger] after[i]).address@ != (#[trigger] after[j]).address@ by {
                    assert(after[i] == before[i]);
                    if j < before.len() {
                        assert(after[j] == before[j]);
                    }
                }
                assert forall|a: Seq<char>| #[trigger]
                    active_in(more_sources, more_destinations, a) implies exists|i: int|
                    0 <= i < after.len() && (#[trigger] after[i]).address@ == a by {
                    if a == address {
                        assert(after[before.len() as int].address@ == a);
                    } else {
                        assert(active_in(sources, destinations, a));
                        let i = choose|i: int|
                            0 <= i < before.len() && (#[trigger] before[i]).address@ == a;
                        assert(after[i].address@ == a);
                    }
                }
            },
        }
    } else {
        assert forall|a: Seq<char>| #[trigger]
            active_in(more_sources, more_destinations, a) implies exists|i: int|
            0 <= i < after.len() && (#[trigger] after[i]).address@ == a by {
            assert(active_in(sources, destinations, a));
        }
    }
}

/// Counts, for every multiplexed address among the payments, how often it
/// occurs as source and as destination, and counts the payments that touch
/// a multiplexed address at all.
pub fn tally_muxed(payments: &Vec<(String, String)>) -> (counted: (Vec<AddressTally>, u64))
    ensures
        tallies_cover(payments@, payments@, counted.0@),
        counted.1 == muxed_payment_count(payments@),
{
    let mut tallies: Vec<AddressTally> = Vec::new();
    let mut touched: u64 = 0;
    let mut i: usize = 0;
    assert(payments@.take(0) =~= Seq::empty());
    while i < payments.len()
        invariant
            i <= payments.len(),
            tallies_cover(payments@.take(i as int), payments@.take(i as int), tallies@),
            touched == muxed_payment_count(payments@.take(i as int)),
            touched <= i,
        decreases payments.len() - i,
    {
        let ghost seen = payments@.take(i as int);
        let ghost pair = payments@[i as int];
        proof {
            assert(payments@.take(i + 1) =~= seen.push(pair));
            assert(seen.push(pair).drop_last() == seen);
            assert forall|k: int| 0 <= k < tallies.len() implies (#[trigger] tallies[k]).as_source
                < u64::MAX by {
                lemma_counts_bounded(seen, tallies[k].address@);
            }
        }
        let ghost before = tallies@;
        note_occurrence(&mut tallies, &payments[i].0, true);
        proof {
            lemma_occurrence_noted(seen, seen, pair, true, before, tallies@);
            assert forall|k: int| 0 <= k < tallies.len() implies (
            #[trigger] tallies[k]).as_destination < u64::MAX by {
                lemma_counts_bounded(seen, tallies[k].address@);
            }
        }
        let ghost between = tallies@;
        note_occurrence(&mut tallies, &payments[i].1, false);
        proof {
            lemma_occurrence_noted(seen.push(pair), seen, pair, false, between, tallies@);
        }
        if has_muxed_shape(payments[i].0.as_str()) || has_muxed_shape(payments[i].1.as_str()) {
            touched = touched + 1;
        }
        i = i + 1;
    }
    assert(payments@.take(payments.len() as int) =~= payments@);
    (tallies, touched)
}

/// Total activity of a tallied address.
pub open spec fn tally_total(tally: AddressTally) -> int {
    tally.as_source + tally.as_destination
}

/// The ranking order: more active addresses first, and among equally active
/// ones the lexically smaller address first.
pub open spec fn activity_before(
    total_a: int,
    address_a: Seq<char>,
    total_b: int,
    address_b: Seq<char>,
) -> bool {
    total_a > total_b || (total_a == total_b && lexical_less(address_a, address_b))
}

/// The ranking order on tallies.
pub open spec fn ranks_before(a: AddressTally, b: AddressTally) -> bool {
    activity_before(tally_total(a), a.address@, tally_total(b), b.address@)
}

/// Whether position `j` of the tallies occurs in `order`.
pub open spec fn placed(order: Seq<usize>, j: int) -> bool {
    exists|k: int| 0 <= k < order.len() && #[trigger] order[k] == j
}

/// Whether `order` lists the positions of the `top_n` best-ranked tallies,
/// best first: it is sorted by rank, every tally left out ranks after all
/// that were taken, and none is left out while there is room.
pub open spec fn is_top_ranking(tallies: Seq<AddressTally>, top_n: int, order: Seq<usize>) -> bool {
    &&& order.len() == if top_n < tallies.len() {
        top_n
    } else {
        tallies.len() as int
    }
    &&& order.len() < top_n ==> forall|j: int| 0 <= j < tallies.len() ==> #[trigger] placed(order, j)
    &&& forall|k: int| 0 <= k < order.len() ==> #[trigger] order[k] < tallies.len()
    &&& forall|k: int, l: int|
        0 <= k < l < order.len() ==> ranks_before(
            tallies[#[trigger] order[k] as int],
            tallies[#[trigger] order[l] as int],
        )
    &&& forall|j: int|
        0 <= j < tallies.len() ==> #[trigger] placed(order, j) || forall|k: int|
            0 <= k < order.len() ==> ranks_before(tallies[#[trigger] order[k] as int], tallies[j])
}

proof fn lemma_rank_transitive(a: AddressTally, b: AddressTally, c: AddressTally)
    requires
        ranks_before(a, b),
        ranks_before(b, c),
    ensures
        ranks_before(a, c),
{
    if tally_total(a) == tally_total(b) && tally_total(b) == tally_total(c) {
        lemma_lexical_transitive(a.address@, b.address@, c.address@);
    }
}

proof fn lemma_rank_total(a: AddressTally, b: AddressTally)
    requires
        a.address@ != b.address@,
        !ranks_before(a, b),
    ensures
        ranks_before(b, a),
{
    if tally_total(a) == tally_total(b) && !lexical_less(b.address@, a.address@) {
        lemma_lexical_total(a.address@, b.address@);
    }
}

proof fn lemma_ranking_kept(tallies: Seq<AddressTally>, i: int, top_n: int, order: Seq<usize>)
    requires
        0 <= i < tallies.len(),
        is_top_ranking(tallies.take(i), top_n, order),
        order.len() == top_n,
        forall|k: int|
            0 <= k < order.len() ==> ranks_before(tallies[#[trigger] order[k] as int], tallies[i]),
    ensures
        is_top_ranking(tallies.take(i + 1), top_n, order),
{
    let seen = tallies.take(i);
    let grown = tallies.take(i + 1);
    assert forall|k: int, l: int| 0 <= k < l < order.len() implies ranks_before(
        grown[#[trigger] order[k] as int],
        grown[#[trigger] order[l] as int],
    ) by {
        assert(ranks_before(seen[order[k] as int], seen[order[l] as int]));
    }
    assert forall|j: int| 0 <= j < grown.len() implies #[trigger] placed(order, j) || forall|
        k: int,
    |
        0 <= k < order.len() ==> ranks_before(grown[#[trigger] order[k] as int], grown[j]) by {
        if j < i {
            if !placed(order, j) {
                assert forall|k: int| 0 <= k < order.len() implies ranks_before(
                    grown[#[trigger] order[k] as int],
                    grown[j],
                ) by {
                    assert(ranks_before(seen[order[k] as int], seen[j]));
                }
            }
        }
    }
}

proof fn lemma_ranking_extended(
    tallies: Seq<AddressTally>,
    i: int,
    top_n: int,
    before: Seq<usize>,
    p: int,
    after: Seq<usize>,
)
    requires
        0 <= i < tallies.len(),
        i <= usize::MAX,
        is_top_ranking(tallies.take(i), top_n, before),
        0 <= p <= before.len(),
        p < top_n,
        forall|k: int| 0 <= k < p ==> ranks_before(tallies[#[trigger] before[k] as int], tallies[i]),
        p < before.len() ==> ranks_before(tallies[i], tallies[before[p] as int]),
        after == if before.len() + 1 > top_n {
            before.insert(p, i as usize).drop_last()
        } else {
            before.insert(p, i as usize)
        },
    ensures
        is_top_ranking(tallies.take(i + 1), top_n, after),
{
    let seen = tallies.take(i);
    let grown = tallies.take(i + 1);
    let inserted = before.insert(p, i as usize);
    let full = before.len() + 1 > top_n;
    assert forall|k: int| 0 <= k < inserted.len() implies #[trigger] inserted[k] < grown.len() by {
        if k < p {
            assert(inserted[k] == before[k]);
        } else if k > p {
            assert(inserted[k] == before[k - 1]);
        }
    }
    assert forall|k: int, l: int| 0 <= k < l < inserted.len() implies ranks_before(
        tallies[#[trigger] inserted[k] as int],
        tallies[#[trigger] inserted[l] as int],
    ) by {
        let a = if k < p {
            k
        } else {
            k - 1
        };
        let b = if l < p {
            l
        } else {
            l - 1
        };
        if k != p && l != p {
            assert(inserted[k] == before[a]);
            assert(inserted[l] == before[b]);
            assert(ranks_before(seen[before[a] as int], seen[before[b] as int]));
        } else if k == p {
            assert(inserted[l] == before[b]);
            if b > p {
                assert(ranks_before(seen[before[p] as int], seen[before[b] as int]));
                lemma_rank_transitive(tallies[i], tallies[before[p] as int], tallies[before[b] as int]);
            }
        } else {
            assert(inserted[k] == before[a]);
        }
    }
    assert forall|k: int, l: int| 0 <= k < l < after.len() implies ranks_before(
        grown[#[trigger] after[k] as int],
        grown[#[trigger] after[l] as int],
    ) by {
        assert(after[k] == inserted[k]);
        assert(after[l] == inserted[l]);
        assert(ranks_before(tallies[inserted[k] as int], tallies[inserted[l] as int]));
    }
    assert forall|k: int| 0 <= k < after.len() implies #[trigger] after[k] < grown.len() by {
        assert(after[k] == inserted[k]);
    }
    if after.len() < top_n {
        assert forall|j: int| 0 <= j < grown.len() implies #[trigger] placed(after, j) by {
            if j == i {
                assert(after[p] == i);
            } else {
                assert(placed(before, j));
                let k0 = choose|k: int| 0 <= k < before.len() && #[trigger] before[k] == j;
                let k1 = if k0 < p {
                    k0
                } else {
                    k0 + 1
                };
                assert(after[k1] == j);
            }
        }
    }
    assert forall|j: int| 0 <= j < grown.len() implies #[trigger] placed(after, j) || forall|
        k: int,
    |
        0 <= k < after.len() ==> ranks_before(grown[#[trigger] after[k] as int], grown[j]) by {
        if j == i {
            assert(after[p] == i);
        } else if placed(before, j) {
            let k0 = choose|k: int| 0 <= k < before.len() && #[trigger] before[k] == j;
            let k1 = if k0 < p {
                k0
            } else {
                k0 + 1
            };
            assert(inserted[k1] == j);
            if k1 < after.len() {
                assert(after[k1] == j);
            } else {
                assert forall|k: int| 0 <= k < after.len() implies ranks_before(
                    grown[#[trigger] after[k] as int],
                    grown[j],
                ) by {
                    assert(after[k] == inserted[k]);
                    assert(ranks_before(tallies[inserted[k] as int], tallies[inserted[k1] as int]));
                }
            }
        } else {
            assert(before.len() == top_n);
            assert forall|k: int| 0 <= k < after.len() implies ranks_before(
                grown[#[trigger] after[k] as int],
                grown[j],
            ) by {
                assert(after[k] == inserted[k]);
                if k < p {
                    assert(inserted[k] == before[k]);
                    assert(ranks_before(seen[before[k] as int], seen[j]));
                } else if k == p {
                    assert(ranks_before(seen[before[p] as int], seen[j]));
                    lemma_rank_transitive(tallies[i], tallies[before[p] as int], tallies[j]);
                } else {
                    assert(inserted[k] == before[k - 1]);
                    assert(ranks_before(seen[before[k - 1] as int], seen[j]));
                }
            }
        }
    }
}

fn tally_before(a: &AddressTally, b: &AddressTally) -> (before: bool)
    ensures
        before == ranks_before(*a, *b),
{
    let total_a: u128 = a.as_source as u128 + a.as_destination as u128;
    let total_b: u128 = b.as_source as u128 + b.as_destination as u128;
    if total_a != total_b {
        total_a > total_b
    } else {
        str_less(a.address.as_str(), b.address.as_str())
    }
}

/// Selects the `top_n` most active tallies and orders them by rank.
pub fn rank_top(tallies: &Vec<AddressTally>, top_n: usize) -> (order: Vec<usize>)
    requires
        forall|i: int, j: int|
            0 <= i < j < tallies.len() ==> (#[trigger] tallies[i]).address@ != (
            #[trigger] tallies[j]).address@,
    ensures
        is_top_ranking(tallies@, top_n as int, order@),
{
    let mut order: Vec<usize> = Vec::new();
    let mut i: usize = 0;
    while i < tallies.len()
        invariant
            i <= tallies.len(),
            forall|a: int, b: int|
                0 <= a < b < tallies.len() ==> (#[trigger] tallies[a]).address@ != (
                #[trigger] tallies[b]).address@,
            is_top_ranking(tallies@.take(i as int), top_n as int, order@),
        decreases tallies.len() - i,
    {
        let ghost seen = tallies@.take(i as int);
        let ghost grown = tallies@.take(i + 1);
        let ghost old_order = order@;
        let mut p: usize = 0;
        while p < order.len() && !tally_before(&tallies[i], &tallies[order[p]])
            invariant
                i < tallies.len(),
                p <= order.len(),
                order@ == old_order,
                is_top_ranking(seen, top_n as int, order@),
                seen == tallies@.take(i as int),
                forall|a: int, b: int|
                    0 <= a < b < tallies.len() ==> (#[trigger] tallies[a]).address@ != (
                    #[trigger] tallies[b]).address@,
                forall|k: int|
                    0 <= k < p ==> ranks_before(tallies[#[trigger] order[k] as int], tallies[i as int]),
            decreases order.len() - p,
        {
            proof {
                let o = order[p as int] as int;
                assert(seen[o] == tallies[o]);
                assert(tallies[o].address@ != tallies[i as int].address@);
                lemma_rank_total(tallies[i as int], tallies[o]);
            }
            p = p + 1;
        }
        if p < top_n {
            order.insert(p, i);
            let ghost inserted = order@;
            if order.len() > top_n {
                order.pop();
            }
            proof {
                lemma_ranking_extended(tallies@, i as int, top_n as int, old_order, p as int, order@);
            }
        } else {
            proof {
                lemma_ranking_kept(tallies@, i as int, top_n as int, order@);
            }
        }
        i = i + 1;
    }
    assert(tallies@.take(tallies.len() as int) =~= tallies@);
    order
}

/// Whether the strings are in strictly ascending lexical order.
pub open spec fn strictly_ascending(list: Seq<String>) -> bool {
    forall|i: int, j: int|
        0 <= i < j < list.len() ==> lexical_less((#[trigger] list[i])@, (#[trigger] list[j])@)
}

/// Whether `text` is one of the strings.
pub open spec fn contains_text(list: Seq<String>, text: Seq<char>) -> bool {
    exists|i: int| 0 <= i < list.len() && (#[trigger] list[i])@ == text
}

/// Adds `item` to a list kept in strictly ascending order, unless it is
/// there already.
pub fn insert_sorted_unique(list: &mut Vec<String>, item: String)
    requires
        strictly_ascending(old(list)@),
    ensures
        strictly_ascending(final(list)@),
        forall|text: Seq<char>|
            contains_text(final(list)@, text) <==> (contains_text(old(list)@, text) || text
                == item@),
{
    let ghost before = list@;
    let mut p: usize = 0;
    while p < list.len() && str_less(list[p].as_str(), item.as_str())
        invariant
            p <= list.len(),
            list@ == before,
            forall|k: int| 0 <= k < p ==> lexical_less((#[trigger] list[k])@, item@),
        decreases list.len() - p,
    {
        p = p + 1;
    }
    if p < list.len() && list[p] == item {
        assert forall|text: Seq<char>|
            contains_text(before, text) <==> (contains_text(before, text) || text == item@) by {
            if text == item@ {
                assert(before[p as int]@ == text);
            }
        }
        return ;
    }
    proof {
        if p < list.len() {
            if !lexical_less(item@, list[p as int]@) {
                lemma_lexical_total(list[p as int]@, item@);
            }
        }
    }
    list.insert(p, item);
    proof {
        let after = list@;
        assert forall|i: int, j: int| 0 <= i < j < after.len() implies lexical_less(
            (#[trigger] after[i])@,
            (#[trigger] after[j])@,
        ) by {
            let a = if i < p {
                i
            } else {
                i - 1
            };
            let b = if j < p {
                j
            } else {
                j - 1
            };
            if i != p && j != p {
                assert(after[i] == before[a]);
                assert(after[j] == before[b]);
            } else if i == p {
                assert(after[j] == before[b]);
                if b > p {
                    lemma_lexical_transitive(item@, before[p as int]@, before[b]@);
                }
            } else {
                assert(after[i] == before[a]);
            }
        }
        assert forall|text: Seq<char>|
            contains_text(after, text) <==> (contains_text(before, text) || text == item@) by {
            if contains_text(after, text) {
                let i = choose|i: int| 0 <= i < after.len() && (#[trigger] after[i])@ == text;
                if i < p {
                    assert(before[i]@ == text);
                } else if i > p {
                    assert(before[i - 1]@ == text);
                }
            }
            if contains_text(before, text) {
                let i = choose|i: int| 0 <= i < before.len() && (#[trigger] before[i])@ == text;
                let j = if i < p {
                    i
                } else {
                    i + 1
                };
                assert(after[j]@ == text);
            }
            if text == item@ {
                assert(after[p as int]@ == text);
            }
        }
    }
}

/// Total activity of `address` among `pairs`.
pub open spec fn activity(pairs: Seq<(String, String)>, address: Seq<char>) -> int {
    (source_count(pairs, address) + destination_count(pairs, address)) as int
}

/// Whether the entry reports the counts of its address among `pairs`.
pub open spec fn usage_counts(pairs: Seq<(String, String)>, usage: MuxedAccountUsage) -> bool {
    &&& active_muxed(pairs, usage.account_address@)
    &&& usage.payment_count_as_source == source_count(pairs, usage.account_address@)
    &&& usage.payment_count_as_destination == destination_count(pairs, usage.account_address@)
    &&& usage.total_payments == activity(pairs, usage.account_address@)
}

/// Whether `address` is the address of one of the entries.
pub open spec fn listed(top: Seq<MuxedAccountUsage>, address: Seq<char>) -> bool {
    exists|k: int| 0 <= k < top.len() && (#[trigger] top[k]).account_address@ == address
}

/// Whether `top` holds the `top_n` most active multiplexed addresses of
/// `pairs` with their counts, ordered by rank: every address left out ranks
/// after all that are listed.
pub open spec fn is_top_usage(
    pairs: Seq<(String, String)>,
    top_n: int,
    top: Seq<MuxedAccountUsage>,
) -> bool {
    &&& top.len() == if top_n < muxed_addresses(pairs).len() {
        top_n
    } else {
        muxed_addresses(pairs).len() as int
    }
    &&& forall|k: int| 0 <= k < top.len() ==> usage_counts(pairs, #[trigger] top[k])
    &&& forall|k: int, l: int|
        0 <= k < l < top.len() ==> activity_before(
            (#[trigger] top[k]).total_payments as int,
            top[k].account_address@,
            (#[trigger] top[l]).total_payments as int,
            top[l].account_address@,
        )
    &&& forall|address: Seq<char>| #[trigger]
        active_muxed(pairs, address) ==> listed(top, address) || forall|k: int|
            0 <= k < top.len() ==> activity_before(
                (#[trigger] top[k]).total_payments as int,
                top[k].account_address@,
                activity(pairs, address),
                address,
            )
}

/// The base account in the answer of a decoder.
pub open spec fn base_text(info: Option<MuxedInfo>) -> Option<Seq<char>> {
    match info {
        Some(found) => text_of(found.base_account),
        None => None,
    }
}

/// The embedded identifier in the answer of a decoder.
pub open spec fn id_in(info: Option<MuxedInfo>) -> Option<u64> {
    match info {
        Some(found) => found.muxed_id,
        None => None,
    }
}

/// Whether `addresses` are, once each, the multiplexed addresses that occur
/// in `pairs`, and `answers` holds for each of them what one call of the
/// decoder on it returned.
pub open spec fn is_decoding<F: Fn(&String) -> Option<MuxedInfo>>(
    decoder: F,
    pairs: Seq<(String, String)>,
    addresses: Seq<String>,
    answers: Seq<Option<MuxedInfo>>,
) -> bool {
    &&& addresses.len() == answers.len()
    &&& forall|j: int|
        0 <= j < addresses.len() ==> active_muxed(pairs, (#[trigger] addresses[j])@)
            && call_ensures(decoder, (&addresses[j],), answers[j])
    &&& forall|i: int, j: int|
        0 <= i < j < addresses.len() ==> (#[trigger] addresses[i])@ != (#[trigger] addresses[j])@
    &&& forall|address: Seq<char>| #[trigger]
        active_muxed(pairs, address) ==> exists|j: int|
            0 <= j < addresses.len() && (#[trigger] addresses[j])@ == address
}

/// Whether `bases` holds, once each and in lexical order, the base accounts
/// named in the answers.
pub open spec fn is_base_account_list(answers: Seq<Option<MuxedInfo>>, bases: Seq<String>) -> bool {
    &&& strictly_ascending(bases)
    &&& forall|text: Seq<char>|
        contains_text(bases, text) <==> exists|j: int|
            0 <= j < answers.len() && base_text(#[trigger] answers[j]) == Some(text)
}

/// Whether the decoded fields of the entry are those of the answer for its
/// address.
pub open spec fn carries_answer(
    addresses: Seq<String>,
    answers: Seq<Option<MuxedInfo>>,
    usage: MuxedAccountUsage,
) -> bool {
    exists|j: int|
        0 <= j < addresses.len() && (#[trigger] addresses[j])@ == usage.account_address@
            && text_of(usage.base_account) == base_text(answers[j]) && usage.muxed_id == id_in(
            answers[j],
        )
}

/// Whether the report is the analysis of `pairs` with the given limit and
/// decoder: its counts are those of the payments, its ranking holds the most
/// active multiplexed addresses, every multiplexed address was decoded by
/// one call of the decoder, the ranked entries carry the answers for their
/// addresses, and the base accounts are those named in all the answers.
pub open spec fn is_analysis<F: Fn(&String) -> Option<MuxedInfo>>(
    decoder: F,
    pairs: Seq<(String, String)>,
    top_n: int,
    report: MuxedAccountAnalytics,
) -> bool {
    &&& report.total_muxed_payments == muxed_payment_count(pairs)
    &&& report.unique_muxed_addresses == muxed_addresses(pairs).len()
    &&& is_top_usage(pairs, top_n, report.top_muxed_by_activity@)
    &&& exists|addresses: Seq<String>, answers: Seq<Option<MuxedInfo>>|
        {
            &&& #[trigger] is_decoding(decoder, pairs, addresses, answers)
            &&& is_base_account_list(answers, report.base_accounts_with_muxed@)
            &&& forall|k: int|
                0 <= k < report.top_muxed_by_activity.len() ==> carries_answer(
                    addresses,
                    answers,
                    #[trigger] report.top_muxed_by_activity[k],
                )
        }
}

proof fn lemma_unique_count(pairs: Seq<(String, String)>, tallies: Seq<AddressTally>)
    requires
        tallies_cover(pairs, pairs, tallies),
    ensures
        muxed_addresses(pairs).finite(),
        muxed_addresses(pairs).len() == tallies.len(),
{
    let addresses = Seq::new(tallies.len(), |i: int| tallies[i].address@);
    assert(addresses.no_duplicates()) by {
        assert forall|i: int, j: int|
            0 <= i < addresses.len() && 0 <= j < addresses.len() && i != j implies addresses[i]
            != addresses[j] by {
            if i < j {
                assert(tallies[i].address@ != tallies[j].address@);
            } else {
                assert(tallies[j].address@ != tallies[i].address@);
            }
        }
    }
    assert(addresses.to_set() =~= muxed_addresses(pairs)) by {
        assert forall|a: Seq<char>| addresses.to_set().contains(a) == muxed_addresses(
            pairs,
        ).contains(a) by {
            if addresses.to_set().contains(a) {
                let i = choose|i: int| 0 <= i < addresses.len() && addresses[i] == a;
                assert(tallies[i].address@ == a);
            }
            if active_muxed(pairs, a) {
                let i = choose|i: int| 0 <= i < tallies.len() && (#[trigger] tallies[i]).address@ == a;
                assert(addresses[i] == a);
            }
        }
    }
    addresses.unique_seq_to_set();
    vstd::seq_lib::seq_to_set_is_finite(addresses);
}

proof fn lemma_top_usage(
    pairs: Seq<(String, String)>,
    tallies: Seq<AddressTally>,
    top_n: int,
    order: Seq<usize>,
    top: Seq<MuxedAccountUsage>,
)
    requires
        tallies_cover(pairs, pairs, tallies),
        is_top_ranking(tallies, top_n, order),
        muxed_addresses(pairs).len() == tallies.len(),
        top.len() == order.len(),
        forall|m: int|
            0 <= m < top.len() ==> {
                &&& (#[trigger] top[m]).account_address@ == tallies[order[m] as int].address@
                &&& top[m].payment_count_as_source == tallies[order[m] as int].as_source
                &&& top[m].payment_count_as_destination == tallies[order[m] as int].as_destination
                &&& top[m].total_payments == tally_total(tallies[order[m] as int])
            },
    ensures
        is_top_usage(pairs, top_n, top),
{
    assert forall|k: int| 0 <= k < top.len() implies usage_counts(pairs, #[trigger] top[k]) by {
        let t = tallies[order[k] as int];
        assert(active_in(pairs, pairs, t.address@));
    }
    assert forall|k: int, l: int| 0 <= k < l < top.len() implies activity_before(
        (#[trigger] top[k]).total_payments as int,
        top[k].account_address@,
        (#[trigger] top[l]).total_payments as int,
        top[l].account_address@,
    ) by {
        assert(ranks_before(tallies[order[k] as int], tallies[order[l] as int]));
    }
    assert forall|address: Seq<char>| #[trigger] active_muxed(pairs, address) implies listed(
        top,
        address,
    ) || forall|k: int|
        0 <= k < top.len() ==> activity_before(
            (#[trigger] top[k]).total_payments as int,
            top[k].account_address@,
            activity(pairs, address),
            address,
        ) by {
        let j = choose|j: int| 0 <= j < tallies.len() && (#[trigger] tallies[j]).address@ == address;
        if placed(order, j) {
            let k = choose|k: int| 0 <= k < order.len() && #[trigger] order[k] == j;
            assert(top[k].account_address@ == address);
        } else {
            assert forall|k: int| 0 <= k < top.len() implies activity_before(
                (#[trigger] top[k]).total_payments as int,
                top[k].account_address@,
                activity(pairs, address),
                address,
            ) by {
                assert(ranks_before(tallies[order[k] as int], tallies[j]));
            }
        }
    }
}

/// Analyses the use of multiplexed addresses among the payments, each given
/// as its source and destination account.
///
/// The report counts the payments that touch a multiplexed address and the
/// distinct multiplexed addresses, lists the `top_limit` most active of
/// them by rank, and lists the base accounts of all of them. Every distinct
/// multiplexed address is decoded by one call of `decoder`.
pub fn get_muxed_analytics<F: Fn(&String) -> Option<MuxedInfo>>(
    payments: &Vec<(String, String)>,
    top_limit: usize,
    decoder: F,
) -> (report: MuxedAccountAnalytics)
    requires
        forall|address: String|
            is_muxed_address(address@) ==> #[trigger] call_requires(decoder, (&address,)),
    ensures
        is_analysis(decoder, payments@, top_limit as int, report),
{
    let (tallies, touched) = tally_muxed(payments);
    proof {
        lemma_unique_count(payments@, tallies@);
    }
    let ghost addresses = Seq::new(tallies@.len(), |j: int| tallies@[j].address);
    let mut answers: Vec<Option<MuxedInfo>> = Vec::new();
    let mut bases: Vec<String> = Vec::new();
    let mut j: usize = 0;
    while j < tallies.len()
        invariant
            j <= tallies.len(),
            answers.len() == j,
            tallies_cover(payments@, payments@, tallies@),
            forall|address: String|
                is_muxed_address(address@) ==> #[trigger] call_requires(decoder, (&address,)),
            forall|m: int|
                0 <= m < j ==> call_ensures(decoder, (&tallies[m].address,), #[trigger] answers[m]),
            is_base_account_list(answers@, bases@),
        decreases tallies.len() - j,
    {
        let info = decoder(&tallies[j].address);
        let ghost bases_before = bases@;
        let ghost answers_before = answers@;
        match &info {
            Some(found) => match &found.base_account {
                Some(base) => {
                    insert_sorted_unique(&mut bases, base.clone());
                },
                None => {},
            },
            None => {},
        }
        answers.push(info);
        proof {
            let answers_after = answers@;
            assert forall|text: Seq<char>|
                contains_text(bases@, text) <==> exists|m: int|
                    0 <= m < answers_after.len() && base_text(#[trigger] answers_after[m]) == Some(
                        text,
                    ) by {
                if exists|m: int|
                    0 <= m < answers_after.len() && base_text(#[trigger] answers_after[m]) == Some(
                        text,
                    ) {
                    let m = choose|m: int|
                        0 <= m < answers_after.len() && base_text(#[trigger] answers_after[m])
                            == Some(text);
                    if m < j {
                        assert(answers_before[m] == answers_after[m]);
                        assert(contains_text(bases_before, text));
                    }
                }
                if contains_text(bases_before, text) {
                    let m = choose|m: int|
                        0 <= m < answers_before.len() && base_text(#[trigger] answers_before[m])
                            == Some(text);
                    assert(answers_after[m] == answers_before[m]);
                }
                if base_text(info) == Some(text) {
                    assert(answers_after[j as int] == info);
                }
            }
        }
        j = j + 1;
    }
    let order = rank_top(&tallies, top_limit);
    let mut top: Vec<MuxedAccountUsage> = Vec::new();
    let mut k: usize = 0;
    while k < order.len()
        invariant
            k <= order.len(),
            top.len() == k,
            answers.len() == tallies.len(),
            is_top_ranking(tallies@, top_limit as int, order@),
            forall|m: int|
                0 <= m < k ==> {
                    &&& (#[trigger] top[m]).account_address@ == tallies[order[m] as int].address@
                    &&& top[m].payment_count_as_source == tallies[order[m] as int].as_source
                    &&& top[m].payment_count_as_destination
                        == tallies[order[m] as int].as_destination
                    &&& top[m].total_payments == tally_total(tallies[order[m] as int])
                    &&& text_of(top[m].base_account) == base_text(answers[order[m] as int])
                    &&& top[m].muxed_id == id_in(answers[order[m] as int])
                },
        decreases order.len() - k,
    {
        let tally = &tallies[order[k]];
        let (base_account, muxed_id) = match &answers[order[k]] {
            Some(found) => (
                match &found.base_account {
                    Some(base) => Some(base.clone()),
                    None => None,
                },
                found.muxed_id,
            ),
            None => (None, None),
        };
        top.push(
            MuxedAccountUsage {
                account_address: tally.address.clone(),
                base_account,
                muxed_id,
                payment_count_as_source: tally.as_source,
                payment_count_as_destination: tally.as_destination,
                total_payments: tally.as_source as u128 + tally.as_destination as u128,
            },
        );
        k = k + 1;
    }
    let report = MuxedAccountAnalytics {
        total_muxed_payments: touched,
        unique_muxed_addresses: tallies.len() as u64,
        top_muxed_by_activity: top,
        base_accounts_with_muxed: bases,
    };
    proof {
        lemma_top_usage(payments@, tallies@, top_limit as int, order@, report.top_muxed_by_activity@);
        assert(is_decoding(decoder, payments@, addresses, answers@)) by {
            assert forall|m: int| 0 <= m < addresses.len() implies active_muxed(
                payments@,
                (#[trigger] addresses[m])@,
            ) && call_ensures(decoder, (&addresses[m],), answers@[m]) by {
                assert(active_in(payments@, payments@, tallies@[m].address@));
            }
            assert forall|a: int, b: int| 0 <= a < b < addresses.len() implies (
            #[trigger] addresses[a])@ != (#[trigger] addresses[b])@ by {
                assert(tallies@[a].address@ != tallies@[b].address@);
            }
            assert forall|address: Seq<char>| #[trigger]
                active_muxed(payments@, address) implies exists|m: int|
                0 <= m < addresses.len() && (#[trigger] addresses[m])@ == address by {
                let m = choose|m: int|
                    0 <= m < tallies@.len() && (#[trigger] tallies@[m]).address@ == address;
                assert(addresses[m]@ == address);
            }
        }
        assert forall|m: int| 0 <= m < report.top_muxed_by_activity.len() implies carries_answer(
            addresses,
            answers@,
            #[trigger] report.top_muxed_by_activity[m],
        ) by {
            let o = order@[m] as int;
            assert(addresses[o]@ == report.top_muxed_by_activity[m].account_address@);
        }
    }
    report
}

} // verus!
