//! The book of position records: how a record is found by its portfolio,
//! venue and instrument, and what rewriting, appending and removing a record
//! does to every lookup.

use crate::position_details::PositionDetails;
use crate::pubkey::pubkey_eq;
use crate::settlement::INSTRUMENT_INDEX;
use pinocchio::pubkey::Pubkey;
use vstd::prelude::*;

verus! {

/// Tells whether a record belongs to the portfolio, venue and instrument.
pub open spec fn position_has_key(
    record: PositionDetails,
    portfolio: Pubkey,
    slab_idx: u16,
    instrument_idx: u16,
) -> bool {
    record.slab_index == slab_idx && record.instrument_index == instrument_idx
        && record.portfolio@ == portfolio@
}

/// Tells whether `i` is the first record of the portfolio, venue and instrument.
pub open spec fn is_first_position(
    positions: Seq<PositionDetails>,
    portfolio: Pubkey,
    slab_idx: u16,
    instrument_idx: u16,
    i: int,
) -> bool {
    &&& 0 <= i < positions.len()
    &&& position_has_key(positions[i], portfolio, slab_idx, instrument_idx)
    &&& forall|j: int|
        0 <= j < i ==> !position_has_key(#[trigger] positions[j], portfolio, slab_idx, instrument_idx)
}

/// Tells whether a record of the portfolio, venue and instrument exists.
pub open spec fn has_position(
    positions: Seq<PositionDetails>,
    portfolio: Pubkey,
    slab_idx: u16,
    instrument_idx: u16,
) -> bool {
    exists|i: int| is_first_position(positions, portfolio, slab_idx, instrument_idx, i)
}

/// Where the record of the portfolio, venue and instrument stands.
pub open spec fn position_index(
    positions: Seq<PositionDetails>,
    portfolio: Pubkey,
    slab_idx: u16,
    instrument_idx: u16,
) -> int {
    choose|i: int| is_first_position(positions, portfolio, slab_idx, instrument_idx, i)
}

/// The quantity that the book holds for the portfolio on a venue: that of
/// the record, zero without one.
pub open spec fn held_quantity(positions: Seq<PositionDetails>, portfolio: Pubkey, slab_idx: u16)
    -> int {
    if has_position(positions, portfolio, slab_idx, INSTRUMENT_INDEX) {
        positions[position_index(positions, portfolio, slab_idx, INSTRUMENT_INDEX)].total_qty as int
    } else {
        0
    }
}

/// Two records with the same key fields answer every lookup alike.
pub open spec fn same_key(a: PositionDetails, b: PositionDetails) -> bool {
    a.portfolio@ == b.portfolio@ && a.slab_index == b.slab_index && a.instrument_index
        == b.instrument_index
}

/// No two records of the book share a portfolio, venue and instrument.
pub open spec fn book_wf(positions: Seq<PositionDetails>) -> bool {
    forall|i: int, j: int|
        0 <= i < j < positions.len() ==> !position_has_key(
            #[trigger] positions[i],
            (#[trigger] positions[j]).portfolio,
            positions[j].slab_index,
            positions[j].instrument_index,
        )
}

/// The first record of a key is the one that every lookup finds.
pub proof fn lemma_first_position_unique(
    positions: Seq<PositionDetails>,
    portfolio: Pubkey,
    slab_idx: u16,
    instrument_idx: u16,
    i: int,
)
    requires
        is_first_position(positions, portfolio, slab_idx, instrument_idx, i),
    ensures
        has_position(positions, portfolio, slab_idx, instrument_idx),
        position_index(positions, portfolio, slab_idx, instrument_idx) == i,
{
    let k = position_index(positions, portfolio, slab_idx, instrument_idx);
    assert(is_first_position(positions, portfolio, slab_idx, instrument_idx, k));
    if k < i {
        assert(!position_has_key(positions[k], portfolio, slab_idx, instrument_idx));
    }
    if i < k {
        assert(!position_has_key(positions[i], portfolio, slab_idx, instrument_idx));
    }
}

/// A book without a record of the key finds none.
pub proof fn lemma_no_position(
    positions: Seq<PositionDetails>,
    portfolio: Pubkey,
    slab_idx: u16,
    instrument_idx: u16,
)
    requires
        forall|j: int|
            0 <= j < positions.len() ==> !position_has_key(
                #[trigger] positions[j],
                portfolio,
                slab_idx,
                instrument_idx,
            ),
    ensures
        !has_position(positions, portfolio, slab_idx, instrument_idx),
{
    if has_position(positions, portfolio, slab_idx, instrument_idx) {
        let k = position_index(positions, portfolio, slab_idx, instrument_idx);
        assert(position_has_key(positions[k], portfolio, slab_idx, instrument_idx));
    }
}

/// A record of the key somewhere in the book means the book has a first one.
pub proof fn lemma_some_position(
    positions: Seq<PositionDetails>,
    portfolio: Pubkey,
    slab_idx: u16,
    instrument_idx: u16,
    at: int,
)
    requires
        0 <= at < positions.len(),
        position_has_key(positions[at], portfolio, slab_idx, instrument_idx),
    ensures
        has_position(positions, portfolio, slab_idx, instrument_idx),
    decreases at,
{
    if forall|j: int|
        0 <= j < at ==> !position_has_key(
            #[trigger] positions[j],
            portfolio,
            slab_idx,
            instrument_idx,
        ) {
        assert(is_first_position(positions, portfolio, slab_idx, instrument_idx, at));
    } else {
        let j = choose|j: int|
            0 <= j < at && position_has_key(
                #[trigger] positions[j],
                portfolio,
                slab_idx,
                instrument_idx,
            );
        lemma_some_position(positions, portfolio, slab_idx, instrument_idx, j);
    }
}

/// Finds the first record of the portfolio, venue and instrument.
pub fn find_position(
    positions: &Vec<PositionDetails>,
    portfolio: &Pubkey,
    slab_idx: u16,
    instrument_idx: u16,
) -> (found: Option<usize>)
    ensures
        found is Some <==> has_position(positions@, *portfolio, slab_idx, instrument_idx),
        found is Some ==> found->0 == position_index(
            positions@,
            *portfolio,
            slab_idx,
            instrument_idx,
        ) && found->0 < positions@.len(),
{
    let mut i: usize = 0;
    while i < positions.len()
        invariant
            i <= positions.len(),
            forall|j: int|
                0 <= j < i ==> !position_has_key(
                    #[trigger] positions@[j],
                    *portfolio,
                    slab_idx,
                    instrument_idx,
                ),
        decreases positions.len() - i,
    {
        let record: &PositionDetails = &positions[i];
        if record.slab_index == slab_idx && record.instrument_index == instrument_idx && pubkey_eq(
            &record.portfolio,
            portfolio,
        ) {
            proof {
                lemma_first_position_unique(
                    positions@,
                    *portfolio,
                    slab_idx,
                    instrument_idx,
                    i as int,
                );
            }
            return Some(i);
        }
        i += 1;
    }
    proof {
        lemma_no_position(positions@, *portfolio, slab_idx, instrument_idx);
    }
    None
}

/// Taking the record of a key out of a well-formed book leaves no record of
/// that key behind.
pub proof fn lemma_removed_position_is_gone(
    positions: Seq<PositionDetails>,
    portfolio: Pubkey,
    slab_idx: u16,
    instrument_idx: u16,
)
    requires
        book_wf(positions),
        has_position(positions, portfolio, slab_idx, instrument_idx),
    ensures
        !has_position(
            positions.remove(position_index(positions, portfolio, slab_idx, instrument_idx)),
            portfolio,
            slab_idx,
            instrument_idx,
        ),
{
    let at = position_index(positions, portfolio, slab_idx, instrument_idx);
    assert(is_first_position(positions, portfolio, slab_idx, instrument_idx, at));
    let rest = positions.remove(at);
    assert forall|j: int| 0 <= j < rest.len() implies !position_has_key(
        #[trigger] rest[j],
        portfolio,
        slab_idx,
        instrument_idx,
    ) by {
        if j < at {
            assert(rest[j] == positions[j]);
        } else {
            assert(rest[j] == positions[j + 1]);
            assert(!position_has_key(
                positions[at],
                positions[j + 1].portfolio,
                positions[j + 1].slab_index,
                positions[j + 1].instrument_index,
            ));
        }
    }
    lemma_no_position(rest, portfolio, slab_idx, instrument_idx);
}

/// Rewriting a record in place, under the same key, changes no lookup but
/// what the rewritten record holds.
pub proof fn lemma_book_after_update(
    positions: Seq<PositionDetails>,
    at: int,
    record: PositionDetails,
    portfolio: Pubkey,
    slab_idx: u16,
    instrument_idx: u16,
)
    requires
        0 <= at < positions.len(),
        same_key(positions[at], record),
    ensures
        book_wf(positions) ==> book_wf(positions.update(at, record)),
        has_position(positions.update(at, record), portfolio, slab_idx, instrument_idx)
            == has_position(positions, portfolio, slab_idx, instrument_idx),
        has_position(positions, portfolio, slab_idx, instrument_idx) ==> position_index(
            positions.update(at, record),
            portfolio,
            slab_idx,
            instrument_idx,
        ) == position_index(positions, portfolio, slab_idx, instrument_idx),
{
    let after = positions.update(at, record);
    assert forall|j: int| 0 <= j < positions.len() implies position_has_key(
        #[trigger] after[j],
        portfolio,
        slab_idx,
        instrument_idx,
    ) == position_has_key(positions[j], portfolio, slab_idx, instrument_idx) by {}
    if has_position(positions, portfolio, slab_idx, instrument_idx) {
        let k = position_index(positions, portfolio, slab_idx, instrument_idx);
        assert(is_first_position(positions, portfolio, slab_idx, instrument_idx, k));
        assert(position_has_key(after[k], portfolio, slab_idx, instrument_idx));
        assert forall|j: int| 0 <= j < k implies !position_has_key(
            #[trigger] after[j],
            portfolio,
            slab_idx,
            instrument_idx,
        ) by {
            assert(!position_has_key(positions[j], portfolio, slab_idx, instrument_idx));
        }
        assert(is_first_position(after, portfolio, slab_idx, instrument_idx, k));
        lemma_first_position_unique(after, portfolio, slab_idx, instrument_idx, k);
    } else {
        if has_position(after, portfolio, slab_idx, instrument_idx) {
            let k = position_index(after, portfolio, slab_idx, instrument_idx);
            assert(is_first_position(after, portfolio, slab_idx, instrument_idx, k));
            assert(position_has_key(positions[k], portfolio, slab_idx, instrument_idx));
            lemma_some_position(positions, portfolio, slab_idx, instrument_idx, k);
        }
    }
    if book_wf(positions) {
        assert forall|i: int, j: int| 0 <= i < j < after.len() implies !position_has_key(
            #[trigger] after[i],
            (#[trigger] after[j]).portfolio,
            after[j].slab_index,
            after[j].instrument_index,
        ) by {
            assert(!position_has_key(
                positions[i],
                positions[j].portfolio,
                positions[j].slab_index,
                positions[j].instrument_index,
            ));
        }
    }
}

/// Appending a record under a key that the book does not hold changes no
/// lookup of another key, and makes the record the one found under its own.
pub proof fn lemma_book_after_push(
    positions: Seq<PositionDetails>,
    record: PositionDetails,
    portfolio: Pubkey,
    slab_idx: u16,
    instrument_idx: u16,
)
    requires
        !has_position(positions, record.portfolio, record.slab_index, record.instrument_index),
    ensures
        book_wf(positions) ==> book_wf(positions.push(record)),
        position_has_key(record, portfolio, slab_idx, instrument_idx) ==> has_position(
            positions.push(record),
            portfolio,
            slab_idx,
            instrument_idx,
        ) && position_index(positions.push(record), portfolio, slab_idx, instrument_idx)
            == positions.len(),
        !position_has_key(record, portfolio, slab_idx, instrument_idx) ==> has_position(
            positions.push(record),
            portfolio,
            slab_idx,
            instrument_idx,
        ) == has_position(positions, portfolio, slab_idx, instrument_idx) && (has_position(
            positions,
            portfolio,
            slab_idx,
            instrument_idx,
        ) ==> position_index(positions.push(record), portfolio, slab_idx, instrument_idx)
            == position_index(positions, portfolio, slab_idx, instrument_idx)),
{
    let after = positions.push(record);
    let n = positions.len() as int;
    assert forall|j: int| 0 <= j < n implies !position_has_key(
        #[trigger] positions[j],
        record.portfolio,
        record.slab_index,
        record.instrument_index,
    ) by {
        if position_has_key(
            positions[j],
            record.portfolio,
            record.slab_index,
            record.instrument_index,
        ) {
            lemma_some_position(
                positions,
                record.portfolio,
                record.slab_index,
                record.instrument_index,
                j,
            );
        }
    }
    if position_has_key(record, portfolio, slab_idx, instrument_idx) {
        assert forall|j: int| 0 <= j < n implies !position_has_key(
            #[trigger] after[j],
            portfolio,
            slab_idx,
            instrument_idx,
        ) by {
            assert(after[j] == positions[j]);
            assert(!position_has_key(
                positions[j],
                record.portfolio,
                record.slab_index,
                record.instrument_index,
            ));
        }
        assert(after[n] == record);
        assert(is_first_position(after, portfolio, slab_idx, instrument_idx, n));
        lemma_first_position_unique(after, portfolio, slab_idx, instrument_idx, n);
    } else {
        if has_position(positions, portfolio, slab_idx, instrument_idx) {
            let k = position_index(positions, portfolio, slab_idx, instrument_idx);
            assert(is_first_position(positions, portfolio, slab_idx, instrument_idx, k));
            assert(after[k] == positions[k]);
            assert forall|j: int| 0 <= j < k implies !position_has_key(
                #[trigger] after[j],
                portfolio,
                slab_idx,
                instrument_idx,
            ) by {
                assert(after[j] == positions[j]);
            }
            assert(is_first_position(after, portfolio, slab_idx, instrument_idx, k));
            lemma_first_position_unique(after, portfolio, slab_idx, instrument_idx, k);
        } else {
            if has_position(after, portfolio, slab_idx, instrument_idx) {
                let k = position_index(after, portfolio, slab_idx, instrument_idx);
                assert(is_first_position(after, portfolio, slab_idx, instrument_idx, k));
                assert(k < n);
                assert(after[k] == positions[k]);
                lemma_some_position(positions, portfolio, slab_idx, instrument_idx, k);
            }
        }
    }
    if book_wf(positions) {
        assert forall|i: int, j: int| 0 <= i < j < after.len() implies !position_has_key(
            #[trigger] after[i],
            (#[trigger] after[j]).portfolio,
            after[j].slab_index,
            after[j].instrument_index,
        ) by {
            assert(after[i] == positions[i]);
            if j < n {
                assert(after[j] == positions[j]);
                assert(!position_has_key(
                    positions[i],
                    positions[j].portfolio,
                    positions[j].slab_index,
                    positions[j].instrument_index,
                ));
            } else {
                assert(!position_has_key(
                    positions[i],
                    record.portfolio,
                    record.slab_index,
                    record.instrument_index,
                ));
            }
        }
    }
}

/// Taking the record of a key out of a well-formed book changes no lookup of
/// another key.
pub proof fn lemma_book_after_remove(
    positions: Seq<PositionDetails>,
    at: int,
    portfolio: Pubkey,
    slab_idx: u16,
    instrument_idx: u16,
)
    requires
        book_wf(positions),
        0 <= at < positions.len(),
        !position_has_key(positions[at], portfolio, slab_idx, instrument_idx),
    ensures
        book_wf(positions.remove(at)),
        has_position(positions.remove(at), portfolio, slab_idx, instrument_idx) == has_position(
            positions,
            portfolio,
            slab_idx,
            instrument_idx,
        ),
        has_position(positions, portfolio, slab_idx, instrument_idx) ==> positions.remove(
            at,
        )[position_index(positions.remove(at), portfolio, slab_idx, instrument_idx)]
            == positions[position_index(positions, portfolio, slab_idx, instrument_idx)],
{
    let after = positions.remove(at);
    assert forall|i: int, j: int| 0 <= i < j < after.len() implies !position_has_key(
        #[trigger] after[i],
        (#[trigger] after[j]).portfolio,
        after[j].slab_index,
        after[j].instrument_index,
    ) by {
        let si = if i < at {
            i
        } else {
            i + 1
        };
        let sj = if j < at {
            j
        } else {
            j + 1
        };
        assert(after[i] == positions[si]);
        assert(after[j] == positions[sj]);
        assert(!position_has_key(
            positions[si],
            positions[sj].portfolio,
            positions[sj].slab_index,
            positions[sj].instrument_index,
        ));
    }
    if has_position(positions, portfolio, slab_idx, instrument_idx) {
        let k = position_index(positions, portfolio, slab_idx, instrument_idx);
        assert(is_first_position(positions, portfolio, slab_idx, instrument_idx, k));
        assert(k != at);
        let k2 = if k < at {
            k
        } else {
            k - 1
        };
        assert(after[k2] == positions[k]);
        assert forall|j: int| 0 <= j < k2 implies !position_has_key(
            #[trigger] after[j],
            portfolio,
            slab_idx,
            instrument_idx,
        ) by {
            let sj = if j < at {
                j
            } else {
                j + 1
            };
            assert(after[j] == positions[sj]);
            assert(!position_has_key(positions[sj], portfolio, slab_idx, instrument_idx));
        }
        assert(is_first_position(after, portfolio, slab_idx, instrument_idx, k2));
        lemma_first_position_unique(after, portfolio, slab_idx, instrument_idx, k2);
    } else {
        if has_position(after, portfolio, slab_idx, instrument_idx) {
            let k = position_index(after, portfolio, slab_idx, instrument_idx);
            assert(is_first_position(after, portfolio, slab_idx, instrument_idx, k));
            let sk = if k < at {
                k
            } else {
                k + 1
            };
            assert(after[k] == positions[sk]);
            lemma_some_position(positions, portfolio, slab_idx, instrument_idx, sk);
        }
    }
}

/// Taking any record out of a well-formed book leaves a well-formed book.
pub proof fn lemma_book_after_remove_own(positions: Seq<PositionDetails>, at: int)
    requires
        book_wf(positions),
        0 <= at < positions.len(),
    ensures
        book_wf(positions.remove(at)),
{
    let after = positions.remove(at);
    assert forall|i: int, j: int| 0 <= i < j < after.len() implies !position_has_key(
        #[trigger] after[i],
        (#[trigger] after[j]).portfolio,
        after[j].slab_index,
        after[j].instrument_index,
    ) by {
        let si = if i < at {
            i
        } else {
            i + 1
        };
        let sj = if j < at {
            j
        } else {
            j + 1
        };
        assert(after[i] == positions[si]);
        assert(after[j] == positions[sj]);
        assert(!position_has_key(
            positions[si],
            positions[sj].portfolio,
            positions[sj].slab_index,
            positions[sj].instrument_index,
        ));
    }
}

} // verus!
