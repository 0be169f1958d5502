//! Row identifiers of a card column and the canonical form of a set of them.
//!
//! A column has twelve rows: the zone rows `12` and `11` and the numeric rows
//! `0` to `9`. A punch pattern is stored as the ascending list of its punched
//! rows, so that one set of rows has exactly one stored form.

use vstd::prelude::*;
use vstd::seq_lib::lemma_seq_contains_after_push;

verus! {

/// `rows` is strictly ascending: sorted, and no row occurs twice.
pub open spec fn is_ascending(rows: Seq<u8>) -> bool {
    forall|i: int, j: int| 0 <= i < j < rows.len() ==> rows[i] < rows[j]
}

/// The members of `set` that are below `bound`, in ascending order.
pub open spec fn ascending_below(set: Set<u8>, bound: nat) -> Seq<u8>
    decreases bound,
{
    if bound == 0 {
        Seq::empty()
    } else {
        let rest = ascending_below(set, (bound - 1) as nat);
        if set.contains((bound - 1) as u8) {
            rest.push((bound - 1) as u8)
        } else {
            rest
        }
    }
}

/// The canonical form of a set of rows: its members in ascending order.
pub open spec fn canonical(set: Set<u8>) -> Seq<u8> {
    ascending_below(set, 256)
}

/// `ascending_below` lists exactly the members below the bound, in ascending order.
pub proof fn lemma_ascending_below(set: Set<u8>, bound: nat)
    requires
        bound <= 256,
    ensures
        is_ascending(ascending_below(set, bound)),
        forall|r: u8|
            #![trigger ascending_below(set, bound).contains(r)]
            #![trigger set.contains(r)]
            ascending_below(set, bound).contains(r) <==> (set.contains(r) && (r as nat) < bound),
    decreases bound,
{
    if bound > 0 {
        broadcast use lemma_seq_contains_after_push;

        let below = (bound - 1) as nat;
        let rest = ascending_below(set, below);
        let top = below as u8;
        lemma_ascending_below(set, below);
        if set.contains(top) {
            let all = rest.push(top);
            assert forall|i: int, j: int| 0 <= i < j < all.len() implies all[i] < all[j] by {
                if j == rest.len() {
                    assert(rest.contains(rest[i]));
                } else {
                    assert(rest[i] < rest[j]);
                }
            }
        }
    }
}

/// The canonical form of a set is ascending and holds exactly the set's members.
pub proof fn lemma_canonical(set: Set<u8>)
    ensures
        is_ascending(canonical(set)),
        forall|r: u8|
            #![trigger canonical(set).contains(r)]
            #![trigger set.contains(r)]
            canonical(set).contains(r) <==> set.contains(r),
{
    lemma_ascending_below(set, 256);
}

/// Two ascending lists with the same members are the same list.
pub proof fn lemma_ascending_unique(a: Seq<u8>, b: Seq<u8>)
    requires
        is_ascending(a),
        is_ascending(b),
        forall|r: u8| a.contains(r) <==> b.contains(r),
    ensures
        a == b,
    decreases a.len(),
{
    if a.len() == 0 {
        if b.len() > 0 {
            assert(b.contains(b[0]));
        }
        assert(a =~= b);
    } else {
        let top = a.last();
        assert(a.contains(top));
        assert(b.contains(top));
        let k = choose|k: int| 0 <= k < b.len() && b[k] == top;
        if k < b.len() - 1 {
            let above = b.last();
            assert(b.contains(above));
            assert(a.contains(above));
            let m = choose|m: int| 0 <= m < a.len() && a[m] == above;
            assert(a[m] <= top);
        }
        let a0 = a.drop_last();
        let b0 = b.drop_last();
        assert forall|r: u8| a0.contains(r) <==> b0.contains(r) by {
            if a0.contains(r) {
                let i = choose|i: int| 0 <= i < a0.len() && a0[i] == r;
                assert(a[i] == r);
                assert(a.contains(r));
                let j = choose|j: int| 0 <= j < b.len() && b[j] == r;
                assert(b0[j] == r);
            }
            if b0.contains(r) {
                let i = choose|i: int| 0 <= i < b0.len() && b0[i] == r;
                assert(b[i] == r);
                assert(b.contains(r));
                let j = choose|j: int| 0 <= j < a.len() && a[j] == r;
                assert(a0[j] == r);
            }
        }
        lemma_ascending_unique(a0, b0);
        assert(a =~= a0.push(top));
        assert(b =~= b0.push(top));
    }
}

/// An ascending list is the canonical form of its own set of members.
pub proof fn lemma_ascending_is_canonical(rows: Seq<u8>)
    requires
        is_ascending(rows),
    ensures
        canonical(rows.to_set()) == rows,
{
    lemma_canonical(rows.to_set());
    assert forall|r: u8| canonical(rows.to_set()).contains(r) <==> rows.contains(r) by {
        assert(rows.to_set().contains(r) <==> rows.contains(r));
    }
    lemma_ascending_unique(canonical(rows.to_set()), rows);
}

/// Inserting a new row at its place keeps a list ascending and adds that row only.
pub proof fn lemma_insert_ascending(rows: Seq<u8>, at: int, row: u8)
    requires
        is_ascending(rows),
        0 <= at <= rows.len(),
        forall|k: int| 0 <= k < at ==> rows[k] < row,
        at < rows.len() ==> row < rows[at],
    ensures
        is_ascending(rows.insert(at, row)),
        forall|r: u8|
            #![trigger rows.insert(at, row).contains(r)]
            rows.insert(at, row).contains(r) <==> (r == row || rows.contains(r)),
{
    let grown = rows.insert(at, row);
    assert forall|i: int, j: int| 0 <= i < j < grown.len() implies grown[i] < grown[j] by {
        if j < at {
            assert(rows[i] < rows[j]);
        } else if j == at {
        } else if i < at {
            assert(rows[i] < row);
            if j - 1 > at {
                assert(rows[at] < rows[j - 1]);
            }
        } else if i == at {
            if j - 1 > at {
                assert(rows[at] < rows[j - 1]);
            }
        } else {
            assert(rows[i - 1] < rows[j - 1]);
        }
    }
    assert forall|r: u8| grown.contains(r) <==> (r == row || rows.contains(r)) by {
        if grown.contains(r) {
            let i = choose|i: int| 0 <= i < grown.len() && grown[i] == r;
            if i < at {
                assert(rows[i] == r);
            } else if i > at {
                assert(rows[i - 1] == r);
            }
        }
        if r == row {
            assert(grown[at] == r);
        }
        if rows.contains(r) {
            let i = choose|i: int| 0 <= i < rows.len() && rows[i] == r;
            if i < at {
                assert(grown[i] == r);
            } else {
                assert(grown[i + 1] == r);
            }
        }
    }
}

/// Whatever the order and the repeats in `given`, its canonical form is the
/// ascending list with the same members.
pub proof fn lemma_canonical_of(given: Seq<u8>, sorted: Seq<u8>)
    requires
        is_ascending(sorted),
        forall|r: u8| given.contains(r) <==> sorted.contains(r),
    ensures
        canonical(given.to_set()) == sorted,
{
    assert(given.to_set() =~= sorted.to_set());
    lemma_ascending_is_canonical(sorted);
}

/// The canonical form of a list of up to three distinct rows, as the tables
/// spell their patterns out: ascending, or with the highest row first.
pub proof fn lemma_canonical_of_short(given: Seq<u8>)
    ensures
        given.len() <= 1 ==> canonical(given.to_set()) == given,
        given.len() == 2 && given[0] < given[1] ==> canonical(given.to_set()) == given,
        given.len() == 2 && given[1] < given[0] ==> canonical(given.to_set()) == seq![
            given[1],
            given[0],
        ],
        given.len() == 3 && given[0] < given[1] < given[2] ==> canonical(given.to_set()) == given,
        given.len() == 3 && given[1] < given[2] < given[0] ==> canonical(given.to_set()) == seq![
            given[1],
            given[2],
            given[0],
        ],
{
    broadcast use lemma_seq_contains_after_push;

    if given.len() == 0 {
        lemma_ascending_is_canonical(given);
    } else if given.len() == 1 {
        lemma_ascending_is_canonical(given);
    } else if given.len() == 2 {
        assert(given =~= Seq::<u8>::empty().push(given[0]).push(given[1]));
        if given[0] < given[1] {
            lemma_ascending_is_canonical(given);
        } else if given[1] < given[0] {
            let sorted = seq![given[1], given[0]];
            assert(sorted =~= Seq::<u8>::empty().push(given[1]).push(given[0]));
            lemma_canonical_of(given, sorted);
        }
    } else if given.len() == 3 {
        assert(given =~= Seq::<u8>::empty().push(given[0]).push(given[1]).push(given[2]));
        if given[0] < given[1] < given[2] {
            lemma_ascending_is_canonical(given);
        } else if given[1] < given[2] < given[0] {
            let sorted = seq![given[1], given[2], given[0]];
            assert(sorted =~= Seq::<u8>::empty().push(given[1]).push(given[2]).push(given[0]));
            lemma_canonical_of(given, sorted);
        }
    }
}

/// `r` names one of the twelve rows of a column.
pub open spec fn is_row(r: u8) -> bool {
    r <= 9 || r == 11 || r == 12
}

/// Every entry of `rows` names a row of a column.
pub open spec fn all_rows(rows: Seq<u8>) -> bool {
    forall|i: int| 0 <= i < rows.len() ==> is_row(#[trigger] rows[i])
}

/// The row at slot `k` of the positional order `12, 11, 0, 1, ..., 9`.
pub open spec fn row_of_slot(k: int) -> u8 {
    if k == 0 {
        12
    } else if k == 1 {
        11
    } else {
        (k - 2) as u8
    }
}

/// The slot of row `r` in the positional order; the inverse of `row_of_slot`.
pub open spec fn slot_of_row(r: u8) -> int {
    if r == 12 {
        0
    } else if r == 11 {
        1
    } else {
        r + 2
    }
}

/// The positional form of a list of rows: twelve slots, slot `k` set when the
/// list holds the row of that slot. Entries that name no row are ignored.
pub open spec fn positional(rows: Seq<u8>) -> Seq<bool> {
    Seq::new(12, |k: int| rows.contains(row_of_slot(k)))
}

/// The rows whose slots are set.
pub open spec fn punched_rows(slots: Seq<bool>) -> Set<u8> {
    Set::new(|r: u8| is_row(r) && slots[slot_of_row(r)])
}

/// The canonical list of the rows whose slots are set.
pub open spec fn rows_of_slots(slots: Seq<bool>) -> Seq<u8> {
    canonical(punched_rows(slots))
}

/// What is known of `rows_of_slots`: it is ascending, holds rows only, and
/// holds a row exactly when that row's slot is set.
pub proof fn lemma_rows_of_slots(slots: Seq<bool>)
    ensures
        is_ascending(rows_of_slots(slots)),
        forall|r: u8|
            #![trigger rows_of_slots(slots).contains(r)]
            rows_of_slots(slots).contains(r) <==> (is_row(r) && slots[slot_of_row(r)]),
        all_rows(rows_of_slots(slots)),
{
    lemma_canonical(punched_rows(slots));
    assert forall|i: int| 0 <= i < rows_of_slots(slots).len() implies is_row(
        #[trigger] rows_of_slots(slots)[i],
    ) by {
        assert(rows_of_slots(slots).contains(rows_of_slots(slots)[i]));
    }
}

/// From twelve slots to rows and back gives the same twelve slots.
pub proof fn lemma_positional_of_slots(slots: Seq<bool>)
    requires
        slots.len() == 12,
    ensures
        positional(rows_of_slots(slots)) == slots,
{
    lemma_rows_of_slots(slots);
    assert forall|k: int| 0 <= k < 12 implies positional(rows_of_slots(slots))[k] == slots[k] by {
        let r = row_of_slot(k);
        assert(is_row(r) && slot_of_row(r) == k);
    }
    assert(positional(rows_of_slots(slots)) =~= slots);
}

/// From any list of rows to slots and back gives the canonical list of those
/// entries that name a row.
pub proof fn lemma_slots_of_positional(rows: Seq<u8>)
    ensures
        rows_of_slots(positional(rows)) == canonical(Set::new(|r: u8| is_row(r) && rows.contains(r))),
{
    let kept = Set::new(|r: u8| is_row(r) && rows.contains(r));
    assert forall|r: u8| punched_rows(positional(rows)).contains(r) <==> kept.contains(r) by {
        if is_row(r) {
            assert(row_of_slot(slot_of_row(r)) == r);
        }
    }
    assert(punched_rows(positional(rows)) =~= kept);
}

/// A canonical pattern survives the positional form: an ascending list that
/// holds rows only comes back unchanged from its twelve slots.
pub proof fn lemma_positional_round_trip(rows: Seq<u8>)
    requires
        is_ascending(rows),
        all_rows(rows),
    ensures
        rows_of_slots(positional(rows)) == rows,
{
    lemma_slots_of_positional(rows);
    let kept = Set::new(|r: u8| is_row(r) && rows.contains(r));
    assert forall|r: u8| kept.contains(r) <==> rows.to_set().contains(r) by {
        if rows.contains(r) {
            let i = choose|i: int| 0 <= i < rows.len() && rows[i] == r;
            assert(is_row(rows[i]));
        }
    }
    assert(kept =~= rows.to_set());
    lemma_ascending_is_canonical(rows);
}

} // verus!
