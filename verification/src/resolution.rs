use vstd::prelude::*;

use crate::export::{distinct_ordinals, ExportModel};

verus! {

/// A model of the initialization routine that the implementation artifact
/// generates. At runtime that routine starts from a zero-initialized
/// pointer array of one slot per export, stores the address resolved for
/// each catalog record's name at slot `ordinal - 1` (a failed resolution
/// stores the null address, modelled as 0), and then succeeds only if no
/// slot is left null.
///
/// Resolution is modelled by a total map from names to addresses, with 0
/// standing for a name the original library does not resolve.

/// Every slot index written by a catalog lies inside a table of `n` slots.
pub open spec fn slots_in_range(es: Seq<ExportModel>, n: nat) -> bool {
    forall|i: int| 0 <= i < es.len() ==> 1 <= (#[trigger] es[i]).ordinal <= n
}

/// The pointer table after the generated routine has processed the whole
/// catalog, starting from `slots`.
pub open spec fn assign_slots(
    slots: Seq<u64>,
    es: Seq<ExportModel>,
    addr_of: spec_fn(Seq<char>) -> u64,
) -> Seq<u64>
    decreases es.len(),
{
    if es.len() == 0 {
        slots
    } else {
        assign_slots(slots.update(es[0].ordinal - 1, addr_of(es[0].name)), es.drop_first(), addr_of)
    }
}

/// The zero-initialized pointer table of `n` slots.
pub open spec fn initial_slots(n: nat) -> Seq<u64> {
    Seq::new(n, |i: int| 0u64)
}

/// Whether the generated initialization routine reports success: every
/// slot of the table holds a non-null address after resolution.
pub open spec fn generated_init_ok(
    es: Seq<ExportModel>,
    addr_of: spec_fn(Seq<char>) -> u64,
    n: nat,
) -> bool {
    forall|i: int| 0 <= i < n ==> #[trigger] assign_slots(initial_slots(n), es, addr_of)[i] != 0
}

proof fn lemma_assign_slots_len(slots: Seq<u64>, es: Seq<ExportModel>, addr_of: spec_fn(Seq<char>) -> u64)
    requires
        slots_in_range(es, slots.len()),
    ensures
        assign_slots(slots, es, addr_of).len() == slots.len(),
    decreases es.len(),
{
    if es.len() > 0 {
        assert(es[0].ordinal >= 1);
        let slots1 = slots.update(es[0].ordinal - 1, addr_of(es[0].name));
        assert(slots_in_range(es.drop_first(), slots1.len()));
        lemma_assign_slots_len(slots1, es.drop_first(), addr_of);
    }
}

proof fn lemma_assign_slots_untouched(
    slots: Seq<u64>,
    es: Seq<ExportModel>,
    addr_of: spec_fn(Seq<char>) -> u64,
    p: int,
)
    requires
        slots_in_range(es, slots.len()),
        0 <= p < slots.len(),
        forall|i: int| 0 <= i < es.len() ==> (#[trigger] es[i]).ordinal - 1 != p,
    ensures
        assign_slots(slots, es, addr_of)[p] == slots[p],
    decreases es.len(),
{
    if es.len() > 0 {
        let slots1 = slots.update(es[0].ordinal - 1, addr_of(es[0].name));
        assert(slots_in_range(es.drop_first(), slots1.len()));
        assert(forall|i: int|
            0 <= i < es.drop_first().len() ==> (#[trigger] es.drop_first()[i]).ordinal - 1 != p);
        lemma_assign_slots_untouched(slots1, es.drop_first(), addr_of, p);
        assert(slots1[p] == slots[p]);
    }
}

proof fn lemma_assign_slots_hits(
    slots: Seq<u64>,
    es: Seq<ExportModel>,
    addr_of: spec_fn(Seq<char>) -> u64,
    j: int,
)
    requires
        slots_in_range(es, slots.len()),
        distinct_ordinals(es),
        0 <= j < es.len(),
    ensures
        assign_slots(slots, es, addr_of)[es[j].ordinal - 1] == addr_of(es[j].name),
    decreases es.len(),
{
    let slots1 = slots.update(es[0].ordinal - 1, addr_of(es[0].name));
    assert(slots_in_range(es.drop_first(), slots1.len()));
    assert(distinct_ordinals(es.drop_first()));
    if j == 0 {
        assert(forall|i: int|
            0 <= i < es.drop_first().len() ==> (#[trigger] es.drop_first()[i]).ordinal - 1 != es[0].ordinal
                - 1);
        lemma_assign_slots_untouched(slots1, es.drop_first(), addr_of, es[0].ordinal - 1);
        assert(slots1[es[0].ordinal - 1] == addr_of(es[0].name));
    } else {
        assert(es.drop_first()[j - 1] == es[j]);
        lemma_assign_slots_hits(slots1, es.drop_first(), addr_of, j - 1);
    }
}

/// All-or-nothing resolution: if even one catalog record's name resolves
/// to the null address, the generated initialization routine reports
/// failure as a whole, no matter how the other records resolved.
pub proof fn lemma_all_or_nothing(
    es: Seq<ExportModel>,
    addr_of: spec_fn(Seq<char>) -> u64,
    j: int,
)
    requires
        slots_in_range(es, es.len()),
        distinct_ordinals(es),
        0 <= j < es.len(),
        addr_of(es[j].name) == 0,
    ensures
        !generated_init_ok(es, addr_of, es.len()),
{
    let n = es.len();
    let p = es[j].ordinal - 1;
    assert(initial_slots(n).len() == n);
    lemma_assign_slots_hits(initial_slots(n), es, addr_of, j);
    assert(assign_slots(initial_slots(n), es, addr_of)[p] == 0);
}

/// The complement on the resolved side: a slot that some catalog record
/// filled with a non-null address indeed holds that address afterwards, so
/// a catalog whose every record resolves fills every slot it names.
pub proof fn lemma_resolved_slot_holds_address(
    es: Seq<ExportModel>,
    addr_of: spec_fn(Seq<char>) -> u64,
    j: int,
)
    requires
        slots_in_range(es, es.len()),
        distinct_ordinals(es),
        0 <= j < es.len(),
    ensures
        assign_slots(initial_slots(es.len()), es, addr_of)[es[j].ordinal - 1] == addr_of(
            es[j].name,
        ),
{
    lemma_assign_slots_hits(initial_slots(es.len()), es, addr_of, j);
}

/// The success side of the all-or-nothing policy: a catalog of distinct
/// in-range ordinals, one per slot, whose every record's name resolves to
/// a non-null address leaves no slot null, so the generated initialization
/// routine reports success.
pub proof fn lemma_complete_resolution_succeeds(
    es: Seq<ExportModel>,
    addr_of: spec_fn(Seq<char>) -> u64,
)
    requires
        slots_in_range(es, es.len()),
        distinct_ordinals(es),
        forall|j: int| 0 <= j < es.len() ==> addr_of((#[trigger] es[j]).name) != 0,
    ensures
        generated_init_ok(es, addr_of, es.len()),
{
    broadcast use vstd::seq_lib::seq_to_set_is_finite;

    let n = es.len();
    let slot_seq: Seq<int> = Seq::new(n, |j: int| es[j].ordinal - 1);
    assert forall|i: int, j: int|
        0 <= i < slot_seq.len() && 0 <= j < slot_seq.len() && i != j implies slot_seq[i]
        != slot_seq[j] by {
        assert(es[i].ordinal != es[j].ordinal);
    }
    slot_seq.unique_seq_to_set();
    assert(slot_seq.to_set().subset_of(vstd::set_lib::set_int_range(0, n as int))) by {
        assert forall|x: int| slot_seq.to_set().contains(x) implies vstd::set_lib::set_int_range(
            0,
            n as int,
        ).contains(x) by {
            let j = choose|j: int| 0 <= j < slot_seq.len() && slot_seq[j] == x;
            assert(1 <= es[j].ordinal <= n);
        }
    }
    vstd::set_lib::lemma_int_range(0, n as int);
    vstd::set_lib::lemma_subset_equality(
        slot_seq.to_set(),
        vstd::set_lib::set_int_range(0, n as int),
    );
    assert forall|p: int| 0 <= p < n implies #[trigger] assign_slots(
        initial_slots(n),
        es,
        addr_of,
    )[p] != 0 by {
        assert(vstd::set_lib::set_int_range(0, n as int).contains(p));
        assert(slot_seq.to_set().contains(p));
        let j = choose|j: int| 0 <= j < slot_seq.len() && slot_seq[j] == p;
        lemma_assign_slots_hits(initial_slots(n), es, addr_of, j);
    }
}

} // verus!
