//! Laws relating the contracts of several operations.

use vstd::prelude::*;

use crate::entities::{SupplierV, SupplyV};
use crate::ports::{has_supplier_id, has_supply_id, supplier_ids_unique, supply_ids_unique};

verus! {

/// Registering and then fetching: when a supply with a fresh identifier is
/// appended to a store with unique identifiers, that identifier resolves
/// afterwards, and every stored supply carrying it equals the appended one
/// in all fields. Together with the contracts of `register` (which appends
/// exactly the value it returns under the counter identifier, after
/// checking it is free) and of `get` (which returns a stored supply
/// carrying the requested identifier), fetching a freshly registered
/// identifier yields the registered value.
pub proof fn lemma_register_then_get(supplies: Seq<SupplyV>, s: SupplyV)
    requires
        supply_ids_unique(supplies),
        !has_supply_id(supplies, s.id),
    ensures
        has_supply_id(supplies.push(s), s.id),
        forall|x: SupplyV| supplies.push(s).contains(x) && x.id == s.id ==> x == s,
{
    let after = supplies.push(s);
    assert(after[supplies.len() as int] == s);
    assert forall|x: SupplyV| after.contains(x) && x.id == s.id implies x == s by {
        let i = choose|i: int| 0 <= i < after.len() && after[i] == x;
        if i < supplies.len() {
            assert(supplies[i] == x);
            assert(has_supply_id(supplies, s.id));
        }
    }
}

/// The supplier counterpart of [`lemma_register_then_get`]: appending a
/// supplier under a fresh identifier makes that identifier resolve to
/// exactly the appended value.
pub proof fn lemma_register_then_get_supplier(suppliers: Seq<SupplierV>, s: SupplierV)
    requires
        supplier_ids_unique(suppliers),
        !has_supplier_id(suppliers, s.id),
    ensures
        has_supplier_id(suppliers.push(s), s.id),
        forall|x: SupplierV| suppliers.push(s).contains(x) && x.id == s.id ==> x == s,
{
    let after = suppliers.push(s);
    assert(after[suppliers.len() as int] == s);
    assert forall|x: SupplierV| after.contains(x) && x.id == s.id implies x == s by {
        let i = choose|i: int| 0 <= i < after.len() && after[i] == x;
        if i < suppliers.len() {
            assert(suppliers[i] == x);
            assert(has_supplier_id(suppliers, s.id));
        }
    }
}

} // verus!
