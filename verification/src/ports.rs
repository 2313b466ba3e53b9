//! The persistence ports: one trait per aggregate, with contracts stated
//! against a mathematical model of the stored data.
//!
//! An adapter that can tie its behaviour to the model (the in-memory
//! repository) sets `obeys_model` and proves every model clause; an adapter
//! whose state lives outside the program (the relational repository) leaves
//! `obeys_model` false and still guarantees the unconditional clauses, such
//! as well-formedness of everything it returns.

use vstd::prelude::*;

use crate::entities::{Journal, JournalV, Stocktaking, StocktakingV, Supplier, SupplierV, Supply,
    SupplyV};
use crate::error::Error;
use crate::queries::{FindJournalsQuery, FindStocktakingsQuery, FindSuppliesQuery,
    FindSupplierQuery};
use crate::search::{
    journal_matches, journal_views, stocktaking_matches, stocktaking_views, supplier_matches,
    supplier_views, supply_matches, supply_views,
};
use crate::text::dec_of;
use crate::values::{JournalId, StocktakingId, SupplierId, SupplyId};

verus! {

/// Whether some supply in the model carries the identifier.
pub open spec fn has_supply_id(m: Seq<SupplyV>, id: Seq<char>) -> bool {
    exists|i: int| 0 <= i < m.len() && (#[trigger] m[i]).id == id
}

/// Whether some supplier in the model carries the identifier.
pub open spec fn has_supplier_id(m: Seq<SupplierV>, id: Seq<char>) -> bool {
    exists|i: int| 0 <= i < m.len() && (#[trigger] m[i]).id == id
}

/// Whether some journal in the model carries the identifier.
pub open spec fn has_journal_id(m: Seq<JournalV>, id: Seq<char>) -> bool {
    exists|i: int| 0 <= i < m.len() && (#[trigger] m[i]).id == id
}

/// Whether some stocktaking in the model carries the identifier.
pub open spec fn has_stocktaking_id(m: Seq<StocktakingV>, id: Seq<char>) -> bool {
    exists|i: int| 0 <= i < m.len() && (#[trigger] m[i]).id == id
}

/// No two supplies in the model share an identifier.
pub open spec fn supply_ids_unique(m: Seq<SupplyV>) -> bool {
    forall|i: int, j: int| 0 <= i < j < m.len() ==> (#[trigger] m[i]).id != (#[trigger] m[j]).id
}

/// No two suppliers in the model share an identifier.
pub open spec fn supplier_ids_unique(m: Seq<SupplierV>) -> bool {
    forall|i: int, j: int| 0 <= i < j < m.len() ==> (#[trigger] m[i]).id != (#[trigger] m[j]).id
}

/// No two journals in the model share an identifier.
pub open spec fn journal_ids_unique(m: Seq<JournalV>) -> bool {
    forall|i: int, j: int| 0 <= i < j < m.len() ==> (#[trigger] m[i]).id != (#[trigger] m[j]).id
}

/// No two stocktakings in the model share an identifier.
pub open spec fn stocktaking_ids_unique(m: Seq<StocktakingV>) -> bool {
    forall|i: int, j: int| 0 <= i < j < m.len() ==> (#[trigger] m[i]).id != (#[trigger] m[j]).id
}

/// The persistence port of the supply aggregate.
pub trait ForSupplyPersistence: Sized {
    /// Whether this adapter's behaviour is tied to the model below.
    spec fn obeys_model(&self) -> bool;

    /// The supplies currently stored, in storage order.
    spec fn supplies(&self) -> Seq<SupplyV>;

    /// The suppliers visible to this adapter for join-style filtering.
    spec fn known_suppliers(&self) -> Seq<SupplierV>;

    /// How many identifiers the per-aggregate counter has handed out.
    spec fn counter(&self) -> nat;

    /// A model-obeying adapter holds a consistent store.
    proof fn model_consistent(&self)
        ensures
            self.obeys_model() ==> supply_ids_unique(self.supplies()) && supplier_ids_unique(
                self.known_suppliers(),
            ),
    ;

    /// An equivalent adapter over the same store.
    fn duplicate(&self) -> (r: Self)
        ensures
            r.obeys_model() == self.obeys_model(),
            r.supplies() == self.supplies(),
            r.known_suppliers() == self.known_suppliers(),
            r.counter() == self.counter(),
    ;

    /// Reserves the next identifier of the per-aggregate counter; the
    /// counter never rewinds, so a reserved identifier is never handed out
    /// again, whatever was deleted in between.
    fn next_id(&mut self) -> (r: Result<SupplyId, Error>)
        ensures
            final(self).obeys_model() == old(self).obeys_model(),
            final(self).supplies() == old(self).supplies(),
            final(self).known_suppliers() == old(self).known_suppliers(),
            final(self).counter() >= old(self).counter(),
            old(self).obeys_model() ==> match r {
                Ok(id) => old(self).counter() < usize::MAX && id@ == dec_of(
                    old(self).counter() as int + 1,
                ) && final(self).counter() == old(self).counter() + 1,
                Err(e) => old(self).counter() == usize::MAX && e is InfrastructureError && final(self).counter() == old(self).counter(),
            },
    ;

    /// True exactly when every given identifier exists; an empty input
    /// yields true.
    fn has(&self, ids: &Vec<SupplyId>) -> (r: Result<bool, Error>)
        ensures
            self.obeys_model() ==> (r matches Ok(b) && (b <==> forall|i: int|
                0 <= i < ids@.len() ==> has_supply_id(self.supplies(), (#[trigger] ids@[i])@))),
    ;

    /// Every stored supply, in storage order.
    fn list(&self) -> (r: Result<Vec<Supply>, Error>)
        ensures
            self.obeys_model() ==> (r matches Ok(v) && supply_views(v@) == self.supplies()),
    ;

    /// The supply with the identifier, when it exists.
    fn get(&self, id: &SupplyId) -> (r: Result<Option<Supply>, Error>)
        ensures
            self.obeys_model() ==> match r {
                Ok(Some(s)) => s@.id == id@ && self.supplies().contains(s@),
                Ok(None) => !has_supply_id(self.supplies(), id@),
                Err(_) => false,
            },
    ;

    /// The supplies owned by the supplier, in storage order.
    fn get_of_supplier(&self, supplier_id: &SupplierId) -> (r: Result<Vec<Supply>, Error>)
        ensures
            self.obeys_model() ==> (r matches Ok(v) && supply_views(v@) == self.supplies().filter(
                |s: SupplyV| s.supplier_id == supplier_id@,
            )),
    ;

    /// The supplies passing the search filters, in storage order.
    fn find(&self, query: &FindSuppliesQuery) -> (r: Result<Vec<Supply>, Error>)
        ensures
            self.obeys_model() ==> (r matches Ok(v) && supply_views(v@) == self.supplies().filter(
                |s: SupplyV| supply_matches(s, self.known_suppliers(), query@),
            )),
    ;

    /// Appends a new supply; fails when the identifier is already taken.
    fn add(&mut self, supply: Supply) -> (r: Result<(), Error>)
        ensures
            final(self).counter() == old(self).counter(),
            old(self).obeys_model() ==> final(self).obeys_model(),
            final(self).known_suppliers() == old(self).known_suppliers(),
            old(self).obeys_model() ==> match r {
                Ok(_) => !has_supply_id(old(self).supplies(), supply@.id) && final(self).supplies()
                    == old(self).supplies().push(supply@),
                Err(e) => has_supply_id(old(self).supplies(), supply@.id) && e
                    is InfrastructureError && final(self).supplies() == old(self).supplies(),
            },
    ;

    /// Replaces the stored supply carrying the same identifier; fails when
    /// no supply carries it.
    fn save(&mut self, supply: Supply) -> (r: Result<(), Error>)
        ensures
            final(self).counter() == old(self).counter(),
            old(self).obeys_model() ==> final(self).obeys_model(),
            final(self).known_suppliers() == old(self).known_suppliers(),
            old(self).obeys_model() ==> match r {
                Ok(_) => {
                    &&& has_supply_id(old(self).supplies(), supply@.id)
                    &&& final(self).supplies().len() == old(self).supplies().len()
                    &&& forall|i: int|
                        0 <= i < old(self).supplies().len() ==> #[trigger] final(self).supplies()[i]
                            == if old(self).supplies()[i].id == supply@.id {
                            supply@
                        } else {
                            old(self).supplies()[i]
                        }
                },
                Err(e) => !has_supply_id(old(self).supplies(), supply@.id) && e
                    is InfrastructureError && final(self).supplies() == old(self).supplies(),
            },
    ;

    /// Removes every trace of the identifier from list, get and find;
    /// deleting an absent identifier is a no-op.
    fn delete(&mut self, id: &SupplyId) -> (r: Result<(), Error>)
        ensures
            final(self).counter() == old(self).counter(),
            old(self).obeys_model() ==> final(self).obeys_model(),
            final(self).known_suppliers() == old(self).known_suppliers(),
            old(self).obeys_model() ==> (r is Ok && final(self).supplies() == old(self).supplies().filter(|s: SupplyV| s.id != id@)),
    ;
}

/// The persistence port of the supplier aggregate.
pub trait ForSupplierPersistence: Sized {
    /// Whether this adapter's behaviour is tied to the model below.
    spec fn obeys_model(&self) -> bool;

    /// The suppliers currently stored, in storage order.
    spec fn suppliers(&self) -> Seq<SupplierV>;

    /// The supplies visible to this adapter for join-style filtering.
    spec fn known_supplies(&self) -> Seq<SupplyV>;

    /// How many identifiers the per-aggregate counter has handed out.
    spec fn counter(&self) -> nat;

    /// A model-obeying adapter holds a consistent store.
    proof fn model_consistent(&self)
        ensures
            self.obeys_model() ==> supplier_ids_unique(self.suppliers()) && supply_ids_unique(
                self.known_supplies(),
            ),
    ;

    /// An equivalent adapter over the same store.
    fn duplicate(&self) -> (r: Self)
        ensures
            r.obeys_model() == self.obeys_model(),
            r.suppliers() == self.suppliers(),
            r.known_supplies() == self.known_supplies(),
            r.counter() == self.counter(),
    ;

    /// Reserves the next identifier of the per-aggregate counter; the
    /// counter never rewinds, so a reserved identifier is never handed out
    /// again, whatever was deleted in between.
    fn next_id(&mut self) -> (r: Result<SupplierId, Error>)
        ensures
            final(self).obeys_model() == old(self).obeys_model(),
            final(self).suppliers() == old(self).suppliers(),
            final(self).known_supplies() == old(self).known_supplies(),
            final(self).counter() >= old(self).counter(),
            old(self).obeys_model() ==> match r {
                Ok(id) => old(self).counter() < usize::MAX && id@ == dec_of(
                    old(self).counter() as int + 1,
                ) && final(self).counter() == old(self).counter() + 1,
                Err(e) => old(self).counter() == usize::MAX && e is InfrastructureError && final(self).counter() == old(self).counter(),
            },
    ;

    /// True exactly when every given identifier exists; an empty input
    /// yields true.
    fn has(&self, ids: &Vec<SupplierId>) -> (r: Result<bool, Error>)
        ensures
            self.obeys_model() ==> (r matches Ok(b) && (b <==> forall|i: int|
                0 <= i < ids@.len() ==> has_supplier_id(self.suppliers(), (#[trigger] ids@[i])@))),
    ;

    /// Every stored supplier, in storage order.
    fn list(&self) -> (r: Result<Vec<Supplier>, Error>)
        ensures
            self.obeys_model() ==> (r matches Ok(v) && supplier_views(v@) == self.suppliers()),
    ;

    /// The supplier with the identifier, when it exists.
    fn get(&self, id: &SupplierId) -> (r: Result<Option<Supplier>, Error>)
        ensures
            self.obeys_model() ==> match r {
                Ok(Some(s)) => s@.id == id@ && self.suppliers().contains(s@),
                Ok(None) => !has_supplier_id(self.suppliers(), id@),
                Err(_) => false,
            },
    ;

    /// The suppliers passing the search filters, in storage order.
    fn find(&self, query: &FindSupplierQuery) -> (r: Result<Vec<Supplier>, Error>)
        ensures
            self.obeys_model() ==> (r matches Ok(v) && supplier_views(v@)
                == self.suppliers().filter(
                |p: SupplierV| supplier_matches(p, self.known_supplies(), query@),
            )),
    ;

    /// Appends a new supplier; fails when the identifier is already taken.
    fn add(&mut self, supplier: Supplier) -> (r: Result<(), Error>)
        ensures
            final(self).counter() == old(self).counter(),
            old(self).obeys_model() ==> final(self).obeys_model(),
            final(self).known_supplies() == old(self).known_supplies(),
            old(self).obeys_model() ==> match r {
                Ok(_) => !has_supplier_id(old(self).suppliers(), supplier@.id) && final(self).suppliers() == old(self).suppliers().push(supplier@),
                Err(e) => has_supplier_id(old(self).suppliers(), supplier@.id) && e
                    is InfrastructureError && final(self).suppliers() == old(self).suppliers(),
            },
    ;

    /// Replaces the stored supplier carrying the same identifier; fails
    /// when no supplier carries it.
    fn save(&mut self, supplier: Supplier) -> (r: Result<(), Error>)
        ensures
            final(self).counter() == old(self).counter(),
            old(self).obeys_model() ==> final(self).obeys_model(),
            final(self).known_supplies() == old(self).known_supplies(),
            old(self).obeys_model() ==> match r {
                Ok(_) => {
                    &&& has_supplier_id(old(self).suppliers(), supplier@.id)
                    &&& final(self).suppliers().len() == old(self).suppliers().len()
                    &&& forall|i: int|
                        0 <= i < old(self).suppliers().len() ==> #[trigger] final(self).suppliers()[i] == if old(self).suppliers()[i].id == supplier@.id {
                            supplier@
                        } else {
                            old(self).suppliers()[i]
                        }
                },
                Err(e) => !has_supplier_id(old(self).suppliers(), supplier@.id) && e
                    is InfrastructureError && final(self).suppliers() == old(self).suppliers(),
            },
    ;

    /// Removes every trace of the identifier from list, get and find;
    /// deleting an absent identifier is a no-op.
    fn delete(&mut self, id: &SupplierId) -> (r: Result<(), Error>)
        ensures
            final(self).counter() == old(self).counter(),
            old(self).obeys_model() ==> final(self).obeys_model(),
            final(self).known_supplies() == old(self).known_supplies(),
            old(self).obeys_model() ==> (r is Ok && final(self).suppliers() == old(self).suppliers().filter(|p: SupplierV| p.id != id@)),
    ;
}

/// The persistence port of the journal aggregate.
pub trait ForJournalPersistence: Sized {
    /// Whether this adapter's behaviour is tied to the model below.
    spec fn obeys_model(&self) -> bool;

    /// The journals currently stored, in storage order.
    spec fn journals(&self) -> Seq<JournalV>;

    /// How many identifiers the per-aggregate counter has handed out.
    spec fn counter(&self) -> nat;

    /// A model-obeying adapter holds a consistent store.
    proof fn model_consistent(&self)
        ensures
            self.obeys_model() ==> journal_ids_unique(self.journals()),
    ;

    /// An equivalent adapter over the same store.
    fn duplicate(&self) -> (r: Self)
        ensures
            r.obeys_model() == self.obeys_model(),
            r.journals() == self.journals(),
            r.counter() == self.counter(),
    ;

    /// Reserves the next identifier of the per-aggregate counter; the
    /// counter never rewinds, so a reserved identifier is never handed out
    /// again, whatever was deleted in between.
    fn next_id(&mut self) -> (r: Result<JournalId, Error>)
        ensures
            final(self).obeys_model() == old(self).obeys_model(),
            final(self).journals() == old(self).journals(),
            final(self).counter() >= old(self).counter(),
            old(self).obeys_model() ==> match r {
                Ok(id) => old(self).counter() < usize::MAX && id@ == dec_of(
                    old(self).counter() as int + 1,
                ) && final(self).counter() == old(self).counter() + 1,
                Err(e) => old(self).counter() == usize::MAX && e is InfrastructureError && final(self).counter() == old(self).counter(),
            },
    ;

    /// Every stored journal, in storage order.
    fn list(&self) -> (r: Result<Vec<Journal>, Error>)
        ensures
            self.obeys_model() ==> (r matches Ok(v) && journal_views(v@) == self.journals()),
    ;

    /// The journal with the identifier, when it exists.
    fn get(&self, id: &JournalId) -> (r: Result<Option<Journal>, Error>)
        ensures
            self.obeys_model() ==> match r {
                Ok(Some(j)) => j@.id == id@ && self.journals().contains(j@),
                Ok(None) => !has_journal_id(self.journals(), id@),
                Err(_) => false,
            },
    ;

    /// The journals passing the search filters, ordered by entry date
    /// ascending.
    fn find(&self, query: &FindJournalsQuery) -> (r: Result<Vec<Journal>, Error>)
        ensures
            self.obeys_model() ==> (r matches Ok(v) && journal_views(v@).to_multiset()
                == self.journals().filter(|j: JournalV| journal_matches(j, query@)).to_multiset()
                && vstd::relations::sorted_by(
                journal_views(v@),
                |a: JournalV, b: JournalV| crate::search::journal_date_le(a, b),
            )),
    ;

    /// Appends a new journal; fails when the identifier is already taken.
    fn add(&mut self, journal: Journal) -> (r: Result<(), Error>)
        ensures
            final(self).counter() == old(self).counter(),
            old(self).obeys_model() ==> final(self).obeys_model(),
            old(self).obeys_model() ==> match r {
                Ok(_) => !has_journal_id(old(self).journals(), journal@.id) && final(self).journals() == old(self).journals().push(journal@),
                Err(e) => has_journal_id(old(self).journals(), journal@.id) && e
                    is InfrastructureError && final(self).journals() == old(self).journals(),
            },
    ;

    /// Replaces the stored journal carrying the same identifier; fails when
    /// no journal carries it.
    fn save(&mut self, journal: Journal) -> (r: Result<(), Error>)
        ensures
            final(self).counter() == old(self).counter(),
            old(self).obeys_model() ==> final(self).obeys_model(),
            old(self).obeys_model() ==> match r {
                Ok(_) => {
                    &&& has_journal_id(old(self).journals(), journal@.id)
                    &&& final(self).journals().len() == old(self).journals().len()
                    &&& forall|i: int|
                        0 <= i < old(self).journals().len() ==> #[trigger] final(self).journals()[i]
                            == if old(self).journals()[i].id == journal@.id {
                            journal@
                        } else {
                            old(self).journals()[i]
                        }
                },
                Err(e) => !has_journal_id(old(self).journals(), journal@.id) && e
                    is InfrastructureError && final(self).journals() == old(self).journals(),
            },
    ;

    /// Removes every trace of the identifier from list, get and find;
    /// deleting an absent identifier is a no-op.
    fn delete(&mut self, id: &JournalId) -> (r: Result<(), Error>)
        ensures
            final(self).counter() == old(self).counter(),
            old(self).obeys_model() ==> final(self).obeys_model(),
            old(self).obeys_model() ==> (r is Ok && final(self).journals() == old(self).journals().filter(|j: JournalV| j.id != id@)),
    ;
}

/// The persistence port of the stocktaking aggregate.
pub trait ForStocktakingPersistence: Sized {
    /// Whether this adapter's behaviour is tied to the model below.
    spec fn obeys_model(&self) -> bool;

    /// The stocktakings currently stored, in storage order.
    spec fn stocktakings(&self) -> Seq<StocktakingV>;

    /// How many identifiers the per-aggregate counter has handed out.
    spec fn counter(&self) -> nat;

    /// A model-obeying adapter holds a consistent store.
    proof fn model_consistent(&self)
        ensures
            self.obeys_model() ==> stocktaking_ids_unique(self.stocktakings()),
    ;

    /// An equivalent adapter over the same store.
    fn duplicate(&self) -> (r: Self)
        ensures
            r.obeys_model() == self.obeys_model(),
            r.stocktakings() == self.stocktakings(),
            r.counter() == self.counter(),
    ;

    /// Reserves the next identifier of the per-aggregate counter; the
    /// counter never rewinds, so a reserved identifier is never handed out
    /// again, whatever was deleted in between.
    fn next_id(&mut self) -> (r: Result<StocktakingId, Error>)
        ensures
            final(self).obeys_model() == old(self).obeys_model(),
            final(self).stocktakings() == old(self).stocktakings(),
            final(self).counter() >= old(self).counter(),
            old(self).obeys_model() ==> match r {
                Ok(id) => old(self).counter() < usize::MAX && id@ == dec_of(
                    old(self).counter() as int + 1,
                ) && final(self).counter() == old(self).counter() + 1,
                Err(e) => old(self).counter() == usize::MAX && e is InfrastructureError && final(self).counter() == old(self).counter(),
            },
    ;

    /// Every stored stocktaking, in storage order.
    fn list(&self) -> (r: Result<Vec<Stocktaking>, Error>)
        ensures
            self.obeys_model() ==> (r matches Ok(v) && stocktaking_views(v@)
                == self.stocktakings()),
    ;

    /// The stocktaking with the identifier, when it exists.
    fn get(&self, id: &StocktakingId) -> (r: Result<Option<Stocktaking>, Error>)
        ensures
            self.obeys_model() ==> match r {
                Ok(Some(t)) => t@.id == id@ && self.stocktakings().contains(t@),
                Ok(None) => !has_stocktaking_id(self.stocktakings(), id@),
                Err(_) => false,
            },
    ;

    /// The stocktakings passing the search filters, ordered by stocktaken
    /// date descending.
    fn find(&self, query: &FindStocktakingsQuery) -> (r: Result<Vec<Stocktaking>, Error>)
        ensures
            self.obeys_model() ==> (r matches Ok(v) && stocktaking_views(v@).to_multiset()
                == self.stocktakings().filter(
                |t: StocktakingV| stocktaking_matches(t, query@),
            ).to_multiset() && vstd::relations::sorted_by(
                stocktaking_views(v@),
                |a: StocktakingV, b: StocktakingV| crate::search::stocktaking_date_ge(a, b),
            )),
    ;

    /// Appends a new stocktaking; fails when the identifier is already
    /// taken.
    fn add(&mut self, stocktaking: Stocktaking) -> (r: Result<(), Error>)
        ensures
            final(self).counter() == old(self).counter(),
            old(self).obeys_model() ==> final(self).obeys_model(),
            old(self).obeys_model() ==> match r {
                Ok(_) => !has_stocktaking_id(old(self).stocktakings(), stocktaking@.id) && final(self).stocktakings() == old(self).stocktakings().push(stocktaking@),
                Err(e) => has_stocktaking_id(old(self).stocktakings(), stocktaking@.id) && e
                    is InfrastructureError && final(self).stocktakings() == old(self).stocktakings(),
            },
    ;

    /// Replaces the stored stocktaking carrying the same identifier; fails
    /// when no stocktaking carries it.
    fn save(&mut self, stocktaking: Stocktaking) -> (r: Result<(), Error>)
        ensures
            final(self).counter() == old(self).counter(),
            old(self).obeys_model() ==> final(self).obeys_model(),
            old(self).obeys_model() ==> match r {
                Ok(_) => {
                    &&& has_stocktaking_id(old(self).stocktakings(), stocktaking@.id)
                    &&& final(self).stocktakings().len() == old(self).stocktakings().len()
                    &&& forall|i: int|
                        0 <= i < old(self).stocktakings().len() ==> #[trigger] final(self).stocktakings()[i] == if old(self).stocktakings()[i].id
                            == stocktaking@.id {
                            stocktaking@
                        } else {
                            old(self).stocktakings()[i]
                        }
                },
                Err(e) => !has_stocktaking_id(old(self).stocktakings(), stocktaking@.id) && e
                    is InfrastructureError && final(self).stocktakings() == old(self).stocktakings(),
            },
    ;

    /// Removes every trace of the identifier from list, get and find;
    /// deleting an absent identifier is a no-op.
    fn delete(&mut self, id: &StocktakingId) -> (r: Result<(), Error>)
        ensures
            final(self).counter() == old(self).counter(),
            old(self).obeys_model() ==> final(self).obeys_model(),
            old(self).obeys_model() ==> (r is Ok && final(self).stocktakings() == old(self).stocktakings().filter(|t: StocktakingV| t.id != id@)),
    ;
}

} // verus!
