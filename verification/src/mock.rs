//! The in-memory repository adapters. They keep every aggregate in one
//! [`Storage`] arena, obey the ports' model contracts in full, and perform
//! physical removal on delete.

use vstd::prelude::*;

use crate::entities::{Journal, JournalV, Stocktaking, StocktakingV, Supplier, SupplierV, Supply,
    SupplyV};
use crate::error::Error;
use crate::ports::{
    ForJournalPersistence, ForStocktakingPersistence, ForSupplierPersistence, ForSupplyPersistence,
    has_journal_id, has_stocktaking_id, has_supplier_id, has_supply_id,
};
use crate::queries::{FindJournalsQuery, FindStocktakingsQuery, FindSuppliesQuery,
    FindSupplierQuery};
use crate::search::{
    find_journals_in, find_stocktakings_in, find_supplies_in, find_suppliers_in,
    journal_views, lemma_filter_distinct_keys, lemma_filter_push, sort_journals_by_date,
    sort_stocktakings_by_date, stocktaking_views, supplier_views, supply_views,
};
use crate::text::{dec_string, is_trim_shaped, lemma_dec_of_trim_shaped};
use crate::values::{JournalId, StocktakingId, SupplierId, SupplyId};

verus! {

/// The shared in-memory arena: one collection per aggregate type. A fresh
/// storage is empty; it is mutated only through the repositories that own
/// it.
#[derive(Debug)]
pub struct Storage {
    supplies: Vec<Supply>,
    suppliers: Vec<Supplier>,
    journals: Vec<Journal>,
    stocktakings: Vec<Stocktaking>,
    supply_counter: usize,
    supplier_counter: usize,
    journal_counter: usize,
    stocktaking_counter: usize,
}

impl Storage {
    /// The stored supplies.
    pub closed spec fn supplies_v(&self) -> Seq<SupplyV> {
        supply_views(self.supplies@)
    }

    /// The stored suppliers.
    pub closed spec fn suppliers_v(&self) -> Seq<SupplierV> {
        supplier_views(self.suppliers@)
    }

    /// The stored journals.
    pub closed spec fn journals_v(&self) -> Seq<JournalV> {
        journal_views(self.journals@)
    }

    /// The stored stocktakings.
    pub closed spec fn stocktakings_v(&self) -> Seq<StocktakingV> {
        stocktaking_views(self.stocktakings@)
    }

    /// How many supply identifiers have been handed out.
    pub closed spec fn supply_counter_v(&self) -> nat {
        self.supply_counter as nat
    }

    /// How many supplier identifiers have been handed out.
    pub closed spec fn supplier_counter_v(&self) -> nat {
        self.supplier_counter as nat
    }

    /// How many journal identifiers have been handed out.
    pub closed spec fn journal_counter_v(&self) -> nat {
        self.journal_counter as nat
    }

    /// How many stocktaking identifiers have been handed out.
    pub closed spec fn stocktaking_counter_v(&self) -> nat {
        self.stocktaking_counter as nat
    }

    /// An empty arena.
    pub fn new() -> (r: Self)
        ensures
            r.supplies_v() == Seq::<SupplyV>::empty(),
            r.suppliers_v() == Seq::<SupplierV>::empty(),
            r.journals_v() == Seq::<JournalV>::empty(),
            r.stocktakings_v() == Seq::<StocktakingV>::empty(),
            r.supply_counter_v() == 0 && r.supplier_counter_v() == 0 && r.journal_counter_v() == 0
                && r.stocktaking_counter_v() == 0,
    {
        let r = Storage {
            supplies: Vec::new(),
            suppliers: Vec::new(),
            journals: Vec::new(),
            stocktakings: Vec::new(),
            supply_counter: 0,
            supplier_counter: 0,
            journal_counter: 0,
            stocktaking_counter: 0,
        };
        proof {
            assert(r.supplies_v() =~= Seq::<SupplyV>::empty());
            assert(r.suppliers_v() =~= Seq::<SupplierV>::empty());
            assert(r.journals_v() =~= Seq::<JournalV>::empty());
            assert(r.stocktakings_v() =~= Seq::<StocktakingV>::empty());
        }
        r
    }
}

impl Default for Storage {
    /// An empty arena.
    fn default() -> (r: Self)
        ensures
            r.supplies_v() == Seq::<SupplyV>::empty(),
            r.suppliers_v() == Seq::<SupplierV>::empty(),
            r.journals_v() == Seq::<JournalV>::empty(),
            r.stocktakings_v() == Seq::<StocktakingV>::empty(),
            r.supply_counter_v() == 0 && r.supplier_counter_v() == 0 && r.journal_counter_v() == 0
                && r.stocktaking_counter_v() == 0,
    {
        Storage::new()
    }
}

impl Clone for Storage {
    fn clone(&self) -> (r: Self)
        ensures
            r.supplies_v() == self.supplies_v(),
            r.suppliers_v() == self.suppliers_v(),
            r.journals_v() == self.journals_v(),
            r.stocktakings_v() == self.stocktakings_v(),
            r.supply_counter_v() == self.supply_counter_v(),
            r.supplier_counter_v() == self.supplier_counter_v(),
            r.journal_counter_v() == self.journal_counter_v(),
            r.stocktaking_counter_v() == self.stocktaking_counter_v(),
    {
        let r = Storage {
            supplies: self.supplies.clone(),
            suppliers: self.suppliers.clone(),
            journals: self.journals.clone(),
            stocktakings: self.stocktakings.clone(),
            supply_counter: self.supply_counter,
            supplier_counter: self.supplier_counter,
            journal_counter: self.journal_counter,
            stocktaking_counter: self.stocktaking_counter,
        };
        proof {
            assert(r.supplies_v() =~= self.supplies_v());
            assert(r.suppliers_v() =~= self.suppliers_v());
            assert(r.journals_v() =~= self.journals_v());
            assert(r.stocktakings_v() =~= self.stocktakings_v());
        }
        r
    }
}

/// The index of some supply carrying the identifier, when one exists.
pub(crate) fn supply_index_of(supplies: &Vec<Supply>, id: &SupplyId) -> (r: Option<usize>)
    ensures
        match r {
            Some(i) => i < supplies@.len() && supply_views(supplies@)[i as int].id == id@,
            None => !has_supply_id(supply_views(supplies@), id@),
        },
{
    let mut i: usize = 0;
    while i < supplies.len()
        invariant
            0 <= i <= supplies@.len(),
            forall|j: int| 0 <= j < i ==> (#[trigger] supply_views(supplies@)[j]).id != id@,
        decreases supplies@.len() - i,
    {
        if supplies[i].id() == id {
            return Some(i);
        }
        i = i + 1;
    }
    None
}

/// The index of some supplier carrying the identifier, when one exists.
pub(crate) fn supplier_index_of(suppliers: &Vec<Supplier>, id: &SupplierId) -> (r: Option<usize>)
    ensures
        match r {
            Some(i) => i < suppliers@.len() && supplier_views(suppliers@)[i as int].id == id@,
            None => !has_supplier_id(supplier_views(suppliers@), id@),
        },
{
    let mut i: usize = 0;
    while i < suppliers.len()
        invariant
            0 <= i <= suppliers@.len(),
            forall|j: int| 0 <= j < i ==> (#[trigger] supplier_views(suppliers@)[j]).id != id@,
        decreases suppliers@.len() - i,
    {
        if suppliers[i].id() == id {
            return Some(i);
        }
        i = i + 1;
    }
    None
}

/// The index of some journal carrying the identifier, when one exists.
pub(crate) fn journal_index_of(journals: &Vec<Journal>, id: &JournalId) -> (r: Option<usize>)
    ensures
        match r {
            Some(i) => i < journals@.len() && journal_views(journals@)[i as int].id == id@,
            None => !has_journal_id(journal_views(journals@), id@),
        },
{
    let mut i: usize = 0;
    while i < journals.len()
        invariant
            0 <= i <= journals@.len(),
            forall|j: int| 0 <= j < i ==> (#[trigger] journal_views(journals@)[j]).id != id@,
        decreases journals@.len() - i,
    {
        if journals[i].id() == id {
            return Some(i);
        }
        i = i + 1;
    }
    None
}

/// The index of some stocktaking carrying the identifier, when one exists.
pub(crate) fn stocktaking_index_of(stocktakings: &Vec<Stocktaking>, id: &StocktakingId) -> (r: Option<usize>)
    ensures
        match r {
            Some(i) => i < stocktakings@.len() && stocktaking_views(stocktakings@)[i as int].id
                == id@,
            None => !has_stocktaking_id(stocktaking_views(stocktakings@), id@),
        },
{
    let mut i: usize = 0;
    while i < stocktakings.len()
        invariant
            0 <= i <= stocktakings@.len(),
            forall|j: int| 0 <= j < i ==> (#[trigger] stocktaking_views(stocktakings@)[j]).id
                != id@,
        decreases stocktakings@.len() - i,
    {
        if stocktakings[i].id() == id {
            return Some(i);
        }
        i = i + 1;
    }
    None
}

/// Advances a never-rewinding identifier counter and renders the reserved
/// value as its decimal text, or reports that the counter is exhausted.
fn advance_counter(counter: &mut usize) -> (r: Result<String, Error>)
    ensures
        match r {
            Ok(s) => {
                &&& *old(counter) < usize::MAX
                &&& *final(counter) == *old(counter) + 1
                &&& s@ == crate::text::dec_of(*old(counter) as int + 1)
                &&& is_trim_shaped(s@)
            },
            Err(e) => *old(counter) == usize::MAX && *final(counter) == *old(counter) && e
                is InfrastructureError,
        },
{
    if *counter == usize::MAX {
        return Err(Error::InfrastructureError(String::from_str("id counter exhausted")));
    }
    *counter = *counter + 1;
    let s = dec_string(*counter as u64);
    proof {
        lemma_dec_of_trim_shaped(*counter as int);
    }
    Ok(s)
}

/// The in-memory supply repository.
#[derive(Debug)]
pub struct MockSupplyRepository {
    storage: Storage,
}

impl MockSupplyRepository {
    /// Wraps an arena.
    pub fn new(storage: Storage) -> (r: Self)
        ensures
            r.supplies() == storage.supplies_v(),
            r.known_suppliers() == storage.suppliers_v(),
            r.counter() == storage.supply_counter_v(),
            r.obeys_model() == (crate::ports::supply_ids_unique(storage.supplies_v())
                && crate::ports::supplier_ids_unique(storage.suppliers_v())),
    {
        MockSupplyRepository { storage }
    }

    /// Hands the arena back, so another repository can share the same
    /// dataset.
    pub fn into_storage(self) -> (r: Storage)
        ensures
            r.supplies_v() == self.supplies(),
            r.suppliers_v() == self.known_suppliers(),
            r.supply_counter_v() == self.counter(),
    {
        self.storage
    }
}

impl ForSupplyPersistence for MockSupplyRepository {
    closed spec fn obeys_model(&self) -> bool {
        crate::ports::supply_ids_unique(self.storage.supplies_v())
            && crate::ports::supplier_ids_unique(self.storage.suppliers_v())
    }

    closed spec fn supplies(&self) -> Seq<SupplyV> {
        self.storage.supplies_v()
    }

    closed spec fn known_suppliers(&self) -> Seq<SupplierV> {
        self.storage.suppliers_v()
    }

    closed spec fn counter(&self) -> nat {
        self.storage.supply_counter_v()
    }

    proof fn model_consistent(&self) {
    }

    fn duplicate(&self) -> (r: Self) {
        MockSupplyRepository { storage: self.storage.clone() }
    }

    fn next_id(&mut self) -> (r: Result<SupplyId, Error>) {
        match advance_counter(&mut self.storage.supply_counter) {
            Ok(s) => Ok(SupplyId::from_trimmed(s)),
            Err(e) => Err(e),
        }
    }

    fn has(&self, ids: &Vec<SupplyId>) -> (r: Result<bool, Error>) {
        let mut i: usize = 0;
        while i < ids.len()
            invariant
                0 <= i <= ids@.len(),
                forall|k: int|
                    0 <= k < i ==> has_supply_id(self.supplies(), (#[trigger] ids@[k])@),
            decreases ids@.len() - i,
        {
            match supply_index_of(&self.storage.supplies, &ids[i]) {
                Some(j) => {
                    proof {
                        assert(has_supply_id(self.supplies(), ids@[i as int]@));
                    }
                },
                None => {
                    return Ok(false);
                },
            }
            i = i + 1;
        }
        Ok(true)
    }

    fn list(&self) -> (r: Result<Vec<Supply>, Error>) {
        let v = self.storage.supplies.clone();
        proof {
            assert(supply_views(v@) =~= self.supplies());
        }
        Ok(v)
    }

    fn get(&self, id: &SupplyId) -> (r: Result<Option<Supply>, Error>) {
        match supply_index_of(&self.storage.supplies, id) {
            Some(i) => {
                let s = self.storage.supplies[i].clone();
                proof {
                    assert(self.supplies().contains(s@)) by {
                        assert(self.supplies()[i as int] == s@);
                    }
                }
                Ok(Some(s))
            },
            None => Ok(None),
        }
    }

    fn get_of_supplier(&self, supplier_id: &SupplierId) -> (r: Result<Vec<Supply>, Error>) {
        let ghost pred = |s: SupplyV| s.supplier_id == supplier_id@;
        let mut out: Vec<Supply> = Vec::new();
        let mut i: usize = 0;
        proof {
            reveal(Seq::filter);
            assert(supply_views(out@) =~= self.supplies().take(0).filter(pred));
        }
        while i < self.storage.supplies.len()
            invariant
                0 <= i <= self.storage.supplies@.len(),
                supply_views(out@) == self.supplies().take(i as int).filter(pred),
                pred == (|s: SupplyV| s.supplier_id == supplier_id@),
            decreases self.storage.supplies@.len() - i,
        {
            let ghost pre = self.supplies().take(i as int);
            proof {
                assert(self.supplies().take(i + 1) =~= pre.push(self.supplies()[i as int]));
                lemma_filter_push(pre, self.supplies()[i as int], pred);
            }
            if self.storage.supplies[i].supplier_id() == supplier_id {
                out.push(self.storage.supplies[i].clone());
                proof {
                    assert(supply_views(out@) =~= pre.filter(pred).push(self.supplies()[i as int]));
                }
            }
            i = i + 1;
        }
        proof {
            assert(self.supplies().take(self.storage.supplies@.len() as int) =~= self.supplies());
        }
        Ok(out)
    }

    fn find(&self, query: &FindSuppliesQuery) -> (r: Result<Vec<Supply>, Error>) {
        Ok(find_supplies_in(&self.storage.supplies, &self.storage.suppliers, query))
    }

    fn add(&mut self, supply: Supply) -> (r: Result<(), Error>) {
        match supply_index_of(&self.storage.supplies, supply.id()) {
            Some(_) => Err(Error::InfrastructureError(String::from_str("supply already exists."))),
            None => {
                let ghost pre = self.supplies();
                self.storage.supplies.push(supply);
                proof {
                    assert(self.supplies() =~= pre.push(supply@));
                    if old(self).obeys_model() {
                        assert forall|i: int, j: int|
                            0 <= i < j < self.supplies().len() implies (
                        #[trigger] self.supplies()[i]).id != (#[trigger] self.supplies()[j]).id by {
                            if j == self.supplies().len() - 1 {
                                assert(!has_supply_id(pre, supply@.id));
                                assert(pre[i] == self.supplies()[i]);
                            }
                        }
                    }
                }
                Ok(())
            },
        }
    }

    fn save(&mut self, supply: Supply) -> (r: Result<(), Error>) {
        match supply_index_of(&self.storage.supplies, supply.id()) {
            None => Err(Error::InfrastructureError(String::from_str("supply does not exist."))),
            Some(i) => {
                let ghost pre = self.supplies();
                self.storage.supplies.remove(i);
                self.storage.supplies.insert(i, supply);
                proof {
                    let mid = pre.remove(i as int);
                    pre.remove_ensures(i as int);
                    mid.insert_ensures(i as int, supply@);
                    assert(self.supplies() =~= mid.insert(i as int, supply@));
                    if old(self).obeys_model() {
                        assert forall|k: int|
                            0 <= k < pre.len() implies #[trigger] self.supplies()[k] == if pre[k].id
                            == supply@.id {
                            supply@
                        } else {
                            pre[k]
                        } by {
                            if k < i {
                                assert(self.supplies()[k] == pre[k]);
                                assert(pre[k].id != pre[i as int].id);
                            } else if k == i {
                                assert(self.supplies()[k] == supply@);
                            } else {
                                assert(self.supplies()[k] == mid[k - 1]);
                                assert(mid[k - 1] == pre[k]);
                                assert(pre[k].id != pre[i as int].id);
                            }
                        }
                        assert(has_supply_id(pre, supply@.id)) by {
                            assert(pre[i as int].id == supply@.id);
                        }
                        assert forall|a: int, b: int|
                            0 <= a < b < self.supplies().len() implies (
                        #[trigger] self.supplies()[a]).id != (#[trigger] self.supplies()[b]).id by {
                            assert(self.supplies()[a].id == pre[a].id);
                            assert(self.supplies()[b].id == pre[b].id);
                        }
                    }
                }
                Ok(())
            },
        }
    }

    fn delete(&mut self, id: &SupplyId) -> (r: Result<(), Error>) {
        let ghost pred = |s: SupplyV| s.id != id@;
        let ghost pre = self.supplies();
        let mut kept: Vec<Supply> = Vec::new();
        let mut i: usize = 0;
        proof {
            reveal(Seq::filter);
            assert(supply_views(kept@) =~= pre.take(0).filter(pred));
        }
        while i < self.storage.supplies.len()
            invariant
                0 <= i <= self.storage.supplies@.len(),
                pre == self.supplies(),
                supply_views(kept@) == pre.take(i as int).filter(pred),
                pred == (|s: SupplyV| s.id != id@),
            decreases self.storage.supplies@.len() - i,
        {
            let ghost prefix = pre.take(i as int);
            proof {
                assert(pre.take(i + 1) =~= prefix.push(pre[i as int]));
                lemma_filter_push(prefix, pre[i as int], pred);
            }
            if !(self.storage.supplies[i].id() == id) {
                kept.push(self.storage.supplies[i].clone());
                proof {
                    assert(supply_views(kept@) =~= prefix.filter(pred).push(pre[i as int]));
                }
            }
            i = i + 1;
        }
        proof {
            assert(pre.take(pre.len() as int) =~= pre);
        }
        self.storage.supplies = kept;
        proof {
            if old(self).obeys_model() {
                lemma_filter_distinct_keys(pre, |s: SupplyV| s.id, pred);
            }
        }
        Ok(())
    }
}

/// The in-memory supplier repository.
#[derive(Debug)]
pub struct MockSupplierRepository {
    storage: Storage,
}

impl MockSupplierRepository {
    /// Wraps an arena.
    pub fn new(storage: Storage) -> (r: Self)
        ensures
            r.suppliers() == storage.suppliers_v(),
            r.known_supplies() == storage.supplies_v(),
            r.counter() == storage.supplier_counter_v(),
            r.obeys_model() == (crate::ports::supplier_ids_unique(storage.suppliers_v())
                && crate::ports::supply_ids_unique(storage.supplies_v())),
    {
        MockSupplierRepository { storage }
    }

    /// Hands the arena back, so another repository can share the same
    /// dataset.
    pub fn into_storage(self) -> (r: Storage)
        ensures
            r.suppliers_v() == self.suppliers(),
            r.supplies_v() == self.known_supplies(),
            r.supplier_counter_v() == self.counter(),
    {
        self.storage
    }
}

impl ForSupplierPersistence for MockSupplierRepository {
    closed spec fn obeys_model(&self) -> bool {
        crate::ports::supplier_ids_unique(self.storage.suppliers_v())
            && crate::ports::supply_ids_unique(self.storage.supplies_v())
    }

    closed spec fn suppliers(&self) -> Seq<SupplierV> {
        self.storage.suppliers_v()
    }

    closed spec fn known_supplies(&self) -> Seq<SupplyV> {
        self.storage.supplies_v()
    }

    closed spec fn counter(&self) -> nat {
        self.storage.supplier_counter_v()
    }

    proof fn model_consistent(&self) {
    }

    fn duplicate(&self) -> (r: Self) {
        MockSupplierRepository { storage: self.storage.clone() }
    }

    fn next_id(&mut self) -> (r: Result<SupplierId, Error>) {
        match advance_counter(&mut self.storage.supplier_counter) {
            Ok(s) => Ok(SupplierId::from_trimmed(s)),
            Err(e) => Err(e),
        }
    }

    fn has(&self, ids: &Vec<SupplierId>) -> (r: Result<bool, Error>) {
        let mut i: usize = 0;
        while i < ids.len()
            invariant
                0 <= i <= ids@.len(),
                forall|k: int|
                    0 <= k < i ==> has_supplier_id(self.suppliers(), (#[trigger] ids@[k])@),
            decreases ids@.len() - i,
        {
            match supplier_index_of(&self.storage.suppliers, &ids[i]) {
                Some(j) => {
                    proof {
                        assert(has_supplier_id(self.suppliers(), ids@[i as int]@));
                    }
                },
                None => {
                    return Ok(false);
                },
            }
            i = i + 1;
        }
        Ok(true)
    }

    fn list(&self) -> (r: Result<Vec<Supplier>, Error>) {
        let v = self.storage.suppliers.clone();
        proof {
            assert(supplier_views(v@) =~= self.suppliers());
        }
        Ok(v)
    }

    fn get(&self, id: &SupplierId) -> (r: Result<Option<Supplier>, Error>) {
        match supplier_index_of(&self.storage.suppliers, id) {
            Some(i) => {
                let s = self.storage.suppliers[i].clone();
                proof {
                    assert(self.suppliers().contains(s@)) by {
                        assert(self.suppliers()[i as int] == s@);
                    }
                }
                Ok(Some(s))
            },
            None => Ok(None),
        }
    }

    fn find(&self, query: &FindSupplierQuery) -> (r: Result<Vec<Supplier>, Error>) {
        Ok(find_suppliers_in(&self.storage.suppliers, &self.storage.supplies, query))
    }

    fn add(&mut self, supplier: Supplier) -> (r: Result<(), Error>) {
        match supplier_index_of(&self.storage.suppliers, supplier.id()) {
            Some(_) => Err(
                Error::InfrastructureError(String::from_str("supplier already exists.")),
            ),
            None => {
                let ghost pre = self.suppliers();
                self.storage.suppliers.push(supplier);
                proof {
                    assert(self.suppliers() =~= pre.push(supplier@));
                    if old(self).obeys_model() {
                        assert forall|i: int, j: int|
                            0 <= i < j < self.suppliers().len() implies (
                        #[trigger] self.suppliers()[i]).id != (
                        #[trigger] self.suppliers()[j]).id by {
                            if j == self.suppliers().len() - 1 {
                                assert(!has_supplier_id(pre, supplier@.id));
                                assert(pre[i] == self.suppliers()[i]);
                            }
                        }
                    }
                }
                Ok(())
            },
        }
    }

    fn save(&mut self, supplier: Supplier) -> (r: Result<(), Error>) {
        match supplier_index_of(&self.storage.suppliers, supplier.id()) {
            None => Err(Error::InfrastructureError(String::from_str("supplier does not exist."))),
            Some(i) => {
                let ghost pre = self.suppliers();
                self.storage.suppliers.remove(i);
                self.storage.suppliers.insert(i, supplier);
                proof {
                    let mid = pre.remove(i as int);
                    pre.remove_ensures(i as int);
                    mid.insert_ensures(i as int, supplier@);
                    assert(self.suppliers() =~= mid.insert(i as int, supplier@));
                    if old(self).obeys_model() {
                        assert forall|k: int|
                            0 <= k < pre.len() implies #[trigger] self.suppliers()[k] == if pre[
                            k].id == supplier@.id {
                            supplier@
                        } else {
                            pre[k]
                        } by {
                            if k < i {
                                assert(self.suppliers()[k] == pre[k]);
                                assert(pre[k].id != pre[i as int].id);
                            } else if k == i {
                                assert(self.suppliers()[k] == supplier@);
                            } else {
                                assert(self.suppliers()[k] == mid[k - 1]);
                                assert(mid[k - 1] == pre[k]);
                                assert(pre[k].id != pre[i as int].id);
                            }
                        }
                        assert(has_supplier_id(pre, supplier@.id)) by {
                            assert(pre[i as int].id == supplier@.id);
                        }
                        assert forall|a: int, b: int|
                            0 <= a < b < self.suppliers().len() implies (
                        #[trigger] self.suppliers()[a]).id != (
                        #[trigger] self.suppliers()[b]).id by {
                            assert(self.suppliers()[a].id == pre[a].id);
                            assert(self.suppliers()[b].id == pre[b].id);
                        }
                    }
                }
                Ok(())
            },
        }
    }

    fn delete(&mut self, id: &SupplierId) -> (r: Result<(), Error>) {
        let ghost pred = |p: SupplierV| p.id != id@;
        let ghost pre = self.suppliers();
        let mut kept: Vec<Supplier> = Vec::new();
        let mut i: usize = 0;
        proof {
            reveal(Seq::filter);
            assert(supplier_views(kept@) =~= pre.take(0).filter(pred));
        }
        while i < self.storage.suppliers.len()
            invariant
                0 <= i <= self.storage.suppliers@.len(),
                pre == self.suppliers(),
                supplier_views(kept@) == pre.take(i as int).filter(pred),
                pred == (|p: SupplierV| p.id != id@),
            decreases self.storage.suppliers@.len() - i,
        {
            let ghost prefix = pre.take(i as int);
            proof {
                assert(pre.take(i + 1) =~= prefix.push(pre[i as int]));
                lemma_filter_push(prefix, pre[i as int], pred);
            }
            if !(self.storage.suppliers[i].id() == id) {
                kept.push(self.storage.suppliers[i].clone());
                proof {
                    assert(supplier_views(kept@) =~= prefix.filter(pred).push(pre[i as int]));
                }
            }
            i = i + 1;
        }
        proof {
            assert(pre.take(pre.len() as int) =~= pre);
        }
        self.storage.suppliers = kept;
        proof {
            if old(self).obeys_model() {
                lemma_filter_distinct_keys(pre, |p: SupplierV| p.id, pred);
            }
        }
        Ok(())
    }
}

/// The in-memory journal repository.
#[derive(Debug)]
pub struct MockJournalRepository {
    storage: Storage,
}

impl MockJournalRepository {
    /// Wraps an arena.
    pub fn new(storage: Storage) -> (r: Self)
        ensures
            r.journals() == storage.journals_v(),
            r.counter() == storage.journal_counter_v(),
            r.obeys_model() == crate::ports::journal_ids_unique(storage.journals_v()),
    {
        MockJournalRepository { storage }
    }

    /// Hands the arena back, so another repository can share the same
    /// dataset.
    pub fn into_storage(self) -> (r: Storage)
        ensures
            r.journals_v() == self.journals(),
            r.journal_counter_v() == self.counter(),
    {
        self.storage
    }
}

impl ForJournalPersistence for MockJournalRepository {
    closed spec fn obeys_model(&self) -> bool {
        crate::ports::journal_ids_unique(self.storage.journals_v())
    }

    closed spec fn journals(&self) -> Seq<JournalV> {
        self.storage.journals_v()
    }

    closed spec fn counter(&self) -> nat {
        self.storage.journal_counter_v()
    }

    proof fn model_consistent(&self) {
    }

    fn duplicate(&self) -> (r: Self) {
        MockJournalRepository { storage: self.storage.clone() }
    }

    fn next_id(&mut self) -> (r: Result<JournalId, Error>) {
        match advance_counter(&mut self.storage.journal_counter) {
            Ok(s) => Ok(JournalId::from_trimmed(s)),
            Err(e) => Err(e),
        }
    }

    fn list(&self) -> (r: Result<Vec<Journal>, Error>) {
        let v = self.storage.journals.clone();
        proof {
            assert(journal_views(v@) =~= self.journals());
        }
        Ok(v)
    }

    fn get(&self, id: &JournalId) -> (r: Result<Option<Journal>, Error>) {
        match journal_index_of(&self.storage.journals, id) {
            Some(i) => {
                let s = self.storage.journals[i].clone();
                proof {
                    assert(self.journals().contains(s@)) by {
                        assert(self.journals()[i as int] == s@);
                    }
                }
                Ok(Some(s))
            },
            None => Ok(None),
        }
    }

    fn find(&self, query: &FindJournalsQuery) -> (r: Result<Vec<Journal>, Error>) {
        let picked = find_journals_in(&self.storage.journals, query);
        Ok(sort_journals_by_date(picked))
    }

    fn add(&mut self, journal: Journal) -> (r: Result<(), Error>) {
        match journal_index_of(&self.storage.journals, journal.id()) {
            Some(_) => Err(Error::InfrastructureError(String::from_str("journal already exists."))),
            None => {
                let ghost pre = self.journals();
                self.storage.journals.push(journal);
                proof {
                    assert(self.journals() =~= pre.push(journal@));
                    if old(self).obeys_model() {
                        assert forall|i: int, j: int|
                            0 <= i < j < self.journals().len() implies (
                        #[trigger] self.journals()[i]).id != (#[trigger] self.journals()[j]).id by {
                            if j == self.journals().len() - 1 {
                                assert(!has_journal_id(pre, journal@.id));
                                assert(pre[i] == self.journals()[i]);
                            }
                        }
                    }
                }
                Ok(())
            },
        }
    }

    fn save(&mut self, journal: Journal) -> (r: Result<(), Error>) {
        match journal_index_of(&self.storage.journals, journal.id()) {
            None => Err(Error::InfrastructureError(String::from_str("journal does not exist."))),
            Some(i) => {
                let ghost pre = self.journals();
                self.storage.journals.remove(i);
                self.storage.journals.insert(i, journal);
                proof {
                    let mid = pre.remove(i as int);
                    pre.remove_ensures(i as int);
                    mid.insert_ensures(i as int, journal@);
                    assert(self.journals() =~= mid.insert(i as int, journal@));
                    if old(self).obeys_model() {
                        assert forall|k: int|
                            0 <= k < pre.len() implies #[trigger] self.journals()[k] == if pre[
                            k].id == journal@.id {
                            journal@
                        } else {
                            pre[k]
                        } by {
                            if k < i {
                                assert(self.journals()[k] == pre[k]);
                                assert(pre[k].id != pre[i as int].id);
                            } else if k == i {
                                assert(self.journals()[k] == journal@);
                            } else {
                                assert(self.journals()[k] == mid[k - 1]);
                                assert(mid[k - 1] == pre[k]);
                                assert(pre[k].id != pre[i as int].id);
                            }
                        }
                        assert(has_journal_id(pre, journal@.id)) by {
                            assert(pre[i as int].id == journal@.id);
                        }
                        assert forall|a: int, b: int|
                            0 <= a < b < self.journals().len() implies (
                        #[trigger] self.journals()[a]).id != (#[trigger] self.journals()[b]).id by {
                            assert(self.journals()[a].id == pre[a].id);
                            assert(self.journals()[b].id == pre[b].id);
                        }
                    }
                }
                Ok(())
            },
        }
    }

    fn delete(&mut self, id: &JournalId) -> (r: Result<(), Error>) {
        let ghost pred = |j: JournalV| j.id != id@;
        let ghost pre = self.journals();
        let mut kept: Vec<Journal> = Vec::new();
        let mut i: usize = 0;
        proof {
            reveal(Seq::filter);
            assert(journal_views(kept@) =~= pre.take(0).filter(pred));
        }
        while i < self.storage.journals.len()
            invariant
                0 <= i <= self.storage.journals@.len(),
                pre == self.journals(),
                journal_views(kept@) == pre.take(i as int).filter(pred),
                pred == (|j: JournalV| j.id != id@),
            decreases self.storage.journals@.len() - i,
        {
            let ghost prefix = pre.take(i as int);
            proof {
                assert(pre.take(i + 1) =~= prefix.push(pre[i as int]));
                lemma_filter_push(prefix, pre[i as int], pred);
            }
            if !(self.storage.journals[i].id() == id) {
                kept.push(self.storage.journals[i].clone());
                proof {
                    assert(journal_views(kept@) =~= prefix.filter(pred).push(pre[i as int]));
                }
            }
            i = i + 1;
        }
        proof {
            assert(pre.take(pre.len() as int) =~= pre);
        }
        self.storage.journals = kept;
        proof {
            if old(self).obeys_model() {
                lemma_filter_distinct_keys(pre, |j: JournalV| j.id, pred);
            }
        }
        Ok(())
    }
}

/// The in-memory stocktaking repository.
#[derive(Debug)]
pub struct MockStocktakingRepository {
    storage: Storage,
}

impl MockStocktakingRepository {
    /// Wraps an arena.
    pub fn new(storage: Storage) -> (r: Self)
        ensures
            r.stocktakings() == storage.stocktakings_v(),
            r.counter() == storage.stocktaking_counter_v(),
            r.obeys_model() == crate::ports::stocktaking_ids_unique(storage.stocktakings_v()),
    {
        MockStocktakingRepository { storage }
    }

    /// Hands the arena back, so another repository can share the same
    /// dataset.
    pub fn into_storage(self) -> (r: Storage)
        ensures
            r.stocktakings_v() == self.stocktakings(),
            r.stocktaking_counter_v() == self.counter(),
    {
        self.storage
    }
}

impl ForStocktakingPersistence for MockStocktakingRepository {
    closed spec fn obeys_model(&self) -> bool {
        crate::ports::stocktaking_ids_unique(self.storage.stocktakings_v())
    }

    closed spec fn stocktakings(&self) -> Seq<StocktakingV> {
        self.storage.stocktakings_v()
    }

    closed spec fn counter(&self) -> nat {
        self.storage.stocktaking_counter_v()
    }

    proof fn model_consistent(&self) {
    }

    fn duplicate(&self) -> (r: Self) {
        MockStocktakingRepository { storage: self.storage.clone() }
    }

    fn next_id(&mut self) -> (r: Result<StocktakingId, Error>) {
        match advance_counter(&mut self.storage.stocktaking_counter) {
            Ok(s) => Ok(StocktakingId::from_trimmed(s)),
            Err(e) => Err(e),
        }
    }

    fn list(&self) -> (r: Result<Vec<Stocktaking>, Error>) {
        let v = self.storage.stocktakings.clone();
        proof {
            assert(stocktaking_views(v@) =~= self.stocktakings());
        }
        Ok(v)
    }

    fn get(&self, id: &StocktakingId) -> (r: Result<Option<Stocktaking>, Error>) {
        match stocktaking_index_of(&self.storage.stocktakings, id) {
            Some(i) => {
                let s = self.storage.stocktakings[i].clone();
                proof {
                    assert(self.stocktakings().contains(s@)) by {
                        assert(self.stocktakings()[i as int] == s@);
                    }
                }
                Ok(Some(s))
            },
            None => Ok(None),
        }
    }

    fn find(&self, query: &FindStocktakingsQuery) -> (r: Result<Vec<Stocktaking>, Error>) {
        let picked = find_stocktakings_in(&self.storage.stocktakings, query);
        Ok(sort_stocktakings_by_date(picked))
    }

    fn add(&mut self, stocktaking: Stocktaking) -> (r: Result<(), Error>) {
        match stocktaking_index_of(&self.storage.stocktakings, stocktaking.id()) {
            Some(_) => Err(
                Error::InfrastructureError(String::from_str("stocktaking already exists.")),
            ),
            None => {
                let ghost pre = self.stocktakings();
                self.storage.stocktakings.push(stocktaking);
                proof {
                    assert(self.stocktakings() =~= pre.push(stocktaking@));
                    if old(self).obeys_model() {
                        assert forall|i: int, j: int|
                            0 <= i < j < self.stocktakings().len() implies (
                        #[trigger] self.stocktakings()[i]).id != (
                        #[trigger] self.stocktakings()[j]).id by {
                            if j == self.stocktakings().len() - 1 {
                                assert(!has_stocktaking_id(pre, stocktaking@.id));
                                assert(pre[i] == self.stocktakings()[i]);
                            }
                        }
                    }
                }
                Ok(())
            },
        }
    }

    fn save(&mut self, stocktaking: Stocktaking) -> (r: Result<(), Error>) {
        match stocktaking_index_of(&self.storage.stocktakings, stocktaking.id()) {
            None => Err(
                Error::InfrastructureError(String::from_str("stocktaking does not exist.")),
            ),
            Some(i) => {
                let ghost pre = self.stocktakings();
                self.storage.stocktakings.remove(i);
                self.storage.stocktakings.insert(i, stocktaking);
                proof {
                    let mid = pre.remove(i as int);
                    pre.remove_ensures(i as int);
                    mid.insert_ensures(i as int, stocktaking@);
                    assert(self.stocktakings() =~= mid.insert(i as int, stocktaking@));
                    if old(self).obeys_model() {
                        assert forall|k: int|
                            0 <= k < pre.len() implies #[trigger] self.stocktakings()[k] == if pre[
                            k].id == stocktaking@.id {
                            stocktaking@
                        } else {
                            pre[k]
                        } by {
                            if k < i {
                                assert(self.stocktakings()[k] == pre[k]);
                                assert(pre[k].id != pre[i as int].id);
                            } else if k == i {
                                assert(self.stocktakings()[k] == stocktaking@);
                            } else {
                                assert(self.stocktakings()[k] == mid[k - 1]);
                                assert(mid[k - 1] == pre[k]);
                                assert(pre[k].id != pre[i as int].id);
                            }
                        }
                        assert(has_stocktaking_id(pre, stocktaking@.id)) by {
                            assert(pre[i as int].id == stocktaking@.id);
                        }
                        assert forall|a: int, b: int|
                            0 <= a < b < self.stocktakings().len() implies (
                        #[trigger] self.stocktakings()[a]).id != (
                        #[trigger] self.stocktakings()[b]).id by {
                            assert(self.stocktakings()[a].id == pre[a].id);
                            assert(self.stocktakings()[b].id == pre[b].id);
                        }
                    }
                }
                Ok(())
            },
        }
    }

    fn delete(&mut self, id: &StocktakingId) -> (r: Result<(), Error>) {
        let ghost pred = |t: StocktakingV| t.id != id@;
        let ghost pre = self.stocktakings();
        let mut kept: Vec<Stocktaking> = Vec::new();
        let mut i: usize = 0;
        proof {
            reveal(Seq::filter);
            assert(stocktaking_views(kept@) =~= pre.take(0).filter(pred));
        }
        while i < self.storage.stocktakings.len()
            invariant
                0 <= i <= self.storage.stocktakings@.len(),
                pre == self.stocktakings(),
                stocktaking_views(kept@) == pre.take(i as int).filter(pred),
                pred == (|t: StocktakingV| t.id != id@),
            decreases self.storage.stocktakings@.len() - i,
        {
            let ghost prefix = pre.take(i as int);
            proof {
                assert(pre.take(i + 1) =~= prefix.push(pre[i as int]));
                lemma_filter_push(prefix, pre[i as int], pred);
            }
            if !(self.storage.stocktakings[i].id() == id) {
                kept.push(self.storage.stocktakings[i].clone());
                proof {
                    assert(stocktaking_views(kept@) =~= prefix.filter(pred).push(pre[i as int]));
                }
            }
            i = i + 1;
        }
        proof {
            assert(pre.take(pre.len() as int) =~= pre);
        }
        self.storage.stocktakings = kept;
        proof {
            if old(self).obeys_model() {
                lemma_filter_distinct_keys(pre, |t: StocktakingV| t.id, pred);
            }
        }
        Ok(())
    }
}

} // verus!
