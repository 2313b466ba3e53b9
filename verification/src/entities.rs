//! The four aggregate entities: `Supply`, `Supplier`, `Journal` and
//! `Stocktaking`. Each holds validated value objects, exposes controlled
//! mutation, and compares equal by identifier alone.

use vstd::prelude::*;


use crate::values::{
    EntryDateTime, JournalId, JournalRecord, JournalRecordV, StocktakenDateTime, StocktakingId,
    StocktakingRecord, StocktakingRecordV, SupplierId, SupplierName, SupplyId, SupplyName,
    UnitName,
};

verus! {

/// The mathematical content of a supply.
pub struct SupplyV {
    pub id: Seq<char>,
    pub name: Seq<char>,
    pub unit_name: Seq<char>,
    pub supplier_id: Seq<char>,
}

/// A catalogued item that can be purchased or counted, owned by one
/// supplier through a soft (by-identifier) reference.
#[derive(Debug)]
pub struct Supply {
    id: SupplyId,
    name: SupplyName,
    unit_name: UnitName,
    supplier_id: SupplierId,
}

impl View for Supply {
    type V = SupplyV;

    closed spec fn view(&self) -> SupplyV {
        SupplyV {
            id: self.id@,
            name: self.name@,
            unit_name: self.unit_name@,
            supplier_id: self.supplier_id@,
        }
    }
}

impl Supply {
    /// Assembles a supply from already-validated value objects.
    pub fn new(id: SupplyId, name: SupplyName, unit_name: UnitName, supplier_id: SupplierId) -> (r:
        Self)
        ensures
            r@.id == id@,
            r@.name == name@,
            r@.unit_name == unit_name@,
            r@.supplier_id == supplier_id@,
    {
        Supply { id, name, unit_name, supplier_id }
    }

    /// The identifier.
    pub fn id(&self) -> (r: &SupplyId)
        ensures
            r@ == self@.id,
    {
        &self.id
    }

    /// The display name.
    pub fn name(&self) -> (r: &SupplyName)
        ensures
            r@ == self@.name,
    {
        &self.name
    }

    /// The unit the supply is measured in.
    pub fn unit_name(&self) -> (r: &UnitName)
        ensures
            r@ == self@.unit_name,
    {
        &self.unit_name
    }

    /// The owning supplier's identifier.
    pub fn supplier_id(&self) -> (r: &SupplierId)
        ensures
            r@ == self@.supplier_id,
    {
        &self.supplier_id
    }

    /// Replaces the display name wholesale.
    pub fn rename(&mut self, name: SupplyName)
        ensures
            final(self)@ == (SupplyV { name: name@, ..old(self)@ }),
    {
        self.name = name;
    }

    /// Replaces the unit name wholesale.
    pub fn rename_unit(&mut self, name: UnitName)
        ensures
            final(self)@ == (SupplyV { unit_name: name@, ..old(self)@ }),
    {
        self.unit_name = name;
    }

    /// Moves the supply to another supplier.
    pub fn change_supplier(&mut self, supplier_id: SupplierId)
        ensures
            final(self)@ == (SupplyV { supplier_id: supplier_id@, ..old(self)@ }),
    {
        self.supplier_id = supplier_id;
    }
}

impl Clone for Supply {
    fn clone(&self) -> (r: Self)
        ensures
            r@ == self@,
    {
        Supply {
            id: self.id.clone(),
            name: self.name.clone(),
            unit_name: self.unit_name.clone(),
            supplier_id: self.supplier_id.clone(),
        }
    }
}

impl PartialEq for Supply {
    fn eq(&self, other: &Self) -> (r: bool) {
        self.id == other.id
    }
}

impl vstd::std_specs::cmp::PartialEqSpecImpl for Supply {
    open spec fn obeys_eq_spec() -> bool {
        true
    }

    open spec fn eq_spec(&self, other: &Self) -> bool {
        self@.id == other@.id
    }
}

/// The mathematical content of a supplier.
pub struct SupplierV {
    pub id: Seq<char>,
    pub name: Seq<char>,
}

/// A vendor that supplies one or more supplies.
#[derive(Debug)]
pub struct Supplier {
    id: SupplierId,
    name: SupplierName,
}

impl View for Supplier {
    type V = SupplierV;

    closed spec fn view(&self) -> SupplierV {
        SupplierV { id: self.id@, name: self.name@ }
    }
}

impl Supplier {
    /// Assembles a supplier from already-validated value objects.
    pub fn restore(id: SupplierId, name: SupplierName) -> (r: Self)
        ensures
            r@.id == id@,
            r@.name == name@,
    {
        Supplier { id, name }
    }

    /// The identifier.
    pub fn id(&self) -> (r: &SupplierId)
        ensures
            r@ == self@.id,
    {
        &self.id
    }

    /// The display name.
    pub fn name(&self) -> (r: &SupplierName)
        ensures
            r@ == self@.name,
    {
        &self.name
    }

    /// Replaces the display name wholesale.
    pub fn rename(&mut self, name: SupplierName)
        ensures
            final(self)@ == (SupplierV { name: name@, ..old(self)@ }),
    {
        self.name = name;
    }
}

impl Clone for Supplier {
    fn clone(&self) -> (r: Self)
        ensures
            r@ == self@,
    {
        Supplier { id: self.id.clone(), name: self.name.clone() }
    }
}

impl PartialEq for Supplier {
    fn eq(&self, other: &Self) -> (r: bool) {
        self.id == other.id
    }
}

impl vstd::std_specs::cmp::PartialEqSpecImpl for Supplier {
    open spec fn obeys_eq_spec() -> bool {
        true
    }

    open spec fn eq_spec(&self, other: &Self) -> bool {
        self@.id == other@.id
    }
}

/// The mathematical content of a journal entry.
pub struct JournalV {
    pub id: Seq<char>,
    pub entry_datetime: i64,
    pub records: Seq<JournalRecordV>,
}

/// A dated purchase transaction carrying denormalized line records.
#[derive(Debug)]
pub struct Journal {
    id: JournalId,
    entry_datetime: EntryDateTime,
    records: Vec<JournalRecord>,
}

impl View for Journal {
    type V = JournalV;

    closed spec fn view(&self) -> JournalV {
        JournalV {
            id: self.id@,
            entry_datetime: self.entry_datetime@,
            records: self.records@.map_values(|r: JournalRecord| r@),
        }
    }
}

impl Journal {
    /// Assembles a journal from already-validated parts.
    pub fn restore(id: JournalId, entry_datetime: EntryDateTime, records: Vec<JournalRecord>) -> (r:
        Self)
        ensures
            r@.id == id@,
            r@.entry_datetime == entry_datetime@,
            r@.records == records@.map_values(|rec: JournalRecord| rec@),
    {
        Journal { id, entry_datetime, records }
    }

    /// The identifier.
    pub fn id(&self) -> (r: &JournalId)
        ensures
            r@ == self@.id,
    {
        &self.id
    }

    /// The moment the purchase was recorded.
    pub fn entry_datetime(&self) -> (r: &EntryDateTime)
        ensures
            r@ == self@.entry_datetime,
    {
        &self.entry_datetime
    }

    /// The line records, in insertion order.
    pub fn records(&self) -> (r: &Vec<JournalRecord>)
        ensures
            r@.map_values(|rec: JournalRecord| rec@) == self@.records,
    {
        &self.records
    }

    /// Replaces the whole record collection; callers pass the complete
    /// desired list, not a delta.
    pub fn swap_records(&mut self, records: Vec<JournalRecord>)
        ensures
            final(self)@ == (JournalV {
                records: records@.map_values(|rec: JournalRecord| rec@),
                ..old(self)@
            }),
    {
        self.records = records;
    }
}

impl Clone for Journal {
    fn clone(&self) -> (r: Self)
        ensures
            r@ == self@,
    {
        let records = self.records.clone();
        proof {
            assert(records@.map_values(|rec: JournalRecord| rec@) =~= self.records@.map_values(
                |rec: JournalRecord| rec@,
            ));
        }
        Journal { id: self.id.clone(), entry_datetime: self.entry_datetime, records }
    }
}

impl PartialEq for Journal {
    fn eq(&self, other: &Self) -> (r: bool) {
        self.id == other.id
    }
}

impl vstd::std_specs::cmp::PartialEqSpecImpl for Journal {
    open spec fn obeys_eq_spec() -> bool {
        true
    }

    open spec fn eq_spec(&self, other: &Self) -> bool {
        self@.id == other@.id
    }
}

/// The mathematical content of a stocktaking entry.
pub struct StocktakingV {
    pub id: Seq<char>,
    pub stocktaken_datetime: i64,
    pub records: Seq<StocktakingRecordV>,
}

/// A dated physical inventory count carrying line records.
#[derive(Debug)]
pub struct Stocktaking {
    id: StocktakingId,
    stocktaken_datetime: StocktakenDateTime,
    records: Vec<StocktakingRecord>,
}

impl View for Stocktaking {
    type V = StocktakingV;

    closed spec fn view(&self) -> StocktakingV {
        StocktakingV {
            id: self.id@,
            stocktaken_datetime: self.stocktaken_datetime@,
            records: self.records@.map_values(|r: StocktakingRecord| r@),
        }
    }
}

impl Stocktaking {
    /// Assembles a stocktaking from already-validated parts.
    pub fn restore(
        id: StocktakingId,
        stocktaken_datetime: StocktakenDateTime,
        records: Vec<StocktakingRecord>,
    ) -> (r: Self)
        ensures
            r@.id == id@,
            r@.stocktaken_datetime == stocktaken_datetime@,
            r@.records == records@.map_values(|rec: StocktakingRecord| rec@),
    {
        Stocktaking { id, stocktaken_datetime, records }
    }

    /// The identifier.
    pub fn id(&self) -> (r: &StocktakingId)
        ensures
            r@ == self@.id,
    {
        &self.id
    }

    /// The moment the count was taken.
    pub fn stocktaken_at(&self) -> (r: &StocktakenDateTime)
        ensures
            r@ == self@.stocktaken_datetime,
    {
        &self.stocktaken_datetime
    }

    /// The line records, in insertion order.
    pub fn records(&self) -> (r: &Vec<StocktakingRecord>)
        ensures
            r@.map_values(|rec: StocktakingRecord| rec@) == self@.records,
    {
        &self.records
    }

    /// Replaces the whole record collection; callers pass the complete
    /// desired list, not a delta.
    pub fn swap_records(&mut self, records: Vec<StocktakingRecord>)
        ensures
            final(self)@ == (StocktakingV {
                records: records@.map_values(|rec: StocktakingRecord| rec@),
                ..old(self)@
            }),
    {
        self.records = records;
    }
}

impl Clone for Stocktaking {
    fn clone(&self) -> (r: Self)
        ensures
            r@ == self@,
    {
        let records = self.records.clone();
        proof {
            assert(records@.map_values(|rec: StocktakingRecord| rec@) =~= self.records@.map_values(
                |rec: StocktakingRecord| rec@,
            ));
        }
        Stocktaking { id: self.id.clone(), stocktaken_datetime: self.stocktaken_datetime, records }
    }
}

impl PartialEq for Stocktaking {
    fn eq(&self, other: &Self) -> (r: bool) {
        self.id == other.id
    }
}

impl vstd::std_specs::cmp::PartialEqSpecImpl for Stocktaking {
    open spec fn obeys_eq_spec() -> bool {
        true
    }

    open spec fn eq_spec(&self, other: &Self) -> bool {
        self@.id == other@.id
    }
}

} // verus!
