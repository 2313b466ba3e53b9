//! The plain data carried across the service boundary: output DTOs and the
//! command / query structs the use-case services accept.
//!
//! Each output DTO views as the same mathematical value as the entity it
//! mirrors, so contracts can relate the two directly.

use vstd::prelude::*;

use crate::entities::{Journal, JournalV, Stocktaking, StocktakingV, Supplier, SupplierV, Supply,
    SupplyV};
use crate::values::{JournalRecord, JournalRecordV, StocktakingRecord, StocktakingRecordV};

verus! {

/// The view of an optional string: the text when present.
pub open spec fn opt_text(o: Option<String>) -> Option<Seq<char>> {
    match o {
        Some(s) => Some(s@),
        None => None,
    }
}

/// How the services normalize a raw optional filter before handing it to a
/// repository: a filter that is absent or trims to nothing matches
/// everything, any other filter is applied in its trimmed form. Treating a
/// blank filter as absent, rather than rejecting the search, is a
/// deliberate choice; every search contract below states it.
pub open spec fn eff_filter(o: Option<Seq<char>>) -> Option<Seq<char>> {
    match o {
        Some(s) => if crate::values::some_ink(s) {
            Some(crate::text::trimmed(s))
        } else {
            None
        },
        None => None,
    }
}

/// A supply as handed to the boundary.
#[derive(Debug, Clone, PartialEq, Eq)]
pub struct SupplyDTO {
    pub id: String,
    pub name: String,
    pub unit_name: String,
    pub supplier_id: String,
}

impl View for SupplyDTO {
    type V = SupplyV;

    open spec fn view(&self) -> SupplyV {
        SupplyV {
            id: self.id@,
            name: self.name@,
            unit_name: self.unit_name@,
            supplier_id: self.supplier_id@,
        }
    }
}

/// A supplier as handed to the boundary.
#[derive(Debug, Clone, PartialEq, Eq)]
pub struct SupplierDTO {
    pub id: String,
    pub name: String,
}

impl View for SupplierDTO {
    type V = SupplierV;

    open spec fn view(&self) -> SupplierV {
        SupplierV { id: self.id@, name: self.name@ }
    }
}

/// A journal line record as handed to or taken from the boundary.
#[derive(Debug, Clone, PartialEq, Eq)]
pub struct JournalRecordDTO {
    pub supply_id: String,
    pub supply_name: String,
    pub supplier_id: String,
    pub supplier_name: String,
    pub unit_name: String,
    pub unit_price: u32,
    pub quantity: u32,
}

impl View for JournalRecordDTO {
    type V = JournalRecordV;

    open spec fn view(&self) -> JournalRecordV {
        JournalRecordV {
            supply_id: self.supply_id@,
            supply_name: self.supply_name@,
            supplier_id: self.supplier_id@,
            supplier_name: self.supplier_name@,
            unit_name: self.unit_name@,
            unit_price: self.unit_price,
            quantity: self.quantity,
        }
    }
}

/// A journal as handed to the boundary.
#[derive(Debug, Clone, PartialEq, Eq)]
pub struct JournalDTO {
    pub id: String,
    pub entry_date: i64,
    pub records: Vec<JournalRecordDTO>,
}

impl View for JournalDTO {
    type V = JournalV;

    open spec fn view(&self) -> JournalV {
        JournalV {
            id: self.id@,
            entry_datetime: self.entry_date,
            records: self.records@.map_values(|r: JournalRecordDTO| r@),
        }
    }
}

/// A stocktaking line record as handed to or taken from the boundary.
#[derive(Debug, Clone, PartialEq, Eq)]
pub struct StocktakingRecordDTO {
    pub supply_id: String,
    pub supply_name: String,
    pub unit_name: String,
    pub unit_price: u32,
    pub quantity: u32,
}

impl View for StocktakingRecordDTO {
    type V = StocktakingRecordV;

    open spec fn view(&self) -> StocktakingRecordV {
        StocktakingRecordV {
            supply_id: self.supply_id@,
            supply_name: self.supply_name@,
            unit_name: self.unit_name@,
            unit_price: self.unit_price,
            quantity: self.quantity,
        }
    }
}

/// A stocktaking as handed to the boundary.
#[derive(Debug, Clone, PartialEq, Eq)]
pub struct StocktakingDTO {
    pub id: String,
    pub stocktaken_date: i64,
    pub records: Vec<StocktakingRecordDTO>,
}

impl View for StocktakingDTO {
    type V = StocktakingV;

    open spec fn view(&self) -> StocktakingV {
        StocktakingV {
            id: self.id@,
            stocktaken_datetime: self.stocktaken_date,
            records: self.records@.map_values(|r: StocktakingRecordDTO| r@),
        }
    }
}

/// Asks for one supply by identifier.
#[derive(Debug, Clone, PartialEq, Eq)]
pub struct GetSupplyQuery {
    pub supply_id: String,
}

/// Filters supplies by substrings of the supply name and of the owning
/// supplier's name; an absent filter matches everything.
#[derive(Debug, Clone, PartialEq, Eq)]
pub struct SearchSuppliesQuery {
    pub supply_name: Option<String>,
    pub supplier_name: Option<String>,
}

/// Asks to register a new supply under an existing supplier.
#[derive(Debug, Clone, PartialEq, Eq)]
pub struct CreateSupplyCommand {
    pub supply_name: String,
    pub unit_name: String,
    pub supplier_id: String,
}

/// Asks to replace the name, unit and supplier of an existing supply.
#[derive(Debug, Clone, PartialEq, Eq)]
pub struct UpdateSupplyCommand {
    pub supply_id: String,
    pub supply_name: String,
    pub unit_name: String,
    pub supplier_id: String,
}

/// Asks for one supplier by identifier.
#[derive(Debug, Clone, PartialEq, Eq)]
pub struct GetSupplierQuery {
    pub supplier_id: String,
}

/// Filters suppliers by a substring of their name, optionally narrowed to
/// suppliers having at least one supply whose name contains the second
/// substring.
#[derive(Debug, Clone, PartialEq, Eq)]
pub struct SearchSuppliersQuery {
    pub supplier_name: Option<String>,
    pub supply_name: Option<String>,
}

/// Asks to register a new supplier.
#[derive(Debug, Clone, PartialEq, Eq)]
pub struct RegisterSupplierCommand {
    pub supplier_name: String,
}

/// Asks to rename an existing supplier.
#[derive(Debug, Clone, PartialEq, Eq)]
pub struct UpdateSupplierCommand {
    pub supplier_id: String,
    pub supplier_name: String,
}

/// Asks for one stocktaking by identifier.
#[derive(Debug, Clone, PartialEq, Eq)]
pub struct GetStocktakingQuery {
    pub stocktaking_id: String,
}

/// Filters stocktakings by an inclusive timestamp window; an absent bound
/// is no bound.
#[derive(Debug, Clone, PartialEq, Eq)]
pub struct SearchStocktakingQuery {
    pub period_start: Option<i64>,
    pub period_end: Option<i64>,
}

/// Asks to record a new stocktaking with its complete line list.
#[derive(Debug, Clone, PartialEq, Eq)]
pub struct RecordStocktakingCommand {
    pub stocktaken_date: i64,
    pub records: Vec<StocktakingRecordDTO>,
}

/// Asks to replace the whole line list of an existing stocktaking.
#[derive(Debug, Clone, PartialEq, Eq)]
pub struct EditStocktakingCommand {
    pub stocktaking_id: String,
    pub stocktaken_date: i64,
    pub records: Vec<StocktakingRecordDTO>,
}

/// Asks for one journal by identifier.
#[derive(Debug, Clone, PartialEq, Eq)]
pub struct GetJournalQuery {
    pub journal_id: String,
}

/// Filters journals by an inclusive timestamp window and by substrings of
/// the supply and supplier names carried on the line records; an absent
/// filter matches everything.
#[derive(Debug, Clone, PartialEq, Eq)]
pub struct SearchJournalsQuery {
    pub period_start: Option<i64>,
    pub period_end: Option<i64>,
    pub supplier_name: Option<String>,
    pub supply_name: Option<String>,
}

/// Asks to record a new journal with its complete line list.
#[derive(Debug, Clone, PartialEq, Eq)]
pub struct RecordJournalCommand {
    pub entry_date: i64,
    pub records: Vec<JournalRecordDTO>,
}

/// Asks to replace the whole line list of an existing journal.
#[derive(Debug, Clone, PartialEq, Eq)]
pub struct EditJournalCommand {
    pub journal_id: String,
    pub entry_date: i64,
    pub records: Vec<JournalRecordDTO>,
}

/// The views of a sequence of supply DTOs.
pub open spec fn supply_dto_views(v: Seq<SupplyDTO>) -> Seq<SupplyV> {
    v.map_values(|d: SupplyDTO| d@)
}

/// The views of a sequence of supplier DTOs.
pub open spec fn supplier_dto_views(v: Seq<SupplierDTO>) -> Seq<SupplierV> {
    v.map_values(|d: SupplierDTO| d@)
}

/// The views of a sequence of journal DTOs.
pub open spec fn journal_dto_views(v: Seq<JournalDTO>) -> Seq<JournalV> {
    v.map_values(|d: JournalDTO| d@)
}

/// The views of a sequence of stocktaking DTOs.
pub open spec fn stocktaking_dto_views(v: Seq<StocktakingDTO>) -> Seq<StocktakingV> {
    v.map_values(|d: StocktakingDTO| d@)
}

/// The views of a sequence of journal line record DTOs.
pub open spec fn journal_record_dto_views(v: Seq<JournalRecordDTO>) -> Seq<JournalRecordV> {
    v.map_values(|d: JournalRecordDTO| d@)
}

/// The views of a sequence of stocktaking line record DTOs.
pub open spec fn stocktaking_record_dto_views(v: Seq<StocktakingRecordDTO>) -> Seq<
    StocktakingRecordV,
> {
    v.map_values(|d: StocktakingRecordDTO| d@)
}

/// Renders a supply as its boundary DTO.
pub fn supply_to_dto(s: &Supply) -> (r: SupplyDTO)
    ensures
        r@ == s@,
{
    SupplyDTO {
        id: String::from_str(s.id().as_str()),
        name: String::from_str(s.name().as_str()),
        unit_name: String::from_str(s.unit_name().as_str()),
        supplier_id: String::from_str(s.supplier_id().as_str()),
    }
}

/// Renders every supply of a list as its boundary DTO, keeping the order.
pub fn supplies_to_dtos(v: &Vec<Supply>) -> (r: Vec<SupplyDTO>)
    ensures
        supply_dto_views(r@) == crate::search::supply_views(v@),
{
    let mut r: Vec<SupplyDTO> = Vec::new();
    let mut i: usize = 0;
    proof {
        assert(supply_dto_views(r@) =~= crate::search::supply_views(v@).take(0));
    }
    while i < v.len()
        invariant
            0 <= i <= v@.len(),
            supply_dto_views(r@) == crate::search::supply_views(v@).take(i as int),
        decreases v@.len() - i,
    {
        let d = supply_to_dto(&v[i]);
        let ghost before = r@;
        r.push(d);
        proof {
            assert(supply_dto_views(r@) =~= supply_dto_views(before).push(d@));
            assert(crate::search::supply_views(v@).take(i + 1)
                =~= crate::search::supply_views(v@).take(i as int).push(
                crate::search::supply_views(v@)[i as int],
            ));
            assert(d@ == crate::search::supply_views(v@)[i as int]);
        }
        i = i + 1;
    }
    proof {
        assert(crate::search::supply_views(v@).take(v@.len() as int) =~= crate::search::supply_views(
            v@,
        ));
    }
    r
}

/// Renders a supplier as its boundary DTO.
pub fn supplier_to_dto(s: &Supplier) -> (r: SupplierDTO)
    ensures
        r@ == s@,
{
    SupplierDTO { id: String::from_str(s.id().as_str()), name: String::from_str(s.name().as_str()) }
}

/// Renders every supplier of a list as its boundary DTO, keeping the order.
pub fn suppliers_to_dtos(v: &Vec<Supplier>) -> (r: Vec<SupplierDTO>)
    ensures
        supplier_dto_views(r@) == crate::search::supplier_views(v@),
{
    let mut r: Vec<SupplierDTO> = Vec::new();
    let mut i: usize = 0;
    proof {
        assert(supplier_dto_views(r@) =~= crate::search::supplier_views(v@).take(0));
    }
    while i < v.len()
        invariant
            0 <= i <= v@.len(),
            supplier_dto_views(r@) == crate::search::supplier_views(v@).take(i as int),
        decreases v@.len() - i,
    {
        let d = supplier_to_dto(&v[i]);
        let ghost before = r@;
        r.push(d);
        proof {
            assert(supplier_dto_views(r@) =~= supplier_dto_views(before).push(d@));
            assert(crate::search::supplier_views(v@).take(i + 1)
                =~= crate::search::supplier_views(v@).take(i as int).push(
                crate::search::supplier_views(v@)[i as int],
            ));
            assert(d@ == crate::search::supplier_views(v@)[i as int]);
        }
        i = i + 1;
    }
    proof {
        assert(crate::search::supplier_views(v@).take(v@.len() as int)
            =~= crate::search::supplier_views(v@));
    }
    r
}

/// Renders a journal line record as its boundary DTO.
pub fn journal_record_to_dto(rec: &JournalRecord) -> (r: JournalRecordDTO)
    ensures
        r@ == rec@,
{
    JournalRecordDTO {
        supply_id: String::from_str(rec.supply_id().as_str()),
        supply_name: String::from_str(rec.supply_name().as_str()),
        supplier_id: String::from_str(rec.supplier_id().as_str()),
        supplier_name: String::from_str(rec.supplier_name().as_str()),
        unit_name: String::from_str(rec.unit_name().as_str()),
        unit_price: rec.unit_price().as_u32(),
        quantity: rec.quantity().as_u32(),
    }
}

/// Renders a journal as its boundary DTO.
pub fn journal_to_dto(j: &Journal) -> (r: JournalDTO)
    ensures
        r@ == j@,
{
    let recs = j.records();
    let mut records: Vec<JournalRecordDTO> = Vec::new();
    let mut i: usize = 0;
    proof {
        assert(journal_record_dto_views(records@) =~= j@.records.take(0));
    }
    while i < recs.len()
        invariant
            0 <= i <= recs@.len(),
            recs@.map_values(|rec: JournalRecord| rec@) == j@.records,
            journal_record_dto_views(records@) == j@.records.take(i as int),
        decreases recs@.len() - i,
    {
        let d = journal_record_to_dto(&recs[i]);
        let ghost before = records@;
        records.push(d);
        proof {
            assert(journal_record_dto_views(records@) =~= journal_record_dto_views(before).push(
                d@,
            ));
            assert(j@.records.take(i + 1) =~= j@.records.take(i as int).push(j@.records[i as int]));
            assert(d@ == recs@.map_values(|rec: JournalRecord| rec@)[i as int]);
        }
        i = i + 1;
    }
    let r = JournalDTO {
        id: String::from_str(j.id().as_str()),
        entry_date: j.entry_datetime().as_i64(),
        records,
    };
    proof {
        assert(j@.records.take(j@.records.len() as int) =~= j@.records);
        assert(r@.records =~= j@.records);
    }
    r
}

/// Renders every journal of a list as its boundary DTO, keeping the order.
pub fn journals_to_dtos(v: &Vec<Journal>) -> (r: Vec<JournalDTO>)
    ensures
        journal_dto_views(r@) == crate::search::journal_views(v@),
{
    let mut r: Vec<JournalDTO> = Vec::new();
    let mut i: usize = 0;
    proof {
        assert(journal_dto_views(r@) =~= crate::search::journal_views(v@).take(0));
    }
    while i < v.len()
        invariant
            0 <= i <= v@.len(),
            journal_dto_views(r@) == crate::search::journal_views(v@).take(i as int),
        decreases v@.len() - i,
    {
        let d = journal_to_dto(&v[i]);
        let ghost before = r@;
        r.push(d);
        proof {
            assert(journal_dto_views(r@) =~= journal_dto_views(before).push(d@));
            assert(crate::search::journal_views(v@).take(i + 1)
                =~= crate::search::journal_views(v@).take(i as int).push(
                crate::search::journal_views(v@)[i as int],
            ));
            assert(d@ == crate::search::journal_views(v@)[i as int]);
        }
        i = i + 1;
    }
    proof {
        assert(crate::search::journal_views(v@).take(v@.len() as int)
            =~= crate::search::journal_views(v@));
    }
    r
}

/// Renders a stocktaking line record as its boundary DTO.
pub fn stocktaking_record_to_dto(rec: &StocktakingRecord) -> (r: StocktakingRecordDTO)
    ensures
        r@ == rec@,
{
    StocktakingRecordDTO {
        supply_id: String::from_str(rec.supply_id().as_str()),
        supply_name: String::from_str(rec.supply_name().as_str()),
        unit_name: String::from_str(rec.unit_name().as_str()),
        unit_price: rec.unit_price().as_u32(),
        quantity: rec.quantity().as_u32(),
    }
}

/// Renders a stocktaking as its boundary DTO.
pub fn stocktaking_to_dto(t: &Stocktaking) -> (r: StocktakingDTO)
    ensures
        r@ == t@,
{
    let recs = t.records();
    let mut records: Vec<StocktakingRecordDTO> = Vec::new();
    let mut i: usize = 0;
    proof {
        assert(stocktaking_record_dto_views(records@) =~= t@.records.take(0));
    }
    while i < recs.len()
        invariant
            0 <= i <= recs@.len(),
            recs@.map_values(|rec: StocktakingRecord| rec@) == t@.records,
            stocktaking_record_dto_views(records@) == t@.records.take(i as int),
        decreases recs@.len() - i,
    {
        let d = stocktaking_record_to_dto(&recs[i]);
        let ghost before = records@;
        records.push(d);
        proof {
            assert(stocktaking_record_dto_views(records@) =~= stocktaking_record_dto_views(
                before,
            ).push(d@));
            assert(t@.records.take(i + 1) =~= t@.records.take(i as int).push(t@.records[i as int]));
            assert(d@ == recs@.map_values(|rec: StocktakingRecord| rec@)[i as int]);
        }
        i = i + 1;
    }
    let r = StocktakingDTO {
        id: String::from_str(t.id().as_str()),
        stocktaken_date: t.stocktaken_at().as_i64(),
        records,
    };
    proof {
        assert(t@.records.take(t@.records.len() as int) =~= t@.records);
        assert(r@.records =~= t@.records);
    }
    r
}

/// Renders every stocktaking of a list as its boundary DTO, keeping the
/// order.
pub fn stocktakings_to_dtos(v: &Vec<Stocktaking>) -> (r: Vec<StocktakingDTO>)
    ensures
        stocktaking_dto_views(r@) == crate::search::stocktaking_views(v@),
{
    let mut r: Vec<StocktakingDTO> = Vec::new();
    let mut i: usize = 0;
    proof {
        assert(stocktaking_dto_views(r@) =~= crate::search::stocktaking_views(v@).take(0));
    }
    while i < v.len()
        invariant
            0 <= i <= v@.len(),
            stocktaking_dto_views(r@) == crate::search::stocktaking_views(v@).take(i as int),
        decreases v@.len() - i,
    {
        let d = stocktaking_to_dto(&v[i]);
        let ghost before = r@;
        r.push(d);
        proof {
            assert(stocktaking_dto_views(r@) =~= stocktaking_dto_views(before).push(d@));
            assert(crate::search::stocktaking_views(v@).take(i + 1)
                =~= crate::search::stocktaking_views(v@).take(i as int).push(
                crate::search::stocktaking_views(v@)[i as int],
            ));
            assert(d@ == crate::search::stocktaking_views(v@)[i as int]);
        }
        i = i + 1;
    }
    proof {
        assert(crate::search::stocktaking_views(v@).take(v@.len() as int)
            =~= crate::search::stocktaking_views(v@));
    }
    r
}

} // verus!
