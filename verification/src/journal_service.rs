//! The journal use-case service: listing, lookup, search, recording and
//! editing of purchase transactions. Recording and editing check that every
//! referenced supply and supplier exists before anything is written.

use vstd::prelude::*;

use crate::dto::{
    EditJournalCommand, GetJournalQuery, JournalDTO, JournalRecordDTO, RecordJournalCommand,
    SearchJournalsQuery, eff_filter, journal_dto_views, journal_record_dto_views, journal_to_dto,
    journals_to_dtos, opt_text,
};
use crate::entities::{Journal, JournalV, SupplierV, SupplyV};
use crate::error::Error;
use crate::ports::{
    ForJournalPersistence, ForSupplierPersistence, ForSupplyPersistence, has_journal_id,
    has_supplier_id, has_supply_id,
};
use crate::queries::{FindJournalsQuery, FindJournalsQueryV};
use crate::search::{journal_date_le, journal_matches};
use crate::text::{dec_of, trimmed};
use crate::values::{
    EntryDateTime, JournalId, JournalRecord, JournalRecordV, PurchaseQuantity, PurchaseUnitPrice,
    SupplierId, SupplierName, SupplyId, SupplyName, UnitName, some_ink,
};
use vstd::relations::sorted_by;

verus! {

/// The stored form of one raw journal line: every textual field trimmed,
/// the numeric fields as given.
pub open spec fn journal_row_value(r: JournalRecordV) -> JournalRecordV {
    JournalRecordV {
        supply_id: trimmed(r.supply_id),
        supply_name: trimmed(r.supply_name),
        supplier_id: trimmed(r.supplier_id),
        supplier_name: trimmed(r.supplier_name),
        unit_name: trimmed(r.unit_name),
        unit_price: r.unit_price,
        quantity: r.quantity,
    }
}

/// The stored form of a whole raw line list.
pub open spec fn journal_rows_value(rs: Seq<JournalRecordV>) -> Seq<JournalRecordV> {
    rs.map_values(|r: JournalRecordV| journal_row_value(r))
}

/// Whether one raw line is valid: every textual field carries ink and the
/// unit price is positive.
pub open spec fn journal_row_ok(r: JournalRecordV) -> bool {
    &&& some_ink(r.supply_id)
    &&& some_ink(r.supply_name)
    &&& some_ink(r.supplier_id)
    &&& some_ink(r.supplier_name)
    &&& some_ink(r.unit_name)
    &&& r.unit_price > 0
}

/// Whether every raw line of a list is valid.
pub open spec fn journal_rows_ok(rs: Seq<JournalRecordV>) -> bool {
    forall|i: int| 0 <= i < rs.len() ==> journal_row_ok(#[trigger] rs[i])
}

/// Whether every supply referenced by a raw line list exists.
pub open spec fn journal_supply_refs_ok(rs: Seq<JournalRecordV>, supplies: Seq<SupplyV>) -> bool {
    forall|i: int|
        0 <= i < rs.len() ==> has_supply_id(supplies, trimmed((#[trigger] rs[i]).supply_id))
}

/// Whether every supplier referenced by a raw line list exists.
pub open spec fn journal_supplier_refs_ok(
    rs: Seq<JournalRecordV>,
    suppliers: Seq<SupplierV>,
) -> bool {
    forall|i: int|
        0 <= i < rs.len() ==> has_supplier_id(suppliers, trimmed((#[trigger] rs[i]).supplier_id))
}

/// The domain-side conditions of recording: every line is valid and every
/// referenced supply and supplier exists.
pub open spec fn record_journal_valid(
    supplies: Seq<SupplyV>,
    suppliers: Seq<SupplierV>,
    c: RecordJournalCommand,
) -> bool {
    &&& journal_rows_ok(journal_record_dto_views(c.records@))
    &&& journal_supply_refs_ok(journal_record_dto_views(c.records@), supplies)
    &&& journal_supplier_refs_ok(journal_record_dto_views(c.records@), suppliers)
}

/// Recording succeeds exactly when every line is valid, every referenced
/// supply and supplier exists, the identifier counter is not exhausted,
/// and the counter's next value is still free.
pub open spec fn record_journal_ok(
    journals: Seq<JournalV>,
    supplies: Seq<SupplyV>,
    suppliers: Seq<SupplierV>,
    counter: nat,
    c: RecordJournalCommand,
) -> bool {
    &&& record_journal_valid(supplies, suppliers, c)
    &&& counter < usize::MAX
    &&& !has_journal_id(journals, dec_of(counter as int + 1))
}

/// Editing succeeds exactly when the identifier carries ink and resolves,
/// every line is valid, and every referenced supply and supplier exists.
pub open spec fn edit_journal_ok(
    journals: Seq<JournalV>,
    supplies: Seq<SupplyV>,
    suppliers: Seq<SupplierV>,
    c: EditJournalCommand,
) -> bool {
    &&& some_ink(c.journal_id@)
    &&& has_journal_id(journals, trimmed(c.journal_id@))
    &&& journal_rows_ok(journal_record_dto_views(c.records@))
    &&& journal_supply_refs_ok(journal_record_dto_views(c.records@), supplies)
    &&& journal_supplier_refs_ok(journal_record_dto_views(c.records@), suppliers)
}

/// Builds the validated supply identifiers referenced by the raw lines;
/// fails on the first identifier without ink.
fn journal_supply_ids(rows: &Vec<JournalRecordDTO>) -> (r: Result<Vec<SupplyId>, Error>)
    ensures
        match r {
            Ok(ids) => {
                &&& ids@.len() == rows@.len()
                &&& forall|i: int|
                    0 <= i < rows@.len() ==> (#[trigger] ids@[i])@ == trimmed(
                        journal_record_dto_views(rows@)[i].supply_id,
                    )
            },
            Err(e) => !journal_rows_ok(journal_record_dto_views(rows@)) && e is DomainError,
        },
{
    let mut ids: Vec<SupplyId> = Vec::new();
    let mut i: usize = 0;
    while i < rows.len()
        invariant
            0 <= i <= rows@.len(),
            ids@.len() == i,
            forall|k: int|
                0 <= k < i ==> (#[trigger] ids@[k])@ == trimmed(
                    journal_record_dto_views(rows@)[k].supply_id,
                ),
        decreases rows@.len() - i,
    {
        match SupplyId::new(rows[i].supply_id.as_str()) {
            Ok(id) => {
                ids.push(id);
            },
            Err(e) => {
                proof {
                    assert(!journal_row_ok(journal_record_dto_views(rows@)[i as int]));
                }
                return Err(e);
            },
        }
        i = i + 1;
    }
    Ok(ids)
}

/// Builds the validated supplier identifiers referenced by the raw lines;
/// fails on the first identifier without ink.
fn journal_supplier_ids(rows: &Vec<JournalRecordDTO>) -> (r: Result<Vec<SupplierId>, Error>)
    ensures
        match r {
            Ok(ids) => {
                &&& ids@.len() == rows@.len()
                &&& forall|i: int|
                    0 <= i < rows@.len() ==> (#[trigger] ids@[i])@ == trimmed(
                        journal_record_dto_views(rows@)[i].supplier_id,
                    )
            },
            Err(e) => !journal_rows_ok(journal_record_dto_views(rows@)) && e is DomainError,
        },
{
    let mut ids: Vec<SupplierId> = Vec::new();
    let mut i: usize = 0;
    while i < rows.len()
        invariant
            0 <= i <= rows@.len(),
            ids@.len() == i,
            forall|k: int|
                0 <= k < i ==> (#[trigger] ids@[k])@ == trimmed(
                    journal_record_dto_views(rows@)[k].supplier_id,
                ),
        decreases rows@.len() - i,
    {
        match SupplierId::new(rows[i].supplier_id.as_str()) {
            Ok(id) => {
                ids.push(id);
            },
            Err(e) => {
                proof {
                    assert(!journal_row_ok(journal_record_dto_views(rows@)[i as int]));
                }
                return Err(e);
            },
        }
        i = i + 1;
    }
    Ok(ids)
}

/// Builds the validated line records from the raw lines; fails on the first
/// invalid field.
fn build_journal_records(rows: &Vec<JournalRecordDTO>) -> (r: Result<Vec<JournalRecord>, Error>)
    ensures
        match r {
            Ok(v) => {
                &&& journal_rows_ok(journal_record_dto_views(rows@))
                &&& v@.map_values(|rec: JournalRecord| rec@) == journal_rows_value(
                    journal_record_dto_views(rows@),
                )
            },
            Err(e) => !journal_rows_ok(journal_record_dto_views(rows@)) && e is DomainError,
        },
{
    let ghost dviews = journal_record_dto_views(rows@);
    let mut out: Vec<JournalRecord> = Vec::new();
    let mut i: usize = 0;
    proof {
        assert(out@.map_values(|rec: JournalRecord| rec@) =~= journal_rows_value(dviews.take(0)));
    }
    while i < rows.len()
        invariant
            0 <= i <= rows@.len(),
            dviews == journal_record_dto_views(rows@),
            out@.map_values(|rec: JournalRecord| rec@) == journal_rows_value(dviews.take(i as int)),
            forall|k: int| 0 <= k < i ==> journal_row_ok(#[trigger] dviews[k]),
        decreases rows@.len() - i,
    {
        let supply_id = match SupplyId::new(rows[i].supply_id.as_str()) {
            Ok(v) => v,
            Err(e) => {
                proof {
                    assert(!journal_row_ok(dviews[i as int]));
                }
                return Err(e);
            },
        };
        let supply_name = match SupplyName::new(rows[i].supply_name.as_str()) {
            Ok(v) => v,
            Err(e) => {
                proof {
                    assert(!journal_row_ok(dviews[i as int]));
                }
                return Err(e);
            },
        };
        let supplier_id = match SupplierId::new(rows[i].supplier_id.as_str()) {
            Ok(v) => v,
            Err(e) => {
                proof {
                    assert(!journal_row_ok(dviews[i as int]));
                }
                return Err(e);
            },
        };
        let supplier_name = match SupplierName::new(rows[i].supplier_name.as_str()) {
            Ok(v) => v,
            Err(e) => {
                proof {
                    assert(!journal_row_ok(dviews[i as int]));
                }
                return Err(e);
            },
        };
        let unit_name = match UnitName::new(rows[i].unit_name.as_str()) {
            Ok(v) => v,
            Err(e) => {
                proof {
                    assert(!journal_row_ok(dviews[i as int]));
                }
                return Err(e);
            },
        };
        let unit_price = match PurchaseUnitPrice::new(rows[i].unit_price) {
            Ok(v) => v,
            Err(e) => {
                proof {
                    assert(!journal_row_ok(dviews[i as int]));
                }
                return Err(e);
            },
        };
        let quantity = match PurchaseQuantity::new(rows[i].quantity) {
            Ok(v) => v,
            Err(e) => {
                return Err(e);
            },
        };
        let rec = JournalRecord::new(
            supply_id,
            supply_name,
            supplier_id,
            supplier_name,
            unit_name,
            unit_price,
            quantity,
        );
        let ghost before = out@;
        out.push(rec);
        proof {
            assert(out@.map_values(|rec2: JournalRecord| rec2@) =~= before.map_values(
                |rec2: JournalRecord| rec2@,
            ).push(rec@));
            assert(journal_rows_value(dviews.take(i + 1)) =~= journal_rows_value(
                dviews.take(i as int),
            ).push(journal_row_value(dviews[i as int])));
            assert(rec@ == journal_row_value(dviews[i as int]));
        }
        i = i + 1;
    }
    proof {
        assert(dviews.take(rows@.len() as int) =~= dviews);
    }
    Ok(out)
}

/// The journal use-case service over any supply, supplier and journal
/// persistence ports.
pub struct JournalService<
    SR: ForSupplyPersistence,
    PR: ForSupplierPersistence,
    JR: ForJournalPersistence,
> {
    pub supply_repository: SR,
    pub supplier_repository: PR,
    pub journal_repository: JR,
}

impl<
    SR: ForSupplyPersistence,
    PR: ForSupplierPersistence,
    JR: ForJournalPersistence,
> JournalService<SR, PR, JR> {
    /// Whether all three repositories' behaviour is tied to their models.
    pub open spec fn obeys(&self) -> bool {
        self.supply_repository.obeys_model() && self.supplier_repository.obeys_model()
            && self.journal_repository.obeys_model()
    }

    /// The journals currently stored.
    pub open spec fn journals_m(&self) -> Seq<JournalV> {
        self.journal_repository.journals()
    }

    /// The supplies currently stored.
    pub open spec fn supplies_m(&self) -> Seq<SupplyV> {
        self.supply_repository.supplies()
    }

    /// The suppliers currently stored.
    pub open spec fn suppliers_m(&self) -> Seq<SupplierV> {
        self.supplier_repository.suppliers()
    }

    /// Wires the service to its repositories.
    pub fn new(supply_repository: SR, supplier_repository: PR, journal_repository: JR) -> (r: Self)
        ensures
            r.supply_repository == supply_repository,
            r.supplier_repository == supplier_repository,
            r.journal_repository == journal_repository,
    {
        JournalService { supply_repository, supplier_repository, journal_repository }
    }

    /// Every stored journal, as DTOs in storage order.
    pub fn list(&self) -> (r: Result<Vec<JournalDTO>, Error>)
        ensures
            self.obeys() ==> (r matches Ok(v) && journal_dto_views(v@) == self.journals_m()),
    {
        match self.journal_repository.list() {
            Ok(v) => Ok(journals_to_dtos(&v)),
            Err(e) => Err(e),
        }
    }

    /// The journal with the given identifier, when the identifier is valid
    /// and stored.
    pub fn get(&self, query: GetJournalQuery) -> (r: Result<Option<JournalDTO>, Error>)
        ensures
            !some_ink(query.journal_id@) ==> r is Err,
            self.obeys() ==> match r {
                Ok(Some(dto)) => some_ink(query.journal_id@) && dto@.id == trimmed(
                    query.journal_id@,
                ) && self.journals_m().contains(dto@),
                Ok(None) => some_ink(query.journal_id@) && !has_journal_id(
                    self.journals_m(),
                    trimmed(query.journal_id@),
                ),
                Err(e) => !some_ink(query.journal_id@) && e is DomainError,
            },
    {
        let id = match JournalId::new(query.journal_id.as_str()) {
            Ok(v) => v,
            Err(e) => {
                return Err(e);
            },
        };
        match self.journal_repository.get(&id) {
            Ok(Some(j)) => Ok(Some(journal_to_dto(&j))),
            Ok(None) => Ok(None),
            Err(e) => Err(e),
        }
    }

    /// The journals passing the search filters, as DTOs ordered by entry
    /// date ascending. A name filter that is absent or trims to nothing
    /// deliberately matches everything rather than failing the search; each
    /// active name filter must be contained in the corresponding
    /// snapshotted name of at least one line record.
    pub fn search(&self, query: SearchJournalsQuery) -> (r: Result<Vec<JournalDTO>, Error>)
        ensures
            self.obeys() ==> (r matches Ok(v) && {
                &&& journal_dto_views(v@).to_multiset() == self.journals_m().filter(
                    |j: JournalV|
                        journal_matches(
                            j,
                            FindJournalsQueryV {
                                period_start: query.period_start,
                                period_end: query.period_end,
                                supplier_name: eff_filter(opt_text(query.supplier_name)),
                                supply_name: eff_filter(opt_text(query.supply_name)),
                            },
                        ),
                ).to_multiset()
                &&& sorted_by(
                    journal_dto_views(v@),
                    |a: JournalV, b: JournalV| journal_date_le(a, b),
                )
            }),
    {
        let period_start = match &query.period_start {
            Some(v) => Some(EntryDateTime::new(*v)),
            None => None,
        };
        let period_end = match &query.period_end {
            Some(v) => Some(EntryDateTime::new(*v)),
            None => None,
        };
        let supplier_name = match &query.supplier_name {
            Some(s) => match SupplierName::new(s.as_str()) {
                Ok(v) => Some(v),
                Err(_) => None,
            },
            None => None,
        };
        let supply_name = match &query.supply_name {
            Some(s) => match SupplyName::new(s.as_str()) {
                Ok(v) => Some(v),
                Err(_) => None,
            },
            None => None,
        };
        let fq = FindJournalsQuery { period_start, period_end, supplier_name, supply_name };
        proof {
            assert(fq@ == FindJournalsQueryV {
                period_start: query.period_start,
                period_end: query.period_end,
                supplier_name: eff_filter(opt_text(query.supplier_name)),
                supply_name: eff_filter(opt_text(query.supply_name)),
            });
        }
        match self.journal_repository.find(&fq) {
            Ok(v) => Ok(journals_to_dtos(&v)),
            Err(e) => Err(e),
        }
    }

    /// Records a journal under the next free counter identifier after
    /// checking that every referenced supply and supplier exists; on any
    /// failure nothing is written.
    pub fn record(&mut self, command: RecordJournalCommand) -> (r: Result<JournalDTO, Error>)
        ensures
            !journal_rows_ok(journal_record_dto_views(command.records@)) ==> r is Err,
            r matches Ok(dto) ==> dto@.entry_datetime == command.entry_date && dto@.records
                == journal_rows_value(journal_record_dto_views(command.records@)),
            final(self).supply_repository == old(self).supply_repository,
            final(self).supplier_repository == old(self).supplier_repository,
            final(self).journal_repository.counter() >= old(self).journal_repository.counter(),
            old(self).obeys() ==> final(self).obeys(),
            old(self).obeys() ==> {
                &&& (r is Ok <==> record_journal_ok(
                    old(self).journals_m(),
                    old(self).supplies_m(),
                    old(self).suppliers_m(),
                    old(self).journal_repository.counter(),
                    command,
                ))
                &&& (r matches Ok(dto) ==> {
                    &&& dto@.id == dec_of(old(self).journal_repository.counter() as int + 1)
                    &&& dto@.entry_datetime == command.entry_date
                    &&& dto@.records == journal_rows_value(
                        journal_record_dto_views(command.records@),
                    )
                    &&& final(self).journals_m() == old(self).journals_m().push(dto@)
                    &&& final(self).journal_repository.counter() == old(
                        self,
                    ).journal_repository.counter() + 1
                })
                &&& (r is Err ==> final(self).journals_m() == old(self).journals_m())
                &&& (r matches Err(e) ==> (e is DomainError <==> !record_journal_valid(
                    old(self).supplies_m(),
                    old(self).suppliers_m(),
                    command,
                )))
            },
    {
        let supply_ids = match journal_supply_ids(&command.records) {
            Ok(v) => v,
            Err(e) => {
                return Err(e);
            },
        };
        match self.supply_repository.has(&supply_ids) {
            Ok(true) => {
                proof {
                    if old(self).obeys() {
                        assert forall|k: int|
                            0 <= k < journal_record_dto_views(command.records@).len()
                            implies has_supply_id(
                            old(self).supplies_m(),
                            trimmed(
                                (#[trigger] journal_record_dto_views(command.records@)[k]).supply_id,
                            ),
                        ) by {
                            assert(has_supply_id(old(self).supplies_m(), supply_ids@[k]@));
                        }
                    }
                }
            },
            Ok(false) => {
                proof {
                    if old(self).obeys() {
                        let k = choose|k: int|
                            0 <= k < supply_ids@.len() && !has_supply_id(
                                old(self).supplies_m(),
                                (#[trigger] supply_ids@[k])@,
                            );
                        assert(!has_supply_id(
                            old(self).supplies_m(),
                            trimmed(journal_record_dto_views(command.records@)[k].supply_id),
                        ));
                    }
                }
                return Err(Error::DomainError(String::from_str("supply does not exist.")));
            },
            Err(e) => {
                return Err(e);
            },
        }
        let supplier_ids = match journal_supplier_ids(&command.records) {
            Ok(v) => v,
            Err(e) => {
                return Err(e);
            },
        };
        match self.supplier_repository.has(&supplier_ids) {
            Ok(true) => {
                proof {
                    if old(self).obeys() {
                        assert forall|k: int|
                            0 <= k < journal_record_dto_views(command.records@).len()
                            implies has_supplier_id(
                            old(self).suppliers_m(),
                            trimmed(
                                (#[trigger] journal_record_dto_views(
                                    command.records@,
                                )[k]).supplier_id,
                            ),
                        ) by {
                            assert(has_supplier_id(old(self).suppliers_m(), supplier_ids@[k]@));
                        }
                    }
                }
            },
            Ok(false) => {
                proof {
                    if old(self).obeys() {
                        let k = choose|k: int|
                            0 <= k < supplier_ids@.len() && !has_supplier_id(
                                old(self).suppliers_m(),
                                (#[trigger] supplier_ids@[k])@,
                            );
                        assert(!has_supplier_id(
                            old(self).suppliers_m(),
                            trimmed(journal_record_dto_views(command.records@)[k].supplier_id),
                        ));
                    }
                }
                return Err(Error::DomainError(String::from_str("supplier does not exist.")));
            },
            Err(e) => {
                return Err(e);
            },
        }
        let records = match build_journal_records(&command.records) {
            Ok(v) => v,
            Err(e) => {
                return Err(e);
            },
        };
        let id = match self.journal_repository.next_id() {
            Ok(v) => v,
            Err(e) => {
                return Err(e);
            },
        };
        let journal = Journal::restore(id, EntryDateTime::new(command.entry_date), records);
        let dto = journal_to_dto(&journal);
        match self.journal_repository.add(journal) {
            Ok(_) => Ok(dto),
            Err(e) => Err(e),
        }
    }

    /// Replaces the whole line list of the journal with the given
    /// identifier after re-checking that every referenced supply and
    /// supplier exists; the entry date is kept.
    pub fn edit(&mut self, command: EditJournalCommand) -> (r: Result<(), Error>)
        ensures
            !(some_ink(command.journal_id@) && journal_rows_ok(
                journal_record_dto_views(command.records@),
            )) ==> r is Err,
            final(self).supply_repository == old(self).supply_repository,
            final(self).supplier_repository == old(self).supplier_repository,
            final(self).journal_repository.counter() == old(self).journal_repository.counter(),
            old(self).obeys() ==> final(self).obeys(),
            old(self).obeys() ==> {
                &&& (r is Ok <==> edit_journal_ok(
                    old(self).journals_m(),
                    old(self).supplies_m(),
                    old(self).suppliers_m(),
                    command,
                ))
                &&& (r is Ok ==> {
                    &&& final(self).journals_m().len() == old(self).journals_m().len()
                    &&& forall|i: int|
                        0 <= i < old(self).journals_m().len() ==> #[trigger] final(self).journals_m()[i] == if old(self).journals_m()[i].id == trimmed(
                            command.journal_id@,
                        ) {
                            JournalV {
                                id: old(self).journals_m()[i].id,
                                entry_datetime: old(self).journals_m()[i].entry_datetime,
                                records: journal_rows_value(
                                    journal_record_dto_views(command.records@),
                                ),
                            }
                        } else {
                            old(self).journals_m()[i]
                        }
                })
                &&& (r is Err ==> final(self).journals_m() == old(self).journals_m())
                &&& (r matches Err(e) ==> e is DomainError)
            },
    {
        let id = match JournalId::new(command.journal_id.as_str()) {
            Ok(v) => v,
            Err(e) => {
                return Err(e);
            },
        };
        let mut journal = match self.journal_repository.get(&id) {
            Ok(Some(j)) => j,
            Ok(None) => {
                return Err(Error::DomainError(String::from_str("journal does not exist.")));
            },
            Err(e) => {
                return Err(e);
            },
        };
        let ghost got = journal@;
        proof {
            if old(self).obeys() {
                assert(has_journal_id(old(self).journals_m(), got.id)) by {
                    let k = choose|k: int|
                        0 <= k < old(self).journals_m().len() && old(self).journals_m()[k] == got;
                    assert(old(self).journals_m()[k].id == got.id);
                }
            }
        }
        let supply_ids = match journal_supply_ids(&command.records) {
            Ok(v) => v,
            Err(e) => {
                return Err(e);
            },
        };
        match self.supply_repository.has(&supply_ids) {
            Ok(true) => {
                proof {
                    if old(self).obeys() {
                        assert forall|k: int|
                            0 <= k < journal_record_dto_views(command.records@).len()
                            implies has_supply_id(
                            old(self).supplies_m(),
                            trimmed(
                                (#[trigger] journal_record_dto_views(command.records@)[k]).supply_id,
                            ),
                        ) by {
                            assert(has_supply_id(old(self).supplies_m(), supply_ids@[k]@));
                        }
                    }
                }
            },
            Ok(false) => {
                proof {
                    if old(self).obeys() {
                        let k = choose|k: int|
                            0 <= k < supply_ids@.len() && !has_supply_id(
                                old(self).supplies_m(),
                                (#[trigger] supply_ids@[k])@,
                            );
                        assert(!has_supply_id(
                            old(self).supplies_m(),
                            trimmed(journal_record_dto_views(command.records@)[k].supply_id),
                        ));
                    }
                }
                return Err(Error::DomainError(String::from_str("supply does not exist.")));
            },
            Err(e) => {
                return Err(e);
            },
        }
        let supplier_ids = match journal_supplier_ids(&command.records) {
            Ok(v) => v,
            Err(e) => {
                return Err(e);
            },
        };
        match self.supplier_repository.has(&supplier_ids) {
            Ok(true) => {
                proof {
                    if old(self).obeys() {
                        assert forall|k: int|
                            0 <= k < journal_record_dto_views(command.records@).len()
                            implies has_supplier_id(
                            old(self).suppliers_m(),
                            trimmed(
                                (#[trigger] journal_record_dto_views(
                                    command.records@,
                                )[k]).supplier_id,
                            ),
                        ) by {
                            assert(has_supplier_id(old(self).suppliers_m(), supplier_ids@[k]@));
                        }
                    }
                }
            },
            Ok(false) => {
                proof {
                    if old(self).obeys() {
                        let k = choose|k: int|
                            0 <= k < supplier_ids@.len() && !has_supplier_id(
                                old(self).suppliers_m(),
                                (#[trigger] supplier_ids@[k])@,
                            );
                        assert(!has_supplier_id(
                            old(self).suppliers_m(),
                            trimmed(journal_record_dto_views(command.records@)[k].supplier_id),
                        ));
                    }
                }
                return Err(Error::DomainError(String::from_str("supplier does not exist.")));
            },
            Err(e) => {
                return Err(e);
            },
        }
        let records = match build_journal_records(&command.records) {
            Ok(v) => v,
            Err(e) => {
                return Err(e);
            },
        };
        journal.swap_records(records);
        match self.journal_repository.save(journal) {
            Ok(_) => {
                proof {
                    if old(self).obeys() {
                        old(self).journal_repository.model_consistent();
                        let m = old(self).journals_m();
                        let k = choose|k: int| 0 <= k < m.len() && m[k] == got;
                        assert forall|i: int|
                            0 <= i < m.len() && (#[trigger] m[i]).id == got.id implies m[
                            i].entry_datetime == got.entry_datetime by {
                            if i != k {
                                assert(m[i].id != m[k].id);
                            }
                        }
                    }
                }
                Ok(())
            },
            Err(e) => Err(e),
        }
    }
}

} // verus!
