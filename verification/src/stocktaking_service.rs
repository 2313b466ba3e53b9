//! The stocktaking use-case service: listing, lookup, period search,
//! recording, editing and deletion of physical counts. Recording and editing
//! check that every referenced supply exists before anything is written.

use vstd::prelude::*;

use crate::dto::{
    EditStocktakingCommand, GetStocktakingQuery, RecordStocktakingCommand, SearchStocktakingQuery,
    StocktakingDTO, StocktakingRecordDTO, stocktaking_dto_views, stocktaking_record_dto_views,
    stocktaking_to_dto, stocktakings_to_dtos,
};
use crate::entities::{Stocktaking, StocktakingV, SupplyV};
use crate::error::Error;
use crate::ports::{ForStocktakingPersistence, ForSupplyPersistence, has_stocktaking_id,
    has_supply_id};
use crate::queries::{FindStocktakingsQuery, FindStocktakingsQueryV};
use crate::search::{stocktaking_date_ge, stocktaking_matches};
use crate::text::{dec_of, trimmed};
use crate::values::{
    StocktakenDateTime, StocktakingId, StocktakingQuantity, StocktakingRecord, StocktakingRecordV,
    StocktakingUnitPrice, SupplyId, SupplyName, UnitName, some_ink,
};
use vstd::relations::sorted_by;

verus! {

/// The stored form of one raw stocktaking line: every textual field
/// trimmed, the numeric fields as given.
pub open spec fn stocktaking_row_value(r: StocktakingRecordV) -> StocktakingRecordV {
    StocktakingRecordV {
        supply_id: trimmed(r.supply_id),
        supply_name: trimmed(r.supply_name),
        unit_name: trimmed(r.unit_name),
        unit_price: r.unit_price,
        quantity: r.quantity,
    }
}

/// The stored form of a whole raw line list.
pub open spec fn stocktaking_rows_value(rs: Seq<StocktakingRecordV>) -> Seq<StocktakingRecordV> {
    rs.map_values(|r: StocktakingRecordV| stocktaking_row_value(r))
}

/// Whether one raw line is valid: every textual field carries ink.
pub open spec fn stocktaking_row_ok(r: StocktakingRecordV) -> bool {
    &&& some_ink(r.supply_id)
    &&& some_ink(r.supply_name)
    &&& some_ink(r.unit_name)
}

/// Whether every raw line of a list is valid.
pub open spec fn stocktaking_rows_ok(rs: Seq<StocktakingRecordV>) -> bool {
    forall|i: int| 0 <= i < rs.len() ==> stocktaking_row_ok(#[trigger] rs[i])
}

/// Whether every supply referenced by a raw line list exists.
pub open spec fn stocktaking_refs_ok(rs: Seq<StocktakingRecordV>, supplies: Seq<SupplyV>) -> bool {
    forall|i: int|
        0 <= i < rs.len() ==> has_supply_id(supplies, trimmed((#[trigger] rs[i]).supply_id))
}

/// The domain-side conditions of recording: every line is valid and every
/// referenced supply exists.
pub open spec fn record_stocktaking_valid(
    supplies: Seq<SupplyV>,
    c: RecordStocktakingCommand,
) -> bool {
    &&& stocktaking_rows_ok(stocktaking_record_dto_views(c.records@))
    &&& stocktaking_refs_ok(stocktaking_record_dto_views(c.records@), supplies)
}

/// Recording succeeds exactly when every line is valid, every referenced
/// supply exists, the identifier counter is not exhausted, and the
/// counter's next value is still free.
pub open spec fn record_stocktaking_ok(
    stocktakings: Seq<StocktakingV>,
    supplies: Seq<SupplyV>,
    counter: nat,
    c: RecordStocktakingCommand,
) -> bool {
    &&& record_stocktaking_valid(supplies, c)
    &&& counter < usize::MAX
    &&& !has_stocktaking_id(stocktakings, dec_of(counter as int + 1))
}

/// Editing succeeds exactly when the identifier carries ink and resolves,
/// every line is valid, and every referenced supply exists.
pub open spec fn edit_stocktaking_ok(
    stocktakings: Seq<StocktakingV>,
    supplies: Seq<SupplyV>,
    c: EditStocktakingCommand,
) -> bool {
    &&& some_ink(c.stocktaking_id@)
    &&& has_stocktaking_id(stocktakings, trimmed(c.stocktaking_id@))
    &&& stocktaking_rows_ok(stocktaking_record_dto_views(c.records@))
    &&& stocktaking_refs_ok(stocktaking_record_dto_views(c.records@), supplies)
}

/// Builds the validated supply identifiers referenced by the raw lines;
/// fails on the first identifier without ink.
fn stocktaking_supply_ids(rows: &Vec<StocktakingRecordDTO>) -> (r: Result<Vec<SupplyId>, Error>)
    ensures
        match r {
            Ok(ids) => {
                &&& ids@.len() == rows@.len()
                &&& forall|i: int|
                    0 <= i < rows@.len() ==> (#[trigger] ids@[i])@ == trimmed(
                        stocktaking_record_dto_views(rows@)[i].supply_id,
                    )
            },
            Err(e) => !stocktaking_rows_ok(stocktaking_record_dto_views(rows@)) && e
                is DomainError,
        },
{
    let mut ids: Vec<SupplyId> = Vec::new();
    let mut i: usize = 0;
    while i < rows.len()
        invariant
            0 <= i <= rows@.len(),
            ids@.len() == i,
            forall|k: int|
                0 <= k < i ==> (#[trigger] ids@[k])@ == trimmed(
                    stocktaking_record_dto_views(rows@)[k].supply_id,
                ),
        decreases rows@.len() - i,
    {
        match SupplyId::new(rows[i].supply_id.as_str()) {
            Ok(id) => {
                ids.push(id);
            },
            Err(e) => {
                proof {
                    assert(!stocktaking_row_ok(stocktaking_record_dto_views(rows@)[i as int]));
                }
                return Err(e);
            },
        }
        i = i + 1;
    }
    Ok(ids)
}

/// Builds the validated line records from the raw lines; fails on the first
/// invalid field.
fn build_stocktaking_records(rows: &Vec<StocktakingRecordDTO>) -> (r: Result<
    Vec<StocktakingRecord>,
    Error,
>)
    ensures
        match r {
            Ok(v) => {
                &&& stocktaking_rows_ok(stocktaking_record_dto_views(rows@))
                &&& v@.map_values(|rec: StocktakingRecord| rec@) == stocktaking_rows_value(
                    stocktaking_record_dto_views(rows@),
                )
            },
            Err(e) => !stocktaking_rows_ok(stocktaking_record_dto_views(rows@)) && e
                is DomainError,
        },
{
    let ghost dviews = stocktaking_record_dto_views(rows@);
    let mut out: Vec<StocktakingRecord> = Vec::new();
    let mut i: usize = 0;
    proof {
        assert(out@.map_values(|rec: StocktakingRecord| rec@) =~= stocktaking_rows_value(
            dviews.take(0),
        ));
    }
    while i < rows.len()
        invariant
            0 <= i <= rows@.len(),
            dviews == stocktaking_record_dto_views(rows@),
            out@.map_values(|rec: StocktakingRecord| rec@) == stocktaking_rows_value(
                dviews.take(i as int),
            ),
            forall|k: int| 0 <= k < i ==> stocktaking_row_ok(#[trigger] dviews[k]),
        decreases rows@.len() - i,
    {
        let supply_id = match SupplyId::new(rows[i].supply_id.as_str()) {
            Ok(v) => v,
            Err(e) => {
                proof {
                    assert(!stocktaking_row_ok(dviews[i as int]));
                }
                return Err(e);
            },
        };
        let supply_name = match SupplyName::new(rows[i].supply_name.as_str()) {
            Ok(v) => v,
            Err(e) => {
                proof {
                    assert(!stocktaking_row_ok(dviews[i as int]));
                }
                return Err(e);
            },
        };
        let unit_name = match UnitName::new(rows[i].unit_name.as_str()) {
            Ok(v) => v,
            Err(e) => {
                proof {
                    assert(!stocktaking_row_ok(dviews[i as int]));
                }
                return Err(e);
            },
        };
        let unit_price = match StocktakingUnitPrice::new(rows[i].unit_price) {
            Ok(v) => v,
            Err(e) => {
                return Err(e);
            },
        };
        let quantity = match StocktakingQuantity::new(rows[i].quantity) {
            Ok(v) => v,
            Err(e) => {
                return Err(e);
            },
        };
        let rec = StocktakingRecord::new(supply_id, supply_name, unit_name, unit_price, quantity);
        let ghost before = out@;
        out.push(rec);
        proof {
            assert(out@.map_values(|rec2: StocktakingRecord| rec2@) =~= before.map_values(
                |rec2: StocktakingRecord| rec2@,
            ).push(rec@));
            assert(stocktaking_rows_value(dviews.take(i + 1)) =~= stocktaking_rows_value(
                dviews.take(i as int),
            ).push(stocktaking_row_value(dviews[i as int])));
            assert(rec@ == stocktaking_row_value(dviews[i as int]));
        }
        i = i + 1;
    }
    proof {
        assert(dviews.take(rows@.len() as int) =~= dviews);
    }
    Ok(out)
}

/// The stocktaking use-case service over any supply and stocktaking
/// persistence ports.
pub struct StocktakingService<SR: ForSupplyPersistence, TR: ForStocktakingPersistence> {
    pub supply_repository: SR,
    pub stocktaking_repository: TR,
}

impl<SR: ForSupplyPersistence, TR: ForStocktakingPersistence> StocktakingService<SR, TR> {
    /// Whether both repositories' behaviour is tied to their models.
    pub open spec fn obeys(&self) -> bool {
        self.supply_repository.obeys_model() && self.stocktaking_repository.obeys_model()
    }

    /// The stocktakings currently stored.
    pub open spec fn stocktakings_m(&self) -> Seq<StocktakingV> {
        self.stocktaking_repository.stocktakings()
    }

    /// The supplies currently stored.
    pub open spec fn supplies_m(&self) -> Seq<SupplyV> {
        self.supply_repository.supplies()
    }

    /// Wires the service to its repositories.
    pub fn new(supply_repository: SR, stocktaking_repository: TR) -> (r: Self)
        ensures
            r.supply_repository == supply_repository,
            r.stocktaking_repository == stocktaking_repository,
    {
        StocktakingService { supply_repository, stocktaking_repository }
    }

    /// Every stored stocktaking, as DTOs in storage order.
    pub fn list(&self) -> (r: Result<Vec<StocktakingDTO>, Error>)
        ensures
            self.obeys() ==> (r matches Ok(v) && stocktaking_dto_views(v@)
                == self.stocktakings_m()),
    {
        match self.stocktaking_repository.list() {
            Ok(v) => Ok(stocktakings_to_dtos(&v)),
            Err(e) => Err(e),
        }
    }

    /// The stocktaking with the given identifier, when the identifier is
    /// valid and stored.
    pub fn get(&self, query: GetStocktakingQuery) -> (r: Result<Option<StocktakingDTO>, Error>)
        ensures
            !some_ink(query.stocktaking_id@) ==> r is Err,
            self.obeys() ==> match r {
                Ok(Some(dto)) => some_ink(query.stocktaking_id@) && dto@.id == trimmed(
                    query.stocktaking_id@,
                ) && self.stocktakings_m().contains(dto@),
                Ok(None) => some_ink(query.stocktaking_id@) && !has_stocktaking_id(
                    self.stocktakings_m(),
                    trimmed(query.stocktaking_id@),
                ),
                Err(e) => !some_ink(query.stocktaking_id@) && e is DomainError,
            },
    {
        let id = match StocktakingId::new(query.stocktaking_id.as_str()) {
            Ok(v) => v,
            Err(e) => {
                return Err(e);
            },
        };
        match self.stocktaking_repository.get(&id) {
            Ok(Some(t)) => Ok(Some(stocktaking_to_dto(&t))),
            Ok(None) => Ok(None),
            Err(e) => Err(e),
        }
    }

    /// The stocktakings whose date lies in the inclusive window, as DTOs
    /// ordered by date descending.
    pub fn search(&self, query: SearchStocktakingQuery) -> (r: Result<Vec<StocktakingDTO>, Error>)
        ensures
            self.obeys() ==> (r matches Ok(v) && {
                &&& stocktaking_dto_views(v@).to_multiset() == self.stocktakings_m().filter(
                    |t: StocktakingV|
                        stocktaking_matches(
                            t,
                            FindStocktakingsQueryV {
                                period_start: query.period_start,
                                period_end: query.period_end,
                            },
                        ),
                ).to_multiset()
                &&& sorted_by(
                    stocktaking_dto_views(v@),
                    |a: StocktakingV, b: StocktakingV| stocktaking_date_ge(a, b),
                )
            }),
    {
        let period_start = match &query.period_start {
            Some(v) => Some(StocktakenDateTime::new(*v)),
            None => None,
        };
        let period_end = match &query.period_end {
            Some(v) => Some(StocktakenDateTime::new(*v)),
            None => None,
        };
        let fq = FindStocktakingsQuery { period_start, period_end };
        proof {
            assert(fq@ == FindStocktakingsQueryV {
                period_start: query.period_start,
                period_end: query.period_end,
            });
        }
        match self.stocktaking_repository.find(&fq) {
            Ok(v) => {
                let dtos = stocktakings_to_dtos(&v);
                Ok(dtos)
            },
            Err(e) => Err(e),
        }
    }

    /// Records a stocktaking under the next free counter identifier after
    /// checking that every referenced supply exists; on any failure nothing
    /// is written.
    pub fn record(&mut self, command: RecordStocktakingCommand) -> (r: Result<StocktakingDTO, Error>)
        ensures
            !stocktaking_rows_ok(stocktaking_record_dto_views(command.records@)) ==> r is Err,
            r matches Ok(dto) ==> dto@.stocktaken_datetime == command.stocktaken_date
                && dto@.records == stocktaking_rows_value(
                stocktaking_record_dto_views(command.records@),
            ),
            final(self).supply_repository == old(self).supply_repository,
            final(self).stocktaking_repository.counter() >= old(
                self,
            ).stocktaking_repository.counter(),
            old(self).obeys() ==> final(self).obeys(),
            old(self).obeys() ==> {
                &&& (r is Ok <==> record_stocktaking_ok(
                    old(self).stocktakings_m(),
                    old(self).supplies_m(),
                    old(self).stocktaking_repository.counter(),
                    command,
                ))
                &&& (r matches Ok(dto) ==> {
                    &&& dto@.id == dec_of(old(self).stocktaking_repository.counter() as int + 1)
                    &&& dto@.stocktaken_datetime == command.stocktaken_date
                    &&& dto@.records == stocktaking_rows_value(
                        stocktaking_record_dto_views(command.records@),
                    )
                    &&& final(self).stocktakings_m() == old(self).stocktakings_m().push(dto@)
                    &&& final(self).stocktaking_repository.counter() == old(
                        self,
                    ).stocktaking_repository.counter() + 1
                })
                &&& (r is Err ==> final(self).stocktakings_m() == old(self).stocktakings_m())
                &&& (r matches Err(e) ==> (e is DomainError <==> !record_stocktaking_valid(
                    old(self).supplies_m(),
                    command,
                )))
            },
    {
        let supply_ids = match stocktaking_supply_ids(&command.records) {
            Ok(v) => v,
            Err(e) => {
                return Err(e);
            },
        };
        match self.supply_repository.has(&supply_ids) {
            Ok(true) => {
                proof {
                    if old(self).obeys() {
                        assert forall|k: int|
                            0 <= k < stocktaking_record_dto_views(command.records@).len()
                            implies has_supply_id(
                            old(self).supplies_m(),
                            trimmed(
                                (#[trigger] stocktaking_record_dto_views(
                                    command.records@,
                                )[k]).supply_id,
                            ),
                        ) by {
                            assert(has_supply_id(old(self).supplies_m(), supply_ids@[k]@));
                        }
                    }
                }
            },
            Ok(false) => {
                proof {
                    if old(self).obeys() {
                        let k = choose|k: int|
                            0 <= k < supply_ids@.len() && !has_supply_id(
                                old(self).supplies_m(),
                                (#[trigger] supply_ids@[k])@,
                            );
                        assert(!has_supply_id(
                            old(self).supplies_m(),
                            trimmed(stocktaking_record_dto_views(command.records@)[k].supply_id),
                        ));
                    }
                }
                return Err(Error::DomainError(String::from_str("supply does not exist.")));
            },
            Err(e) => {
                return Err(e);
            },
        }
        let records = match build_stocktaking_records(&command.records) {
            Ok(v) => v,
            Err(e) => {
                return Err(e);
            },
        };
        let id = match self.stocktaking_repository.next_id() {
            Ok(v) => v,
            Err(e) => {
                return Err(e);
            },
        };
        let stocktaking = Stocktaking::restore(
            id,
            StocktakenDateTime::new(command.stocktaken_date),
            records,
        );
        let dto = stocktaking_to_dto(&stocktaking);
        match self.stocktaking_repository.add(stocktaking) {
            Ok(_) => Ok(dto),
            Err(e) => Err(e),
        }
    }

    /// Replaces the whole line list of the stocktaking with the given
    /// identifier after re-checking that every referenced supply exists; the
    /// date of the count is kept.
    pub fn edit(&mut self, command: EditStocktakingCommand) -> (r: Result<(), Error>)
        ensures
            !(some_ink(command.stocktaking_id@) && stocktaking_rows_ok(
                stocktaking_record_dto_views(command.records@),
            )) ==> r is Err,
            final(self).supply_repository == old(self).supply_repository,
            final(self).stocktaking_repository.counter() == old(
                self,
            ).stocktaking_repository.counter(),
            old(self).obeys() ==> final(self).obeys(),
            old(self).obeys() ==> {
                &&& (r is Ok <==> edit_stocktaking_ok(
                    old(self).stocktakings_m(),
                    old(self).supplies_m(),
                    command,
                ))
                &&& (r is Ok ==> {
                    &&& final(self).stocktakings_m().len() == old(self).stocktakings_m().len()
                    &&& forall|i: int|
                        0 <= i < old(self).stocktakings_m().len() ==> #[trigger] final(self).stocktakings_m()[i] == if old(self).stocktakings_m()[i].id == trimmed(
                            command.stocktaking_id@,
                        ) {
                            StocktakingV {
                                id: old(self).stocktakings_m()[i].id,
                                stocktaken_datetime: old(self).stocktakings_m()[i].stocktaken_datetime,
                                records: stocktaking_rows_value(
                                    stocktaking_record_dto_views(command.records@),
                                ),
                            }
                        } else {
                            old(self).stocktakings_m()[i]
                        }
                })
                &&& (r is Err ==> final(self).stocktakings_m() == old(self).stocktakings_m())
                &&& (r matches Err(e) ==> e is DomainError)
            },
    {
        let id = match StocktakingId::new(command.stocktaking_id.as_str()) {
            Ok(v) => v,
            Err(e) => {
                return Err(e);
            },
        };
        let mut stocktaking = match self.stocktaking_repository.get(&id) {
            Ok(Some(t)) => t,
            Ok(None) => {
                return Err(Error::DomainError(String::from_str("stocktaking does not exist.")));
            },
            Err(e) => {
                return Err(e);
            },
        };
        let ghost got = stocktaking@;
        proof {
            if old(self).obeys() {
                assert(has_stocktaking_id(old(self).stocktakings_m(), stocktaking@.id)) by {
                    let k = choose|k: int|
                        0 <= k < old(self).stocktakings_m().len() && old(self).stocktakings_m()[k]
                            == stocktaking@;
                    assert(old(self).stocktakings_m()[k].id == stocktaking@.id);
                }
            }
        }
        let supply_ids = match stocktaking_supply_ids(&command.records) {
            Ok(v) => v,
            Err(e) => {
                return Err(e);
            },
        };
        match self.supply_repository.has(&supply_ids) {
            Ok(true) => {
                proof {
                    if old(self).obeys() {
                        assert forall|k: int|
                            0 <= k < stocktaking_record_dto_views(command.records@).len()
                            implies has_supply_id(
                            old(self).supplies_m(),
                            trimmed(
                                (#[trigger] stocktaking_record_dto_views(
                                    command.records@,
                                )[k]).supply_id,
                            ),
                        ) by {
                            assert(has_supply_id(old(self).supplies_m(), supply_ids@[k]@));
                        }
                    }
                }
            },
            Ok(false) => {
                proof {
                    if old(self).obeys() {
                        let k = choose|k: int|
                            0 <= k < supply_ids@.len() && !has_supply_id(
                                old(self).supplies_m(),
                                (#[trigger] supply_ids@[k])@,
                            );
                        assert(!has_supply_id(
                            old(self).supplies_m(),
                            trimmed(stocktaking_record_dto_views(command.records@)[k].supply_id),
                        ));
                    }
                }
                return Err(Error::DomainError(String::from_str("supply does not exist.")));
            },
            Err(e) => {
                return Err(e);
            },
        }
        let records = match build_stocktaking_records(&command.records) {
            Ok(v) => v,
            Err(e) => {
                return Err(e);
            },
        };
        stocktaking.swap_records(records);
        match self.stocktaking_repository.save(stocktaking) {
            Ok(_) => {
                proof {
                    if old(self).obeys() {
                        old(self).stocktaking_repository.model_consistent();
                        let m = old(self).stocktakings_m();
                        let k = choose|k: int| 0 <= k < m.len() && m[k] == got;
                        assert forall|i: int|
                            0 <= i < m.len() && (#[trigger] m[i]).id == got.id implies m[
                            i].stocktaken_datetime == got.stocktaken_datetime by {
                            if i != k {
                                assert(m[i].id != m[k].id);
                            }
                        }
                    }
                }
                Ok(())
            },
            Err(e) => Err(e),
        }
    }

    /// Logically removes the stocktaking with the given identifier from
    /// every later list, get and find.
    pub fn delete(&mut self, stocktaking_id: &str) -> (r: Result<(), Error>)
        ensures
            !some_ink(stocktaking_id@) ==> r is Err,
            final(self).supply_repository == old(self).supply_repository,
            final(self).stocktaking_repository.counter() == old(
                self,
            ).stocktaking_repository.counter(),
            old(self).obeys() ==> final(self).obeys(),
            old(self).obeys() ==> {
                &&& (r is Ok <==> some_ink(stocktaking_id@))
                &&& (r is Ok ==> final(self).stocktakings_m() == old(self).stocktakings_m().filter(|t: StocktakingV| t.id != trimmed(stocktaking_id@)))
                &&& (r is Err ==> final(self).stocktakings_m() == old(self).stocktakings_m())
                &&& (r matches Err(e) ==> e is DomainError)
            },
    {
        let id = match StocktakingId::new(stocktaking_id) {
            Ok(v) => v,
            Err(e) => {
                return Err(e);
            },
        };
        match self.stocktaking_repository.delete(&id) {
            Ok(_) => Ok(()),
            Err(e) => Err(e),
        }
    }
}

} // verus!
