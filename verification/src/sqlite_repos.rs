//! The relational repository adapters. Each operation opens its own
//! connection; multi-statement mutations run inside one explicit
//! transaction that rolls back on the first failure; deletion is logical,
//! via a `deleted_at` marker that every read excludes.
//!
//! The adapters' state lives in the database file, outside the program, so
//! they leave the ports' `obeys_model` unset. What holds whatever the
//! engine returns is stated on each method itself: a fetched aggregate
//! carries the requested identifier, search results match their query and
//! come ordered by date, and every write binds exactly the entity's fields
//! through argument builders with exact contracts. The row decoding and
//! aggregate reconstruction underneath carry exact contracts of their own.

use vstd::prelude::*;

use crate::entities::{Journal, JournalV, Stocktaking, StocktakingV, Supplier, SupplierV, Supply,
    SupplyV};
use crate::values::{JournalRecord, StocktakingRecord};
use crate::error::Error;
use crate::mock::{journal_index_of, stocktaking_index_of, supplier_index_of, supply_index_of};
use crate::ports::{
    ForJournalPersistence, ForStocktakingPersistence, ForSupplierPersistence, ForSupplyPersistence,
};
use crate::queries::{FindJournalsQuery, FindStocktakingsQuery, FindSuppliesQuery,
    FindSupplierQuery};
use crate::search::{
    find_journals_in, find_stocktakings_in, find_supplies_in, find_suppliers_in, journal_date_le,
    journal_matches, journal_views, sort_journals_by_date, sort_stocktakings_by_date,
    stocktaking_date_ge, stocktaking_matches, stocktaking_views, supplier_matches, supplier_views,
    supply_matches, supply_views,
};
use crate::sqlite_db::{SqlArg, SqlArgV, SqlVal, db_execute, db_open, db_query, sql_arg_view,
    sql_arg_views};
use crate::sqlite_rows::{
    assemble_journals, assemble_stocktakings, decode_journal_children,
    decode_stocktaking_children, decode_suppliers, decode_supplies, val_int,
};
use crate::text::{is_trim_shaped, lemma_dec_of_trim_shaped, text_contains};
use crate::values::{JournalId, StocktakingId, SupplierId, SupplyId};
use vstd::relations::sorted_by;
use vstd::seq_lib::group_to_multiset_ensures;

verus! {

const SUPPLIES_SELECT: &'static str = "SELECT id, name, unit_name, supplier_id, deleted_at FROM supplies";

const SUPPLIERS_SELECT: &'static str = "SELECT id, name, deleted_at FROM suppliers";

const JOURNALS_SELECT: &'static str = "SELECT id, recorded_at, deleted_at FROM journals";

const JOURNAL_RECORDS_SELECT: &'static str =
    "SELECT journal_id, supply_id, supply_name, supplier_id, supplier_name, unit_name, unit_price, quantity FROM journal_records ORDER BY id ASC";

const STOCKTAKINGS_SELECT: &'static str = "SELECT id, stocktaken_at, deleted_at FROM stocktakings";

const STOCKTAKING_RECORDS_SELECT: &'static str =
    "SELECT stocktaking_id, supply_id, supply_name, unit_name, unit_price, quantity FROM stocktaking_records ORDER BY id ASC";

/// Runs a parameterless query on a fresh connection.
fn fetch_rows(db_path: &str, sql: &str) -> Result<Vec<Vec<SqlVal>>, Error> {
    let conn = match db_open(db_path) {
        Ok(c) => c,
        Err(e) => {
            return Err(e);
        },
    };
    db_query(&conn, sql, &Vec::new())
}

/// Bumps a per-aggregate sequence row and renders the reserved counter
/// value; the schema seeds every sequence at zero, so reserved values are
/// positive decimals.
fn next_counter_text(db_path: &str, sql: &str) -> (r: Result<String, Error>)
    ensures
        r matches Ok(s) ==> is_trim_shaped(s@),
{
    let conn = match db_open(db_path) {
        Ok(c) => c,
        Err(e) => {
            return Err(e);
        },
    };
    let rows = match db_query(&conn, sql, &Vec::new()) {
        Ok(v) => v,
        Err(e) => {
            return Err(e);
        },
    };
    if rows.len() != 1 {
        return Err(Error::InfrastructureError(String::from_str("fail to query")));
    }
    if rows[0].len() != 1 {
        return Err(Error::InfrastructureError(String::from_str("fail to query")));
    }
    match val_int(&rows[0][0]) {
        Some(n) => {
            if n >= 1 {
                let s = crate::text::dec_string(n as u64);
                proof {
                    lemma_dec_of_trim_shaped(n as int);
                }
                Ok(s)
            } else {
                Err(Error::InfrastructureError(String::from_str("fail to query")))
            }
        },
        None => Err(Error::InfrastructureError(String::from_str("fail to query"))),
    }
}

/// Runs one statement inside the open transaction; on failure rolls the
/// transaction back and reports the first error.
fn run_in_transaction(conn: &rusqlite::Connection, sql: &str, args: &Vec<SqlArg>) -> Result<
    usize,
    Error,
> {
    match db_execute(conn, sql, args) {
        Ok(n) => Ok(n),
        Err(e) => {
            match db_execute(conn, "ROLLBACK", &Vec::new()) {
                Ok(_) => Err(e),
                Err(e2) => Err(e2),
            }
        },
    }
}

/// A text parameter carrying the given text.
fn text_arg(s: &str) -> (r: SqlArg)
    ensures
        sql_arg_view(r) == SqlArgV::Text(s@),
{
    SqlArg::Text(String::from_str(s))
}

/// The parameters of a supply write, in the statements' binding order:
/// identifier, name, unit name, owning supplier.
fn supply_args(supply: &Supply) -> (r: Vec<SqlArg>)
    ensures
        sql_arg_views(r@) == seq![
            SqlArgV::Text(supply@.id),
            SqlArgV::Text(supply@.name),
            SqlArgV::Text(supply@.unit_name),
            SqlArgV::Text(supply@.supplier_id),
        ],
{
    let mut args: Vec<SqlArg> = Vec::new();
    args.push(text_arg(supply.id().as_str()));
    args.push(text_arg(supply.name().as_str()));
    args.push(text_arg(supply.unit_name().as_str()));
    args.push(text_arg(supply.supplier_id().as_str()));
    proof {
        assert(sql_arg_views(args@) =~= seq![
            SqlArgV::Text(supply@.id),
            SqlArgV::Text(supply@.name),
            SqlArgV::Text(supply@.unit_name),
            SqlArgV::Text(supply@.supplier_id),
        ]);
    }
    args
}

/// The parameters of a supplier write, in the statements' binding order:
/// identifier, name.
fn supplier_args(supplier: &Supplier) -> (r: Vec<SqlArg>)
    ensures
        sql_arg_views(r@) == seq![SqlArgV::Text(supplier@.id), SqlArgV::Text(supplier@.name)],
{
    let mut args: Vec<SqlArg> = Vec::new();
    args.push(text_arg(supplier.id().as_str()));
    args.push(text_arg(supplier.name().as_str()));
    proof {
        assert(sql_arg_views(args@) =~= seq![
            SqlArgV::Text(supplier@.id),
            SqlArgV::Text(supplier@.name),
        ]);
    }
    args
}

/// The parameters of a journal head write, in the statements' binding
/// order: identifier, entry date.
fn journal_head_args(journal: &Journal) -> (r: Vec<SqlArg>)
    ensures
        sql_arg_views(r@) == seq![
            SqlArgV::Text(journal@.id),
            SqlArgV::Int(journal@.entry_datetime),
        ],
{
    let mut args: Vec<SqlArg> = Vec::new();
    args.push(text_arg(journal.id().as_str()));
    args.push(SqlArg::Int(journal.entry_datetime().as_i64()));
    proof {
        assert(sql_arg_views(args@) =~= seq![
            SqlArgV::Text(journal@.id),
            SqlArgV::Int(journal@.entry_datetime),
        ]);
    }
    args
}

/// The parameters of one journal line write, in the statement's binding
/// order: the snapshotted supply and supplier identity, unit, price,
/// quantity, and the owning journal.
fn journal_record_args(rec: &JournalRecord, journal_id: &JournalId) -> (r: Vec<SqlArg>)
    ensures
        sql_arg_views(r@) == seq![
            SqlArgV::Text(rec@.supply_id),
            SqlArgV::Text(rec@.supply_name),
            SqlArgV::Text(rec@.supplier_id),
            SqlArgV::Text(rec@.supplier_name),
            SqlArgV::Text(rec@.unit_name),
            SqlArgV::Int(rec@.unit_price as i64),
            SqlArgV::Int(rec@.quantity as i64),
            SqlArgV::Text(journal_id@),
        ],
{
    let mut args: Vec<SqlArg> = Vec::new();
    args.push(text_arg(rec.supply_id().as_str()));
    args.push(text_arg(rec.supply_name().as_str()));
    args.push(text_arg(rec.supplier_id().as_str()));
    args.push(text_arg(rec.supplier_name().as_str()));
    args.push(text_arg(rec.unit_name().as_str()));
    args.push(SqlArg::Int(rec.unit_price().as_u32() as i64));
    args.push(SqlArg::Int(rec.quantity().as_u32() as i64));
    args.push(text_arg(journal_id.as_str()));
    proof {
        assert(sql_arg_views(args@) =~= seq![
            SqlArgV::Text(rec@.supply_id),
            SqlArgV::Text(rec@.supply_name),
            SqlArgV::Text(rec@.supplier_id),
            SqlArgV::Text(rec@.supplier_name),
            SqlArgV::Text(rec@.unit_name),
            SqlArgV::Int(rec@.unit_price as i64),
            SqlArgV::Int(rec@.quantity as i64),
            SqlArgV::Text(journal_id@),
        ]);
    }
    args
}

/// The parameters of a stocktaking head write, in the statements' binding
/// order: identifier, stocktaken date.
fn stocktaking_head_args(stocktaking: &Stocktaking) -> (r: Vec<SqlArg>)
    ensures
        sql_arg_views(r@) == seq![
            SqlArgV::Text(stocktaking@.id),
            SqlArgV::Int(stocktaking@.stocktaken_datetime),
        ],
{
    let mut args: Vec<SqlArg> = Vec::new();
    args.push(text_arg(stocktaking.id().as_str()));
    args.push(SqlArg::Int(stocktaking.stocktaken_at().as_i64()));
    proof {
        assert(sql_arg_views(args@) =~= seq![
            SqlArgV::Text(stocktaking@.id),
            SqlArgV::Int(stocktaking@.stocktaken_datetime),
        ]);
    }
    args
}

/// The parameters of one stocktaking line write, in the statement's binding
/// order: the counted supply, unit, price, quantity, and the owning
/// stocktaking.
fn stocktaking_record_args(rec: &StocktakingRecord, stocktaking_id: &StocktakingId) -> (r: Vec<
    SqlArg,
>)
    ensures
        sql_arg_views(r@) == seq![
            SqlArgV::Text(rec@.supply_id),
            SqlArgV::Text(rec@.supply_name),
            SqlArgV::Text(rec@.unit_name),
            SqlArgV::Int(rec@.unit_price as i64),
            SqlArgV::Int(rec@.quantity as i64),
            SqlArgV::Text(stocktaking_id@),
        ],
{
    let mut args: Vec<SqlArg> = Vec::new();
    args.push(text_arg(rec.supply_id().as_str()));
    args.push(text_arg(rec.supply_name().as_str()));
    args.push(text_arg(rec.unit_name().as_str()));
    args.push(SqlArg::Int(rec.unit_price().as_u32() as i64));
    args.push(SqlArg::Int(rec.quantity().as_u32() as i64));
    args.push(text_arg(stocktaking_id.as_str()));
    proof {
        assert(sql_arg_views(args@) =~= seq![
            SqlArgV::Text(rec@.supply_id),
            SqlArgV::Text(rec@.supply_name),
            SqlArgV::Text(rec@.unit_name),
            SqlArgV::Int(rec@.unit_price as i64),
            SqlArgV::Int(rec@.quantity as i64),
            SqlArgV::Text(stocktaking_id@),
        ]);
    }
    args
}

/// A single-parameter list carrying one identifier.
fn one_text_arg(s: &str) -> (r: Vec<SqlArg>)
    ensures
        sql_arg_views(r@) == seq![SqlArgV::Text(s@)],
{
    let mut args: Vec<SqlArg> = Vec::new();
    args.push(text_arg(s));
    proof {
        assert(sql_arg_views(args@) =~= seq![SqlArgV::Text(s@)]);
    }
    args
}

/// The relational supply repository: one table row per supply.
#[derive(Debug)]
pub struct SqliteSupplyRepository {
    db_path: String,
}

impl SqliteSupplyRepository {
    /// Points the adapter at a database file.
    pub fn new(db_path: &str) -> Self {
        SqliteSupplyRepository { db_path: String::from_str(db_path) }
    }

    /// Every live supply row, decoded.
    fn load(&self) -> Result<Vec<Supply>, Error> {
        let rows = match fetch_rows(self.db_path.as_str(), SUPPLIES_SELECT) {
            Ok(v) => v,
            Err(e) => {
                return Err(e);
            },
        };
        decode_supplies(&rows)
    }

    /// Every live supplier row, decoded; the supply search joins against
    /// supplier names.
    fn load_suppliers(&self) -> Result<Vec<Supplier>, Error> {
        let rows = match fetch_rows(self.db_path.as_str(), SUPPLIERS_SELECT) {
            Ok(v) => v,
            Err(e) => {
                return Err(e);
            },
        };
        decode_suppliers(&rows)
    }
}

impl ForSupplyPersistence for SqliteSupplyRepository {
    closed spec fn obeys_model(&self) -> bool {
        false
    }

    closed spec fn supplies(&self) -> Seq<SupplyV> {
        Seq::empty()
    }

    closed spec fn known_suppliers(&self) -> Seq<SupplierV> {
        Seq::empty()
    }

    closed spec fn counter(&self) -> nat {
        0
    }

    proof fn model_consistent(&self) {
    }

    fn duplicate(&self) -> (r: Self) {
        SqliteSupplyRepository { db_path: self.db_path.clone() }
    }

    fn next_id(&mut self) -> (r: Result<SupplyId, Error>) {
        match next_counter_text(
            self.db_path.as_str(),
            "UPDATE supplies_id_sequence SET value = value + 1 WHERE name = 'supply_id' RETURNING value",
        ) {
            Ok(s) => Ok(SupplyId::from_trimmed(s)),
            Err(e) => Err(e),
        }
    }

    fn has(&self, ids: &Vec<SupplyId>) -> (r: Result<bool, Error>) {
        let stored = match self.load() {
            Ok(v) => v,
            Err(e) => {
                return Err(e);
            },
        };
        let mut i: usize = 0;
        while i < ids.len()
            decreases ids@.len() - i,
        {
            match supply_index_of(&stored, &ids[i]) {
                Some(_) => {},
                None => {
                    return Ok(false);
                },
            }
            i = i + 1;
        }
        Ok(true)
    }

    fn list(&self) -> (r: Result<Vec<Supply>, Error>) {
        self.load()
    }

    fn get(&self, id: &SupplyId) -> (r: Result<Option<Supply>, Error>)
        ensures
            r matches Ok(Some(s)) ==> s@.id == id@,
    {
        let stored = match self.load() {
            Ok(v) => v,
            Err(e) => {
                return Err(e);
            },
        };
        match supply_index_of(&stored, id) {
            Some(i) => Ok(Some(stored[i].clone())),
            None => Ok(None),
        }
    }

    fn get_of_supplier(&self, supplier_id: &SupplierId) -> (r: Result<Vec<Supply>, Error>)
        ensures
            r matches Ok(v) ==> forall|i: int|
                0 <= i < v@.len() ==> (#[trigger] supply_views(v@)[i]).supplier_id
                    == supplier_id@,
    {
        let stored = match self.load() {
            Ok(v) => v,
            Err(e) => {
                return Err(e);
            },
        };
        let mut out: Vec<Supply> = Vec::new();
        let mut i: usize = 0;
        while i < stored.len()
            invariant
                forall|k: int|
                    0 <= k < out@.len() ==> (#[trigger] supply_views(out@)[k]).supplier_id
                        == supplier_id@,
            decreases stored@.len() - i,
        {
            if stored[i].supplier_id() == supplier_id {
                let ghost before = out@;
                out.push(stored[i].clone());
                proof {
                    assert(supply_views(out@) =~= supply_views(before).push(out@.last()@));
                }
            }
            i = i + 1;
        }
        Ok(out)
    }

    fn find(&self, query: &FindSuppliesQuery) -> (r: Result<Vec<Supply>, Error>)
        ensures
            r matches Ok(v) ==> forall|i: int|
                0 <= i < v@.len() ==> (query@.supply_name matches Some(f) ==> text_contains(
                    (#[trigger] supply_views(v@)[i]).name,
                    f,
                )),
    {
        let stored = match self.load() {
            Ok(v) => v,
            Err(e) => {
                return Err(e);
            },
        };
        let suppliers = match self.load_suppliers() {
            Ok(v) => v,
            Err(e) => {
                return Err(e);
            },
        };
        let out = find_supplies_in(&stored, &suppliers, query);
        proof {
            let pred = |sv: SupplyV| supply_matches(sv, supplier_views(suppliers@), query@);
            assert forall|i: int| 0 <= i < supply_views(out@).len() implies pred(
                #[trigger] supply_views(out@)[i],
            ) by {
                supply_views(stored@).lemma_filter_pred(pred, i);
            }
        }
        Ok(out)
    }

    fn add(&mut self, supply: Supply) -> (r: Result<(), Error>) {
        let conn = match db_open(self.db_path.as_str()) {
            Ok(c) => c,
            Err(e) => {
                return Err(e);
            },
        };
        match db_execute(&conn, "BEGIN", &Vec::new()) {
            Ok(_) => {},
            Err(e) => {
                return Err(e);
            },
        }
        let args = supply_args(&supply);
        match run_in_transaction(
            &conn,
            "INSERT INTO supplies (id, name, unit_name, supplier_id) VALUES (?1, ?2, ?3, ?4)",
            &args,
        ) {
            Ok(_) => {},
            Err(e) => {
                return Err(e);
            },
        }
        match db_execute(&conn, "COMMIT", &Vec::new()) {
            Ok(_) => Ok(()),
            Err(e) => Err(e),
        }
    }

    fn save(&mut self, supply: Supply) -> (r: Result<(), Error>) {
        let conn = match db_open(self.db_path.as_str()) {
            Ok(c) => c,
            Err(e) => {
                return Err(e);
            },
        };
        match db_execute(&conn, "BEGIN", &Vec::new()) {
            Ok(_) => {},
            Err(e) => {
                return Err(e);
            },
        }
        let args = supply_args(&supply);
        let changed = match run_in_transaction(
            &conn,
            "UPDATE supplies SET name = ?2, unit_name = ?3, supplier_id = ?4 WHERE id = ?1 AND deleted_at IS NULL",
            &args,
        ) {
            Ok(n) => n,
            Err(e) => {
                return Err(e);
            },
        };
        if changed == 0 {
            return match db_execute(&conn, "ROLLBACK", &Vec::new()) {
                Ok(_) => Err(
                    Error::InfrastructureError(String::from_str("supply does not exist.")),
                ),
                Err(e2) => Err(e2),
            };
        }
        match db_execute(&conn, "COMMIT", &Vec::new()) {
            Ok(_) => Ok(()),
            Err(e) => Err(e),
        }
    }

    fn delete(&mut self, id: &SupplyId) -> (r: Result<(), Error>) {
        let conn = match db_open(self.db_path.as_str()) {
            Ok(c) => c,
            Err(e) => {
                return Err(e);
            },
        };
        let args = one_text_arg(id.as_str());
        match db_execute(
            &conn,
            "UPDATE supplies SET deleted_at = unixepoch() WHERE id = ?1 AND deleted_at IS NULL",
            &args,
        ) {
            Ok(_) => Ok(()),
            Err(e) => Err(e),
        }
    }
}

/// The relational supplier repository: one table row per supplier.
#[derive(Debug)]
pub struct SqliteSupplierRepository {
    db_path: String,
}

impl SqliteSupplierRepository {
    /// Points the adapter at a database file.
    pub fn new(db_path: &str) -> Self {
        SqliteSupplierRepository { db_path: String::from_str(db_path) }
    }

    /// Every live supplier row, decoded.
    fn load(&self) -> Result<Vec<Supplier>, Error> {
        let rows = match fetch_rows(self.db_path.as_str(), SUPPLIERS_SELECT) {
            Ok(v) => v,
            Err(e) => {
                return Err(e);
            },
        };
        decode_suppliers(&rows)
    }

    /// Every live supply row, decoded; the supplier search narrows by
    /// owned supply names.
    fn load_supplies(&self) -> Result<Vec<Supply>, Error> {
        let rows = match fetch_rows(self.db_path.as_str(), SUPPLIES_SELECT) {
            Ok(v) => v,
            Err(e) => {
                return Err(e);
            },
        };
        decode_supplies(&rows)
    }
}

impl ForSupplierPersistence for SqliteSupplierRepository {
    closed spec fn obeys_model(&self) -> bool {
        false
    }

    closed spec fn suppliers(&self) -> Seq<SupplierV> {
        Seq::empty()
    }

    closed spec fn known_supplies(&self) -> Seq<SupplyV> {
        Seq::empty()
    }

    closed spec fn counter(&self) -> nat {
        0
    }

    proof fn model_consistent(&self) {
    }

    fn duplicate(&self) -> (r: Self) {
        SqliteSupplierRepository { db_path: self.db_path.clone() }
    }

    fn next_id(&mut self) -> (r: Result<SupplierId, Error>) {
        match next_counter_text(
            self.db_path.as_str(),
            "UPDATE suppliers_id_sequence SET value = value + 1 WHERE name = 'supplier_id' RETURNING value",
        ) {
            Ok(s) => Ok(SupplierId::from_trimmed(s)),
            Err(e) => Err(e),
        }
    }

    fn has(&self, ids: &Vec<SupplierId>) -> (r: Result<bool, Error>) {
        let stored = match self.load() {
            Ok(v) => v,
            Err(e) => {
                return Err(e);
            },
        };
        let mut i: usize = 0;
        while i < ids.len()
            decreases ids@.len() - i,
        {
            match supplier_index_of(&stored, &ids[i]) {
                Some(_) => {},
                None => {
                    return Ok(false);
                },
            }
            i = i + 1;
        }
        Ok(true)
    }

    fn list(&self) -> (r: Result<Vec<Supplier>, Error>) {
        self.load()
    }

    fn get(&self, id: &SupplierId) -> (r: Result<Option<Supplier>, Error>)
        ensures
            r matches Ok(Some(s)) ==> s@.id == id@,
    {
        let stored = match self.load() {
            Ok(v) => v,
            Err(e) => {
                return Err(e);
            },
        };
        match supplier_index_of(&stored, id) {
            Some(i) => Ok(Some(stored[i].clone())),
            None => Ok(None),
        }
    }

    fn find(&self, query: &FindSupplierQuery) -> (r: Result<Vec<Supplier>, Error>)
        ensures
            r matches Ok(v) ==> forall|i: int|
                0 <= i < v@.len() ==> (query@.supplier_name matches Some(f) ==> text_contains(
                    (#[trigger] supplier_views(v@)[i]).name,
                    f,
                )),
    {
        let stored = match self.load() {
            Ok(v) => v,
            Err(e) => {
                return Err(e);
            },
        };
        let supplies = match self.load_supplies() {
            Ok(v) => v,
            Err(e) => {
                return Err(e);
            },
        };
        let out = find_suppliers_in(&stored, &supplies, query);
        proof {
            let pred = |pv: SupplierV| supplier_matches(pv, supply_views(supplies@), query@);
            assert forall|i: int| 0 <= i < supplier_views(out@).len() implies pred(
                #[trigger] supplier_views(out@)[i],
            ) by {
                supplier_views(stored@).lemma_filter_pred(pred, i);
            }
        }
        Ok(out)
    }

    fn add(&mut self, supplier: Supplier) -> (r: Result<(), Error>) {
        let conn = match db_open(self.db_path.as_str()) {
            Ok(c) => c,
            Err(e) => {
                return Err(e);
            },
        };
        match db_execute(&conn, "BEGIN", &Vec::new()) {
            Ok(_) => {},
            Err(e) => {
                return Err(e);
            },
        }
        let args = supplier_args(&supplier);
        match run_in_transaction(
            &conn,
            "INSERT INTO suppliers (id, name) VALUES (?1, ?2)",
            &args,
        ) {
            Ok(_) => {},
            Err(e) => {
                return Err(e);
            },
        }
        match db_execute(&conn, "COMMIT", &Vec::new()) {
            Ok(_) => Ok(()),
            Err(e) => Err(e),
        }
    }

    fn save(&mut self, supplier: Supplier) -> (r: Result<(), Error>) {
        let conn = match db_open(self.db_path.as_str()) {
            Ok(c) => c,
            Err(e) => {
                return Err(e);
            },
        };
        match db_execute(&conn, "BEGIN", &Vec::new()) {
            Ok(_) => {},
            Err(e) => {
                return Err(e);
            },
        }
        let args = supplier_args(&supplier);
        let changed = match run_in_transaction(
            &conn,
            "UPDATE suppliers SET name = ?2 WHERE id = ?1 AND deleted_at IS NULL",
            &args,
        ) {
            Ok(n) => n,
            Err(e) => {
                return Err(e);
            },
        };
        if changed == 0 {
            return match db_execute(&conn, "ROLLBACK", &Vec::new()) {
                Ok(_) => Err(
                    Error::InfrastructureError(String::from_str("supplier does not exist.")),
                ),
                Err(e2) => Err(e2),
            };
        }
        match db_execute(&conn, "COMMIT", &Vec::new()) {
            Ok(_) => Ok(()),
            Err(e) => Err(e),
        }
    }

    fn delete(&mut self, id: &SupplierId) -> (r: Result<(), Error>) {
        let conn = match db_open(self.db_path.as_str()) {
            Ok(c) => c,
            Err(e) => {
                return Err(e);
            },
        };
        let args = one_text_arg(id.as_str());
        match db_execute(
            &conn,
            "UPDATE suppliers SET deleted_at = unixepoch() WHERE id = ?1 AND deleted_at IS NULL",
            &args,
        ) {
            Ok(_) => Ok(()),
            Err(e) => Err(e),
        }
    }
}

/// The relational journal repository: one `journals` row per entry and one
/// `journal_records` row per line.
#[derive(Debug)]
pub struct SqliteJournalRepository {
    db_path: String,
}

impl SqliteJournalRepository {
    /// Points the adapter at a database file.
    pub fn new(db_path: &str) -> Self {
        SqliteJournalRepository { db_path: String::from_str(db_path) }
    }

    /// Every live journal, rebuilt from its head row and its line rows.
    fn load(&self) -> Result<Vec<Journal>, Error> {
        let heads = match fetch_rows(self.db_path.as_str(), JOURNALS_SELECT) {
            Ok(v) => v,
            Err(e) => {
                return Err(e);
            },
        };
        let child_rows = match fetch_rows(self.db_path.as_str(), JOURNAL_RECORDS_SELECT) {
            Ok(v) => v,
            Err(e) => {
                return Err(e);
            },
        };
        let children = match decode_journal_children(&child_rows) {
            Ok(v) => v,
            Err(e) => {
                return Err(e);
            },
        };
        assemble_journals(&heads, &children)
    }

    /// Writes every line of a journal inside the open transaction.
    fn insert_records(conn: &rusqlite::Connection, journal: &Journal) -> Result<(), Error> {
        let records = journal.records();
        let mut i: usize = 0;
        while i < records.len()
            decreases records@.len() - i,
        {
            let args = journal_record_args(&records[i], journal.id());
            match run_in_transaction(
                conn,
                "INSERT INTO journal_records (supply_id, supply_name, supplier_id, supplier_name, unit_name, unit_price, quantity, journal_id) VALUES (?1, ?2, ?3, ?4, ?5, ?6, ?7, ?8)",
                &args,
            ) {
                Ok(_) => {},
                Err(e) => {
                    return Err(e);
                },
            }
            i = i + 1;
        }
        Ok(())
    }
}

impl ForJournalPersistence for SqliteJournalRepository {
    closed spec fn obeys_model(&self) -> bool {
        false
    }

    closed spec fn journals(&self) -> Seq<JournalV> {
        Seq::empty()
    }

    closed spec fn counter(&self) -> nat {
        0
    }

    proof fn model_consistent(&self) {
    }

    fn duplicate(&self) -> (r: Self) {
        SqliteJournalRepository { db_path: self.db_path.clone() }
    }

    fn next_id(&mut self) -> (r: Result<JournalId, Error>) {
        match next_counter_text(
            self.db_path.as_str(),
            "UPDATE journals_id_sequence SET value = value + 1 WHERE name = 'journal_id' RETURNING value",
        ) {
            Ok(s) => Ok(JournalId::from_trimmed(s)),
            Err(e) => Err(e),
        }
    }

    fn list(&self) -> (r: Result<Vec<Journal>, Error>)
        ensures
            r matches Ok(v) ==> sorted_by(
                journal_views(v@),
                |a: JournalV, b: JournalV| journal_date_le(a, b),
            ),
    {
        match self.load() {
            Ok(v) => Ok(sort_journals_by_date(v)),
            Err(e) => Err(e),
        }
    }

    fn get(&self, id: &JournalId) -> (r: Result<Option<Journal>, Error>)
        ensures
            r matches Ok(Some(j)) ==> j@.id == id@,
    {
        let stored = match self.load() {
            Ok(v) => v,
            Err(e) => {
                return Err(e);
            },
        };
        match journal_index_of(&stored, id) {
            Some(i) => Ok(Some(stored[i].clone())),
            None => Ok(None),
        }
    }

    fn find(&self, query: &FindJournalsQuery) -> (r: Result<Vec<Journal>, Error>)
        ensures
            r matches Ok(v) ==> {
                &&& sorted_by(journal_views(v@), |a: JournalV, b: JournalV| journal_date_le(a, b))
                &&& forall|i: int|
                    0 <= i < v@.len() ==> journal_matches(
                        #[trigger] journal_views(v@)[i],
                        query@,
                    )
            },
    {
        let stored = match self.load() {
            Ok(v) => v,
            Err(e) => {
                return Err(e);
            },
        };
        let picked = find_journals_in(&stored, query);
        let ghost picked_views = journal_views(picked@);
        let out = sort_journals_by_date(picked);
        proof {
            broadcast use group_to_multiset_ensures;

            let pred = |j: JournalV| journal_matches(j, query@);
            assert forall|i: int| 0 <= i < journal_views(out@).len() implies journal_matches(
                #[trigger] journal_views(out@)[i],
                query@,
            ) by {
                let x = journal_views(out@)[i];
                assert(journal_views(out@).contains(x));
                assert(picked_views.to_multiset().count(x) > 0);
                assert(picked_views.contains(x));
                let k = choose|k: int| 0 <= k < picked_views.len() && picked_views[k] == x;
                journal_views(stored@).lemma_filter_pred(pred, k);
            }
        }
        Ok(out)
    }

    fn add(&mut self, journal: Journal) -> (r: Result<(), Error>) {
        let conn = match db_open(self.db_path.as_str()) {
            Ok(c) => c,
            Err(e) => {
                return Err(e);
            },
        };
        match db_execute(&conn, "BEGIN", &Vec::new()) {
            Ok(_) => {},
            Err(e) => {
                return Err(e);
            },
        }
        let args = journal_head_args(&journal);
        match run_in_transaction(
            &conn,
            "INSERT INTO journals (id, recorded_at) VALUES (?1, ?2)",
            &args,
        ) {
            Ok(_) => {},
            Err(e) => {
                return Err(e);
            },
        }
        match SqliteJournalRepository::insert_records(&conn, &journal) {
            Ok(_) => {},
            Err(e) => {
                return Err(e);
            },
        }
        match db_execute(&conn, "COMMIT", &Vec::new()) {
            Ok(_) => Ok(()),
            Err(e) => Err(e),
        }
    }

    fn save(&mut self, journal: Journal) -> (r: Result<(), Error>) {
        let conn = match db_open(self.db_path.as_str()) {
            Ok(c) => c,
            Err(e) => {
                return Err(e);
            },
        };
        match db_execute(&conn, "BEGIN", &Vec::new()) {
            Ok(_) => {},
            Err(e) => {
                return Err(e);
            },
        }
        let args = journal_head_args(&journal);
        let changed = match run_in_transaction(
            &conn,
            "UPDATE journals SET recorded_at = ?2 WHERE id = ?1 AND deleted_at IS NULL",
            &args,
        ) {
            Ok(n) => n,
            Err(e) => {
                return Err(e);
            },
        };
        if changed == 0 {
            return match db_execute(&conn, "ROLLBACK", &Vec::new()) {
                Ok(_) => Err(
                    Error::InfrastructureError(String::from_str("journal does not exist.")),
                ),
                Err(e2) => Err(e2),
            };
        }
        let del_args = one_text_arg(journal.id().as_str());
        match run_in_transaction(
            &conn,
            "DELETE FROM journal_records WHERE journal_id = ?1",
            &del_args,
        ) {
            Ok(_) => {},
            Err(e) => {
                return Err(e);
            },
        }
        match SqliteJournalRepository::insert_records(&conn, &journal) {
            Ok(_) => {},
            Err(e) => {
                return Err(e);
            },
        }
        match db_execute(&conn, "COMMIT", &Vec::new()) {
            Ok(_) => Ok(()),
            Err(e) => Err(e),
        }
    }

    fn delete(&mut self, id: &JournalId) -> (r: Result<(), Error>) {
        let conn = match db_open(self.db_path.as_str()) {
            Ok(c) => c,
            Err(e) => {
                return Err(e);
            },
        };
        let args = one_text_arg(id.as_str());
        match db_execute(
            &conn,
            "UPDATE journals SET deleted_at = unixepoch() WHERE id = ?1 AND deleted_at IS NULL",
            &args,
        ) {
            Ok(_) => Ok(()),
            Err(e) => Err(e),
        }
    }
}

/// The relational stocktaking repository: one `stocktakings` row per entry
/// and one `stocktaking_records` row per line.
#[derive(Debug)]
pub struct SqliteStocktakingRepository {
    db_path: String,
}

impl SqliteStocktakingRepository {
    /// Points the adapter at a database file.
    pub fn new(db_path: &str) -> Self {
        SqliteStocktakingRepository { db_path: String::from_str(db_path) }
    }

    /// Every live stocktaking, rebuilt from its head row and its line rows.
    fn load(&self) -> Result<Vec<Stocktaking>, Error> {
        let heads = match fetch_rows(self.db_path.as_str(), STOCKTAKINGS_SELECT) {
            Ok(v) => v,
            Err(e) => {
                return Err(e);
            },
        };
        let child_rows = match fetch_rows(self.db_path.as_str(), STOCKTAKING_RECORDS_SELECT) {
            Ok(v) => v,
            Err(e) => {
                return Err(e);
            },
        };
        let children = match decode_stocktaking_children(&child_rows) {
            Ok(v) => v,
            Err(e) => {
                return Err(e);
            },
        };
        assemble_stocktakings(&heads, &children)
    }

    /// Writes every line of a stocktaking inside the open transaction.
    fn insert_records(conn: &rusqlite::Connection, stocktaking: &Stocktaking) -> Result<(), Error> {
        let records = stocktaking.records();
        let mut i: usize = 0;
        while i < records.len()
            decreases records@.len() - i,
        {
            let args = stocktaking_record_args(&records[i], stocktaking.id());
            match run_in_transaction(
                conn,
                "INSERT INTO stocktaking_records (supply_id, supply_name, unit_name, unit_price, quantity, stocktaking_id) VALUES (?1, ?2, ?3, ?4, ?5, ?6)",
                &args,
            ) {
                Ok(_) => {},
                Err(e) => {
                    return Err(e);
                },
            }
            i = i + 1;
        }
        Ok(())
    }
}

impl ForStocktakingPersistence for SqliteStocktakingRepository {
    closed spec fn obeys_model(&self) -> bool {
        false
    }

    closed spec fn stocktakings(&self) -> Seq<StocktakingV> {
        Seq::empty()
    }

    closed spec fn counter(&self) -> nat {
        0
    }

    proof fn model_consistent(&self) {
    }

    fn duplicate(&self) -> (r: Self) {
        SqliteStocktakingRepository { db_path: self.db_path.clone() }
    }

    fn next_id(&mut self) -> (r: Result<StocktakingId, Error>) {
        match next_counter_text(
            self.db_path.as_str(),
            "UPDATE stocktakings_id_sequence SET value = value + 1 WHERE name = 'stocktaking_id' RETURNING value",
        ) {
            Ok(s) => Ok(StocktakingId::from_trimmed(s)),
            Err(e) => Err(e),
        }
    }

    fn list(&self) -> (r: Result<Vec<Stocktaking>, Error>)
        ensures
            r matches Ok(v) ==> sorted_by(
                stocktaking_views(v@),
                |a: StocktakingV, b: StocktakingV| stocktaking_date_ge(a, b),
            ),
    {
        match self.load() {
            Ok(v) => Ok(sort_stocktakings_by_date(v)),
            Err(e) => Err(e),
        }
    }

    fn get(&self, id: &StocktakingId) -> (r: Result<Option<Stocktaking>, Error>)
        ensures
            r matches Ok(Some(t)) ==> t@.id == id@,
    {
        let stored = match self.load() {
            Ok(v) => v,
            Err(e) => {
                return Err(e);
            },
        };
        match stocktaking_index_of(&stored, id) {
            Some(i) => Ok(Some(stored[i].clone())),
            None => Ok(None),
        }
    }

    fn find(&self, query: &FindStocktakingsQuery) -> (r: Result<Vec<Stocktaking>, Error>)
        ensures
            r matches Ok(v) ==> {
                &&& sorted_by(
                    stocktaking_views(v@),
                    |a: StocktakingV, b: StocktakingV| stocktaking_date_ge(a, b),
                )
                &&& forall|i: int|
                    0 <= i < v@.len() ==> stocktaking_matches(
                        #[trigger] stocktaking_views(v@)[i],
                        query@,
                    )
            },
    {
        let stored = match self.load() {
            Ok(v) => v,
            Err(e) => {
                return Err(e);
            },
        };
        let picked = find_stocktakings_in(&stored, query);
        let ghost picked_views = stocktaking_views(picked@);
        let out = sort_stocktakings_by_date(picked);
        proof {
            broadcast use group_to_multiset_ensures;

            let pred = |t: StocktakingV| stocktaking_matches(t, query@);
            assert forall|i: int| 0 <= i < stocktaking_views(out@).len()
                implies stocktaking_matches(#[trigger] stocktaking_views(out@)[i], query@) by {
                let x = stocktaking_views(out@)[i];
                assert(stocktaking_views(out@).contains(x));
                assert(picked_views.to_multiset().count(x) > 0);
                assert(picked_views.contains(x));
                let k = choose|k: int| 0 <= k < picked_views.len() && picked_views[k] == x;
                stocktaking_views(stored@).lemma_filter_pred(pred, k);
            }
        }
        Ok(out)
    }

    fn add(&mut self, stocktaking: Stocktaking) -> (r: Result<(), Error>) {
        let conn = match db_open(self.db_path.as_str()) {
            Ok(c) => c,
            Err(e) => {
                return Err(e);
            },
        };
        match db_execute(&conn, "BEGIN", &Vec::new()) {
            Ok(_) => {},
            Err(e) => {
                return Err(e);
            },
        }
        let args = stocktaking_head_args(&stocktaking);
        match run_in_transaction(
            &conn,
            "INSERT INTO stocktakings (id, stocktaken_at) VALUES (?1, ?2)",
            &args,
        ) {
            Ok(_) => {},
            Err(e) => {
                return Err(e);
            },
        }
        match SqliteStocktakingRepository::insert_records(&conn, &stocktaking) {
            Ok(_) => {},
            Err(e) => {
                return Err(e);
            },
        }
        match db_execute(&conn, "COMMIT", &Vec::new()) {
            Ok(_) => Ok(()),
            Err(e) => Err(e),
        }
    }

    fn save(&mut self, stocktaking: Stocktaking) -> (r: Result<(), Error>) {
        let conn = match db_open(self.db_path.as_str()) {
            Ok(c) => c,
            Err(e) => {
                return Err(e);
            },
        };
        match db_execute(&conn, "BEGIN", &Vec::new()) {
            Ok(_) => {},
            Err(e) => {
                return Err(e);
            },
        }
        let args = stocktaking_head_args(&stocktaking);
        let changed = match run_in_transaction(
            &conn,
            "UPDATE stocktakings SET stocktaken_at = ?2 WHERE id = ?1 AND deleted_at IS NULL",
            &args,
        ) {
            Ok(n) => n,
            Err(e) => {
                return Err(e);
            },
        };
        if changed == 0 {
            return match db_execute(&conn, "ROLLBACK", &Vec::new()) {
                Ok(_) => Err(
                    Error::InfrastructureError(String::from_str("stocktaking does not exist.")),
                ),
                Err(e2) => Err(e2),
            };
        }
        let del_args = one_text_arg(stocktaking.id().as_str());
        match run_in_transaction(
            &conn,
            "DELETE FROM stocktaking_records WHERE stocktaking_id = ?1",
            &del_args,
        ) {
            Ok(_) => {},
            Err(e) => {
                return Err(e);
            },
        }
        match SqliteStocktakingRepository::insert_records(&conn, &stocktaking) {
            Ok(_) => {},
            Err(e) => {
                return Err(e);
            },
        }
        match db_execute(&conn, "COMMIT", &Vec::new()) {
            Ok(_) => Ok(()),
            Err(e) => Err(e),
        }
    }

    fn delete(&mut self, id: &StocktakingId) -> (r: Result<(), Error>) {
        let conn = match db_open(self.db_path.as_str()) {
            Ok(c) => c,
            Err(e) => {
                return Err(e);
            },
        };
        let args = one_text_arg(id.as_str());
        match db_execute(
            &conn,
            "UPDATE stocktakings SET deleted_at = unixepoch() WHERE id = ?1 AND deleted_at IS NULL",
            &args,
        ) {
            Ok(_) => Ok(()),
            Err(e) => Err(e),
        }
    }
}

} // verus!
