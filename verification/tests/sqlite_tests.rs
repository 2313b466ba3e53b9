//! The relational adapters against a real database file: counter
//! reservation, round trips through the tables, reconstruction of parent
//! and child rows, search, and soft deletion.

use stocker::dto::{GetStocktakingQuery, RecordStocktakingCommand, StocktakingRecordDTO};
use stocker::entities::{Journal, Stocktaking, Supplier, Supply};
use stocker::ports::{
    ForJournalPersistence, ForStocktakingPersistence, ForSupplierPersistence, ForSupplyPersistence,
};
use stocker::queries::{FindJournalsQuery, FindSupplierQuery, FindSuppliesQuery};
use stocker::sqlite_repos::{
    SqliteJournalRepository, SqliteStocktakingRepository, SqliteSupplierRepository,
    SqliteSupplyRepository,
};
use stocker::stocktaking_service::StocktakingService;
use stocker::values::{
    EntryDateTime, JournalId, JournalRecord, PurchaseQuantity, PurchaseUnitPrice,
    StocktakenDateTime, StocktakingId, SupplierId, SupplierName, SupplyId, SupplyName, UnitName,
};

const SCHEMA: &str = "
    DROP TABLE IF EXISTS suppliers;
    DROP TABLE IF EXISTS supplies;
    DROP TABLE IF EXISTS journals;
    DROP TABLE IF EXISTS journal_records;
    DROP TABLE IF EXISTS stocktakings;
    DROP TABLE IF EXISTS stocktaking_records;
    DROP TABLE IF EXISTS suppliers_id_sequence;
    DROP TABLE IF EXISTS supplies_id_sequence;
    DROP TABLE IF EXISTS journals_id_sequence;
    DROP TABLE IF EXISTS stocktakings_id_sequence;
    CREATE TABLE suppliers (id TEXT PRIMARY KEY, name TEXT NOT NULL, deleted_at INTEGER);
    CREATE TABLE supplies (id TEXT PRIMARY KEY, name TEXT NOT NULL, unit_name TEXT NOT NULL, supplier_id TEXT NOT NULL, deleted_at INTEGER);
    CREATE TABLE journals (id TEXT PRIMARY KEY, recorded_at INTEGER NOT NULL, deleted_at INTEGER);
    CREATE TABLE journal_records (id INTEGER PRIMARY KEY AUTOINCREMENT, supply_id TEXT NOT NULL, supply_name TEXT NOT NULL, supplier_id TEXT NOT NULL, supplier_name TEXT NOT NULL, unit_name TEXT NOT NULL, unit_price INTEGER NOT NULL, quantity INTEGER NOT NULL, journal_id TEXT NOT NULL);
    CREATE TABLE stocktakings (id TEXT PRIMARY KEY, stocktaken_at INTEGER NOT NULL, deleted_at INTEGER);
    CREATE TABLE stocktaking_records (id INTEGER PRIMARY KEY AUTOINCREMENT, supply_id TEXT NOT NULL, supply_name TEXT NOT NULL, unit_name TEXT NOT NULL, unit_price INTEGER NOT NULL, quantity INTEGER NOT NULL, stocktaking_id TEXT NOT NULL);
    CREATE TABLE suppliers_id_sequence (name TEXT PRIMARY KEY, value INTEGER NOT NULL);
    CREATE TABLE supplies_id_sequence (name TEXT PRIMARY KEY, value INTEGER NOT NULL);
    CREATE TABLE journals_id_sequence (name TEXT PRIMARY KEY, value INTEGER NOT NULL);
    CREATE TABLE stocktakings_id_sequence (name TEXT PRIMARY KEY, value INTEGER NOT NULL);
    INSERT INTO suppliers_id_sequence (name, value) VALUES ('supplier_id', 0);
    INSERT INTO supplies_id_sequence (name, value) VALUES ('supply_id', 0);
    INSERT INTO journals_id_sequence (name, value) VALUES ('journal_id', 0);
    INSERT INTO stocktakings_id_sequence (name, value) VALUES ('stocktaking_id', 0);
";

fn fresh_db(path: &str) {
    let conn = rusqlite::Connection::open(path).unwrap();
    conn.execute_batch(SCHEMA).unwrap();
}

#[test]
fn supplier_repository_test() {
    let path = "/tmp/supplier_repository_test.db";
    fresh_db(path);

    let mut repository = SqliteSupplierRepository::new(path);

    let next_id = repository.next_id().unwrap();

    assert_eq!(next_id, SupplierId::new("1").unwrap());

    let supplier = Supplier::restore(next_id.clone(), SupplierName::new("SupplierA").unwrap());

    repository.add(supplier).unwrap();

    let has_suppliers = repository.has(&vec![next_id]).unwrap();

    assert!(has_suppliers);

    let supplier = repository.get(&SupplierId::new("1").unwrap()).unwrap();

    assert!(supplier.is_some_and(|supplier| {
        assert_eq!(supplier.id(), &SupplierId::new("1").unwrap());
        assert_eq!(supplier.name(), &SupplierName::new("SupplierA").unwrap());
        true
    }));

    let suppliers = repository.list().unwrap();

    assert!(suppliers.first().is_some_and(|supplier| {
        assert_eq!(supplier.id(), &SupplierId::new("1").unwrap());
        assert_eq!(supplier.name(), &SupplierName::new("SupplierA").unwrap());
        true
    }));

    let suppliers = repository
        .find(&FindSupplierQuery {
            supplier_name: Some(SupplierName::new("A").unwrap()),
            supply_name: None,
        })
        .unwrap();

    assert!(suppliers.first().is_some_and(|supplier| {
        assert_eq!(supplier.id(), &SupplierId::new("1").unwrap());
        assert_eq!(supplier.name(), &SupplierName::new("SupplierA").unwrap());
        true
    }));

    repository
        .save(Supplier::restore(
            SupplierId::new("1").unwrap(),
            SupplierName::new("SupplierB").unwrap(),
        ))
        .unwrap();

    let supplier = repository.get(&SupplierId::new("1").unwrap()).unwrap();

    assert!(supplier.is_some_and(|supplier| {
        assert_eq!(supplier.id(), &SupplierId::new("1").unwrap());
        assert_eq!(supplier.name(), &SupplierName::new("SupplierB").unwrap());
        true
    }));
}

#[test]
fn supply_repository_test() {
    let path = "/tmp/supply_repository_test.db";
    fresh_db(path);
    {
        let conn = rusqlite::Connection::open(path).unwrap();
        conn.execute_batch(
            "INSERT INTO suppliers (id, name) VALUES (1, 'SupplierA'), (2, 'SupplierB')",
        )
        .unwrap();
    }

    let mut repository = SqliteSupplyRepository::new(path);

    let next_id = repository.next_id().unwrap();
    assert_eq!(next_id, SupplyId::new("1").unwrap());

    repository
        .add(Supply::new(
            next_id.clone(),
            SupplyName::new("SupplyA").unwrap(),
            UnitName::new("g").unwrap(),
            SupplierId::new("1").unwrap(),
        ))
        .unwrap();

    assert!(repository.has(&vec![next_id]).unwrap());
    assert!(!repository.has(&vec![SupplyId::new("9").unwrap()]).unwrap());

    let supply = repository.get(&SupplyId::new("1").unwrap()).unwrap().unwrap();
    assert_eq!(supply.name(), &SupplyName::new("SupplyA").unwrap());
    assert_eq!(supply.unit_name(), &UnitName::new("g").unwrap());
    assert_eq!(supply.supplier_id(), &SupplierId::new("1").unwrap());

    assert_eq!(repository.list().unwrap().len(), 1);

    let hits = repository
        .find(&FindSuppliesQuery {
            supply_name: Some(SupplyName::new("A").unwrap()),
            supplier_name: Some(SupplierName::new("SupplierA").unwrap()),
        })
        .unwrap();
    assert_eq!(hits.len(), 1);

    let misses = repository
        .find(&FindSuppliesQuery {
            supply_name: Some(SupplyName::new("B").unwrap()),
            supplier_name: None,
        })
        .unwrap();
    assert!(misses.is_empty());

    repository
        .save(Supply::new(
            SupplyId::new("1").unwrap(),
            SupplyName::new("SupplyB").unwrap(),
            UnitName::new("kg").unwrap(),
            SupplierId::new("2").unwrap(),
        ))
        .unwrap();

    let supply = repository.get(&SupplyId::new("1").unwrap()).unwrap().unwrap();
    assert_eq!(supply.name(), &SupplyName::new("SupplyB").unwrap());

    repository.delete(&SupplyId::new("1").unwrap()).unwrap();
    assert!(repository.get(&SupplyId::new("1").unwrap()).unwrap().is_none());
    assert!(repository.list().unwrap().is_empty());
}

#[test]
fn journal_repository_test() {
    let path = "/tmp/journal_repository_test.db";
    fresh_db(path);

    let mut repository = SqliteJournalRepository::new(path);

    let next_id = repository.next_id().unwrap();
    assert_eq!(next_id, JournalId::new("1").unwrap());

    let record_one = JournalRecord::new(
        SupplyId::new("1").unwrap(),
        SupplyName::new("SupplyA").unwrap(),
        SupplierId::new("1").unwrap(),
        SupplierName::new("SupplierA").unwrap(),
        UnitName::new("g").unwrap(),
        PurchaseUnitPrice::new(100).unwrap(),
        PurchaseQuantity::new(10).unwrap(),
    );
    let record_two = JournalRecord::new(
        SupplyId::new("2").unwrap(),
        SupplyName::new("SupplyB").unwrap(),
        SupplierId::new("1").unwrap(),
        SupplierName::new("SupplierA").unwrap(),
        UnitName::new("g").unwrap(),
        PurchaseUnitPrice::new(120).unwrap(),
        PurchaseQuantity::new(15).unwrap(),
    );

    repository
        .add(Journal::restore(
            next_id,
            EntryDateTime::new(200000),
            vec![record_one, record_two],
        ))
        .unwrap();

    let journal = repository.get(&JournalId::new("1").unwrap()).unwrap().unwrap();
    assert_eq!(journal.entry_datetime().as_i64(), 200000);
    assert_eq!(journal.records().len(), 2);
    assert_eq!(
        journal.records()[0].supply_name(),
        &SupplyName::new("SupplyA").unwrap()
    );
    assert_eq!(journal.records()[1].unit_price().as_u32(), 120);

    let listed = repository.list().unwrap();
    assert_eq!(listed.len(), 1);
    assert_eq!(listed[0].records().len(), 2);

    // Replacing the record collection is wholesale.
    let record_three = JournalRecord::new(
        SupplyId::new("3").unwrap(),
        SupplyName::new("SupplyC").unwrap(),
        SupplierId::new("1").unwrap(),
        SupplierName::new("SupplierA").unwrap(),
        UnitName::new("g").unwrap(),
        PurchaseUnitPrice::new(130).unwrap(),
        PurchaseQuantity::new(15).unwrap(),
    );
    repository
        .save(Journal::restore(
            JournalId::new("1").unwrap(),
            EntryDateTime::new(300000),
            vec![record_three],
        ))
        .unwrap();

    let journal = repository.get(&JournalId::new("1").unwrap()).unwrap().unwrap();
    assert_eq!(journal.entry_datetime().as_i64(), 300000);
    assert_eq!(journal.records().len(), 1);
    assert_eq!(
        journal.records()[0].supply_name(),
        &SupplyName::new("SupplyC").unwrap()
    );

    let hits = repository
        .find(&FindJournalsQuery {
            period_start: Some(EntryDateTime::new(100000)),
            period_end: Some(EntryDateTime::new(300000)),
            supplier_name: None,
            supply_name: Some(SupplyName::new("C").unwrap()),
        })
        .unwrap();
    assert_eq!(hits.len(), 1);

    let misses = repository
        .find(&FindJournalsQuery {
            period_start: Some(EntryDateTime::new(100000)),
            period_end: Some(EntryDateTime::new(150000)),
            supplier_name: None,
            supply_name: None,
        })
        .unwrap();
    assert!(misses.is_empty());
}

#[test]
fn stocktaking_repository_test() {
    let path = "/tmp/stocktaking_repository_test.db";
    fresh_db(path);

    let mut repository = SqliteStocktakingRepository::new(path);

    let next_id = repository.next_id().unwrap();
    assert_eq!(next_id, StocktakingId::new("1").unwrap());

    let record = stocker::values::StocktakingRecord::new(
        SupplyId::new("1").unwrap(),
        SupplyName::new("SupplyA").unwrap(),
        UnitName::new("g").unwrap(),
        stocker::values::StocktakingUnitPrice::new(100).unwrap(),
        stocker::values::StocktakingQuantity::new(10).unwrap(),
    );

    repository
        .add(Stocktaking::restore(
            next_id,
            StocktakenDateTime::new(200000),
            vec![record.clone()],
        ))
        .unwrap();

    let second = repository.next_id().unwrap();
    assert_eq!(second, StocktakingId::new("2").unwrap());
    repository
        .add(Stocktaking::restore(
            second,
            StocktakenDateTime::new(240000),
            vec![record],
        ))
        .unwrap();

    let listed = repository.list().unwrap();
    assert_eq!(listed.len(), 2);
    // Descending by date.
    assert_eq!(listed[0].stocktaken_at().as_i64(), 240000);
    assert_eq!(listed[1].stocktaken_at().as_i64(), 200000);

    let fetched = repository.get(&StocktakingId::new("1").unwrap()).unwrap().unwrap();
    assert_eq!(fetched.records().len(), 1);
    assert_eq!(fetched.records()[0].unit_price().as_u32(), 100);

    let replacement = stocker::values::StocktakingRecord::new(
        SupplyId::new("1").unwrap(),
        SupplyName::new("SupplyB").unwrap(),
        UnitName::new("kg").unwrap(),
        stocker::values::StocktakingUnitPrice::new(140).unwrap(),
        stocker::values::StocktakingQuantity::new(15).unwrap(),
    );
    repository
        .save(Stocktaking::restore(
            StocktakingId::new("1").unwrap(),
            StocktakenDateTime::new(300000),
            vec![replacement],
        ))
        .unwrap();

    let fetched = repository.get(&StocktakingId::new("1").unwrap()).unwrap().unwrap();
    assert_eq!(fetched.stocktaken_at().as_i64(), 300000);
    assert_eq!(
        fetched.records()[0].supply_name(),
        &SupplyName::new("SupplyB").unwrap()
    );
}

#[test]
fn deleted_stocktaking_leaves_its_row_behind() {
    let path = "/tmp/stocktaking_soft_delete_test.db";
    fresh_db(path);
    {
        let conn = rusqlite::Connection::open(path).unwrap();
        conn.execute_batch(
            "INSERT INTO suppliers (id, name) VALUES ('1', 'SupplierA');
             INSERT INTO supplies (id, name, unit_name, supplier_id) VALUES ('1', 'SupplyA', 'g', '1');",
        )
        .unwrap();
    }

    let mut service = StocktakingService::new(
        SqliteSupplyRepository::new(path),
        SqliteStocktakingRepository::new(path),
    );

    let recorded = service
        .record(RecordStocktakingCommand {
            stocktaken_date: 100000,
            records: vec![StocktakingRecordDTO {
                supply_id: "1".into(),
                supply_name: "SupplyA".into(),
                unit_name: "g".into(),
                unit_price: 100,
                quantity: 10,
            }],
        })
        .unwrap();

    assert_eq!(service.list().unwrap().len(), 1);

    service.delete(&recorded.id).unwrap();

    // The aggregate is gone from every read...
    assert!(service.list().unwrap().is_empty());
    assert!(service
        .get(GetStocktakingQuery {
            stocktaking_id: recorded.id.clone(),
        })
        .unwrap()
        .is_none());

    // ...while the underlying row is still present, with the marker set.
    let conn = rusqlite::Connection::open(path).unwrap();
    let (count, marked): (i64, i64) = conn
        .query_row(
            "SELECT COUNT(*), COUNT(deleted_at) FROM stocktakings",
            [],
            |row| Ok((row.get(0)?, row.get(1)?)),
        )
        .unwrap();
    assert_eq!(count, 1);
    assert_eq!(marked, 1);
}
