//! The search semantics: substring filters over snapshotted record names,
//! inclusive period windows, blank filters, and result ordering.

use stocker::dto::{
    JournalRecordDTO, RecordJournalCommand, RecordStocktakingCommand, RegisterSupplierCommand,
    CreateSupplyCommand, EditJournalCommand, SearchJournalsQuery, SearchStocktakingQuery,
    SearchSuppliersQuery, SearchSuppliesQuery,
};
use stocker::entities::{Supplier, Supply};
use stocker::journal_service::JournalService;
use stocker::mock::{
    MockJournalRepository, MockStocktakingRepository, MockSupplierRepository, MockSupplyRepository,
    Storage,
};
use stocker::stocktaking_service::StocktakingService;
use stocker::ports::{ForSupplierPersistence, ForSupplyPersistence};

use stocker::stocker::{Ports, Stocker};
use stocker::supplier_service::SupplierService;
use stocker::supply_service::SupplyService;
use stocker::values::{SupplierId, SupplierName, SupplyId, SupplyName, UnitName};

fn demo_stocker() -> Stocker<
    MockSupplyRepository,
    MockSupplierRepository,
    MockJournalRepository,
    MockStocktakingRepository,
> {
    Stocker::plug(Ports {
        for_supply_persistence: MockSupplyRepository::new(Storage::default()),
        for_supplier_persistence: MockSupplierRepository::new(Storage::default()),
        for_journal_persistence: MockJournalRepository::new(Storage::default()),
        for_stocktaking_persistence: MockStocktakingRepository::new(Storage::default()),
    })
}

#[test]
fn one_journal_with_two_lines_in_insertion_order() {
    let mut suppliers = SupplierService::new(MockSupplierRepository::new(Storage::default()));
    let supplier = suppliers
        .register(RegisterSupplierCommand {
            supplier_name: "SupplierA".into(),
        })
        .unwrap();
    assert_eq!(supplier.id, "1");

    let mut supplies = SupplyService::new(
        MockSupplyRepository::new(Storage::default()),
        suppliers.supplier_repository,
    );
    let supply = supplies
        .register(CreateSupplyCommand {
            supplier_id: "1".into(),
            supply_name: "SupplyA".into(),
            unit_name: "g".into(),
        })
        .unwrap();
    assert_eq!(supply.id, "1");
    assert_eq!(supply.supplier_id, "1");

    let mut journals = JournalService::new(
        supplies.supply_repository,
        supplies.supplier_repository,
        MockJournalRepository::new(Storage::default()),
    );

    let line_one = JournalRecordDTO {
        supply_id: "1".into(),
        supply_name: "SupplyA".into(),
        supplier_id: "1".into(),
        supplier_name: "SupplierA".into(),
        unit_name: "g".into(),
        unit_price: 100,
        quantity: 10,
    };
    let line_two = JournalRecordDTO {
        unit_price: 120,
        quantity: 5,
        ..line_one.clone()
    };

    let recorded = journals.record(RecordJournalCommand {
        entry_date: 100000,
        records: vec![line_one.clone(), line_two.clone()],
    });
    assert!(recorded.is_ok());

    let listed = journals.list().unwrap();
    assert_eq!(listed.len(), 1);
    assert_eq!(listed[0].records, vec![line_one, line_two]);
}

#[test]
fn journal_search_reads_the_snapshotted_names() {
    let mut journals = JournalService::new(
        {
            let mut r = MockSupplyRepository::new(Storage::default());
            r.add(Supply::new(
                SupplyId::new("1").unwrap(),
                SupplyName::new("SupplyA").unwrap(),
                UnitName::new("g").unwrap(),
                SupplierId::new("1").unwrap(),
            ))
            .unwrap();
            r.add(Supply::new(
                SupplyId::new("2").unwrap(),
                SupplyName::new("SupplyB").unwrap(),
                UnitName::new("g").unwrap(),
                SupplierId::new("1").unwrap(),
            ))
            .unwrap();
            r
        },
        {
            let mut r = MockSupplierRepository::new(Storage::default());
            r.add(Supplier::restore(
                SupplierId::new("1").unwrap(),
                SupplierName::new("SupplierA").unwrap(),
            ))
            .unwrap();
            r
        },
        MockJournalRepository::new(Storage::default()),
    );

    journals
        .record(RecordJournalCommand {
            entry_date: 100000,
            records: vec![JournalRecordDTO {
                supply_id: "1".into(),
                supply_name: "SupplyA".into(),
                supplier_id: "1".into(),
                supplier_name: "SupplierA".into(),
                unit_name: "g".into(),
                unit_price: 100,
                quantity: 10,
            }],
        })
        .unwrap();

    // Rewrite the only line so its snapshot reads SupplyB / SupplierC even
    // though no supplier named SupplierC exists.
    journals
        .edit(EditJournalCommand {
            journal_id: "1".into(),
            entry_date: 100000,
            records: vec![JournalRecordDTO {
                supply_id: "2".into(),
                supply_name: "SupplyB".into(),
                supplier_id: "1".into(),
                supplier_name: "SupplierC".into(),
                unit_name: "g".into(),
                unit_price: 100,
                quantity: 10,
            }],
        })
        .unwrap();

    let hits = journals
        .search(SearchJournalsQuery {
            period_start: None,
            period_end: None,
            supply_name: Some("B".into()),
            supplier_name: Some("C".into()),
        })
        .unwrap();
    assert_eq!(hits.len(), 1);
    assert_eq!(hits[0].id, "1");

    let misses = journals
        .search(SearchJournalsQuery {
            period_start: None,
            period_end: None,
            supply_name: Some("Z".into()),
            supplier_name: None,
        })
        .unwrap();
    assert!(misses.is_empty());

    // A blank filter matches everything.
    let all = journals
        .search(SearchJournalsQuery {
            period_start: None,
            period_end: None,
            supply_name: Some("   ".into()),
            supplier_name: None,
        })
        .unwrap();
    assert_eq!(all.len(), 1);
}

#[test]
fn journal_search_orders_by_date_ascending() {
    let stocker = demo_stocker();
    let mut suppliers = stocker.supplier_usecase();
    suppliers
        .register(RegisterSupplierCommand {
            supplier_name: "SupplierA".into(),
        })
        .unwrap();
    let mut supplies = SupplyService::new(
        MockSupplyRepository::new(Storage::default()),
        suppliers.supplier_repository,
    );
    supplies
        .register(CreateSupplyCommand {
            supplier_id: "1".into(),
            supply_name: "SupplyA".into(),
            unit_name: "g".into(),
        })
        .unwrap();
    let mut journals = JournalService::new(
        supplies.supply_repository,
        supplies.supplier_repository,
        MockJournalRepository::new(Storage::default()),
    );

    let line = JournalRecordDTO {
        supply_id: "1".into(),
        supply_name: "SupplyA".into(),
        supplier_id: "1".into(),
        supplier_name: "SupplierA".into(),
        unit_name: "g".into(),
        unit_price: 100,
        quantity: 10,
    };
    journals
        .record(RecordJournalCommand {
            entry_date: 300000,
            records: vec![line.clone()],
        })
        .unwrap();
    journals
        .record(RecordJournalCommand {
            entry_date: 100000,
            records: vec![line.clone()],
        })
        .unwrap();
    journals
        .record(RecordJournalCommand {
            entry_date: 200000,
            records: vec![line],
        })
        .unwrap();

    let hits = journals
        .search(SearchJournalsQuery {
            period_start: Some(100000),
            period_end: Some(300000),
            supply_name: None,
            supplier_name: None,
        })
        .unwrap();
    let dates: Vec<i64> = hits.iter().map(|j| j.entry_date).collect();
    assert_eq!(dates, vec![100000, 200000, 300000]);

    let window = journals
        .search(SearchJournalsQuery {
            period_start: Some(100001),
            period_end: Some(299999),
            supply_name: None,
            supplier_name: None,
        })
        .unwrap();
    assert_eq!(window.len(), 1);
    assert_eq!(window[0].entry_date, 200000);
}

#[test]
fn stocktaking_search_orders_by_date_descending() {
    let mut supplies = MockSupplyRepository::new(Storage::default());
    supplies
        .add(Supply::new(
            SupplyId::new("1").unwrap(),
            SupplyName::new("SupplyA").unwrap(),
            UnitName::new("g").unwrap(),
            SupplierId::new("1").unwrap(),
        ))
        .unwrap();
    let mut service = StocktakingService::new(
        supplies,
        MockStocktakingRepository::new(Storage::default()),
    );

    let line = stocker::dto::StocktakingRecordDTO {
        supply_id: "1".into(),
        supply_name: "SupplyA".into(),
        unit_name: "g".into(),
        unit_price: 100,
        quantity: 10,
    };
    for date in [100000_i64, 300000, 200000] {
        service
            .record(RecordStocktakingCommand {
                stocktaken_date: date,
                records: vec![line.clone()],
            })
            .unwrap();
    }

    let hits = service
        .search(SearchStocktakingQuery {
            period_start: Some(100000),
            period_end: Some(300000),
        })
        .unwrap();
    let dates: Vec<i64> = hits.iter().map(|t| t.stocktaken_date).collect();
    assert_eq!(dates, vec![300000, 200000, 100000]);
}

#[test]
fn supply_and_supplier_search_filter_by_substrings() {
    let mut suppliers = SupplierService::new(MockSupplierRepository::new(Storage::default()));
    suppliers
        .register(RegisterSupplierCommand {
            supplier_name: "SupplierA".into(),
        })
        .unwrap();
    suppliers
        .register(RegisterSupplierCommand {
            supplier_name: "OtherB".into(),
        })
        .unwrap();

    let arena = suppliers.supplier_repository.into_storage();
    let mut supplies = SupplyService::new(
        MockSupplyRepository::new(arena.clone()),
        MockSupplierRepository::new(arena),
    );
    supplies
        .register(CreateSupplyCommand {
            supplier_id: "1".into(),
            supply_name: "SupplyA".into(),
            unit_name: "g".into(),
        })
        .unwrap();
    supplies
        .register(CreateSupplyCommand {
            supplier_id: "2".into(),
            supply_name: "SupplyB".into(),
            unit_name: "g".into(),
        })
        .unwrap();

    let hits = supplies
        .search(SearchSuppliesQuery {
            supply_name: Some("A".into()),
            supplier_name: None,
        })
        .unwrap();
    assert_eq!(hits.len(), 1);
    assert_eq!(hits[0].name, "SupplyA");

    let hits = supplies
        .search(SearchSuppliesQuery {
            supply_name: None,
            supplier_name: Some("Other".into()),
        })
        .unwrap();
    assert_eq!(hits.len(), 1);
    assert_eq!(hits[0].name, "SupplyB");

    let none = supplies
        .search(SearchSuppliesQuery {
            supply_name: Some("Z".into()),
            supplier_name: None,
        })
        .unwrap();
    assert!(none.is_empty());

    let mut suppliers = SupplierService::new(supplies.supplier_repository);
    let hits = suppliers
        .search(SearchSuppliersQuery {
            supplier_name: Some("Supplier".into()),
            supply_name: None,
        })
        .unwrap();
    assert_eq!(hits.len(), 1);
    assert_eq!(hits[0].name, "SupplierA");
}
