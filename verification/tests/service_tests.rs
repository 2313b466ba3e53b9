//! The use-case services over the in-memory repositories.

use stocker::dto::{
    CreateSupplyCommand, EditJournalCommand, EditStocktakingCommand, GetJournalQuery,
    GetStocktakingQuery, GetSupplierQuery, GetSupplyQuery, JournalDTO, JournalRecordDTO,
    RecordJournalCommand, RecordStocktakingCommand, RegisterSupplierCommand, StocktakingDTO,
    StocktakingRecordDTO, SupplierDTO, SupplyDTO, UpdateSupplierCommand, UpdateSupplyCommand,
};
use stocker::entities::{Supplier, Supply};
use stocker::journal_service::JournalService;
use stocker::mock::{
    MockJournalRepository, MockStocktakingRepository, MockSupplierRepository, MockSupplyRepository,
    Storage,
};
use stocker::ports::{ForSupplierPersistence, ForSupplyPersistence};
use stocker::stocktaking_service::StocktakingService;
use stocker::supplier_service::SupplierService;
use stocker::supply_service::SupplyService;
use stocker::values::{SupplierId, SupplierName, SupplyId, SupplyName, UnitName};

#[test]
fn supply_service_test() {
    let mut supplier_repository = MockSupplierRepository::new(Storage::default());

    supplier_repository
        .add(Supplier::restore(
            SupplierId::new("1").unwrap(),
            SupplierName::new("SupplierA").unwrap(),
        ))
        .unwrap();

    let mut service = SupplyService::new(
        MockSupplyRepository::new(Storage::default()),
        supplier_repository,
    );

    let create_command = CreateSupplyCommand {
        supplier_id: "1".into(),
        supply_name: "SupplyA".into(),
        unit_name: "g".into(),
    };

    let supply = service.register(create_command).unwrap();

    assert_eq!(
        supply,
        SupplyDTO {
            id: "1".into(),
            name: "SupplyA".into(),
            unit_name: "g".into(),
            supplier_id: "1".into(),
        }
    );

    let supplies = service.list().unwrap();

    assert_eq!(
        supplies,
        vec![SupplyDTO {
            id: "1".into(),
            name: "SupplyA".into(),
            unit_name: "g".into(),
            supplier_id: "1".into(),
        }]
    );

    let supply = service
        .get(GetSupplyQuery {
            supply_id: "1".into(),
        })
        .unwrap();

    assert_eq!(
        supply,
        Some(SupplyDTO {
            id: "1".into(),
            name: "SupplyA".into(),
            unit_name: "g".into(),
            supplier_id: "1".into(),
        })
    );

    let result = service.update(UpdateSupplyCommand {
        supply_id: "1".into(),
        supply_name: "SupplyB".into(),
        unit_name: "kg".into(),
        supplier_id: "1".into(),
    });

    assert!(result.is_ok());

    let supply = service
        .get(GetSupplyQuery {
            supply_id: "1".into(),
        })
        .unwrap();

    assert_eq!(
        supply,
        Some(SupplyDTO {
            id: "1".into(),
            name: "SupplyB".into(),
            unit_name: "kg".into(),
            supplier_id: "1".into(),
        })
    );

    let result = service.update(UpdateSupplyCommand {
        supply_id: "2".into(),
        supply_name: "SupplyB".into(),
        unit_name: "kg".into(),
        supplier_id: "1".into(),
    });

    assert!(result.is_err());

    let result = service.update(UpdateSupplyCommand {
        supply_id: "1".into(),
        supply_name: "SupplyB".into(),
        unit_name: "kg".into(),
        supplier_id: "2".into(),
    });

    assert!(result.is_err());
}

#[test]
fn supplier_service_test() {
    let mut service = SupplierService::new(MockSupplierRepository::new(Storage::default()));

    service
        .register(RegisterSupplierCommand {
            supplier_name: "SupplierA".into(),
        })
        .unwrap();

    let suppliers = service.list().unwrap();

    assert_eq!(
        suppliers,
        vec![SupplierDTO {
            id: "1".into(),
            name: "SupplierA".into(),
        }]
    );

    let supplier = service
        .get(GetSupplierQuery {
            supplier_id: "1".into(),
        })
        .unwrap();

    assert_eq!(
        supplier,
        Some(SupplierDTO {
            id: "1".into(),
            name: "SupplierA".into(),
        })
    );

    service
        .update(UpdateSupplierCommand {
            supplier_id: "1".into(),
            supplier_name: "SupplierB".into(),
        })
        .unwrap();

    let supplier = service
        .get(GetSupplierQuery {
            supplier_id: "1".into(),
        })
        .unwrap();

    assert_eq!(
        supplier,
        Some(SupplierDTO {
            id: "1".into(),
            name: "SupplierB".into(),
        })
    );
}

fn seeded_supply_repository() -> MockSupplyRepository {
    let mut supply_repository = MockSupplyRepository::new(Storage::default());

    supply_repository
        .add(Supply::new(
            SupplyId::new("1").unwrap(),
            SupplyName::new("SupplyA").unwrap(),
            UnitName::new("g").unwrap(),
            SupplierId::new("1").unwrap(),
        ))
        .unwrap();

    supply_repository
        .add(Supply::new(
            SupplyId::new("2").unwrap(),
            SupplyName::new("SupplyB").unwrap(),
            UnitName::new("g").unwrap(),
            SupplierId::new("1").unwrap(),
        ))
        .unwrap();

    supply_repository
}

fn seeded_supplier_repository() -> MockSupplierRepository {
    let mut supplier_repository = MockSupplierRepository::new(Storage::default());

    supplier_repository
        .add(Supplier::restore(
            SupplierId::new("1").unwrap(),
            SupplierName::new("SupplierA").unwrap(),
        ))
        .unwrap();

    supplier_repository
}

#[test]
fn journal_service_test() {
    let mut service = JournalService::new(
        seeded_supply_repository(),
        seeded_supplier_repository(),
        MockJournalRepository::new(Storage::default()),
    );

    service
        .record(RecordJournalCommand {
            entry_date: 100000,
            records: vec![
                JournalRecordDTO {
                    supply_id: "1".into(),
                    supplier_id: "1".into(),
                    supply_name: "SupplyA".into(),
                    supplier_name: "SupplierA".into(),
                    unit_name: "g".into(),
                    unit_price: 100,
                    quantity: 10,
                },
                JournalRecordDTO {
                    supply_id: "2".into(),
                    supplier_id: "1".into(),
                    supply_name: "SupplyB".into(),
                    supplier_name: "SupplierA".into(),
                    unit_name: "g".into(),
                    unit_price: 120,
                    quantity: 5,
                },
            ],
        })
        .unwrap();

    let journals = service.list().unwrap();

    assert_eq!(
        journals,
        vec![JournalDTO {
            id: "1".into(),
            entry_date: 100000,
            records: vec![
                JournalRecordDTO {
                    supply_id: "1".into(),
                    supplier_id: "1".into(),
                    supply_name: "SupplyA".into(),
                    supplier_name: "SupplierA".into(),
                    unit_name: "g".into(),
                    unit_price: 100,
                    quantity: 10,
                },
                JournalRecordDTO {
                    supply_id: "2".into(),
                    supplier_id: "1".into(),
                    supply_name: "SupplyB".into(),
                    supplier_name: "SupplierA".into(),
                    unit_name: "g".into(),
                    unit_price: 120,
                    quantity: 5,
                },
            ],
        }]
    );

    let journal = service
        .get(GetJournalQuery {
            journal_id: "1".into(),
        })
        .unwrap();

    assert_eq!(
        journal,
        Some(JournalDTO {
            id: "1".into(),
            entry_date: 100000,
            records: vec![
                JournalRecordDTO {
                    supply_id: "1".into(),
                    supplier_id: "1".into(),
                    supply_name: "SupplyA".into(),
                    supplier_name: "SupplierA".into(),
                    unit_name: "g".into(),
                    unit_price: 100,
                    quantity: 10,
                },
                JournalRecordDTO {
                    supply_id: "2".into(),
                    supplier_id: "1".into(),
                    supply_name: "SupplyB".into(),
                    supplier_name: "SupplierA".into(),
                    unit_name: "g".into(),
                    unit_price: 120,
                    quantity: 5,
                },
            ],
        })
    );

    service
        .edit(EditJournalCommand {
            journal_id: "1".into(),
            entry_date: 200000,
            records: vec![JournalRecordDTO {
                supply_id: "2".into(),
                supplier_id: "1".into(),
                supply_name: "SupplyB".into(),
                supplier_name: "SupplierC".into(),
                unit_name: "g".into(),
                unit_price: 200,
                quantity: 10,
            }],
        })
        .unwrap();

    let journal = service
        .get(GetJournalQuery {
            journal_id: "1".into(),
        })
        .unwrap();

    assert_eq!(
        journal,
        Some(JournalDTO {
            id: "1".into(),
            entry_date: 100000,
            records: vec![JournalRecordDTO {
                supply_id: "2".into(),
                supplier_id: "1".into(),
                supply_name: "SupplyB".into(),
                supplier_name: "SupplierC".into(),
                unit_name: "g".into(),
                unit_price: 200,
                quantity: 10,
            },],
        })
    );
}

#[test]
fn stocktaking_service_test() {
    let mut service = StocktakingService::new(
        seeded_supply_repository(),
        MockStocktakingRepository::new(Storage::default()),
    );

    service
        .record(RecordStocktakingCommand {
            stocktaken_date: 100000,
            records: vec![
                StocktakingRecordDTO {
                    supply_id: "1".into(),
                    supply_name: "SupplyA".into(),
                    unit_name: "g".into(),
                    unit_price: 100,
                    quantity: 10,
                },
                StocktakingRecordDTO {
                    supply_id: "2".into(),
                    supply_name: "SupplyB".into(),
                    unit_name: "g".into(),
                    unit_price: 150,
                    quantity: 15,
                },
            ],
        })
        .unwrap();

    let stocktakings = service.list().unwrap();

    assert_eq!(
        stocktakings,
        vec![StocktakingDTO {
            id: "1".into(),
            stocktaken_date: 100000,
            records: vec![
                StocktakingRecordDTO {
                    supply_id: "1".into(),
                    supply_name: "SupplyA".into(),
                    unit_name: "g".into(),
                    unit_price: 100,
                    quantity: 10,
                },
                StocktakingRecordDTO {
                    supply_id: "2".into(),
                    supply_name: "SupplyB".into(),
                    unit_name: "g".into(),
                    unit_price: 150,
                    quantity: 15,
                },
            ],
        }],
    );

    let stocktaking = service
        .get(GetStocktakingQuery {
            stocktaking_id: "1".into(),
        })
        .unwrap();

    assert_eq!(
        stocktaking,
        Some(StocktakingDTO {
            id: "1".into(),
            stocktaken_date: 100000,
            records: vec![
                StocktakingRecordDTO {
                    supply_id: "1".into(),
                    supply_name: "SupplyA".into(),
                    unit_name: "g".into(),
                    unit_price: 100,
                    quantity: 10,
                },
                StocktakingRecordDTO {
                    supply_id: "2".into(),
                    supply_name: "SupplyB".into(),
                    unit_name: "g".into(),
                    unit_price: 150,
                    quantity: 15,
                },
            ],
        })
    );

    service
        .edit(EditStocktakingCommand {
            stocktaking_id: "1".into(),
            stocktaken_date: 200000,
            records: vec![StocktakingRecordDTO {
                supply_id: "1".into(),
                supply_name: "SupplyA".into(),
                unit_name: "kg".into(),
                unit_price: 150,
                quantity: 5,
            }],
        })
        .unwrap();

    let stocktaking = service
        .get(GetStocktakingQuery {
            stocktaking_id: "1".into(),
        })
        .unwrap();

    assert_eq!(
        stocktaking,
        Some(StocktakingDTO {
            id: "1".into(),
            stocktaken_date: 100000,
            records: vec![StocktakingRecordDTO {
                supply_id: "1".into(),
                supply_name: "SupplyA".into(),
                unit_name: "kg".into(),
                unit_price: 150,
                quantity: 5,
            },],
        })
    );
}

#[test]
fn update_missing_supply_leaves_list_unchanged() {
    let mut service = SupplyService::new(
        seeded_supply_repository(),
        seeded_supplier_repository(),
    );

    let before = service.list().unwrap();

    let result = service.update(UpdateSupplyCommand {
        supply_id: "9".into(),
        supply_name: "SupplyZ".into(),
        unit_name: "kg".into(),
        supplier_id: "1".into(),
    });

    assert!(result.is_err());
    assert!(result.err().unwrap().is_domain());
    assert_eq!(service.list().unwrap(), before);
}

#[test]
fn record_with_missing_supply_writes_nothing() {
    let mut service = JournalService::new(
        seeded_supply_repository(),
        seeded_supplier_repository(),
        MockJournalRepository::new(Storage::default()),
    );

    let result = service.record(RecordJournalCommand {
        entry_date: 100000,
        records: vec![JournalRecordDTO {
            supply_id: "9".into(),
            supplier_id: "1".into(),
            supply_name: "SupplyZ".into(),
            supplier_name: "SupplierA".into(),
            unit_name: "g".into(),
            unit_price: 100,
            quantity: 10,
        }],
    });

    assert!(result.is_err());
    assert!(result.err().unwrap().is_domain());
    assert_eq!(service.list().unwrap(), Vec::<JournalDTO>::new());
}

#[test]
fn register_then_get_round_trips() {
    let mut supplier_repository = MockSupplierRepository::new(Storage::default());
    supplier_repository
        .add(Supplier::restore(
            SupplierId::new("1").unwrap(),
            SupplierName::new("SupplierA").unwrap(),
        ))
        .unwrap();

    let mut service = SupplyService::new(
        MockSupplyRepository::new(Storage::default()),
        supplier_repository,
    );

    let registered = service
        .register(CreateSupplyCommand {
            supplier_id: "1".into(),
            supply_name: "  SupplyA  ".into(),
            unit_name: " g ".into(),
        })
        .unwrap();

    let fetched = service
        .get(GetSupplyQuery {
            supply_id: registered.id.clone(),
        })
        .unwrap();

    assert_eq!(fetched, Some(registered));
}
