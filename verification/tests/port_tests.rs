//! The repository port semantics that the services lean on: empty `has`
//! input, add on a taken identifier, save on an absent identifier,
//! idempotent delete, and the supplier search narrowed by owned supplies.

use stocker::dto::SearchSuppliersQuery;
use stocker::entities::{Supplier, Supply};
use stocker::mock::{MockSupplierRepository, MockSupplyRepository, Storage};
use stocker::ports::{ForSupplierPersistence, ForSupplyPersistence};
use stocker::supplier_service::SupplierService;
use stocker::values::{SupplierId, SupplierName, SupplyId, SupplyName, UnitName};

fn a_supply(id: &str, name: &str) -> Supply {
    Supply::new(
        SupplyId::new(id).unwrap(),
        SupplyName::new(name).unwrap(),
        UnitName::new("g").unwrap(),
        SupplierId::new("1").unwrap(),
    )
}

#[test]
fn has_with_no_identifiers_is_true() {
    let repository = MockSupplyRepository::new(Storage::default());
    assert!(repository.has(&Vec::new()).unwrap());
}

#[test]
fn add_refuses_a_taken_identifier() {
    let mut repository = MockSupplyRepository::new(Storage::default());
    repository.add(a_supply("1", "SupplyA")).unwrap();

    let result = repository.add(a_supply("1", "SupplyB"));
    assert!(result.err().unwrap().is_infrastructure());
    assert_eq!(repository.list().unwrap().len(), 1);
}

#[test]
fn save_on_an_absent_identifier_is_an_error() {
    // A save that matches nothing is reported, not silently dropped.
    let mut repository = MockSupplyRepository::new(Storage::default());
    let result = repository.save(a_supply("1", "SupplyA"));
    assert!(result.err().unwrap().is_infrastructure());
    assert!(repository.list().unwrap().is_empty());
}

#[test]
fn repeated_delete_is_idempotent() {
    let mut repository = MockSupplyRepository::new(Storage::default());
    repository.add(a_supply("1", "SupplyA")).unwrap();

    let id = SupplyId::new("1").unwrap();
    repository.delete(&id).unwrap();
    repository.delete(&id).unwrap();
    assert!(repository.list().unwrap().is_empty());
    assert!(repository.get(&id).unwrap().is_none());
}

#[test]
fn deleted_identifiers_are_never_reissued() {
    let mut suppliers = MockSupplierRepository::new(Storage::default());
    suppliers
        .add(Supplier::restore(
            SupplierId::new("1").unwrap(),
            SupplierName::new("SupplierA").unwrap(),
        ))
        .unwrap();
    let mut service = stocker::supply_service::SupplyService::new(
        MockSupplyRepository::new(Storage::default()),
        suppliers,
    );

    let first = service
        .register(stocker::dto::CreateSupplyCommand {
            supplier_id: "1".into(),
            supply_name: "SupplyA".into(),
            unit_name: "g".into(),
        })
        .unwrap();
    assert_eq!(first.id, "1");

    service.delete("1").unwrap();
    assert!(service.list().unwrap().is_empty());

    let second = service
        .register(stocker::dto::CreateSupplyCommand {
            supplier_id: "1".into(),
            supply_name: "SupplyB".into(),
            unit_name: "g".into(),
        })
        .unwrap();
    assert_eq!(second.id, "2");
}

#[test]
fn supplier_search_narrows_by_owned_supply_names() {
    let mut suppliers = MockSupplierRepository::new(Storage::default());
    suppliers
        .add(Supplier::restore(
            SupplierId::new("1").unwrap(),
            SupplierName::new("SupplierA").unwrap(),
        ))
        .unwrap();
    suppliers
        .add(Supplier::restore(
            SupplierId::new("2").unwrap(),
            SupplierName::new("SupplierB").unwrap(),
        ))
        .unwrap();

    // Only SupplierA owns a supply whose name contains "Flour".
    let mut supplies = MockSupplyRepository::new(suppliers.into_storage());
    supplies.add(a_supply("1", "Flour")).unwrap();

    let mut service = SupplierService::new(MockSupplierRepository::new(supplies.into_storage()));

    let hits = service
        .search(SearchSuppliersQuery {
            supplier_name: Some("Supplier".into()),
            supply_name: Some("Flour".into()),
        })
        .unwrap();
    assert_eq!(hits.len(), 1);
    assert_eq!(hits[0].name, "SupplierA");

    let unrestricted = service
        .search(SearchSuppliersQuery {
            supplier_name: Some("Supplier".into()),
            supply_name: None,
        })
        .unwrap();
    assert_eq!(unrestricted.len(), 2);
}
