//! The value objects: trimming, rejection of blank input, and fixed-point
//! prices and quantities.

use stocker::values::{
    EntryDateTime, JournalId, PurchasePrice, PurchaseQuantity, PurchaseUnitPrice,
    StocktakenDateTime, StocktakingId, StocktakingPrice, StocktakingQuantity,
    StocktakingUnitPrice, SupplierId, SupplierName, SupplyId, SupplyName, UnitName,
};

#[test]
fn names_round_trip_trimmed() {
    assert_eq!(SupplyName::new("  SupplyA  ").unwrap().as_str(), "SupplyA");
    assert_eq!(SupplierName::new("\tSupplierA\n").unwrap().as_str(), "SupplierA");
    assert_eq!(UnitName::new(" g ").unwrap().as_str(), "g");
    assert_eq!(SupplyId::new("1").unwrap().as_str(), "1");
    assert_eq!(SupplierId::new(" 7 ").unwrap().as_str(), "7");
    assert_eq!(JournalId::new("12").unwrap().as_str(), "12");
    assert_eq!(StocktakingId::new(" 3").unwrap().as_str(), "3");
    assert_eq!(SupplyName::new("a b").unwrap().as_str(), "a b");
}

#[test]
fn blank_input_is_rejected_everywhere() {
    assert!(SupplyId::new("").err().unwrap().is_domain());
    assert!(SupplyName::new("   ").err().unwrap().is_domain());
    assert!(SupplierId::new("\t\n").err().unwrap().is_domain());
    assert!(SupplierName::new("").err().unwrap().is_domain());
    assert!(JournalId::new("  ").err().unwrap().is_domain());
    assert!(StocktakingId::new("").err().unwrap().is_domain());
    assert!(UnitName::new(" \u{3000} ").err().unwrap().is_domain());
}

#[test]
fn prices_hold_exact_hundredths() {
    // Two-decimal inputs survive the trip through the fixed-point form.
    let hundredths = (10.0_f64 * 100.0).trunc() as u32;
    let price = PurchaseUnitPrice::new(hundredths).unwrap();
    assert_eq!(price.as_u32(), 1000);
    assert_eq!(price.as_u32() as f64 / 100.0, 10.0);

    let hundredths = (19.99_f64 * 100.0).round() as u32;
    let quantity = PurchaseQuantity::new(hundredths).unwrap();
    assert_eq!(quantity.as_u32() as f64 / 100.0, 19.99);
}

#[test]
fn zero_prices_are_rejected() {
    assert!(PurchaseUnitPrice::new(0).err().unwrap().is_domain());
    assert!(StocktakingPrice::new(0).err().unwrap().is_domain());
    assert!(PurchaseUnitPrice::new(1).is_ok());
    assert_eq!(StocktakingPrice::new(250).unwrap().as_f64(), 250);
}

#[test]
fn unchecked_scalars_accept_everything() {
    assert_eq!(PurchaseQuantity::new(0).unwrap().as_u32(), 0);
    assert_eq!(PurchasePrice::new(0).unwrap().as_u32(), 0);
    assert_eq!(StocktakingQuantity::new(77).unwrap().as_u32(), 77);
    assert_eq!(StocktakingUnitPrice::new(0).unwrap().as_u32(), 0);
    assert_eq!(EntryDateTime::new(-5).as_i64(), -5);
    assert_eq!(StocktakenDateTime::new(100000).as_i64(), 100000);
}
