//! Self-validating value objects: identifiers, names, dates, prices and
//! quantities, plus the denormalized line-record values carried by journals
//! and stocktakings.
//!
//! Every string-backed value object stores the trimmed form of its input and
//! rejects inputs that trim to nothing; every stored value therefore has the
//! [`is_trim_shaped`] shape. Prices and quantities are unsigned fixed-point
//! integers holding hundredths, so two decimal digits are exact.

use vstd::prelude::*;

use crate::error::Error;
use crate::text::{is_space, is_trim_shaped, trim_text, trimmed};

verus! {

/// A string value object constructor succeeds exactly when the input has at
/// least one non-whitespace character.
pub open spec fn some_ink(s: Seq<char>) -> bool {
    !(forall|i: int| 0 <= i < s.len() ==> is_space(#[trigger] s[i]))
}

/// The identifier of a supplier: a non-empty trimmed string.
#[derive(Debug)]
pub struct SupplierId {
    value: String,
}

impl View for SupplierId {
    type V = Seq<char>;

    closed spec fn view(&self) -> Seq<char> {
        self.value@
    }
}

impl SupplierId {
    /// Every stored value has the trimmed shape.
    #[verifier::type_invariant]
    closed spec fn inv(&self) -> bool {
        is_trim_shaped(self.value@)
    }

    /// Trims the input and wraps it; fails with a domain error when nothing
    /// but whitespace remains.
    pub fn new(value: &str) -> (r: Result<Self, Error>)
        ensures
            r is Ok <==> some_ink(value@),
            r matches Ok(v) ==> v@ == trimmed(value@) && is_trim_shaped(v@),
            r matches Err(e) ==> e is DomainError,
    {
        let t = trim_text(value);
        if t.as_str().is_empty() {
            Err(Error::DomainError(String::from_str("empty string cannot be set")))
        } else {
            Ok(SupplierId { value: t })
        }
    }

    /// The stored (trimmed) text.
    pub fn as_str(&self) -> (r: &str)
        ensures
            r@ == self@,
    {
        self.value.as_str()
    }

    /// Wraps text that already has the trimmed shape.
    pub(crate) fn from_trimmed(value: String) -> (r: Self)
        requires
            is_trim_shaped(value@),
        ensures
            r@ == value@,
    {
        SupplierId { value }
    }
}

impl Clone for SupplierId {
    fn clone(&self) -> (r: Self)
        ensures
            r == *self,
    {
        proof {
            use_type_invariant(self);
        }
        SupplierId { value: self.value.clone() }
    }
}

impl PartialEq for SupplierId {
    fn eq(&self, other: &Self) -> (r: bool) {
        self.value == other.value
    }
}

impl vstd::std_specs::cmp::PartialEqSpecImpl for SupplierId {
    open spec fn obeys_eq_spec() -> bool {
        true
    }

    open spec fn eq_spec(&self, other: &Self) -> bool {
        self@ == other@
    }
}

/// The display name of a supplier: a non-empty trimmed string.
#[derive(Debug)]
pub struct SupplierName {
    value: String,
}

impl View for SupplierName {
    type V = Seq<char>;

    closed spec fn view(&self) -> Seq<char> {
        self.value@
    }
}

impl SupplierName {
    /// Every stored value has the trimmed shape.
    #[verifier::type_invariant]
    closed spec fn inv(&self) -> bool {
        is_trim_shaped(self.value@)
    }

    /// Trims the input and wraps it; fails with a domain error when nothing
    /// but whitespace remains.
    pub fn new(value: &str) -> (r: Result<Self, Error>)
        ensures
            r is Ok <==> some_ink(value@),
            r matches Ok(v) ==> v@ == trimmed(value@) && is_trim_shaped(v@),
            r matches Err(e) ==> e is DomainError,
    {
        let t = trim_text(value);
        if t.as_str().is_empty() {
            Err(Error::DomainError(String::from_str("empty string cannot be set")))
        } else {
            Ok(SupplierName { value: t })
        }
    }

    /// The stored (trimmed) text.
    pub fn as_str(&self) -> (r: &str)
        ensures
            r@ == self@,
    {
        self.value.as_str()
    }

    /// Wraps text that already has the trimmed shape.
    pub(crate) fn from_trimmed(value: String) -> (r: Self)
        requires
            is_trim_shaped(value@),
        ensures
            r@ == value@,
    {
        SupplierName { value }
    }
}

impl Clone for SupplierName {
    fn clone(&self) -> (r: Self)
        ensures
            r == *self,
    {
        proof {
            use_type_invariant(self);
        }
        SupplierName { value: self.value.clone() }
    }
}

impl PartialEq for SupplierName {
    fn eq(&self, other: &Self) -> (r: bool) {
        self.value == other.value
    }
}

impl vstd::std_specs::cmp::PartialEqSpecImpl for SupplierName {
    open spec fn obeys_eq_spec() -> bool {
        true
    }

    open spec fn eq_spec(&self, other: &Self) -> bool {
        self@ == other@
    }
}

/// The identifier of a supply: a non-empty trimmed string.
#[derive(Debug)]
pub struct SupplyId {
    value: String,
}

impl View for SupplyId {
    type V = Seq<char>;

    closed spec fn view(&self) -> Seq<char> {
        self.value@
    }
}

impl SupplyId {
    /// Every stored value has the trimmed shape.
    #[verifier::type_invariant]
    closed spec fn inv(&self) -> bool {
        is_trim_shaped(self.value@)
    }

    /// Trims the input and wraps it; fails with a domain error when nothing
    /// but whitespace remains.
    pub fn new(value: &str) -> (r: Result<Self, Error>)
        ensures
            r is Ok <==> some_ink(value@),
            r matches Ok(v) ==> v@ == trimmed(value@) && is_trim_shaped(v@),
            r matches Err(e) ==> e is DomainError,
    {
        let t = trim_text(value);
        if t.as_str().is_empty() {
            Err(Error::DomainError(String::from_str("empty string cannot be set")))
        } else {
            Ok(SupplyId { value: t })
        }
    }

    /// The stored (trimmed) text.
    pub fn as_str(&self) -> (r: &str)
        ensures
            r@ == self@,
    {
        self.value.as_str()
    }

    /// Wraps text that already has the trimmed shape.
    pub(crate) fn from_trimmed(value: String) -> (r: Self)
        requires
            is_trim_shaped(value@),
        ensures
            r@ == value@,
    {
        SupplyId { value }
    }
}

impl Clone for SupplyId {
    fn clone(&self) -> (r: Self)
        ensures
            r == *self,
    {
        proof {
            use_type_invariant(self);
        }
        SupplyId { value: self.value.clone() }
    }
}

impl PartialEq for SupplyId {
    fn eq(&self, other: &Self) -> (r: bool) {
        self.value == other.value
    }
}

impl vstd::std_specs::cmp::PartialEqSpecImpl for SupplyId {
    open spec fn obeys_eq_spec() -> bool {
        true
    }

    open spec fn eq_spec(&self, other: &Self) -> bool {
        self@ == other@
    }
}

/// The display name of a supply: a non-empty trimmed string.
#[derive(Debug)]
pub struct SupplyName {
    value: String,
}

impl View for SupplyName {
    type V = Seq<char>;

    closed spec fn view(&self) -> Seq<char> {
        self.value@
    }
}

impl SupplyName {
    /// Every stored value has the trimmed shape.
    #[verifier::type_invariant]
    closed spec fn inv(&self) -> bool {
        is_trim_shaped(self.value@)
    }

    /// Trims the input and wraps it; fails with a domain error when nothing
    /// but whitespace remains.
    pub fn new(value: &str) -> (r: Result<Self, Error>)
        ensures
            r is Ok <==> some_ink(value@),
            r matches Ok(v) ==> v@ == trimmed(value@) && is_trim_shaped(v@),
            r matches Err(e) ==> e is DomainError,
    {
        let t = trim_text(value);
        if t.as_str().is_empty() {
            Err(Error::DomainError(String::from_str("empty string cannot be set")))
        } else {
            Ok(SupplyName { value: t })
        }
    }

    /// The stored (trimmed) text.
    pub fn as_str(&self) -> (r: &str)
        ensures
            r@ == self@,
    {
        self.value.as_str()
    }

    /// Wraps text that already has the trimmed shape.
    pub(crate) fn from_trimmed(value: String) -> (r: Self)
        requires
            is_trim_shaped(value@),
        ensures
            r@ == value@,
    {
        SupplyName { value }
    }
}

impl Clone for SupplyName {
    fn clone(&self) -> (r: Self)
        ensures
            r == *self,
    {
        proof {
            use_type_invariant(self);
        }
        SupplyName { value: self.value.clone() }
    }
}

impl PartialEq for SupplyName {
    fn eq(&self, other: &Self) -> (r: bool) {
        self.value == other.value
    }
}

impl vstd::std_specs::cmp::PartialEqSpecImpl for SupplyName {
    open spec fn obeys_eq_spec() -> bool {
        true
    }

    open spec fn eq_spec(&self, other: &Self) -> bool {
        self@ == other@
    }
}

/// The identifier of a journal entry: a non-empty trimmed string.
#[derive(Debug)]
pub struct JournalId {
    value: String,
}

impl View for JournalId {
    type V = Seq<char>;

    closed spec fn view(&self) -> Seq<char> {
        self.value@
    }
}

impl JournalId {
    /// Every stored value has the trimmed shape.
    #[verifier::type_invariant]
    closed spec fn inv(&self) -> bool {
        is_trim_shaped(self.value@)
    }

    /// Trims the input and wraps it; fails with a domain error when nothing
    /// but whitespace remains.
    pub fn new(value: &str) -> (r: Result<Self, Error>)
        ensures
            r is Ok <==> some_ink(value@),
            r matches Ok(v) ==> v@ == trimmed(value@) && is_trim_shaped(v@),
            r matches Err(e) ==> e is DomainError,
    {
        let t = trim_text(value);
        if t.as_str().is_empty() {
            Err(Error::DomainError(String::from_str("empty string cannot be set")))
        } else {
            Ok(JournalId { value: t })
        }
    }

    /// The stored (trimmed) text.
    pub fn as_str(&self) -> (r: &str)
        ensures
            r@ == self@,
    {
        self.value.as_str()
    }

    /// Wraps text that already has the trimmed shape.
    pub(crate) fn from_trimmed(value: String) -> (r: Self)
        requires
            is_trim_shaped(value@),
        ensures
            r@ == value@,
    {
        JournalId { value }
    }
}

impl Clone for JournalId {
    fn clone(&self) -> (r: Self)
        ensures
            r == *self,
    {
        proof {
            use_type_invariant(self);
        }
        JournalId { value: self.value.clone() }
    }
}

impl PartialEq for JournalId {
    fn eq(&self, other: &Self) -> (r: bool) {
        self.value == other.value
    }
}

impl vstd::std_specs::cmp::PartialEqSpecImpl for JournalId {
    open spec fn obeys_eq_spec() -> bool {
        true
    }

    open spec fn eq_spec(&self, other: &Self) -> bool {
        self@ == other@
    }
}

/// The identifier of a stocktaking entry: a non-empty trimmed string.
#[derive(Debug)]
pub struct StocktakingId {
    value: String,
}

impl View for StocktakingId {
    type V = Seq<char>;

    closed spec fn view(&self) -> Seq<char> {
        self.value@
    }
}

impl StocktakingId {
    /// Every stored value has the trimmed shape.
    #[verifier::type_invariant]
    closed spec fn inv(&self) -> bool {
        is_trim_shaped(self.value@)
    }

    /// Trims the input and wraps it; fails with a domain error when nothing
    /// but whitespace remains.
    pub fn new(value: &str) -> (r: Result<Self, Error>)
        ensures
            r is Ok <==> some_ink(value@),
            r matches Ok(v) ==> v@ == trimmed(value@) && is_trim_shaped(v@),
            r matches Err(e) ==> e is DomainError,
    {
        let t = trim_text(value);
        if t.as_str().is_empty() {
            Err(Error::DomainError(String::from_str("empty string cannot be set")))
        } else {
            Ok(StocktakingId { value: t })
        }
    }

    /// The stored (trimmed) text.
    pub fn as_str(&self) -> (r: &str)
        ensures
            r@ == self@,
    {
        self.value.as_str()
    }

    /// Wraps text that already has the trimmed shape.
    pub(crate) fn from_trimmed(value: String) -> (r: Self)
        requires
            is_trim_shaped(value@),
        ensures
            r@ == value@,
    {
        StocktakingId { value }
    }
}

impl Clone for StocktakingId {
    fn clone(&self) -> (r: Self)
        ensures
            r == *self,
    {
        proof {
            use_type_invariant(self);
        }
        StocktakingId { value: self.value.clone() }
    }
}

impl PartialEq for StocktakingId {
    fn eq(&self, other: &Self) -> (r: bool) {
        self.value == other.value
    }
}

impl vstd::std_specs::cmp::PartialEqSpecImpl for StocktakingId {
    open spec fn obeys_eq_spec() -> bool {
        true
    }

    open spec fn eq_spec(&self, other: &Self) -> bool {
        self@ == other@
    }
}

/// The unit a supply is measured in: a non-empty trimmed string.
#[derive(Debug)]
pub struct UnitName {
    value: String,
}

impl View for UnitName {
    type V = Seq<char>;

    closed spec fn view(&self) -> Seq<char> {
        self.value@
    }
}

impl UnitName {
    /// Every stored value has the trimmed shape.
    #[verifier::type_invariant]
    closed spec fn inv(&self) -> bool {
        is_trim_shaped(self.value@)
    }

    /// Trims the input and wraps it; fails with a domain error when nothing
    /// but whitespace remains.
    pub fn new(value: &str) -> (r: Result<Self, Error>)
        ensures
            r is Ok <==> some_ink(value@),
            r matches Ok(v) ==> v@ == trimmed(value@) && is_trim_shaped(v@),
            r matches Err(e) ==> e is DomainError,
    {
        let t = trim_text(value);
        if t.as_str().is_empty() {
            Err(Error::DomainError(String::from_str("empty string cannot be set")))
        } else {
            Ok(UnitName { value: t })
        }
    }

    /// The stored (trimmed) text.
    pub fn as_str(&self) -> (r: &str)
        ensures
            r@ == self@,
    {
        self.value.as_str()
    }

    /// Wraps text that already has the trimmed shape.
    pub(crate) fn from_trimmed(value: String) -> (r: Self)
        requires
            is_trim_shaped(value@),
        ensures
            r@ == value@,
    {
        UnitName { value }
    }
}

impl Clone for UnitName {
    fn clone(&self) -> (r: Self)
        ensures
            r == *self,
    {
        proof {
            use_type_invariant(self);
        }
        UnitName { value: self.value.clone() }
    }
}

impl PartialEq for UnitName {
    fn eq(&self, other: &Self) -> (r: bool) {
        self.value == other.value
    }
}

impl vstd::std_specs::cmp::PartialEqSpecImpl for UnitName {
    open spec fn obeys_eq_spec() -> bool {
        true
    }

    open spec fn eq_spec(&self, other: &Self) -> bool {
        self@ == other@
    }
}

/// The moment a journal entry was recorded, in milliseconds since the epoch.
#[derive(Debug, Clone, Copy, PartialEq, Eq, Structural)]
pub struct EntryDateTime {
    value: i64,
}

impl View for EntryDateTime {
    type V = i64;

    closed spec fn view(&self) -> i64 {
        self.value
    }
}

impl EntryDateTime {
    /// Wraps a timestamp; every value is accepted.
    pub fn new(value: i64) -> (r: Self)
        ensures
            r@ == value,
    {
        EntryDateTime { value }
    }

    /// The wrapped timestamp.
    pub fn as_i64(&self) -> (r: i64)
        ensures
            r == self@,
    {
        self.value
    }
}

/// The moment a stocktaking was taken, in milliseconds since the epoch.
#[derive(Debug, Clone, Copy, PartialEq, Eq, Structural)]
pub struct StocktakenDateTime {
    value: i64,
}

impl View for StocktakenDateTime {
    type V = i64;

    closed spec fn view(&self) -> i64 {
        self.value
    }
}

impl StocktakenDateTime {
    /// Wraps a timestamp; every value is accepted.
    pub fn new(value: i64) -> (r: Self)
        ensures
            r@ == value,
    {
        StocktakenDateTime { value }
    }

    /// The wrapped timestamp.
    pub fn as_i64(&self) -> (r: i64)
        ensures
            r == self@,
    {
        self.value
    }
}

/// The purchase price of one unit, in hundredths; zero is rejected.
#[derive(Debug, Clone, Copy, PartialEq, Eq, Structural)]
pub struct PurchaseUnitPrice {
    value: u32,
}

impl View for PurchaseUnitPrice {
    type V = u32;

    closed spec fn view(&self) -> u32 {
        self.value
    }
}

impl PurchaseUnitPrice {
    /// Every stored price is positive.
    #[verifier::type_invariant]
    closed spec fn inv(&self) -> bool {
        self.value > 0
    }

    /// Wraps a price in hundredths; fails with a domain error on zero.
    pub fn new(value: u32) -> (r: Result<Self, Error>)
        ensures
            r is Ok <==> value > 0,
            r matches Ok(v) ==> v@ == value,
            r matches Err(e) ==> e is DomainError,
    {
        if value == 0 {
            Err(Error::DomainError(String::from_str("price must be greater than 0")))
        } else {
            Ok(PurchaseUnitPrice { value })
        }
    }

    /// The wrapped amount of hundredths.
    pub fn as_u32(&self) -> (r: u32)
        ensures
            r == self@,
    {
        self.value
    }
}

/// The purchased quantity, in hundredths; every value is accepted.
#[derive(Debug, Clone, Copy, PartialEq, Eq, Structural)]
pub struct PurchaseQuantity {
    value: u32,
}

impl View for PurchaseQuantity {
    type V = u32;

    closed spec fn view(&self) -> u32 {
        self.value
    }
}

impl PurchaseQuantity {
    /// Wraps a quantity in hundredths.
    pub fn new(value: u32) -> (r: Result<Self, Error>)
        ensures
            r matches Ok(v) && v@ == value,
    {
        Ok(PurchaseQuantity { value })
    }

    /// The wrapped amount of hundredths.
    pub fn as_u32(&self) -> (r: u32)
        ensures
            r == self@,
    {
        self.value
    }
}

/// A purchase total, in hundredths; every value is accepted.
#[derive(Debug, Clone, Copy, PartialEq, Eq, Structural)]
pub struct PurchasePrice {
    value: u32,
}

impl View for PurchasePrice {
    type V = u32;

    closed spec fn view(&self) -> u32 {
        self.value
    }
}

impl PurchasePrice {
    /// Wraps a total in hundredths.
    pub fn new(value: u32) -> (r: Result<Self, Error>)
        ensures
            r matches Ok(v) && v@ == value,
    {
        Ok(PurchasePrice { value })
    }

    /// The wrapped amount of hundredths.
    pub fn as_u32(&self) -> (r: u32)
        ensures
            r == self@,
    {
        self.value
    }
}

/// The counted quantity of a stocktaking line, in hundredths.
#[derive(Debug, Clone, Copy, PartialEq, Eq, Structural)]
pub struct StocktakingQuantity {
    value: u32,
}

impl View for StocktakingQuantity {
    type V = u32;

    closed spec fn view(&self) -> u32 {
        self.value
    }
}

impl StocktakingQuantity {
    /// Wraps a quantity in hundredths.
    pub fn new(value: u32) -> (r: Result<Self, Error>)
        ensures
            r matches Ok(v) && v@ == value,
    {
        Ok(StocktakingQuantity { value })
    }

    /// The wrapped amount of hundredths.
    pub fn as_u32(&self) -> (r: u32)
        ensures
            r == self@,
    {
        self.value
    }
}

/// The unit price recorded on a stocktaking line, in hundredths.
#[derive(Debug, Clone, Copy, PartialEq, Eq, Structural)]
pub struct StocktakingUnitPrice {
    value: u32,
}

impl View for StocktakingUnitPrice {
    type V = u32;

    closed spec fn view(&self) -> u32 {
        self.value
    }
}

impl StocktakingUnitPrice {
    /// Wraps a price in hundredths.
    pub fn new(value: u32) -> (r: Result<Self, Error>)
        ensures
            r matches Ok(v) && v@ == value,
    {
        Ok(StocktakingUnitPrice { value })
    }

    /// The wrapped amount of hundredths.
    pub fn as_u32(&self) -> (r: u32)
        ensures
            r == self@,
    {
        self.value
    }
}

/// A stocktaking total, in hundredths; zero is rejected.
#[derive(Debug, Clone, Copy, PartialEq, Eq, Structural)]
pub struct StocktakingPrice {
    value: u32,
}

impl View for StocktakingPrice {
    type V = u32;

    closed spec fn view(&self) -> u32 {
        self.value
    }
}

impl StocktakingPrice {
    /// Every stored price is positive.
    #[verifier::type_invariant]
    closed spec fn inv(&self) -> bool {
        self.value > 0
    }

    /// Wraps a total in hundredths; fails with a domain error on zero.
    pub fn new(value: u32) -> (r: Result<Self, Error>)
        ensures
            r is Ok <==> value > 0,
            r matches Ok(v) ==> v@ == value,
            r matches Err(e) ==> e is DomainError,
    {
        if value == 0 {
            Err(Error::DomainError(String::from_str("price must be greater than 0")))
        } else {
            Ok(StocktakingPrice { value })
        }
    }

    /// The wrapped amount of hundredths. The reading divides by one hundred
    /// at the boundary; inside the library the value stays integral.
    pub fn as_f64(&self) -> (r: u32)
        ensures
            r == self@,
    {
        self.value
    }
}

/// The mathematical content of a journal line record.
pub struct JournalRecordV {
    pub supply_id: Seq<char>,
    pub supply_name: Seq<char>,
    pub supplier_id: Seq<char>,
    pub supplier_name: Seq<char>,
    pub unit_name: Seq<char>,
    pub unit_price: u32,
    pub quantity: u32,
}

/// One line of a journal entry: a denormalized snapshot of the supply and
/// supplier identity at the moment of recording, with unit, price and
/// quantity.
#[derive(Debug)]
pub struct JournalRecord {
    supply_id: SupplyId,
    supply_name: SupplyName,
    supplier_id: SupplierId,
    supplier_name: SupplierName,
    unit_name: UnitName,
    unit_price: PurchaseUnitPrice,
    quantity: PurchaseQuantity,
}

impl View for JournalRecord {
    type V = JournalRecordV;

    closed spec fn view(&self) -> JournalRecordV {
        JournalRecordV {
            supply_id: self.supply_id@,
            supply_name: self.supply_name@,
            supplier_id: self.supplier_id@,
            supplier_name: self.supplier_name@,
            unit_name: self.unit_name@,
            unit_price: self.unit_price@,
            quantity: self.quantity@,
        }
    }
}

impl JournalRecord {
    /// Assembles a line record from already-validated value objects.
    pub fn new(
        supply_id: SupplyId,
        supply_name: SupplyName,
        supplier_id: SupplierId,
        supplier_name: SupplierName,
        unit_name: UnitName,
        unit_price: PurchaseUnitPrice,
        quantity: PurchaseQuantity,
    ) -> (r: Self)
        ensures
            r@.supply_id == supply_id@,
            r@.supply_name == supply_name@,
            r@.supplier_id == supplier_id@,
            r@.supplier_name == supplier_name@,
            r@.unit_name == unit_name@,
            r@.unit_price == unit_price@,
            r@.quantity == quantity@,
    {
        JournalRecord {
            supply_id,
            supply_name,
            supplier_id,
            supplier_name,
            unit_name,
            unit_price,
            quantity,
        }
    }

    /// The supply this line purchased.
    pub fn supply_id(&self) -> (r: &SupplyId)
        ensures
            r@ == self@.supply_id,
    {
        &self.supply_id
    }

    /// The supply name as it read when the line was recorded.
    pub fn supply_name(&self) -> (r: &SupplyName)
        ensures
            r@ == self@.supply_name,
    {
        &self.supply_name
    }

    /// The supplier this line purchased from.
    pub fn supplier_id(&self) -> (r: &SupplierId)
        ensures
            r@ == self@.supplier_id,
    {
        &self.supplier_id
    }

    /// The supplier name as it read when the line was recorded.
    pub fn supplier_name(&self) -> (r: &SupplierName)
        ensures
            r@ == self@.supplier_name,
    {
        &self.supplier_name
    }

    /// The unit the quantity is measured in.
    pub fn unit_name(&self) -> (r: &UnitName)
        ensures
            r@ == self@.unit_name,
    {
        &self.unit_name
    }

    /// The price of one unit, in hundredths.
    pub fn unit_price(&self) -> (r: &PurchaseUnitPrice)
        ensures
            r@ == self@.unit_price,
    {
        &self.unit_price
    }

    /// The purchased quantity, in hundredths.
    pub fn quantity(&self) -> (r: &PurchaseQuantity)
        ensures
            r@ == self@.quantity,
    {
        &self.quantity
    }
}

impl Clone for JournalRecord {
    fn clone(&self) -> (r: Self)
        ensures
            r@ == self@,
    {
        JournalRecord {
            supply_id: self.supply_id.clone(),
            supply_name: self.supply_name.clone(),
            supplier_id: self.supplier_id.clone(),
            supplier_name: self.supplier_name.clone(),
            unit_name: self.unit_name.clone(),
            unit_price: self.unit_price,
            quantity: self.quantity,
        }
    }
}

/// The mathematical content of a stocktaking line record.
pub struct StocktakingRecordV {
    pub supply_id: Seq<char>,
    pub supply_name: Seq<char>,
    pub unit_name: Seq<char>,
    pub unit_price: u32,
    pub quantity: u32,
}

/// One line of a stocktaking: the counted supply, its unit, price and
/// quantity. A physical count has no supplier dimension.
#[derive(Debug)]
pub struct StocktakingRecord {
    supply_id: SupplyId,
    supply_name: SupplyName,
    unit_name: UnitName,
    unit_price: StocktakingUnitPrice,
    quantity: StocktakingQuantity,
}

impl View for StocktakingRecord {
    type V = StocktakingRecordV;

    closed spec fn view(&self) -> StocktakingRecordV {
        StocktakingRecordV {
            supply_id: self.supply_id@,
            supply_name: self.supply_name@,
            unit_name: self.unit_name@,
            unit_price: self.unit_price@,
            quantity: self.quantity@,
        }
    }
}

impl StocktakingRecord {
    /// Assembles a line record from already-validated value objects.
    pub fn new(
        supply_id: SupplyId,
        supply_name: SupplyName,
        unit_name: UnitName,
        unit_price: StocktakingUnitPrice,
        quantity: StocktakingQuantity,
    ) -> (r: Self)
        ensures
            r@.supply_id == supply_id@,
            r@.supply_name == supply_name@,
            r@.unit_name == unit_name@,
            r@.unit_price == unit_price@,
            r@.quantity == quantity@,
    {
        StocktakingRecord { supply_id, supply_name, unit_name, unit_price, quantity }
    }

    /// The counted supply.
    pub fn supply_id(&self) -> (r: &SupplyId)
        ensures
            r@ == self@.supply_id,
    {
        &self.supply_id
    }

    /// The supply name as it read when the count was taken.
    pub fn supply_name(&self) -> (r: &SupplyName)
        ensures
            r@ == self@.supply_name,
    {
        &self.supply_name
    }

    /// The unit the quantity is measured in.
    pub fn unit_name(&self) -> (r: &UnitName)
        ensures
            r@ == self@.unit_name,
    {
        &self.unit_name
    }

    /// The price of one unit, in hundredths.
    pub fn unit_price(&self) -> (r: &StocktakingUnitPrice)
        ensures
            r@ == self@.unit_price,
    {
        &self.unit_price
    }

    /// The counted quantity, in hundredths.
    pub fn quantity(&self) -> (r: &StocktakingQuantity)
        ensures
            r@ == self@.quantity,
    {
        &self.quantity
    }
}

impl Clone for StocktakingRecord {
    fn clone(&self) -> (r: Self)
        ensures
            r@ == self@,
    {
        StocktakingRecord {
            supply_id: self.supply_id.clone(),
            supply_name: self.supply_name.clone(),
            unit_name: self.unit_name.clone(),
            unit_price: self.unit_price,
            quantity: self.quantity,
        }
    }
}

} // verus!
