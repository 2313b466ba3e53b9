//! The filter queries the repositories understand. Services build these
//! from the boundary's raw search structs after validating the filters.

use vstd::prelude::*;

use crate::values::{EntryDateTime, StocktakenDateTime, SupplierName, SupplyName};

verus! {

/// The view of an optional value object: its view when present.
pub open spec fn opt_view<T: View>(o: Option<T>) -> Option<T::V> {
    match o {
        Some(v) => Some(v@),
        None => None,
    }
}

/// The mathematical content of a supply filter.
pub struct FindSuppliesQueryV {
    pub supply_name: Option<Seq<char>>,
    pub supplier_name: Option<Seq<char>>,
}

/// Filters supplies by a substring of their name and by a substring of the
/// owning supplier's name; an absent filter matches everything.
#[derive(Debug)]
pub struct FindSuppliesQuery {
    pub supply_name: Option<SupplyName>,
    pub supplier_name: Option<SupplierName>,
}

impl View for FindSuppliesQuery {
    type V = FindSuppliesQueryV;

    open spec fn view(&self) -> FindSuppliesQueryV {
        FindSuppliesQueryV {
            supply_name: opt_view(self.supply_name),
            supplier_name: opt_view(self.supplier_name),
        }
    }
}

/// The mathematical content of a supplier filter.
pub struct FindSupplierQueryV {
    pub supplier_name: Option<Seq<char>>,
    pub supply_name: Option<Seq<char>>,
}

/// Filters suppliers by a substring of their name, optionally narrowed to
/// suppliers with at least one supply whose name contains the second
/// substring.
#[derive(Debug)]
pub struct FindSupplierQuery {
    pub supplier_name: Option<SupplierName>,
    pub supply_name: Option<SupplyName>,
}

impl View for FindSupplierQuery {
    type V = FindSupplierQueryV;

    open spec fn view(&self) -> FindSupplierQueryV {
        FindSupplierQueryV {
            supplier_name: opt_view(self.supplier_name),
            supply_name: opt_view(self.supply_name),
        }
    }
}

/// The mathematical content of a journal filter.
pub struct FindJournalsQueryV {
    pub period_start: Option<i64>,
    pub period_end: Option<i64>,
    pub supplier_name: Option<Seq<char>>,
    pub supply_name: Option<Seq<char>>,
}

/// Filters journals by an inclusive timestamp window and by substrings of
/// the names snapshotted on their line records.
#[derive(Debug)]
pub struct FindJournalsQuery {
    pub period_start: Option<EntryDateTime>,
    pub period_end: Option<EntryDateTime>,
    pub supplier_name: Option<SupplierName>,
    pub supply_name: Option<SupplyName>,
}

impl View for FindJournalsQuery {
    type V = FindJournalsQueryV;

    open spec fn view(&self) -> FindJournalsQueryV {
        FindJournalsQueryV {
            period_start: opt_view(self.period_start),
            period_end: opt_view(self.period_end),
            supplier_name: opt_view(self.supplier_name),
            supply_name: opt_view(self.supply_name),
        }
    }
}

/// The mathematical content of a stocktaking filter.
pub struct FindStocktakingsQueryV {
    pub period_start: Option<i64>,
    pub period_end: Option<i64>,
}

/// Filters stocktakings by an inclusive timestamp window.
#[derive(Debug)]
pub struct FindStocktakingsQuery {
    pub period_start: Option<StocktakenDateTime>,
    pub period_end: Option<StocktakenDateTime>,
}

impl View for FindStocktakingsQuery {
    type V = FindStocktakingsQueryV;

    open spec fn view(&self) -> FindStocktakingsQueryV {
        FindStocktakingsQueryV {
            period_start: opt_view(self.period_start),
            period_end: opt_view(self.period_end),
        }
    }
}

} // verus!
