//! The composition root: plugs one repository adapter per aggregate into
//! the use-case services.

use vstd::prelude::*;

use crate::journal_service::JournalService;
use crate::ports::{
    ForJournalPersistence, ForStocktakingPersistence, ForSupplierPersistence, ForSupplyPersistence,
};
use crate::stocktaking_service::StocktakingService;
use crate::supplier_service::SupplierService;
use crate::supply_service::SupplyService;

verus! {

/// The four adapters a deployment provides, one per aggregate.
pub struct Ports<
    SupplyRepository: ForSupplyPersistence,
    SupplierRepository: ForSupplierPersistence,
    JournalRepository: ForJournalPersistence,
    StocktakingRepository: ForStocktakingPersistence,
> {
    pub for_supply_persistence: SupplyRepository,
    pub for_supplier_persistence: SupplierRepository,
    pub for_journal_persistence: JournalRepository,
    pub for_stocktaking_persistence: StocktakingRepository,
}

/// Holds the plugged adapters and hands out wired use-case services.
pub struct Stocker<
    SupplyRepository: ForSupplyPersistence,
    SupplierRepository: ForSupplierPersistence,
    JournalRepository: ForJournalPersistence,
    StocktakingRepository: ForStocktakingPersistence,
> {
    pub supply_repository: SupplyRepository,
    pub supplier_repository: SupplierRepository,
    pub journal_repository: JournalRepository,
    pub stocktaking_repository: StocktakingRepository,
}

impl<
    SupplyRepository: ForSupplyPersistence,
    SupplierRepository: ForSupplierPersistence,
    JournalRepository: ForJournalPersistence,
    StocktakingRepository: ForStocktakingPersistence,
> Stocker<SupplyRepository, SupplierRepository, JournalRepository, StocktakingRepository> {
    /// Takes ownership of the four adapters.
    pub fn plug(
        ports: Ports<SupplyRepository, SupplierRepository, JournalRepository,
            StocktakingRepository>,
    ) -> (r: Self)
        ensures
            r.supply_repository == ports.for_supply_persistence,
            r.supplier_repository == ports.for_supplier_persistence,
            r.journal_repository == ports.for_journal_persistence,
            r.stocktaking_repository == ports.for_stocktaking_persistence,
    {
        Stocker {
            supply_repository: ports.for_supply_persistence,
            supplier_repository: ports.for_supplier_persistence,
            journal_repository: ports.for_journal_persistence,
            stocktaking_repository: ports.for_stocktaking_persistence,
        }
    }

    /// A supply service over equivalent adapters.
    pub fn supply_usecase(&self) -> (r: SupplyService<SupplyRepository, SupplierRepository>)
        ensures
            r.supply_repository.obeys_model() == self.supply_repository.obeys_model(),
            r.supply_repository.supplies() == self.supply_repository.supplies(),
            r.supply_repository.counter() == self.supply_repository.counter(),
            r.supplier_repository.obeys_model() == self.supplier_repository.obeys_model(),
            r.supplier_repository.suppliers() == self.supplier_repository.suppliers(),
    {
        SupplyService::new(self.supply_repository.duplicate(), self.supplier_repository.duplicate())
    }

    /// A supplier service over an equivalent adapter.
    pub fn supplier_usecase(&self) -> (r: SupplierService<SupplierRepository>)
        ensures
            r.supplier_repository.obeys_model() == self.supplier_repository.obeys_model(),
            r.supplier_repository.suppliers() == self.supplier_repository.suppliers(),
            r.supplier_repository.counter() == self.supplier_repository.counter(),
    {
        SupplierService::new(self.supplier_repository.duplicate())
    }

    /// A journal service over equivalent adapters.
    pub fn journal_usecase(&self) -> (r: JournalService<
        SupplyRepository,
        SupplierRepository,
        JournalRepository,
    >)
        ensures
            r.supply_repository.obeys_model() == self.supply_repository.obeys_model(),
            r.supply_repository.supplies() == self.supply_repository.supplies(),
            r.supplier_repository.obeys_model() == self.supplier_repository.obeys_model(),
            r.supplier_repository.suppliers() == self.supplier_repository.suppliers(),
            r.journal_repository.obeys_model() == self.journal_repository.obeys_model(),
            r.journal_repository.journals() == self.journal_repository.journals(),
            r.journal_repository.counter() == self.journal_repository.counter(),
    {
        JournalService::new(
            self.supply_repository.duplicate(),
            self.supplier_repository.duplicate(),
            self.journal_repository.duplicate(),
        )
    }

    /// A stocktaking service over equivalent adapters.
    pub fn stocktaking_usecase(&self) -> (r: StocktakingService<
        SupplyRepository,
        StocktakingRepository,
    >)
        ensures
            r.supply_repository.obeys_model() == self.supply_repository.obeys_model(),
            r.supply_repository.supplies() == self.supply_repository.supplies(),
            r.stocktaking_repository.obeys_model() == self.stocktaking_repository.obeys_model(),
            r.stocktaking_repository.stocktakings()
                == self.stocktaking_repository.stocktakings(),
            r.stocktaking_repository.counter() == self.stocktaking_repository.counter(),
    {
        StocktakingService::new(
            self.supply_repository.duplicate(),
            self.stocktaking_repository.duplicate(),
        )
    }
}

} // verus!
