//! The supplier use-case service: listing, lookup, search, registration and
//! renaming of suppliers. Suppliers have no parent, so no referential checks
//! are needed.

use vstd::prelude::*;

use crate::dto::{
    GetSupplierQuery, RegisterSupplierCommand, SearchSuppliersQuery, SupplierDTO,
    UpdateSupplierCommand, eff_filter, opt_text, supplier_dto_views, supplier_to_dto,
    suppliers_to_dtos,
};
use crate::entities::{Supplier, SupplierV};
use crate::error::Error;
use crate::ports::{ForSupplierPersistence, has_supplier_id};
use crate::queries::{FindSupplierQuery, FindSupplierQueryV};
use crate::search::supplier_matches;
use crate::text::{dec_of, trimmed};
use crate::values::{SupplierId, SupplierName, SupplyName, some_ink};

verus! {

/// The domain-side condition of registration: the name carries ink.
pub open spec fn register_supplier_valid(c: RegisterSupplierCommand) -> bool {
    some_ink(c.supplier_name@)
}

/// Registration succeeds exactly when the name carries ink, the identifier
/// counter is not exhausted, and the counter's next value is still free.
pub open spec fn register_supplier_ok(
    suppliers: Seq<SupplierV>,
    counter: nat,
    c: RegisterSupplierCommand,
) -> bool {
    &&& register_supplier_valid(c)
    &&& counter < usize::MAX
    &&& !has_supplier_id(suppliers, dec_of(counter as int + 1))
}

/// An update succeeds exactly when the identifier and the new name carry
/// ink and the identifier resolves to a stored supplier.
pub open spec fn update_supplier_ok(suppliers: Seq<SupplierV>, c: UpdateSupplierCommand) -> bool {
    &&& some_ink(c.supplier_id@)
    &&& has_supplier_id(suppliers, trimmed(c.supplier_id@))
    &&& some_ink(c.supplier_name@)
}

/// The supplier use-case service over any supplier persistence port.
pub struct SupplierService<PR: ForSupplierPersistence> {
    pub supplier_repository: PR,
}

impl<PR: ForSupplierPersistence> SupplierService<PR> {
    /// Whether the repository behaviour is tied to its model.
    pub open spec fn obeys(&self) -> bool {
        self.supplier_repository.obeys_model()
    }

    /// The suppliers currently stored.
    pub open spec fn suppliers_m(&self) -> Seq<SupplierV> {
        self.supplier_repository.suppliers()
    }

    /// Wires the service to its repository.
    pub fn new(supplier_repository: PR) -> (r: Self)
        ensures
            r.supplier_repository == supplier_repository,
    {
        SupplierService { supplier_repository }
    }

    /// Every stored supplier, as DTOs in storage order.
    pub fn list(&self) -> (r: Result<Vec<SupplierDTO>, Error>)
        ensures
            self.obeys() ==> (r matches Ok(v) && supplier_dto_views(v@) == self.suppliers_m()),
    {
        match self.supplier_repository.list() {
            Ok(v) => Ok(suppliers_to_dtos(&v)),
            Err(e) => Err(e),
        }
    }

    /// The supplier with the given identifier, when the identifier is valid
    /// and stored.
    pub fn get(&self, query: GetSupplierQuery) -> (r: Result<Option<SupplierDTO>, Error>)
        ensures
            !some_ink(query.supplier_id@) ==> r is Err,
            self.obeys() ==> match r {
                Ok(Some(dto)) => some_ink(query.supplier_id@) && dto@.id == trimmed(
                    query.supplier_id@,
                ) && self.suppliers_m().contains(dto@),
                Ok(None) => some_ink(query.supplier_id@) && !has_supplier_id(
                    self.suppliers_m(),
                    trimmed(query.supplier_id@),
                ),
                Err(e) => !some_ink(query.supplier_id@) && e is DomainError,
            },
    {
        let id = match SupplierId::new(query.supplier_id.as_str()) {
            Ok(v) => v,
            Err(e) => {
                return Err(e);
            },
        };
        match self.supplier_repository.get(&id) {
            Ok(Some(s)) => Ok(Some(supplier_to_dto(&s))),
            Ok(None) => Ok(None),
            Err(e) => Err(e),
        }
    }

    /// The suppliers passing the search filters, as DTOs in storage order.
    /// A filter that is absent or trims to nothing deliberately matches
    /// everything rather than failing the search.
    pub fn search(&self, query: SearchSuppliersQuery) -> (r: Result<Vec<SupplierDTO>, Error>)
        ensures
            self.obeys() ==> (r matches Ok(v) && supplier_dto_views(v@)
                == self.suppliers_m().filter(
                |p: SupplierV|
                    supplier_matches(
                        p,
                        self.supplier_repository.known_supplies(),
                        FindSupplierQueryV {
                            supplier_name: eff_filter(opt_text(query.supplier_name)),
                            supply_name: eff_filter(opt_text(query.supply_name)),
                        },
                    ),
            )),
    {
        let supplier_name = match &query.supplier_name {
            Some(s) => match SupplierName::new(s.as_str()) {
                Ok(v) => Some(v),
                Err(_) => None,
            },
            None => None,
        };
        let supply_name = match &query.supply_name {
            Some(s) => match SupplyName::new(s.as_str()) {
                Ok(v) => Some(v),
                Err(_) => None,
            },
            None => None,
        };
        let fq = FindSupplierQuery { supplier_name, supply_name };
        proof {
            assert(fq@ == FindSupplierQueryV {
                supplier_name: eff_filter(opt_text(query.supplier_name)),
                supply_name: eff_filter(opt_text(query.supply_name)),
            });
        }
        match self.supplier_repository.find(&fq) {
            Ok(v) => Ok(suppliers_to_dtos(&v)),
            Err(e) => Err(e),
        }
    }

    /// Registers a supplier under the next free counter identifier and
    /// returns the stored value.
    pub fn register(&mut self, command: RegisterSupplierCommand) -> (r: Result<SupplierDTO, Error>)
        ensures
            !some_ink(command.supplier_name@) ==> r is Err,
            r matches Ok(dto) ==> dto@.name == trimmed(command.supplier_name@),
            final(self).supplier_repository.known_supplies() == old(self).supplier_repository.known_supplies(),
            final(self).supplier_repository.counter() >= old(self).supplier_repository.counter(),
            old(self).obeys() ==> final(self).obeys(),
            old(self).obeys() ==> {
                &&& (r is Ok <==> register_supplier_ok(
                    old(self).suppliers_m(),
                    old(self).supplier_repository.counter(),
                    command,
                ))
                &&& (r matches Ok(dto) ==> {
                    &&& dto@.id == dec_of(old(self).supplier_repository.counter() as int + 1)
                    &&& dto@.name == trimmed(command.supplier_name@)
                    &&& final(self).suppliers_m() == old(self).suppliers_m().push(dto@)
                    &&& final(self).supplier_repository.counter() == old(
                        self,
                    ).supplier_repository.counter() + 1
                })
                &&& (r is Err ==> final(self).suppliers_m() == old(self).suppliers_m())
                &&& (r matches Err(e) ==> (e is DomainError <==> !register_supplier_valid(
                    command,
                )))
            },
    {
        let name = match SupplierName::new(command.supplier_name.as_str()) {
            Ok(v) => v,
            Err(e) => {
                return Err(e);
            },
        };
        let id = match self.supplier_repository.next_id() {
            Ok(v) => v,
            Err(e) => {
                return Err(e);
            },
        };
        let supplier = Supplier::restore(id, name);
        let dto = supplier_to_dto(&supplier);
        match self.supplier_repository.add(supplier) {
            Ok(_) => Ok(dto),
            Err(e) => Err(e),
        }
    }

    /// Renames the supplier with the given identifier; the repository keeps
    /// every other supplier untouched.
    pub fn update(&mut self, command: UpdateSupplierCommand) -> (r: Result<(), Error>)
        ensures
            !(some_ink(command.supplier_id@) && some_ink(command.supplier_name@)) ==> r is Err,
            final(self).supplier_repository.known_supplies() == old(self).supplier_repository.known_supplies(),
            final(self).supplier_repository.counter() == old(self).supplier_repository.counter(),
            old(self).obeys() ==> final(self).obeys(),
            old(self).obeys() ==> {
                &&& (r is Ok <==> update_supplier_ok(old(self).suppliers_m(), command))
                &&& (r is Ok ==> {
                    &&& final(self).suppliers_m().len() == old(self).suppliers_m().len()
                    &&& forall|i: int|
                        0 <= i < old(self).suppliers_m().len() ==> #[trigger] final(self).suppliers_m()[i] == if old(self).suppliers_m()[i].id == trimmed(
                            command.supplier_id@,
                        ) {
                            SupplierV {
                                id: old(self).suppliers_m()[i].id,
                                name: trimmed(command.supplier_name@),
                            }
                        } else {
                            old(self).suppliers_m()[i]
                        }
                })
                &&& (r is Err ==> final(self).suppliers_m() == old(self).suppliers_m())
                &&& (r matches Err(e) ==> e is DomainError)
            },
    {
        let id = match SupplierId::new(command.supplier_id.as_str()) {
            Ok(v) => v,
            Err(e) => {
                return Err(e);
            },
        };
        let mut supplier = match self.supplier_repository.get(&id) {
            Ok(Some(s)) => s,
            Ok(None) => {
                return Err(Error::DomainError(String::from_str("supplier does not exist.")));
            },
            Err(e) => {
                return Err(e);
            },
        };
        let name = match SupplierName::new(command.supplier_name.as_str()) {
            Ok(v) => v,
            Err(e) => {
                return Err(e);
            },
        };
        proof {
            if old(self).obeys() {
                assert(has_supplier_id(old(self).suppliers_m(), supplier@.id)) by {
                    let k = choose|k: int|
                        0 <= k < old(self).suppliers_m().len() && old(self).suppliers_m()[k]
                            == supplier@;
                    assert(old(self).suppliers_m()[k].id == supplier@.id);
                }
            }
        }
        supplier.rename(name);
        match self.supplier_repository.save(supplier) {
            Ok(_) => Ok(()),
            Err(e) => Err(e),
        }
    }
}

} // verus!
