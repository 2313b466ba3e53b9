//! The supply use-case service: listing, lookup, search, registration,
//! update and deletion of supplies. Registration and update check that the
//! referenced supplier exists before anything is written.

use vstd::prelude::*;

use crate::dto::{
    CreateSupplyCommand, GetSupplyQuery, SearchSuppliesQuery, SupplyDTO, UpdateSupplyCommand,
    eff_filter, opt_text, supplies_to_dtos, supply_dto_views, supply_to_dto,
};
use crate::entities::{Supply, SupplyV};
use crate::error::Error;
use crate::ports::{ForSupplierPersistence, ForSupplyPersistence, has_supplier_id, has_supply_id};
use crate::queries::{FindSuppliesQuery, FindSuppliesQueryV};
use crate::search::supply_matches;
use crate::text::{dec_of, trimmed};
use crate::values::{SupplierId, SupplierName, SupplyId, SupplyName, UnitName, some_ink};

verus! {

/// The domain-side conditions of registration: every field carries ink
/// and the referenced supplier exists.
pub open spec fn register_supply_valid(
    suppliers: Seq<crate::entities::SupplierV>,
    c: CreateSupplyCommand,
) -> bool {
    &&& some_ink(c.supplier_id@)
    &&& has_supplier_id(suppliers, trimmed(c.supplier_id@))
    &&& some_ink(c.supply_name@)
    &&& some_ink(c.unit_name@)
}

/// Registration succeeds exactly when every field carries ink, the
/// referenced supplier exists, the identifier counter is not exhausted, and
/// the counter's next value is still free.
pub open spec fn register_supply_ok(
    supplies: Seq<SupplyV>,
    suppliers: Seq<crate::entities::SupplierV>,
    counter: nat,
    c: CreateSupplyCommand,
) -> bool {
    &&& register_supply_valid(suppliers, c)
    &&& counter < usize::MAX
    &&& !has_supply_id(supplies, dec_of(counter as int + 1))
}

/// An update succeeds exactly when every field carries ink, the identifier
/// resolves to a stored supply, and the new supplier exists.
pub open spec fn update_supply_ok(
    supplies: Seq<SupplyV>,
    suppliers: Seq<crate::entities::SupplierV>,
    c: UpdateSupplyCommand,
) -> bool {
    &&& some_ink(c.supply_id@)
    &&& has_supply_id(supplies, trimmed(c.supply_id@))
    &&& some_ink(c.supplier_id@)
    &&& has_supplier_id(suppliers, trimmed(c.supplier_id@))
    &&& some_ink(c.supply_name@)
    &&& some_ink(c.unit_name@)
}

/// The supply use-case service over any supply and supplier persistence
/// ports.
pub struct SupplyService<SR: ForSupplyPersistence, PR: ForSupplierPersistence> {
    pub supply_repository: SR,
    pub supplier_repository: PR,
}

impl<SR: ForSupplyPersistence, PR: ForSupplierPersistence> SupplyService<SR, PR> {
    /// Whether both repositories' behaviour is tied to their models.
    pub open spec fn obeys(&self) -> bool {
        self.supply_repository.obeys_model() && self.supplier_repository.obeys_model()
    }

    /// The supplies currently stored.
    pub open spec fn supplies_m(&self) -> Seq<SupplyV> {
        self.supply_repository.supplies()
    }

    /// The suppliers currently stored.
    pub open spec fn suppliers_m(&self) -> Seq<crate::entities::SupplierV> {
        self.supplier_repository.suppliers()
    }

    /// Wires the service to its repositories.
    pub fn new(supply_repository: SR, supplier_repository: PR) -> (r: Self)
        ensures
            r.supply_repository == supply_repository,
            r.supplier_repository == supplier_repository,
    {
        SupplyService { supply_repository, supplier_repository }
    }

    /// Every stored supply, as DTOs in storage order.
    pub fn list(&self) -> (r: Result<Vec<SupplyDTO>, Error>)
        ensures
            self.obeys() ==> (r matches Ok(v) && supply_dto_views(v@) == self.supplies_m()),
    {
        match self.supply_repository.list() {
            Ok(v) => Ok(supplies_to_dtos(&v)),
            Err(e) => Err(e),
        }
    }

    /// The supply with the given identifier, when the identifier is valid
    /// and stored.
    pub fn get(&self, query: GetSupplyQuery) -> (r: Result<Option<SupplyDTO>, Error>)
        ensures
            !some_ink(query.supply_id@) ==> r is Err,
            self.obeys() ==> match r {
                Ok(Some(dto)) => some_ink(query.supply_id@) && dto@.id == trimmed(query.supply_id@)
                    && self.supplies_m().contains(dto@),
                Ok(None) => some_ink(query.supply_id@) && !has_supply_id(
                    self.supplies_m(),
                    trimmed(query.supply_id@),
                ),
                Err(e) => !some_ink(query.supply_id@) && e is DomainError,
            },
    {
        let id = match SupplyId::new(query.supply_id.as_str()) {
            Ok(v) => v,
            Err(e) => {
                return Err(e);
            },
        };
        match self.supply_repository.get(&id) {
            Ok(Some(s)) => Ok(Some(supply_to_dto(&s))),
            Ok(None) => Ok(None),
            Err(e) => Err(e),
        }
    }

    /// The supplies owned by the given supplier, as DTOs in storage order.
    pub fn get_of_supplier(&self, supplier_id: String) -> (r: Result<Vec<SupplyDTO>, Error>)
        ensures
            !some_ink(supplier_id@) ==> r is Err,
            self.obeys() ==> match r {
                Ok(v) => some_ink(supplier_id@) && supply_dto_views(v@)
                    == self.supplies_m().filter(
                    |s: SupplyV| s.supplier_id == trimmed(supplier_id@),
                ),
                Err(e) => !some_ink(supplier_id@) && e is DomainError,
            },
    {
        let id = match SupplierId::new(supplier_id.as_str()) {
            Ok(v) => v,
            Err(e) => {
                return Err(e);
            },
        };
        match self.supply_repository.get_of_supplier(&id) {
            Ok(v) => Ok(supplies_to_dtos(&v)),
            Err(e) => Err(e),
        }
    }

    /// The supplies passing the search filters, as DTOs in storage order.
    /// A filter that is absent or trims to nothing deliberately matches
    /// everything rather than failing the search.
    pub fn search(&self, query: SearchSuppliesQuery) -> (r: Result<Vec<SupplyDTO>, Error>)
        ensures
            self.obeys() ==> (r matches Ok(v) && supply_dto_views(v@) == self.supplies_m().filter(
                |s: SupplyV|
                    supply_matches(
                        s,
                        self.supply_repository.known_suppliers(),
                        FindSuppliesQueryV {
                            supply_name: eff_filter(opt_text(query.supply_name)),
                            supplier_name: eff_filter(opt_text(query.supplier_name)),
                        },
                    ),
            )),
    {
        let supply_name = match &query.supply_name {
            Some(s) => match SupplyName::new(s.as_str()) {
                Ok(v) => Some(v),
                Err(_) => None,
            },
            None => None,
        };
        let supplier_name = match &query.supplier_name {
            Some(s) => match SupplierName::new(s.as_str()) {
                Ok(v) => Some(v),
                Err(_) => None,
            },
            None => None,
        };
        let fq = FindSuppliesQuery { supply_name, supplier_name };
        proof {
            assert(fq@ == FindSuppliesQueryV {
                supply_name: eff_filter(opt_text(query.supply_name)),
                supplier_name: eff_filter(opt_text(query.supplier_name)),
            });
        }
        match self.supply_repository.find(&fq) {
            Ok(v) => Ok(supplies_to_dtos(&v)),
            Err(e) => Err(e),
        }
    }

    /// Registers a supply under the next free counter identifier after
    /// checking that the referenced supplier exists, and returns the stored
    /// value.
    pub fn register(&mut self, command: CreateSupplyCommand) -> (r: Result<SupplyDTO, Error>)
        ensures
            !(some_ink(command.supplier_id@) && some_ink(command.supply_name@) && some_ink(
                command.unit_name@,
            )) ==> r is Err,
            r matches Ok(dto) ==> dto@.name == trimmed(command.supply_name@) && dto@.unit_name
                == trimmed(command.unit_name@),
            final(self).supplier_repository == old(self).supplier_repository,
            final(self).supply_repository.known_suppliers() == old(self).supply_repository.known_suppliers(),
            final(self).supply_repository.counter() >= old(self).supply_repository.counter(),
            old(self).obeys() ==> final(self).obeys(),
            old(self).obeys() ==> {
                &&& (r is Ok <==> register_supply_ok(
                    old(self).supplies_m(),
                    old(self).suppliers_m(),
                    old(self).supply_repository.counter(),
                    command,
                ))
                &&& (r matches Ok(dto) ==> {
                    &&& dto@.id == dec_of(old(self).supply_repository.counter() as int + 1)
                    &&& dto@.name == trimmed(command.supply_name@)
                    &&& dto@.unit_name == trimmed(command.unit_name@)
                    &&& dto@.supplier_id == trimmed(command.supplier_id@)
                    &&& final(self).supplies_m() == old(self).supplies_m().push(dto@)
                    &&& final(self).supply_repository.counter() == old(
                        self,
                    ).supply_repository.counter() + 1
                })
                &&& (r is Err ==> final(self).supplies_m() == old(self).supplies_m())
                &&& (r matches Err(e) ==> (e is DomainError <==> !register_supply_valid(
                    old(self).suppliers_m(),
                    command,
                )))
            },
    {
        let supplier_id = match SupplierId::new(command.supplier_id.as_str()) {
            Ok(v) => v,
            Err(e) => {
                return Err(e);
            },
        };
        let supplier = match self.supplier_repository.get(&supplier_id) {
            Ok(Some(s)) => s,
            Ok(None) => {
                return Err(Error::DomainError(String::from_str("supplier does not exist.")));
            },
            Err(e) => {
                return Err(e);
            },
        };
        proof {
            if old(self).obeys() {
                assert(has_supplier_id(old(self).suppliers_m(), supplier@.id)) by {
                    let k = choose|k: int|
                        0 <= k < old(self).suppliers_m().len() && old(self).suppliers_m()[k]
                            == supplier@;
                    assert(old(self).suppliers_m()[k].id == supplier@.id);
                }
            }
        }
        let name = match SupplyName::new(command.supply_name.as_str()) {
            Ok(v) => v,
            Err(e) => {
                return Err(e);
            },
        };
        let unit = match UnitName::new(command.unit_name.as_str()) {
            Ok(v) => v,
            Err(e) => {
                return Err(e);
            },
        };
        let id = match self.supply_repository.next_id() {
            Ok(v) => v,
            Err(e) => {
                return Err(e);
            },
        };
        let supply = Supply::new(id, name, unit, supplier.id().clone());
        let dto = supply_to_dto(&supply);
        match self.supply_repository.add(supply) {
            Ok(_) => Ok(dto),
            Err(e) => Err(e),
        }
    }

    /// Replaces the name, unit and supplier of the supply with the given
    /// identifier after checking that the new supplier exists; the
    /// repository keeps every other supply untouched.
    pub fn update(&mut self, command: UpdateSupplyCommand) -> (r: Result<(), Error>)
        ensures
            !(some_ink(command.supply_id@) && some_ink(command.supplier_id@) && some_ink(
                command.supply_name@,
            ) && some_ink(command.unit_name@)) ==> r is Err,
            final(self).supplier_repository == old(self).supplier_repository,
            final(self).supply_repository.known_suppliers() == old(self).supply_repository.known_suppliers(),
            final(self).supply_repository.counter() == old(self).supply_repository.counter(),
            old(self).obeys() ==> final(self).obeys(),
            old(self).obeys() ==> {
                &&& (r is Ok <==> update_supply_ok(
                    old(self).supplies_m(),
                    old(self).suppliers_m(),
                    command,
                ))
                &&& (r is Ok ==> {
                    &&& final(self).supplies_m().len() == old(self).supplies_m().len()
                    &&& forall|i: int|
                        0 <= i < old(self).supplies_m().len() ==> #[trigger] final(self).supplies_m()[i] == if old(self).supplies_m()[i].id == trimmed(
                            command.supply_id@,
                        ) {
                            SupplyV {
                                id: old(self).supplies_m()[i].id,
                                name: trimmed(command.supply_name@),
                                unit_name: trimmed(command.unit_name@),
                                supplier_id: trimmed(command.supplier_id@),
                            }
                        } else {
                            old(self).supplies_m()[i]
                        }
                })
                &&& (r is Err ==> final(self).supplies_m() == old(self).supplies_m())
                &&& (r matches Err(e) ==> e is DomainError)
            },
    {
        let supply_id = match SupplyId::new(command.supply_id.as_str()) {
            Ok(v) => v,
            Err(e) => {
                return Err(e);
            },
        };
        let mut supply = match self.supply_repository.get(&supply_id) {
            Ok(Some(s)) => s,
            Ok(None) => {
                return Err(Error::DomainError(String::from_str("supply does not exist.")));
            },
            Err(e) => {
                return Err(e);
            },
        };
        let supplier_id = match SupplierId::new(command.supplier_id.as_str()) {
            Ok(v) => v,
            Err(e) => {
                return Err(e);
            },
        };
        let supplier = match self.supplier_repository.get(&supplier_id) {
            Ok(Some(s)) => s,
            Ok(None) => {
                return Err(Error::DomainError(String::from_str("supplier does not exist.")));
            },
            Err(e) => {
                return Err(e);
            },
        };
        proof {
            if old(self).obeys() {
                assert(has_supply_id(old(self).supplies_m(), supply@.id)) by {
                    let k = choose|k: int|
                        0 <= k < old(self).supplies_m().len() && old(self).supplies_m()[k]
                            == supply@;
                    assert(old(self).supplies_m()[k].id == supply@.id);
                }
                assert(has_supplier_id(old(self).suppliers_m(), supplier@.id)) by {
                    let k = choose|k: int|
                        0 <= k < old(self).suppliers_m().len() && old(self).suppliers_m()[k]
                            == supplier@;
                    assert(old(self).suppliers_m()[k].id == supplier@.id);
                }
            }
        }
        let name = match SupplyName::new(command.supply_name.as_str()) {
            Ok(v) => v,
            Err(e) => {
                return Err(e);
            },
        };
        let unit = match UnitName::new(command.unit_name.as_str()) {
            Ok(v) => v,
            Err(e) => {
                return Err(e);
            },
        };
        supply.rename(name);
        supply.rename_unit(unit);
        supply.change_supplier(supplier.id().clone());
        match self.supply_repository.save(supply) {
            Ok(_) => Ok(()),
            Err(e) => Err(e),
        }
    }

    /// Logically removes the supply with the given identifier from every
    /// later list, get and find; nothing checks for journal or stocktaking
    /// records that still reference it.
    pub fn delete(&mut self, supply_id: &str) -> (r: Result<(), Error>)
        ensures
            !some_ink(supply_id@) ==> r is Err,
            final(self).supplier_repository == old(self).supplier_repository,
            final(self).supply_repository.known_suppliers() == old(self).supply_repository.known_suppliers(),
            final(self).supply_repository.counter() == old(self).supply_repository.counter(),
            old(self).obeys() ==> final(self).obeys(),
            old(self).obeys() ==> {
                &&& (r is Ok <==> some_ink(supply_id@))
                &&& (r is Ok ==> final(self).supplies_m() == old(self).supplies_m().filter(
                    |s: SupplyV| s.id != trimmed(supply_id@),
                ))
                &&& (r is Err ==> final(self).supplies_m() == old(self).supplies_m())
                &&& (r matches Err(e) ==> e is DomainError)
            },
    {
        let id = match SupplyId::new(supply_id) {
            Ok(v) => v,
            Err(e) => {
                return Err(e);
            },
        };
        match self.supply_repository.delete(&id) {
            Ok(_) => Ok(()),
            Err(e) => Err(e),
        }
    }
}

} // verus!
