//! Verified decoding of SQLite result rows into aggregates: cell typing,
//! per-row validation, exclusion of soft-deleted rows, and reconstruction
//! of journals and stocktakings from flat parent and child row sets.

use vstd::prelude::*;

use crate::entities::{Journal, JournalV, Stocktaking, StocktakingV, Supplier, SupplierV, Supply,
    SupplyV};
use crate::error::Error;
use crate::sqlite_db::SqlVal;
use crate::text::{dec_of, dec_string, trimmed};
use crate::values::{
    EntryDateTime, JournalId, JournalRecord, JournalRecordV, PurchaseQuantity, PurchaseUnitPrice,
    StocktakenDateTime, StocktakingId, StocktakingQuantity, StocktakingRecord, StocktakingRecordV,
    StocktakingUnitPrice, SupplierId, SupplierName, SupplyId, SupplyName, UnitName, some_ink,
};

verus! {

/// The views of a query result: each row as a sequence of cells.
pub open spec fn sql_rows(rows: Seq<Vec<SqlVal>>) -> Seq<Seq<SqlVal>> {
    rows.map_values(|r: Vec<SqlVal>| r@)
}

/// An identifier column read as text: text keeps its value, a non-negative
/// integer renders as its decimal form, anything else carries no
/// identifier.
pub open spec fn text_like(v: SqlVal) -> Option<Seq<char>> {
    match v {
        SqlVal::Int(n) => if n >= 0 {
            Some(dec_of(n as int))
        } else {
            None
        },
        SqlVal::Text(s) => Some(s@),
        SqlVal::Null => None,
    }
}

/// A timestamp column read as an integer.
pub open spec fn int_like(v: SqlVal) -> Option<i64> {
    match v {
        SqlVal::Int(n) => Some(n),
        _ => None,
    }
}

/// A price or quantity column read as an unsigned 32-bit amount.
pub open spec fn u32_like(v: SqlVal) -> Option<u32> {
    match v {
        SqlVal::Int(n) => if 0 <= n <= u32::MAX {
            Some(n as u32)
        } else {
            None
        },
        _ => None,
    }
}

/// Whether a row is live: its last column is the soft-delete marker and it
/// is unset.
pub open spec fn row_live(row: Seq<SqlVal>) -> bool {
    row.len() > 0 && row.last() is Null
}

/// An identifier column read as text.
fn val_text(v: &SqlVal) -> (r: Option<String>)
    ensures
        match r {
            Some(s) => text_like(*v) == Some(s@),
            None => text_like(*v) is None,
        },
{
    match v {
        SqlVal::Int(n) => {
            if *n >= 0 {
                Some(dec_string(*n as u64))
            } else {
                None
            }
        },
        SqlVal::Text(s) => Some(s.clone()),
        SqlVal::Null => None,
    }
}

/// A timestamp column read as an integer.
pub(crate) fn val_int(v: &SqlVal) -> (r: Option<i64>)
    ensures
        r == int_like(*v),
{
    match v {
        SqlVal::Int(n) => Some(*n),
        _ => None,
    }
}

/// A price or quantity column read as an unsigned 32-bit amount.
fn val_u32(v: &SqlVal) -> (r: Option<u32>)
    ensures
        r == u32_like(*v),
{
    match v {
        SqlVal::Int(n) => {
            if 0 <= *n && *n <= u32::MAX as i64 {
                Some(*n as u32)
            } else {
                None
            }
        },
        _ => None,
    }
}

/// Whether a row is live.
fn live_row(row: &Vec<SqlVal>) -> (r: bool)
    ensures
        r == row_live(row@),
{
    if row.len() == 0 {
        return false;
    }
    match &row[row.len() - 1] {
        SqlVal::Null => true,
        _ => false,
    }
}

/// A valid identifier or name column: text-like with ink, in trimmed form.
pub open spec fn name_col(v: SqlVal) -> Option<Seq<char>> {
    match text_like(v) {
        Some(s) => if some_ink(s) {
            Some(trimmed(s))
        } else {
            None
        },
        None => None,
    }
}

/// The supply a live `supplies` row of shape
/// `(id, name, unit_name, supplier_id, deleted_at)` decodes to.
pub open spec fn supply_of_row(row: Seq<SqlVal>) -> Option<SupplyV> {
    if row.len() != 5 {
        None
    } else {
        match (name_col(row[0]), name_col(row[1]), name_col(row[2]), name_col(row[3])) {
            (Some(id), Some(name), Some(unit), Some(sid)) => Some(
                SupplyV { id: id, name: name, unit_name: unit, supplier_id: sid },
            ),
            _ => None,
        }
    }
}

/// The supplier a live `suppliers` row of shape `(id, name, deleted_at)`
/// decodes to.
pub open spec fn supplier_of_row(row: Seq<SqlVal>) -> Option<SupplierV> {
    if row.len() != 3 {
        None
    } else {
        match (name_col(row[0]), name_col(row[1])) {
            (Some(id), Some(name)) => Some(SupplierV { id: id, name: name }),
            _ => None,
        }
    }
}

/// The supplies all live rows of a result decode to, in row order.
pub open spec fn supplies_of_rows(rows: Seq<Seq<SqlVal>>) -> Seq<SupplyV>
    decreases rows.len(),
{
    if rows.len() == 0 {
        Seq::empty()
    } else {
        let rest = supplies_of_rows(rows.drop_last());
        if row_live(rows.last()) {
            match supply_of_row(rows.last()) {
                Some(s) => rest.push(s),
                None => rest,
            }
        } else {
            rest
        }
    }
}

/// The suppliers all live rows of a result decode to, in row order.
pub open spec fn suppliers_of_rows(rows: Seq<Seq<SqlVal>>) -> Seq<SupplierV>
    decreases rows.len(),
{
    if rows.len() == 0 {
        Seq::empty()
    } else {
        let rest = suppliers_of_rows(rows.drop_last());
        if row_live(rows.last()) {
            match supplier_of_row(rows.last()) {
                Some(s) => rest.push(s),
                None => rest,
            }
        } else {
            rest
        }
    }
}

/// Whether every live row of a supply result decodes.
pub open spec fn supply_rows_ok(rows: Seq<Seq<SqlVal>>) -> bool {
    forall|i: int|
        0 <= i < rows.len() && row_live(#[trigger] rows[i]) ==> supply_of_row(rows[i]) is Some
}

/// Whether every live row of a supplier result decodes.
pub open spec fn supplier_rows_ok(rows: Seq<Seq<SqlVal>>) -> bool {
    forall|i: int|
        0 <= i < rows.len() && row_live(#[trigger] rows[i]) ==> supplier_of_row(rows[i]) is Some
}

/// Reads one identifier or name column into its validated value, using the
/// given constructor semantics.
fn read_name_col(v: &SqlVal) -> (r: Option<String>)
    ensures
        match r {
            Some(s) => name_col(*v) == Some(s@) && crate::text::is_trim_shaped(s@),
            None => name_col(*v) is None,
        },
{
    match val_text(v) {
        Some(s) => {
            let t = crate::text::trim_text(s.as_str());
            if t.as_str().is_empty() {
                None
            } else {
                Some(t)
            }
        },
        None => None,
    }
}

/// Decodes every live supply row; fails when a live row is malformed.
pub fn decode_supplies(rows: &Vec<Vec<SqlVal>>) -> (r: Result<Vec<Supply>, Error>)
    ensures
        r is Ok <==> supply_rows_ok(sql_rows(rows@)),
        r matches Ok(v) ==> crate::search::supply_views(v@) == supplies_of_rows(sql_rows(rows@)),
        r matches Err(e) ==> e is InfrastructureError,
{
    let ghost rws = sql_rows(rows@);
    let mut out: Vec<Supply> = Vec::new();
    let mut i: usize = 0;
    proof {
        assert(crate::search::supply_views(out@) =~= supplies_of_rows(rws.take(0)));
    }
    while i < rows.len()
        invariant
            0 <= i <= rows@.len(),
            rws == sql_rows(rows@),
            crate::search::supply_views(out@) == supplies_of_rows(rws.take(i as int)),
            forall|k: int|
                0 <= k < i && row_live(#[trigger] rws[k]) ==> supply_of_row(rws[k]) is Some,
        decreases rows@.len() - i,
    {
        proof {
            assert(rws.take(i + 1).drop_last() =~= rws.take(i as int));
            assert(rws.take(i + 1).last() == rws[i as int]);
        }
        let row = &rows[i];
        if live_row(row) {
            if row.len() != 5 {
                return Err(
                    Error::InfrastructureError(String::from_str("failed to convert rows")),
                );
            }
            let id = match read_name_col(&row[0]) {
                Some(s) => s,
                None => {
                    return Err(
                        Error::InfrastructureError(String::from_str("failed to convert rows")),
                    );
                },
            };
            let name = match read_name_col(&row[1]) {
                Some(s) => s,
                None => {
                    return Err(
                        Error::InfrastructureError(String::from_str("failed to convert rows")),
                    );
                },
            };
            let unit = match read_name_col(&row[2]) {
                Some(s) => s,
                None => {
                    return Err(
                        Error::InfrastructureError(String::from_str("failed to convert rows")),
                    );
                },
            };
            let sid = match read_name_col(&row[3]) {
                Some(s) => s,
                None => {
                    return Err(
                        Error::InfrastructureError(String::from_str("failed to convert rows")),
                    );
                },
            };
            let ghost before = out@;
            let supply = Supply::new(
                SupplyId::from_trimmed(id),
                SupplyName::from_trimmed(name),
                UnitName::from_trimmed(unit),
                SupplierId::from_trimmed(sid),
            );
            out.push(supply);
            proof {
                assert(crate::search::supply_views(out@) =~= crate::search::supply_views(
                    before,
                ).push(supply@));
                assert(supply_of_row(rws[i as int]) == Some(supply@));
            }
        }
        i = i + 1;
    }
    proof {
        assert(rws.take(rows@.len() as int) =~= rws);
    }
    Ok(out)
}

/// Decodes every live supplier row; fails when a live row is malformed.
pub fn decode_suppliers(rows: &Vec<Vec<SqlVal>>) -> (r: Result<Vec<Supplier>, Error>)
    ensures
        r is Ok <==> supplier_rows_ok(sql_rows(rows@)),
        r matches Ok(v) ==> crate::search::supplier_views(v@) == suppliers_of_rows(
            sql_rows(rows@),
        ),
        r matches Err(e) ==> e is InfrastructureError,
{
    let ghost rws = sql_rows(rows@);
    let mut out: Vec<Supplier> = Vec::new();
    let mut i: usize = 0;
    proof {
        assert(crate::search::supplier_views(out@) =~= suppliers_of_rows(rws.take(0)));
    }
    while i < rows.len()
        invariant
            0 <= i <= rows@.len(),
            rws == sql_rows(rows@),
            crate::search::supplier_views(out@) == suppliers_of_rows(rws.take(i as int)),
            forall|k: int|
                0 <= k < i && row_live(#[trigger] rws[k]) ==> supplier_of_row(rws[k]) is Some,
        decreases rows@.len() - i,
    {
        proof {
            assert(rws.take(i + 1).drop_last() =~= rws.take(i as int));
            assert(rws.take(i + 1).last() == rws[i as int]);
        }
        let row = &rows[i];
        if live_row(row) {
            if row.len() != 3 {
                return Err(
                    Error::InfrastructureError(String::from_str("failed to convert rows")),
                );
            }
            let id = match read_name_col(&row[0]) {
                Some(s) => s,
                None => {
                    return Err(
                        Error::InfrastructureError(String::from_str("failed to convert rows")),
                    );
                },
            };
            let name = match read_name_col(&row[1]) {
                Some(s) => s,
                None => {
                    return Err(
                        Error::InfrastructureError(String::from_str("failed to convert rows")),
                    );
                },
            };
            let ghost before = out@;
            let supplier = Supplier::restore(
                SupplierId::from_trimmed(id),
                SupplierName::from_trimmed(name),
            );
            out.push(supplier);
            proof {
                assert(crate::search::supplier_views(out@) =~= crate::search::supplier_views(
                    before,
                ).push(supplier@));
                assert(supplier_of_row(rws[i as int]) == Some(supplier@));
            }
        }
        i = i + 1;
    }
    proof {
        assert(rws.take(rows@.len() as int) =~= rws);
    }
    Ok(out)
}

/// The journal shell a live `journals` row of shape
/// `(id, recorded_at, deleted_at)` decodes to.
pub open spec fn journal_head_of_row(row: Seq<SqlVal>) -> Option<(Seq<char>, i64)> {
    if row.len() != 3 {
        None
    } else {
        match (name_col(row[0]), int_like(row[1])) {
            (Some(id), Some(at)) => Some((id, at)),
            _ => None,
        }
    }
}

/// The `(journal identifier, line record)` pair a `journal_records` row of
/// shape `(journal_id, supply_id, supply_name, supplier_id, supplier_name,
/// unit_name, unit_price, quantity)` decodes to.
pub open spec fn journal_child_of_row(row: Seq<SqlVal>) -> Option<(Seq<char>, JournalRecordV)> {
    if row.len() != 8 {
        None
    } else {
        match (
            name_col(row[0]),
            name_col(row[1]),
            name_col(row[2]),
            name_col(row[3]),
            name_col(row[4]),
            name_col(row[5]),
            u32_like(row[6]),
            u32_like(row[7]),
        ) {
            (
                Some(jid),
                Some(sid),
                Some(sname),
                Some(pid),
                Some(pname),
                Some(unit),
                Some(price),
                Some(qty),
            ) => if price > 0 {
                Some(
                    (
                        jid,
                        JournalRecordV {
                            supply_id: sid,
                            supply_name: sname,
                            supplier_id: pid,
                            supplier_name: pname,
                            unit_name: unit,
                            unit_price: price,
                            quantity: qty,
                        },
                    ),
                )
            } else {
                None
            },
            _ => None,
        }
    }
}

/// The stocktaking shell a live `stocktakings` row of shape
/// `(id, stocktaken_at, deleted_at)` decodes to.
pub open spec fn stocktaking_head_of_row(row: Seq<SqlVal>) -> Option<(Seq<char>, i64)> {
    if row.len() != 3 {
        None
    } else {
        match (name_col(row[0]), int_like(row[1])) {
            (Some(id), Some(at)) => Some((id, at)),
            _ => None,
        }
    }
}

/// The `(stocktaking identifier, line record)` pair a
/// `stocktaking_records` row of shape `(stocktaking_id, supply_id,
/// supply_name, unit_name, unit_price, quantity)` decodes to.
pub open spec fn stocktaking_child_of_row(row: Seq<SqlVal>) -> Option<
    (Seq<char>, StocktakingRecordV),
> {
    if row.len() != 6 {
        None
    } else {
        match (
            name_col(row[0]),
            name_col(row[1]),
            name_col(row[2]),
            name_col(row[3]),
            u32_like(row[4]),
            u32_like(row[5]),
        ) {
            (Some(tid), Some(sid), Some(sname), Some(unit), Some(price), Some(qty)) => Some(
                (
                    tid,
                    StocktakingRecordV {
                        supply_id: sid,
                        supply_name: sname,
                        unit_name: unit,
                        unit_price: price,
                        quantity: qty,
                    },
                ),
            ),
            _ => None,
        }
    }
}

/// The journal shells all live rows of a result decode to, in row order.
pub open spec fn journal_heads_of_rows(rows: Seq<Seq<SqlVal>>) -> Seq<(Seq<char>, i64)>
    decreases rows.len(),
{
    if rows.len() == 0 {
        Seq::empty()
    } else {
        let rest = journal_heads_of_rows(rows.drop_last());
        if row_live(rows.last()) {
            match journal_head_of_row(rows.last()) {
                Some(h) => rest.push(h),
                None => rest,
            }
        } else {
            rest
        }
    }
}

/// The journal child pairs all rows of a result decode to, in row order.
pub open spec fn journal_children_of_rows(rows: Seq<Seq<SqlVal>>) -> Seq<
    (Seq<char>, JournalRecordV),
>
    decreases rows.len(),
{
    if rows.len() == 0 {
        Seq::empty()
    } else {
        let rest = journal_children_of_rows(rows.drop_last());
        match journal_child_of_row(rows.last()) {
            Some(c) => rest.push(c),
            None => rest,
        }
    }
}

/// The stocktaking shells all live rows of a result decode to, in row
/// order.
pub open spec fn stocktaking_heads_of_rows(rows: Seq<Seq<SqlVal>>) -> Seq<(Seq<char>, i64)>
    decreases rows.len(),
{
    if rows.len() == 0 {
        Seq::empty()
    } else {
        let rest = stocktaking_heads_of_rows(rows.drop_last());
        if row_live(rows.last()) {
            match stocktaking_head_of_row(rows.last()) {
                Some(h) => rest.push(h),
                None => rest,
            }
        } else {
            rest
        }
    }
}

/// The stocktaking child pairs all rows of a result decode to, in row
/// order.
pub open spec fn stocktaking_children_of_rows(rows: Seq<Seq<SqlVal>>) -> Seq<
    (Seq<char>, StocktakingRecordV),
>
    decreases rows.len(),
{
    if rows.len() == 0 {
        Seq::empty()
    } else {
        let rest = stocktaking_children_of_rows(rows.drop_last());
        match stocktaking_child_of_row(rows.last()) {
            Some(c) => rest.push(c),
            None => rest,
        }
    }
}

/// Whether every live head row of a journal result decodes.
pub open spec fn journal_head_rows_ok(rows: Seq<Seq<SqlVal>>) -> bool {
    forall|i: int|
        0 <= i < rows.len() && row_live(#[trigger] rows[i]) ==> journal_head_of_row(rows[i])
            is Some
}

/// Whether every child row of a journal result decodes.
pub open spec fn journal_child_rows_ok(rows: Seq<Seq<SqlVal>>) -> bool {
    forall|i: int| 0 <= i < rows.len() ==> journal_child_of_row(#[trigger] rows[i]) is Some
}

/// Whether every live head row of a stocktaking result decodes.
pub open spec fn stocktaking_head_rows_ok(rows: Seq<Seq<SqlVal>>) -> bool {
    forall|i: int|
        0 <= i < rows.len() && row_live(#[trigger] rows[i]) ==> stocktaking_head_of_row(rows[i])
            is Some
}

/// Whether every child row of a stocktaking result decodes.
pub open spec fn stocktaking_child_rows_ok(rows: Seq<Seq<SqlVal>>) -> bool {
    forall|i: int| 0 <= i < rows.len() ==> stocktaking_child_of_row(#[trigger] rows[i]) is Some
}

/// The line records among the child pairs that belong to the given parent,
/// in row order.
pub open spec fn journal_records_of(
    children: Seq<(Seq<char>, JournalRecordV)>,
    id: Seq<char>,
) -> Seq<JournalRecordV>
    decreases children.len(),
{
    if children.len() == 0 {
        Seq::empty()
    } else {
        let rest = journal_records_of(children.drop_last(), id);
        if children.last().0 == id {
            rest.push(children.last().1)
        } else {
            rest
        }
    }
}

/// The line records among the child pairs that belong to the given parent,
/// in row order.
pub open spec fn stocktaking_records_of(
    children: Seq<(Seq<char>, StocktakingRecordV)>,
    id: Seq<char>,
) -> Seq<StocktakingRecordV>
    decreases children.len(),
{
    if children.len() == 0 {
        Seq::empty()
    } else {
        let rest = stocktaking_records_of(children.drop_last(), id);
        if children.last().0 == id {
            rest.push(children.last().1)
        } else {
            rest
        }
    }
}

/// The views of decoded journal child pairs.
pub open spec fn journal_pair_views(v: Seq<(String, JournalRecord)>) -> Seq<
    (Seq<char>, JournalRecordV),
> {
    v.map_values(|p: (String, JournalRecord)| (p.0@, p.1@))
}

/// The views of decoded stocktaking child pairs.
pub open spec fn stocktaking_pair_views(v: Seq<(String, StocktakingRecord)>) -> Seq<
    (Seq<char>, StocktakingRecordV),
> {
    v.map_values(|p: (String, StocktakingRecord)| (p.0@, p.1@))
}

/// Decodes every journal child row; fails when a row is malformed.
pub fn decode_journal_children(rows: &Vec<Vec<SqlVal>>) -> (r: Result<
    Vec<(String, JournalRecord)>,
    Error,
>)
    ensures
        r is Ok <==> journal_child_rows_ok(sql_rows(rows@)),
        r matches Ok(v) ==> journal_pair_views(v@) == journal_children_of_rows(sql_rows(rows@)),
        r matches Err(e) ==> e is InfrastructureError,
{
    let ghost rws = sql_rows(rows@);
    let mut out: Vec<(String, JournalRecord)> = Vec::new();
    let mut i: usize = 0;
    proof {
        assert(journal_pair_views(out@) =~= journal_children_of_rows(rws.take(0)));
    }
    while i < rows.len()
        invariant
            0 <= i <= rows@.len(),
            rws == sql_rows(rows@),
            journal_pair_views(out@) == journal_children_of_rows(rws.take(i as int)),
            forall|k: int| 0 <= k < i ==> journal_child_of_row(#[trigger] rws[k]) is Some,
        decreases rows@.len() - i,
    {
        proof {
            assert(rws.take(i + 1).drop_last() =~= rws.take(i as int));
            assert(rws.take(i + 1).last() == rws[i as int]);
        }
        let row = &rows[i];
        if row.len() != 8 {
            return Err(Error::InfrastructureError(String::from_str("failed to convert rows")));
        }
        let jid = match read_name_col(&row[0]) {
            Some(s) => s,
            None => {
                return Err(
                    Error::InfrastructureError(String::from_str("failed to convert rows")),
                );
            },
        };
        let sid = match read_name_col(&row[1]) {
            Some(s) => s,
            None => {
                return Err(
                    Error::InfrastructureError(String::from_str("failed to convert rows")),
                );
            },
        };
        let sname = match read_name_col(&row[2]) {
            Some(s) => s,
            None => {
                return Err(
                    Error::InfrastructureError(String::from_str("failed to convert rows")),
                );
            },
        };
        let pid = match read_name_col(&row[3]) {
            Some(s) => s,
            None => {
                return Err(
                    Error::InfrastructureError(String::from_str("failed to convert rows")),
                );
            },
        };
        let pname = match read_name_col(&row[4]) {
            Some(s) => s,
            None => {
                return Err(
                    Error::InfrastructureError(String::from_str("failed to convert rows")),
                );
            },
        };
        let unit = match read_name_col(&row[5]) {
            Some(s) => s,
            None => {
                return Err(
                    Error::InfrastructureError(String::from_str("failed to convert rows")),
                );
            },
        };
        let price = match val_u32(&row[6]) {
            Some(v) => v,
            None => {
                return Err(
                    Error::InfrastructureError(String::from_str("failed to convert rows")),
                );
            },
        };
        let price = match PurchaseUnitPrice::new(price) {
            Ok(v) => v,
            Err(_) => {
                return Err(
                    Error::InfrastructureError(String::from_str("failed to convert rows")),
                );
            },
        };
        let qty = match val_u32(&row[7]) {
            Some(v) => v,
            None => {
                return Err(
                    Error::InfrastructureError(String::from_str("failed to convert rows")),
                );
            },
        };
        let qty = match PurchaseQuantity::new(qty) {
            Ok(v) => v,
            Err(_) => {
                return Err(
                    Error::InfrastructureError(String::from_str("failed to convert rows")),
                );
            },
        };
        let rec = JournalRecord::new(
            SupplyId::from_trimmed(sid),
            SupplyName::from_trimmed(sname),
            SupplierId::from_trimmed(pid),
            SupplierName::from_trimmed(pname),
            UnitName::from_trimmed(unit),
            price,
            qty,
        );
        let ghost before = out@;
        out.push((jid, rec));
        proof {
            assert(journal_pair_views(out@) =~= journal_pair_views(before).push(
                (out@.last().0@, out@.last().1@),
            ));
            assert(journal_child_of_row(rws[i as int]) == Some((out@.last().0@, out@.last().1@)));
        }
        i = i + 1;
    }
    proof {
        assert(rws.take(rows@.len() as int) =~= rws);
    }
    Ok(out)
}

/// Decodes every stocktaking child row; fails when a row is malformed.
pub fn decode_stocktaking_children(rows: &Vec<Vec<SqlVal>>) -> (r: Result<
    Vec<(String, StocktakingRecord)>,
    Error,
>)
    ensures
        r is Ok <==> stocktaking_child_rows_ok(sql_rows(rows@)),
        r matches Ok(v) ==> stocktaking_pair_views(v@) == stocktaking_children_of_rows(
            sql_rows(rows@),
        ),
        r matches Err(e) ==> e is InfrastructureError,
{
    let ghost rws = sql_rows(rows@);
    let mut out: Vec<(String, StocktakingRecord)> = Vec::new();
    let mut i: usize = 0;
    proof {
        assert(stocktaking_pair_views(out@) =~= stocktaking_children_of_rows(rws.take(0)));
    }
    while i < rows.len()
        invariant
            0 <= i <= rows@.len(),
            rws == sql_rows(rows@),
            stocktaking_pair_views(out@) == stocktaking_children_of_rows(rws.take(i as int)),
            forall|k: int| 0 <= k < i ==> stocktaking_child_of_row(#[trigger] rws[k]) is Some,
        decreases rows@.len() - i,
    {
        proof {
            assert(rws.take(i + 1).drop_last() =~= rws.take(i as int));
            assert(rws.take(i + 1).last() == rws[i as int]);
        }
        let row = &rows[i];
        if row.len() != 6 {
            return Err(Error::InfrastructureError(String::from_str("failed to convert rows")));
        }
        let tid = match read_name_col(&row[0]) {
            Some(s) => s,
            None => {
                return Err(
                    Error::InfrastructureError(String::from_str("failed to convert rows")),
                );
            },
        };
        let sid = match read_name_col(&row[1]) {
            Some(s) => s,
            None => {
                return Err(
                    Error::InfrastructureError(String::from_str("failed to convert rows")),
                );
            },
        };
        let sname = match read_name_col(&row[2]) {
            Some(s) => s,
            None => {
                return Err(
                    Error::InfrastructureError(String::from_str("failed to convert rows")),
                );
            },
        };
        let unit = match read_name_col(&row[3]) {
            Some(s) => s,
            None => {
                return Err(
                    Error::InfrastructureError(String::from_str("failed to convert rows")),
                );
            },
        };
        let price = match val_u32(&row[4]) {
            Some(v) => v,
            None => {
                return Err(
                    Error::InfrastructureError(String::from_str("failed to convert rows")),
                );
            },
        };
        let price = match StocktakingUnitPrice::new(price) {
            Ok(v) => v,
            Err(_) => {
                return Err(
                    Error::InfrastructureError(String::from_str("failed to convert rows")),
                );
            },
        };
        let qty = match val_u32(&row[5]) {
            Some(v) => v,
            None => {
                return Err(
                    Error::InfrastructureError(String::from_str("failed to convert rows")),
                );
            },
        };
        let qty = match StocktakingQuantity::new(qty) {
            Ok(v) => v,
            Err(_) => {
                return Err(
                    Error::InfrastructureError(String::from_str("failed to convert rows")),
                );
            },
        };
        let rec = StocktakingRecord::new(
            SupplyId::from_trimmed(sid),
            SupplyName::from_trimmed(sname),
            UnitName::from_trimmed(unit),
            price,
            qty,
        );
        let ghost before = out@;
        out.push((tid, rec));
        proof {
            assert(stocktaking_pair_views(out@) =~= stocktaking_pair_views(before).push(
                (out@.last().0@, out@.last().1@),
            ));
            assert(stocktaking_child_of_row(rws[i as int]) == Some(
                (out@.last().0@, out@.last().1@),
            ));
        }
        i = i + 1;
    }
    proof {
        assert(rws.take(rows@.len() as int) =~= rws);
    }
    Ok(out)
}

/// Rebuilds whole journals from decoded head rows and child pairs: each
/// head becomes a journal carrying, in row order, exactly the records whose
/// parent identifier matches.
pub fn assemble_journals(
    heads: &Vec<Vec<SqlVal>>,
    children: &Vec<(String, JournalRecord)>,
) -> (r: Result<Vec<Journal>, Error>)
    ensures
        r is Ok <==> journal_head_rows_ok(sql_rows(heads@)),
        r matches Ok(v) ==> {
            &&& crate::search::journal_views(v@).len() == journal_heads_of_rows(
                sql_rows(heads@),
            ).len()
            &&& forall|i: int|
                0 <= i < crate::search::journal_views(v@).len()
                    ==> #[trigger] crate::search::journal_views(v@)[i] == (JournalV {
                    id: journal_heads_of_rows(sql_rows(heads@))[i].0,
                    entry_datetime: journal_heads_of_rows(sql_rows(heads@))[i].1,
                    records: journal_records_of(
                        journal_pair_views(children@),
                        journal_heads_of_rows(sql_rows(heads@))[i].0,
                    ),
                })
        },
        r matches Err(e) ==> e is InfrastructureError,
{
    let ghost rws = sql_rows(heads@);
    let mut out: Vec<Journal> = Vec::new();
    let mut i: usize = 0;
    proof {
        assert(journal_heads_of_rows(rws.take(0)) =~= Seq::<(Seq<char>, i64)>::empty());
    }
    while i < heads.len()
        invariant
            0 <= i <= heads@.len(),
            rws == sql_rows(heads@),
            crate::search::journal_views(out@).len() == journal_heads_of_rows(
                rws.take(i as int),
            ).len(),
            forall|k: int|
                0 <= k < crate::search::journal_views(out@).len()
                    ==> #[trigger] crate::search::journal_views(out@)[k] == (JournalV {
                    id: journal_heads_of_rows(rws.take(i as int))[k].0,
                    entry_datetime: journal_heads_of_rows(rws.take(i as int))[k].1,
                    records: journal_records_of(
                        journal_pair_views(children@),
                        journal_heads_of_rows(rws.take(i as int))[k].0,
                    ),
                }),
            forall|k: int|
                0 <= k < i && row_live(#[trigger] rws[k]) ==> journal_head_of_row(rws[k]) is Some,
        decreases heads@.len() - i,
    {
        proof {
            assert(rws.take(i + 1).drop_last() =~= rws.take(i as int));
            assert(rws.take(i + 1).last() == rws[i as int]);
        }
        let row = &heads[i];
        if live_row(row) {
            if row.len() != 3 {
                return Err(
                    Error::InfrastructureError(String::from_str("failed to convert rows")),
                );
            }
            let id = match read_name_col(&row[0]) {
                Some(s) => s,
                None => {
                    return Err(
                        Error::InfrastructureError(String::from_str("failed to convert rows")),
                    );
                },
            };
            let at = match val_int(&row[1]) {
                Some(v) => v,
                None => {
                    return Err(
                        Error::InfrastructureError(String::from_str("failed to convert rows")),
                    );
                },
            };
            let id_text = id.clone();
            let jid = JournalId::from_trimmed(id);
            // Collect, in row order, the records whose parent matches.
            let mut recs: Vec<JournalRecord> = Vec::new();
            let mut k: usize = 0;
            proof {
                assert(recs@.map_values(|rec: JournalRecord| rec@) =~= journal_records_of(
                    journal_pair_views(children@).take(0),
                    jid@,
                ));
            }
            while k < children.len()
                invariant
                    0 <= k <= children@.len(),
                    id_text@ == jid@,
                    recs@.map_values(|rec: JournalRecord| rec@) == journal_records_of(
                        journal_pair_views(children@).take(k as int),
                        jid@,
                    ),
                decreases children@.len() - k,
            {
                proof {
                    assert(journal_pair_views(children@).take(k + 1).drop_last()
                        =~= journal_pair_views(children@).take(k as int));
                    assert(journal_pair_views(children@).take(k + 1).last()
                        == journal_pair_views(children@)[k as int]);
                }
                if children[k].0 == id_text {
                    let ghost before = recs@;
                    recs.push(children[k].1.clone());
                    proof {
                        assert(recs@.map_values(|rec: JournalRecord| rec@) =~= before.map_values(
                            |rec: JournalRecord| rec@,
                        ).push(recs@.last()@));
                    }
                }
                k = k + 1;
            }
            proof {
                assert(journal_pair_views(children@).take(children@.len() as int)
                    =~= journal_pair_views(children@));
            }
            let journal = Journal::restore(jid, EntryDateTime::new(at), recs);
            let ghost before = crate::search::journal_views(out@);
            out.push(journal);
            proof {
                assert(crate::search::journal_views(out@) =~= before.push(journal@));
                assert(journal_head_of_row(rws[i as int]) == Some((journal@.id, at)));
            }
        }
        i = i + 1;
    }
    proof {
        assert(rws.take(heads@.len() as int) =~= rws);
    }
    Ok(out)
}

/// Rebuilds whole stocktakings from decoded head rows and child pairs:
/// each head becomes a stocktaking carrying, in row order, exactly the
/// records whose parent identifier matches.
pub fn assemble_stocktakings(
    heads: &Vec<Vec<SqlVal>>,
    children: &Vec<(String, StocktakingRecord)>,
) -> (r: Result<Vec<Stocktaking>, Error>)
    ensures
        r is Ok <==> stocktaking_head_rows_ok(sql_rows(heads@)),
        r matches Ok(v) ==> {
            &&& crate::search::stocktaking_views(v@).len() == stocktaking_heads_of_rows(
                sql_rows(heads@),
            ).len()
            &&& forall|i: int|
                0 <= i < crate::search::stocktaking_views(v@).len()
                    ==> #[trigger] crate::search::stocktaking_views(v@)[i] == (StocktakingV {
                    id: stocktaking_heads_of_rows(sql_rows(heads@))[i].0,
                    stocktaken_datetime: stocktaking_heads_of_rows(sql_rows(heads@))[i].1,
                    records: stocktaking_records_of(
                        stocktaking_pair_views(children@),
                        stocktaking_heads_of_rows(sql_rows(heads@))[i].0,
                    ),
                })
        },
        r matches Err(e) ==> e is InfrastructureError,
{
    let ghost rws = sql_rows(heads@);
    let mut out: Vec<Stocktaking> = Vec::new();
    let mut i: usize = 0;
    proof {
        assert(stocktaking_heads_of_rows(rws.take(0)) =~= Seq::<(Seq<char>, i64)>::empty());
    }
    while i < heads.len()
        invariant
            0 <= i <= heads@.len(),
            rws == sql_rows(heads@),
            crate::search::stocktaking_views(out@).len() == stocktaking_heads_of_rows(
                rws.take(i as int),
            ).len(),
            forall|k: int|
                0 <= k < crate::search::stocktaking_views(out@).len()
                    ==> #[trigger] crate::search::stocktaking_views(out@)[k] == (StocktakingV {
                    id: stocktaking_heads_of_rows(rws.take(i as int))[k].0,
                    stocktaken_datetime: stocktaking_heads_of_rows(rws.take(i as int))[k].1,
                    records: stocktaking_records_of(
                        stocktaking_pair_views(children@),
                        stocktaking_heads_of_rows(rws.take(i as int))[k].0,
                    ),
                }),
            forall|k: int|
                0 <= k < i && row_live(#[trigger] rws[k]) ==> stocktaking_head_of_row(rws[k])
                    is Some,
        decreases heads@.len() - i,
    {
        proof {
            assert(rws.take(i + 1).drop_last() =~= rws.take(i as int));
            assert(rws.take(i + 1).last() == rws[i as int]);
        }
        let row = &heads[i];
        if live_row(row) {
            if row.len() != 3 {
                return Err(
                    Error::InfrastructureError(String::from_str("failed to convert rows")),
                );
            }
            let id = match read_name_col(&row[0]) {
                Some(s) => s,
                None => {
                    return Err(
                        Error::InfrastructureError(String::from_str("failed to convert rows")),
                    );
                },
            };
            let at = match val_int(&row[1]) {
                Some(v) => v,
                None => {
                    return Err(
                        Error::InfrastructureError(String::from_str("failed to convert rows")),
                    );
                },
            };
            let id_text = id.clone();
            let tid = StocktakingId::from_trimmed(id);
            // Collect, in row order, the records whose parent matches.
            let mut recs: Vec<StocktakingRecord> = Vec::new();
            let mut k: usize = 0;
            proof {
                assert(recs@.map_values(|rec: StocktakingRecord| rec@) =~= stocktaking_records_of(
                    stocktaking_pair_views(children@).take(0),
                    tid@,
                ));
            }
            while k < children.len()
                invariant
                    0 <= k <= children@.len(),
                    id_text@ == tid@,
                    recs@.map_values(|rec: StocktakingRecord| rec@) == stocktaking_records_of(
                        stocktaking_pair_views(children@).take(k as int),
                        tid@,
                    ),
                decreases children@.len() - k,
            {
                proof {
                    assert(stocktaking_pair_views(children@).take(k + 1).drop_last()
                        =~= stocktaking_pair_views(children@).take(k as int));
                    assert(stocktaking_pair_views(children@).take(k + 1).last()
                        == stocktaking_pair_views(children@)[k as int]);
                }
                if children[k].0 == id_text {
                    let ghost before = recs@;
                    recs.push(children[k].1.clone());
                    proof {
                        assert(recs@.map_values(|rec: StocktakingRecord| rec@)
                            =~= before.map_values(|rec: StocktakingRecord| rec@).push(
                            recs@.last()@,
                        ));
                    }
                }
                k = k + 1;
            }
            proof {
                assert(stocktaking_pair_views(children@).take(children@.len() as int)
                    =~= stocktaking_pair_views(children@));
            }
            let stocktaking = Stocktaking::restore(tid, StocktakenDateTime::new(at), recs);
            let ghost before = crate::search::stocktaking_views(out@);
            out.push(stocktaking);
            proof {
                assert(crate::search::stocktaking_views(out@) =~= before.push(stocktaking@));
                assert(stocktaking_head_of_row(rws[i as int]) == Some((stocktaking@.id, at)));
            }
        }
        i = i + 1;
    }
    proof {
        assert(rws.take(heads@.len() as int) =~= rws);
    }
    Ok(out)
}

} // verus!
