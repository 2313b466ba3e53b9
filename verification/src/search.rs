//! The search engine shared by every repository implementation: the exact
//! matching predicates of the four find operations, verified filtering, and
//! verified ordering of results by their date field.

use vstd::prelude::*;

use crate::entities::{Journal, JournalV, Stocktaking, StocktakingV, Supplier, SupplierV, Supply,
    SupplyV};
use crate::queries::{FindJournalsQueryV, FindJournalsQuery, FindStocktakingsQueryV,
    FindStocktakingsQuery, FindSuppliesQueryV, FindSuppliesQuery, FindSupplierQueryV,
    FindSupplierQuery};
use crate::text::{str_contains_str, text_contains};
use crate::values::{SupplierId, SupplierName, SupplyName};
use vstd::relations::sorted_by;
use vstd::seq_lib::group_to_multiset_ensures;

verus! {

broadcast use group_to_multiset_ensures;

/// The views of a vector of supplies.
pub open spec fn supply_views(v: Seq<Supply>) -> Seq<SupplyV> {
    v.map_values(|s: Supply| s@)
}

/// The views of a vector of suppliers.
pub open spec fn supplier_views(v: Seq<Supplier>) -> Seq<SupplierV> {
    v.map_values(|s: Supplier| s@)
}

/// The views of a vector of journals.
pub open spec fn journal_views(v: Seq<Journal>) -> Seq<JournalV> {
    v.map_values(|j: Journal| j@)
}

/// The views of a vector of stocktakings.
pub open spec fn stocktaking_views(v: Seq<Stocktaking>) -> Seq<StocktakingV> {
    v.map_values(|t: Stocktaking| t@)
}

/// Whether a supply passes the supply search: its name contains the supply
/// filter, and, when a supplier filter is given, some known supplier owns it
/// and has a name containing that filter.
pub open spec fn supply_matches(s: SupplyV, suppliers: Seq<SupplierV>, q: FindSuppliesQueryV) -> bool {
    &&& (q.supply_name matches Some(f) ==> text_contains(s.name, f))
    &&& (q.supplier_name matches Some(f) ==> exists|j: int|
        0 <= j < suppliers.len() && (#[trigger] suppliers[j]).id == s.supplier_id && text_contains(
            suppliers[j].name,
            f,
        ))
}

/// Whether a supplier passes the supplier search: its name contains the
/// supplier filter, and, when a supply filter is given, it owns at least one
/// supply whose name contains that filter.
pub open spec fn supplier_matches(p: SupplierV, supplies: Seq<SupplyV>, q: FindSupplierQueryV) -> bool {
    &&& (q.supplier_name matches Some(f) ==> text_contains(p.name, f))
    &&& (q.supply_name matches Some(f) ==> exists|j: int|
        0 <= j < supplies.len() && (#[trigger] supplies[j]).supplier_id == p.id && text_contains(
            supplies[j].name,
            f,
        ))
}

/// Whether a journal passes the journal search: its date lies in the
/// inclusive window, and each given name filter is contained in the
/// corresponding snapshotted name of at least one line record — the two
/// filters may be satisfied by different records.
pub open spec fn journal_matches(j: JournalV, q: FindJournalsQueryV) -> bool {
    &&& (q.period_start matches Some(s) ==> s <= j.entry_datetime)
    &&& (q.period_end matches Some(e) ==> j.entry_datetime <= e)
    &&& (q.supply_name matches Some(f) ==> exists|k: int|
        0 <= k < j.records.len() && text_contains((#[trigger] j.records[k]).supply_name, f))
    &&& (q.supplier_name matches Some(f) ==> exists|k: int|
        0 <= k < j.records.len() && text_contains((#[trigger] j.records[k]).supplier_name, f))
}

/// Whether a stocktaking passes the stocktaking search: its date lies in
/// the inclusive window.
pub open spec fn stocktaking_matches(t: StocktakingV, q: FindStocktakingsQueryV) -> bool {
    &&& (q.period_start matches Some(s) ==> s <= t.stocktaken_datetime)
    &&& (q.period_end matches Some(e) ==> t.stocktaken_datetime <= e)
}

/// Ascending order on journal dates.
pub open spec fn journal_date_le(a: JournalV, b: JournalV) -> bool {
    a.entry_datetime <= b.entry_datetime
}

/// Descending order on stocktaking dates.
pub open spec fn stocktaking_date_ge(a: StocktakingV, b: StocktakingV) -> bool {
    a.stocktaken_datetime >= b.stocktaken_datetime
}

/// Decides whether some known supplier has the given identifier and a name
/// containing the filter.
fn some_supplier_named(suppliers: &Vec<Supplier>, id: &SupplierId, f: &SupplierName) -> (r: bool)
    ensures
        r == exists|j: int|
            0 <= j < suppliers@.len() && (#[trigger] supplier_views(suppliers@)[j]).id == id@
                && text_contains(supplier_views(suppliers@)[j].name, f@),
{
    let mut i: usize = 0;
    while i < suppliers.len()
        invariant
            0 <= i <= suppliers@.len(),
            forall|j: int|
                0 <= j < i ==> !((#[trigger] supplier_views(suppliers@)[j]).id == id@
                    && text_contains(supplier_views(suppliers@)[j].name, f@)),
        decreases suppliers@.len() - i,
    {
        if suppliers[i].id() == id && str_contains_str(
            suppliers[i].name().as_str(),
            f.as_str(),
        ) {
            proof {
                assert((supplier_views(suppliers@)[i as int]).id == id@);
            }
            return true;
        }
        i = i + 1;
    }
    false
}

/// Decides whether the supplier with the given identifier owns a supply
/// whose name contains the filter.
fn some_supply_named(supplies: &Vec<Supply>, id: &SupplierId, f: &SupplyName) -> (r: bool)
    ensures
        r == exists|j: int|
            0 <= j < supplies@.len() && (#[trigger] supply_views(supplies@)[j]).supplier_id == id@
                && text_contains(supply_views(supplies@)[j].name, f@),
{
    let mut i: usize = 0;
    while i < supplies.len()
        invariant
            0 <= i <= supplies@.len(),
            forall|j: int|
                0 <= j < i ==> !((#[trigger] supply_views(supplies@)[j]).supplier_id == id@
                    && text_contains(supply_views(supplies@)[j].name, f@)),
        decreases supplies@.len() - i,
    {
        if supplies[i].supplier_id() == id && str_contains_str(
            supplies[i].name().as_str(),
            f.as_str(),
        ) {
            proof {
                assert((supply_views(supplies@)[i as int]).supplier_id == id@);
            }
            return true;
        }
        i = i + 1;
    }
    false
}

/// Decides [`supply_matches`] for one supply.
pub fn supply_matches_q(s: &Supply, suppliers: &Vec<Supplier>, q: &FindSuppliesQuery) -> (r: bool)
    ensures
        r == supply_matches(s@, supplier_views(suppliers@), q@),
{
    let name_ok = match &q.supply_name {
        Some(f) => str_contains_str(s.name().as_str(), f.as_str()),
        None => true,
    };
    if !name_ok {
        return false;
    }
    match &q.supplier_name {
        Some(f) => some_supplier_named(suppliers, s.supplier_id(), f),
        None => true,
    }
}

/// Decides [`supplier_matches`] for one supplier.
pub fn supplier_matches_q(p: &Supplier, supplies: &Vec<Supply>, q: &FindSupplierQuery) -> (r: bool)
    ensures
        r == supplier_matches(p@, supply_views(supplies@), q@),
{
    let name_ok = match &q.supplier_name {
        Some(f) => str_contains_str(p.name().as_str(), f.as_str()),
        None => true,
    };
    if !name_ok {
        return false;
    }
    match &q.supply_name {
        Some(f) => some_supply_named(supplies, p.id(), f),
        None => true,
    }
}

/// Decides [`journal_matches`] for one journal.
pub fn journal_matches_q(j: &Journal, q: &FindJournalsQuery) -> (r: bool)
    ensures
        r == journal_matches(j@, q@),
{
    match &q.period_start {
        Some(s) => {
            if !(s.as_i64() <= j.entry_datetime().as_i64()) {
                return false;
            }
        },
        None => {},
    }
    match &q.period_end {
        Some(e) => {
            if !(j.entry_datetime().as_i64() <= e.as_i64()) {
                return false;
            }
        },
        None => {},
    }
    let records = j.records();
    match &q.supply_name {
        Some(f) => {
            let mut i: usize = 0;
            let mut hit = false;
            while i < records.len()
                invariant
                    0 <= i <= records@.len(),
                    records@.map_values(|rec: crate::values::JournalRecord| rec@) == j@.records,
                    !hit ==> forall|k: int|
                        0 <= k < i ==> !text_contains((#[trigger] j@.records[k]).supply_name, f@),
                    hit ==> exists|k: int|
                        0 <= k < j@.records.len() && text_contains(
                            (#[trigger] j@.records[k]).supply_name,
                            f@,
                        ),
                decreases records@.len() - i,
            {
                if str_contains_str(records[i].supply_name().as_str(), f.as_str()) {
                    proof {
                        assert(j@.records[i as int].supply_name == records@[i as int]@.supply_name);
                    }
                    hit = true;
                }
                i = i + 1;
            }
            if !hit {
                return false;
            }
        },
        None => {},
    }
    match &q.supplier_name {
        Some(f) => {
            let mut i: usize = 0;
            let mut hit = false;
            while i < records.len()
                invariant
                    0 <= i <= records@.len(),
                    records@.map_values(|rec: crate::values::JournalRecord| rec@) == j@.records,
                    !hit ==> forall|k: int|
                        0 <= k < i ==> !text_contains((#[trigger] j@.records[k]).supplier_name, f@),
                    hit ==> exists|k: int|
                        0 <= k < j@.records.len() && text_contains(
                            (#[trigger] j@.records[k]).supplier_name,
                            f@,
                        ),
                decreases records@.len() - i,
            {
                if str_contains_str(records[i].supplier_name().as_str(), f.as_str()) {
                    proof {
                        assert(j@.records[i as int].supplier_name == records@[i as int]@.supplier_name);
                    }
                    hit = true;
                }
                i = i + 1;
            }
            if !hit {
                return false;
            }
        },
        None => {},
    }
    true
}

/// Decides [`stocktaking_matches`] for one stocktaking.
pub fn stocktaking_matches_q(t: &Stocktaking, q: &FindStocktakingsQuery) -> (r: bool)
    ensures
        r == stocktaking_matches(t@, q@),
{
    let start_ok = match &q.period_start {
        Some(s) => s.as_i64() <= t.stocktaken_at().as_i64(),
        None => true,
    };
    let end_ok = match &q.period_end {
        Some(e) => t.stocktaken_at().as_i64() <= e.as_i64(),
        None => true,
    };
    start_ok && end_ok
}

/// Unfolds one step of `filter` over a push.
pub proof fn lemma_filter_push<A>(s: Seq<A>, x: A, pred: spec_fn(A) -> bool)
    ensures
        s.push(x).filter(pred) == if pred(x) {
            s.filter(pred).push(x)
        } else {
            s.filter(pred)
        },
{
    reveal(Seq::filter);
    assert(s.push(x).drop_last() =~= s);
    assert(s.push(x).last() == x);
}

/// Everything a filter keeps was in the original sequence.
pub proof fn lemma_filter_subset<A>(s: Seq<A>, pred: spec_fn(A) -> bool)
    ensures
        forall|x: A| #[trigger] s.filter(pred).contains(x) ==> s.contains(x),
    decreases s.len(),
{
    reveal(Seq::filter);
    if s.len() > 0 {
        let s0 = s.drop_last();
        lemma_filter_subset(s0, pred);
        assert forall|x: A| #[trigger] s.filter(pred).contains(x) implies s.contains(x) by {
            let f = s.filter(pred);
            let f0 = s0.filter(pred);
            let i = choose|i: int| 0 <= i < f.len() && f[i] == x;
            if pred(s.last()) {
                if i == f.len() - 1 {
                    assert(s[s.len() - 1] == x);
                } else {
                    assert(f0[i] == x);
                    assert(f0.contains(x));
                    let j = choose|j: int| 0 <= j < s0.len() && s0[j] == x;
                    assert(s[j] == x);
                }
            } else {
                assert(f0[i] == x);
                assert(f0.contains(x));
                let j = choose|j: int| 0 <= j < s0.len() && s0[j] == x;
                assert(s[j] == x);
            }
        }
    }
}

/// Filtering keeps keys pairwise distinct.
pub proof fn lemma_filter_distinct_keys<A>(
    s: Seq<A>,
    key: spec_fn(A) -> Seq<char>,
    pred: spec_fn(A) -> bool,
)
    requires
        forall|i: int, j: int| 0 <= i < j < s.len() ==> key(#[trigger] s[i]) != key(#[trigger] s[j]),
    ensures
        forall|i: int, j: int|
            0 <= i < j < s.filter(pred).len() ==> key(#[trigger] s.filter(pred)[i]) != key(
                #[trigger] s.filter(pred)[j],
            ),
    decreases s.len(),
{
    reveal(Seq::filter);
    if s.len() > 0 {
        let s0 = s.drop_last();
        lemma_filter_distinct_keys(s0, key, pred);
        lemma_filter_subset(s0, pred);
        let f = s.filter(pred);
        let f0 = s0.filter(pred);
        if pred(s.last()) {
            assert forall|i: int| 0 <= i < f0.len() implies key(f0[i]) != key(s.last()) by {
                assert(f0.contains(f0[i]));
                assert(s0.contains(f0[i]));
                let j = choose|j: int| 0 <= j < s0.len() && s0[j] == f0[i];
                assert(key(s[j]) != key(s[s.len() - 1]));
            }
        }
    }
}

/// The supplies that pass the search, in storage order.
pub fn find_supplies_in(
    supplies: &Vec<Supply>,
    suppliers: &Vec<Supplier>,
    q: &FindSuppliesQuery,
) -> (r: Vec<Supply>)
    ensures
        supply_views(r@) == supply_views(supplies@).filter(
            |s: SupplyV| supply_matches(s, supplier_views(suppliers@), q@),
        ),
{
    let ghost pred = |s: SupplyV| supply_matches(s, supplier_views(suppliers@), q@);
    let mut r: Vec<Supply> = Vec::new();
    let mut i: usize = 0;
    proof {
        assert(supply_views(supplies@).take(0).filter(pred) =~= Seq::<SupplyV>::empty().filter(
            pred,
        ));
        reveal(Seq::filter);
        assert(supply_views(r@) =~= supply_views(supplies@).take(0).filter(pred));
    }
    while i < supplies.len()
        invariant
            0 <= i <= supplies@.len(),
            supply_views(r@) == supply_views(supplies@).take(i as int).filter(pred),
            pred == (|s: SupplyV| supply_matches(s, supplier_views(suppliers@), q@)),
        decreases supplies@.len() - i,
    {
        let ghost pre = supply_views(supplies@).take(i as int);
        proof {
            assert(supply_views(supplies@).take(i + 1) =~= pre.push(supply_views(supplies@)[i as int]));
            lemma_filter_push(pre, supply_views(supplies@)[i as int], pred);
        }
        if supply_matches_q(&supplies[i], suppliers, q) {
            r.push(supplies[i].clone());
            proof {
                assert(supply_views(r@) =~= pre.filter(pred).push(supply_views(supplies@)[i as int]));
            }
        }
        i = i + 1;
    }
    proof {
        assert(supply_views(supplies@).take(supplies@.len() as int) =~= supply_views(supplies@));
    }
    r
}

/// The suppliers that pass the search, in storage order.
pub fn find_suppliers_in(
    suppliers: &Vec<Supplier>,
    supplies: &Vec<Supply>,
    q: &FindSupplierQuery,
) -> (r: Vec<Supplier>)
    ensures
        supplier_views(r@) == supplier_views(suppliers@).filter(
            |p: SupplierV| supplier_matches(p, supply_views(supplies@), q@),
        ),
{
    let ghost pred = |p: SupplierV| supplier_matches(p, supply_views(supplies@), q@);
    let mut r: Vec<Supplier> = Vec::new();
    let mut i: usize = 0;
    proof {
        reveal(Seq::filter);
        assert(supplier_views(r@) =~= supplier_views(suppliers@).take(0).filter(pred));
    }
    while i < suppliers.len()
        invariant
            0 <= i <= suppliers@.len(),
            supplier_views(r@) == supplier_views(suppliers@).take(i as int).filter(pred),
            pred == (|p: SupplierV| supplier_matches(p, supply_views(supplies@), q@)),
        decreases suppliers@.len() - i,
    {
        let ghost pre = supplier_views(suppliers@).take(i as int);
        proof {
            assert(supplier_views(suppliers@).take(i + 1) =~= pre.push(supplier_views(suppliers@)[i as int]));
            lemma_filter_push(pre, supplier_views(suppliers@)[i as int], pred);
        }
        if supplier_matches_q(&suppliers[i], supplies, q) {
            r.push(suppliers[i].clone());
            proof {
                assert(supplier_views(r@) =~= pre.filter(pred).push(supplier_views(suppliers@)[i as int]));
            }
        }
        i = i + 1;
    }
    proof {
        assert(supplier_views(suppliers@).take(suppliers@.len() as int) =~= supplier_views(
            suppliers@,
        ));
    }
    r
}

/// The journals that pass the search, in storage order (not yet sorted).
pub fn find_journals_in(journals: &Vec<Journal>, q: &FindJournalsQuery) -> (r: Vec<Journal>)
    ensures
        journal_views(r@) == journal_views(journals@).filter(|j: JournalV| journal_matches(j, q@)),
{
    let ghost pred = |j: JournalV| journal_matches(j, q@);
    let mut r: Vec<Journal> = Vec::new();
    let mut i: usize = 0;
    proof {
        reveal(Seq::filter);
        assert(journal_views(r@) =~= journal_views(journals@).take(0).filter(pred));
    }
    while i < journals.len()
        invariant
            0 <= i <= journals@.len(),
            journal_views(r@) == journal_views(journals@).take(i as int).filter(pred),
            pred == (|j: JournalV| journal_matches(j, q@)),
        decreases journals@.len() - i,
    {
        let ghost pre = journal_views(journals@).take(i as int);
        proof {
            assert(journal_views(journals@).take(i + 1) =~= pre.push(journal_views(journals@)[i as int]));
            lemma_filter_push(pre, journal_views(journals@)[i as int], pred);
        }
        if journal_matches_q(&journals[i], q) {
            r.push(journals[i].clone());
            proof {
                assert(journal_views(r@) =~= pre.filter(pred).push(journal_views(journals@)[i as int]));
            }
        }
        i = i + 1;
    }
    proof {
        assert(journal_views(journals@).take(journals@.len() as int) =~= journal_views(journals@));
    }
    r
}

/// The stocktakings that pass the search, in storage order (not yet
/// sorted).
pub fn find_stocktakings_in(stocktakings: &Vec<Stocktaking>, q: &FindStocktakingsQuery) -> (r:
    Vec<Stocktaking>)
    ensures
        stocktaking_views(r@) == stocktaking_views(stocktakings@).filter(
            |t: StocktakingV| stocktaking_matches(t, q@),
        ),
{
    let ghost pred = |t: StocktakingV| stocktaking_matches(t, q@);
    let mut r: Vec<Stocktaking> = Vec::new();
    let mut i: usize = 0;
    proof {
        reveal(Seq::filter);
        assert(stocktaking_views(r@) =~= stocktaking_views(stocktakings@).take(0).filter(pred));
    }
    while i < stocktakings.len()
        invariant
            0 <= i <= stocktakings@.len(),
            stocktaking_views(r@) == stocktaking_views(stocktakings@).take(i as int).filter(pred),
            pred == (|t: StocktakingV| stocktaking_matches(t, q@)),
        decreases stocktakings@.len() - i,
    {
        let ghost pre = stocktaking_views(stocktakings@).take(i as int);
        proof {
            assert(stocktaking_views(stocktakings@).take(i + 1) =~= pre.push(stocktaking_views(
                stocktakings@,
            )[i as int]));
            lemma_filter_push(pre, stocktaking_views(stocktakings@)[i as int], pred);
        }
        if stocktaking_matches_q(&stocktakings[i], q) {
            r.push(stocktakings[i].clone());
            proof {
                assert(stocktaking_views(r@) =~= pre.filter(pred).push(stocktaking_views(
                    stocktakings@,
                )[i as int]));
            }
        }
        i = i + 1;
    }
    proof {
        assert(stocktaking_views(stocktakings@).take(stocktakings@.len() as int)
            =~= stocktaking_views(stocktakings@));
    }
    r
}

/// Reorders the journals so that entry dates ascend; the collection of
/// journals is unchanged.
pub fn sort_journals_by_date(v: Vec<Journal>) -> (r: Vec<Journal>)
    ensures
        journal_views(r@).to_multiset() == journal_views(v@).to_multiset(),
        sorted_by(journal_views(r@), |a: JournalV, b: JournalV| journal_date_le(a, b)),
{
    let ghost orig = journal_views(v@);
    let ghost leq = |a: JournalV, b: JournalV| journal_date_le(a, b);
    let mut work = v;
    let mut out: Vec<Journal> = Vec::new();
    proof {
        assert(journal_views(out@).to_multiset().add(journal_views(work@).to_multiset())
            =~= orig.to_multiset());
    }
    while work.len() > 0
        invariant
            journal_views(out@).to_multiset().add(journal_views(work@).to_multiset())
                == orig.to_multiset(),
            sorted_by(journal_views(out@), leq),
            leq == (|a: JournalV, b: JournalV| journal_date_le(a, b)),
            forall|i: int, j: int|
                0 <= i < journal_views(out@).len() && 0 <= j < journal_views(work@).len()
                    ==> journal_date_le(
                    #[trigger] journal_views(out@)[i],
                    #[trigger] journal_views(work@)[j],
                ),
        decreases work@.len(),
    {
        let ghost wv = journal_views(work@);
        let mut m: usize = 0;
        let mut k: usize = 1;
        while k < work.len()
            invariant
                0 <= m < k <= work@.len(),
                work@.len() > 0,
                wv == journal_views(work@),
                forall|j: int| 0 <= j < k ==> journal_date_le(wv[m as int], #[trigger] wv[j]),
            decreases work@.len() - k,
        {
            if work[k].entry_datetime().as_i64() < work[m].entry_datetime().as_i64() {
                m = k;
            }
            k = k + 1;
        }
        let ghost ov = journal_views(out@);
        let x = work.remove(m);
        out.push(x);
        proof {
            wv.remove_ensures(m as int);
            assert(journal_views(work@) =~= wv.remove(m as int));
            assert(journal_views(out@) =~= ov.push(wv[m as int]));
            assert(journal_views(out@).to_multiset().add(journal_views(work@).to_multiset())
                =~= orig.to_multiset()) by {
                assert(ov.push(wv[m as int]).to_multiset() =~= ov.to_multiset().insert(wv[m as int]));
                assert(wv.remove(m as int).to_multiset() =~= wv.to_multiset().remove(wv[m as int]));
                assert(wv.contains(wv[m as int]));
                assert(wv.to_multiset().count(wv[m as int]) > 0);
            }
            assert(sorted_by(journal_views(out@), leq)) by {
                assert(forall|i: int|
                    0 <= i < ov.len() ==> journal_date_le(#[trigger] ov[i], wv[m as int]));
            }
        }
    }
    out
}

/// Reorders the stocktakings so that stocktaken dates descend; the
/// collection of stocktakings is unchanged.
pub fn sort_stocktakings_by_date(v: Vec<Stocktaking>) -> (r: Vec<Stocktaking>)
    ensures
        stocktaking_views(r@).to_multiset() == stocktaking_views(v@).to_multiset(),
        sorted_by(
            stocktaking_views(r@),
            |a: StocktakingV, b: StocktakingV| stocktaking_date_ge(a, b),
        ),
{
    let ghost orig = stocktaking_views(v@);
    let ghost geq = |a: StocktakingV, b: StocktakingV| stocktaking_date_ge(a, b);
    let mut work = v;
    let mut out: Vec<Stocktaking> = Vec::new();
    proof {
        assert(stocktaking_views(out@).to_multiset().add(stocktaking_views(work@).to_multiset())
            =~= orig.to_multiset());
    }
    while work.len() > 0
        invariant
            stocktaking_views(out@).to_multiset().add(stocktaking_views(work@).to_multiset())
                == orig.to_multiset(),
            sorted_by(stocktaking_views(out@), geq),
            geq == (|a: StocktakingV, b: StocktakingV| stocktaking_date_ge(a, b)),
            forall|i: int, j: int|
                0 <= i < stocktaking_views(out@).len() && 0 <= j < stocktaking_views(work@).len()
                    ==> stocktaking_date_ge(
                    #[trigger] stocktaking_views(out@)[i],
                    #[trigger] stocktaking_views(work@)[j],
                ),
        decreases work@.len(),
    {
        let ghost wv = stocktaking_views(work@);
        let mut m: usize = 0;
        let mut k: usize = 1;
        while k < work.len()
            invariant
                0 <= m < k <= work@.len(),
                work@.len() > 0,
                wv == stocktaking_views(work@),
                forall|j: int| 0 <= j < k ==> stocktaking_date_ge(wv[m as int], #[trigger] wv[j]),
            decreases work@.len() - k,
        {
            if work[k].stocktaken_at().as_i64() > work[m].stocktaken_at().as_i64() {
                m = k;
            }
            k = k + 1;
        }
        let ghost ov = stocktaking_views(out@);
        let x = work.remove(m);
        out.push(x);
        proof {
            wv.remove_ensures(m as int);
            assert(stocktaking_views(work@) =~= wv.remove(m as int));
            assert(stocktaking_views(out@) =~= ov.push(wv[m as int]));
            assert(stocktaking_views(out@).to_multiset().add(stocktaking_views(work@).to_multiset())
                =~= orig.to_multiset()) by {
                assert(ov.push(wv[m as int]).to_multiset() =~= ov.to_multiset().insert(wv[m as int]));
                assert(wv.remove(m as int).to_multiset() =~= wv.to_multiset().remove(wv[m as int]));
                assert(wv.contains(wv[m as int]));
                assert(wv.to_multiset().count(wv[m as int]) > 0);
            }
            assert(sorted_by(stocktaking_views(out@), geq)) by {
                assert(forall|i: int|
                    0 <= i < ov.len() ==> stocktaking_date_ge(#[trigger] ov[i], wv[m as int]));
            }
        }
    }
    out
}

} // verus!
