use vstd::prelude::*;

use crate::catalog::CategoryEntry;
use crate::normalize::{normalize_series, rows_ok, spec_normalize_all, RawRow};
use crate::record::{CanonicalRecord, FetchError};

verus! {

/// One slot of the aggregate: a series key, and either the series'
/// canonical records or an explicit null marking that this one fetch
/// failed. The response always carries every catalog key; a failure
/// surfaces only as the null, never as a missing key.
#[derive(Clone, Debug)]
pub struct SeriesSlot {
    pub key: String,
    pub data: Option<Vec<CanonicalRecord>>,
}

/// The mathematical contents of one slot's data.
pub open spec fn data_model(d: Option<Vec<CanonicalRecord>>) -> Option<Seq<CanonicalRecord>> {
    match d {
        Some(recs) => Some(recs@),
        None => None,
    }
}

/// What one entry's slot must hold, given what its fetch returned: the
/// normalized records when the fetch succeeded and every row is
/// well-formed, and the explicit null otherwise. This is the whole
/// decision; nothing else flows into a slot.
pub open spec fn spec_outcome(f: Result<Vec<RawRow>, FetchError>) -> Option<
    Seq<CanonicalRecord>,
> {
    match f {
        Ok(rows) => if rows_ok(rows@) {
            Some(spec_normalize_all(rows@))
        } else {
            None
        },
        Err(_) => None,
    }
}

/// Everything the aggregator promises of its result: one slot per
/// catalog entry, in catalog order, bearing the entry's key, and holding
/// the outcome of that entry's fetch alone.
pub open spec fn aggregate_post(
    catalog: Seq<CategoryEntry>,
    fetched: Seq<Result<Vec<RawRow>, FetchError>>,
    r: Seq<SeriesSlot>,
) -> bool {
    &&& r.len() == catalog.len()
    &&& forall|i: int| 0 <= i < r.len() ==> (#[trigger] r[i]).key@ == catalog[i].key@
    &&& forall|i: int| 0 <= i < r.len() ==> data_model((#[trigger] r[i]).data) == spec_outcome(
        fetched[i],
    )
}

/// The partial-failure aggregator. For every catalog entry, in catalog
/// order, it stores the entry's key with the outcome of that entry's
/// fetch alone: the key set of the result is exactly the catalog's key
/// sequence, and slot `i` depends on nothing but `fetched[i]`, so no
/// entry's failure can suppress or corrupt any other entry's result.
pub fn aggregate(catalog: &Vec<CategoryEntry>, fetched: &Vec<Result<Vec<RawRow>, FetchError>>) -> (r:
    Vec<SeriesSlot>)
    requires
        fetched@.len() == catalog@.len(),
    ensures
        aggregate_post(catalog@, fetched@, r@),
{
    let mut out: Vec<SeriesSlot> = Vec::new();
    let mut i: usize = 0;
    while i < catalog.len()
        invariant
            fetched@.len() == catalog@.len(),
            0 <= i <= catalog@.len(),
            out@.len() == i,
            forall|j: int| 0 <= j < i ==> out@[j].key@ == catalog@[j].key@,
            forall|j: int| 0 <= j < i ==> data_model(out@[j].data) == spec_outcome(fetched@[j]),
        decreases catalog@.len() - i,
    {
        let data: Option<Vec<CanonicalRecord>> = match &fetched[i] {
            Ok(rows) => match normalize_series(rows) {
                Ok(recs) => Some(recs),
                Err(_) => None,
            },
            Err(_) => None,
        };
        out.push(SeriesSlot { key: catalog[i].key.clone(), data });
        i = i + 1;
    }
    out
}

/// Key-completeness law: the aggregate always carries exactly the
/// catalog's key set — a key stands among the slots if and only if some
/// catalog entry bears it, no matter how many of the fetches failed.
pub proof fn lemma_keys_complete(
    catalog: Seq<CategoryEntry>,
    fetched: Seq<Result<Vec<RawRow>, FetchError>>,
    r: Seq<SeriesSlot>,
    key: Seq<char>,
)
    requires
        aggregate_post(catalog, fetched, r),
    ensures
        (exists|i: int| 0 <= i < r.len() && (#[trigger] r[i]).key@ == key) <==> (exists|i: int|
            0 <= i < catalog.len() && (#[trigger] catalog[i]).key@ == key),
{
    if exists|i: int| 0 <= i < r.len() && (#[trigger] r[i]).key@ == key {
        let i = choose|i: int| 0 <= i < r.len() && (#[trigger] r[i]).key@ == key;
        assert(catalog[i].key@ == key);
    }
    if exists|i: int| 0 <= i < catalog.len() && (#[trigger] catalog[i]).key@ == key {
        let i = choose|i: int| 0 <= i < catalog.len() && (#[trigger] catalog[i]).key@ == key;
        assert(r[i].key@ == key);
    }
}

/// Failure-isolation law: when the fetches of two aggregation passes
/// over one catalog agree everywhere but at entry `k`, their results
/// agree on every slot but `k`; and a failed fetch at `k` yields the
/// explicit null there. One entry's failure touches nothing but its own
/// slot.
pub proof fn lemma_failure_isolated(
    catalog: Seq<CategoryEntry>,
    f1: Seq<Result<Vec<RawRow>, FetchError>>,
    f2: Seq<Result<Vec<RawRow>, FetchError>>,
    r1: Seq<SeriesSlot>,
    r2: Seq<SeriesSlot>,
    k: int,
)
    requires
        aggregate_post(catalog, f1, r1),
        aggregate_post(catalog, f2, r2),
        forall|j: int| 0 <= j < catalog.len() && j != k ==> f1[j] == f2[j],
    ensures
        forall|j: int|
            0 <= j < r1.len() && j != k ==> (#[trigger] r1[j]).key@ == (#[trigger] r2[j]).key@,
        forall|j: int|
            0 <= j < r1.len() && j != k ==> data_model((#[trigger] r1[j]).data) == data_model(
                (#[trigger] r2[j]).data,
            ),
        0 <= k < r1.len() && f1[k] is Err ==> data_model(r1[k].data) is None,
{
}

/// The data of the first slot bearing `key`, with a null slot flattened
/// into the missing case, as a reader of the assembled mapping sees it.
pub open spec fn spec_lookup(slots: Seq<SeriesSlot>, key: Seq<char>) -> Option<
    Seq<CanonicalRecord>,
>
    decreases slots.len(),
{
    if slots.len() == 0 {
        None
    } else if slots[0].key@ == key {
        data_model(slots[0].data)
    } else {
        spec_lookup(slots.drop_first(), key)
    }
}

/// Look up one series in the assembled slots: the records of the first
/// slot bearing `key`, or `None` when the key is absent or its slot holds
/// the explicit null.
pub fn lookup<'a>(slots: &'a Vec<SeriesSlot>, key: &String) -> (r: Option<
    &'a Vec<CanonicalRecord>,
>)
    ensures
        match r {
            Some(recs) => spec_lookup(slots@, key@) == Some(recs@),
            None => spec_lookup(slots@, key@) is None,
        },
{
    let mut i: usize = 0;
    assert(slots@.skip(0) =~= slots@);
    while i < slots.len()
        invariant
            0 <= i <= slots@.len(),
            spec_lookup(slots@, key@) == spec_lookup(slots@.skip(i as int), key@),
            forall|j: int| 0 <= j < i ==> slots@[j].key@ != key@,
        decreases slots@.len() - i,
    {
        assert(slots@.skip(i as int).drop_first() =~= slots@.skip(i as int + 1));
        if slots[i].key.eq(key) {
            return match &slots[i].data {
                Some(recs) => Some(recs),
                None => None,
            };
        }
        i = i + 1;
    }
    None
}

} // verus!
