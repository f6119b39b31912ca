use vstd::prelude::*;

use crate::aggregate::{aggregate, data_model, lookup, spec_lookup, spec_outcome, SeriesSlot};
use crate::catalog::CategoryEntry;
use crate::normalize::RawRow;
use crate::ratio::{opt_series, ratio, ratio_model, ratio_post};
use crate::record::{CanonicalRecord, FetchError, RatioRecord};

verus! {

/// The assembled response body: every catalog series in catalog order,
/// and the synthetic quotient series appended under its own key. The
/// serializer renders the slots and then the quotient entry as one
/// mapping.
pub struct Response {
    pub slots: Vec<SeriesSlot>,
    pub ratio_key: String,
    pub ratio: Option<Vec<RatioRecord>>,
}

/// Assemble the whole response from the catalog and what each entry's
/// fetch returned: the per-series slots with partial-failure isolation,
/// then the index/currency quotient series, derived from the two
/// already-assembled entries and appended under the synthetic key. The
/// response always covers every catalog key; any failure surfaces only
/// as that one entry's null.
pub fn build_response(
    catalog: &Vec<CategoryEntry>,
    fetched: &Vec<Result<Vec<RawRow>, FetchError>>,
) -> (r: Response)
    requires
        fetched@.len() == catalog@.len(),
    ensures
        r.slots@.len() == catalog@.len(),
        forall|i: int| 0 <= i < catalog@.len() ==> r.slots@[i].key@ == catalog@[i].key@,
        forall|i: int|
            0 <= i < catalog@.len() ==> data_model(r.slots@[i].data) == spec_outcome(fetched@[i]),
        r.ratio_key@ == "shakhes_dollar_ratio"@,
        ratio_post(
            spec_lookup(r.slots@, "shakhes"@),
            spec_lookup(r.slots@, "dollar"@),
            ratio_model(r.ratio),
        ),
{
    let slots = aggregate(catalog, fetched);
    let shakhes_key = "shakhes".to_owned();
    let dollar_key = "dollar".to_owned();
    let num = lookup(&slots, &shakhes_key);
    let den = lookup(&slots, &dollar_key);
    proof {
        assert(opt_series(num) == spec_lookup(slots@, "shakhes"@));
        assert(opt_series(den) == spec_lookup(slots@, "dollar"@));
    }
    let quotient = ratio(num, den);
    Response { slots, ratio_key: "shakhes_dollar_ratio".to_owned(), ratio: quotient }
}

} // verus!
