use vstd::prelude::*;

use crate::record::{CanonicalRecord, RatioRecord, SeriesValue};

verus! {

/// Whether some record of `s` falls exactly on day `d`.
pub open spec fn has_date(s: Seq<CanonicalRecord>, d: i64) -> bool {
    exists|i: int| 0 <= i < s.len() && s[i].date == d
}

/// The value of the last record of `s` on day `d`: when one source
/// reports the same day twice, the last occurrence wins.
pub open spec fn last_value_at(s: Seq<CanonicalRecord>, d: i64) -> SeriesValue
    decreases s.len(),
{
    if s.len() == 0 {
        arbitrary()
    } else if s.last().date == d {
        s.last().value
    } else {
        last_value_at(s.drop_last(), d)
    }
}

/// One carry-forward step: on day `d` the last-seen value becomes the
/// day's own observation when there is one, else it is carried unchanged.
pub open spec fn carry_step(
    prev: Option<SeriesValue>,
    s: Seq<CanonicalRecord>,
    d: i64,
) -> Option<SeriesValue> {
    if has_date(s, d) {
        Some(last_value_at(s, d))
    } else {
        prev
    }
}

/// The quotient series emitted by walking `dates` once, in order, with
/// carry-forward and no look-ahead: a point is emitted at exactly the
/// days by which both series have been observed at least once; earlier
/// days are skipped silently.
pub open spec fn spec_walk(
    num: Seq<CanonicalRecord>,
    den: Seq<CanonicalRecord>,
    dates: Seq<i64>,
    pn: Option<SeriesValue>,
    pd: Option<SeriesValue>,
) -> Seq<RatioRecord>
    decreases dates.len(),
{
    if dates.len() == 0 {
        Seq::empty()
    } else {
        let d = dates[0];
        let pn2 = carry_step(pn, num, d);
        let pd2 = carry_step(pd, den, d);
        let rest = spec_walk(num, den, dates.drop_first(), pn2, pd2);
        if pn2 is Some && pd2 is Some {
            seq![RatioRecord { date: d, num: pn2->0, den: pd2->0 }] + rest
        } else {
            rest
        }
    }
}

/// `s` ascends strictly.
pub open spec fn strictly_sorted(s: Seq<i64>) -> bool {
    forall|i: int, j: int| 0 <= i < j < s.len() ==> s[i] < s[j]
}

/// `dates` is the join axis of the two inputs: strictly ascending, and
/// holding exactly the days observed in either input.
pub open spec fn is_merged_dates(
    num: Seq<CanonicalRecord>,
    den: Seq<CanonicalRecord>,
    dates: Seq<i64>,
) -> bool {
    &&& strictly_sorted(dates)
    &&& forall|d: i64|
        #![trigger dates.contains(d)]
        #![trigger has_date(num, d)]
        #![trigger has_date(den, d)]
        (dates.contains(d) <==> has_date(num, d) || has_date(den, d))
}

/// What the ratio computer promises of two present inputs: the output is
/// the carry-forward walk of the two inputs' merged date axis. The axis
/// is named existentially but is unique (see `lemma_sorted_unique`), so
/// this pins the output completely.
pub open spec fn ratio_pair_post(
    ns: Seq<CanonicalRecord>,
    ds: Seq<CanonicalRecord>,
    r: Option<Seq<RatioRecord>>,
) -> bool {
    exists|dates: Seq<i64>|
        #[trigger] is_merged_dates(ns, ds, dates) && r == Some(
            spec_walk(ns, ds, dates, None::<SeriesValue>, None::<SeriesValue>),
        )
}

/// The computer's whole contract, inputs included: a missing input (a
/// failed series) yields exactly the missing output.
pub open spec fn ratio_post(
    num: Option<Seq<CanonicalRecord>>,
    den: Option<Seq<CanonicalRecord>>,
    r: Option<Seq<RatioRecord>>,
) -> bool {
    if num is Some && den is Some {
        ratio_pair_post(num->0, den->0, r)
    } else {
        r is None
    }
}

/// The model of an optional borrowed series.
pub open spec fn opt_series(o: Option<&Vec<CanonicalRecord>>) -> Option<Seq<CanonicalRecord>> {
    match o {
        Some(v) => Some(v@),
        None => None,
    }
}

/// The model of the computer's optional output.
pub open spec fn ratio_model(r: Option<Vec<RatioRecord>>) -> Option<Seq<RatioRecord>> {
    match r {
        Some(v) => Some(v@),
        None => None,
    }
}

/// Insert day `d` into the strictly ascending `v`, keeping it strictly
/// ascending; a day already present stays as it is.
fn insert_date(v: &mut Vec<i64>, d: i64)
    requires
        strictly_sorted(old(v)@),
    ensures
        strictly_sorted(final(v)@),
        forall|x: i64|
            #![trigger final(v)@.contains(x)]
            #![trigger old(v)@.contains(x)]
            (final(v)@.contains(x) <==> old(v)@.contains(x) || x == d),
{
    let mut i: usize = 0;
    while i < v.len() && v[i] < d
        invariant
            v@ == old(v)@,
            strictly_sorted(v@),
            0 <= i <= v@.len(),
            forall|j: int| 0 <= j < i ==> v@[j] < d,
        decreases v@.len() - i,
    {
        i = i + 1;
    }
    if i < v.len() && v[i] == d {
        proof {
            assert(v@.contains(d));
        }
        return;
    }
    proof {
        assert(i < v@.len() ==> v@[i as int] > d);
    }
    v.insert(i, d);
    proof {
        let iv = i as int;
        let pre = old(v)@;
        assert forall|p: int, q: int| 0 <= p < q < v@.len() implies v@[p] < v@[q] by {
            if q < iv {
                assert(v@[p] == pre[p] && v@[q] == pre[q]);
            } else if q == iv {
                assert(v@[p] == pre[p] && v@[q] == d);
            } else if p < iv {
                assert(v@[p] == pre[p] && v@[q] == pre[q - 1]);
                assert(pre[q - 1] >= pre[iv] > d > pre[p] || (q - 1 == iv && pre[q - 1] > d));
            } else if p == iv {
                assert(v@[p] == d && v@[q] == pre[q - 1]);
                assert(pre[q - 1] >= pre[iv] > d);
            } else {
                assert(v@[p] == pre[p - 1] && v@[q] == pre[q - 1]);
            }
        }
        assert forall|x: i64|
            #![trigger v@.contains(x)]
            #![trigger pre.contains(x)]
            (v@.contains(x) <==> pre.contains(x) || x == d) by {
            if v@.contains(x) {
                let k = choose|k: int| 0 <= k < v@.len() && v@[k] == x;
                if k < iv {
                    assert(pre[k] == x);
                    assert(pre.contains(x));
                } else if k > iv {
                    assert(pre[k - 1] == x);
                    assert(pre.contains(x));
                }
            }
            if x == d {
                assert(v@[iv] == d);
                assert(v@.contains(x));
            }
            if pre.contains(x) {
                let k = choose|k: int| 0 <= k < pre.len() && pre[k] == x;
                if k < iv {
                    assert(v@[k] == x);
                } else {
                    assert(v@[k + 1] == x);
                }
                assert(v@.contains(x));
            }
        }
    }
}

/// Merge the two inputs' date axes: the strictly ascending sequence of
/// exactly the days observed in either input. Duplicates within one
/// input collapse to one join key.
pub fn merge_dates(num: &Vec<CanonicalRecord>, den: &Vec<CanonicalRecord>) -> (dates: Vec<i64>)
    ensures
        is_merged_dates(num@, den@, dates@),
{
    let mut dates: Vec<i64> = Vec::new();
    let mut i: usize = 0;
    while i < num.len()
        invariant
            0 <= i <= num@.len(),
            strictly_sorted(dates@),
            forall|x: i64| #[trigger]
                dates@.contains(x) <==> has_date(num@.take(i as int), x),
        decreases num@.len() - i,
    {
        let d = num[i].date;
        insert_date(&mut dates, d);
        proof {
            let t1 = num@.take(i as int + 1);
            let t0 = num@.take(i as int);
            assert forall|x: i64| #[trigger] dates@.contains(x) implies has_date(t1, x) by {
                if has_date(t0, x) {
                    let k = choose|k: int| 0 <= k < t0.len() && t0[k].date == x;
                    assert(t1[k].date == x);
                } else {
                    assert(x == d);
                    assert(t1[i as int].date == x);
                }
            }
            assert forall|x: i64| has_date(t1, x) implies #[trigger] dates@.contains(x) by {
                let k = choose|k: int| 0 <= k < t1.len() && t1[k].date == x;
                if k < i {
                    assert(t0[k].date == x);
                    assert(has_date(t0, x));
                } else {
                    assert(x == d);
                }
            }
        }
        i = i + 1;
    }
    proof {
        assert(num@.take(num@.len() as int) =~= num@);
    }
    i = 0;
    while i < den.len()
        invariant
            0 <= i <= den@.len(),
            strictly_sorted(dates@),
            forall|x: i64| #[trigger]
                dates@.contains(x) <==> has_date(num@, x) || has_date(den@.take(i as int), x),
        decreases den@.len() - i,
    {
        let d = den[i].date;
        insert_date(&mut dates, d);
        proof {
            let t1 = den@.take(i as int + 1);
            let t0 = den@.take(i as int);
            assert forall|x: i64| #[trigger] dates@.contains(x) implies has_date(num@, x)
                || has_date(t1, x) by {
                if has_date(t0, x) {
                    let k = choose|k: int| 0 <= k < t0.len() && t0[k].date == x;
                    assert(t1[k].date == x);
                } else if !has_date(num@, x) {
                    assert(x == d);
                    assert(t1[i as int].date == x);
                }
            }
            assert forall|x: i64| has_date(t1, x) implies #[trigger] dates@.contains(x) by {
                let k = choose|k: int| 0 <= k < t1.len() && t1[k].date == x;
                if k < i {
                    assert(t0[k].date == x);
                    assert(has_date(t0, x));
                } else {
                    assert(x == d);
                }
            }
        }
        i = i + 1;
    }
    proof {
        assert(den@.take(den@.len() as int) =~= den@);
    }
    dates
}

/// The last observation of `s` on day `d`, if any; the last occurrence
/// wins when one source reports the same day twice.
fn find_last_on(s: &Vec<CanonicalRecord>, d: i64) -> (r: Option<SeriesValue>)
    ensures
        r is Some <==> has_date(s@, d),
        r is Some ==> r->0 == last_value_at(s@, d),
{
    let mut i: usize = s.len();
    while i > 0
        invariant
            0 <= i <= s@.len(),
            forall|k: int| i <= k < s@.len() ==> s@[k].date != d,
        decreases i,
    {
        i = i - 1;
        if s[i].date == d {
            proof {
                lemma_last_value_at(s@, d, i as int);
            }
            return Some(s[i].value);
        }
    }
    proof {
        assert(!has_date(s@, d));
    }
    None
}

/// The last record on `d` at or after position `i` is the one `last_value_at` names.
proof fn lemma_last_value_at(s: Seq<CanonicalRecord>, d: i64, i: int)
    requires
        0 <= i < s.len(),
        s[i].date == d,
        forall|k: int| i < k < s.len() ==> s[k].date != d,
    ensures
        has_date(s, d),
        last_value_at(s, d) == s[i].value,
    decreases s.len(),
{
    assert(has_date(s, d));
    if i == s.len() - 1 {
    } else {
        assert(s.last().date != d);
        lemma_last_value_at(s.drop_last(), d, i);
    }
}

/// Walk the merged date axis once, in order, carrying each series' last
/// observation forward, and emit a quotient point at every day by which
/// both series have been observed.
fn walk_dates(num: &Vec<CanonicalRecord>, den: &Vec<CanonicalRecord>, dates: &Vec<i64>) -> (out:
    Vec<RatioRecord>)
    ensures
        out@ == spec_walk(num@, den@, dates@, None::<SeriesValue>, None::<SeriesValue>),
{
    let mut out: Vec<RatioRecord> = Vec::new();
    let mut pn: Option<SeriesValue> = None;
    let mut pd: Option<SeriesValue> = None;
    let mut i: usize = 0;
    proof {
        assert(dates@.skip(0) =~= dates@);
    }
    while i < dates.len()
        invariant
            0 <= i <= dates@.len(),
            spec_walk(num@, den@, dates@, None::<SeriesValue>, None::<SeriesValue>) == out@
                + spec_walk(num@, den@, dates@.skip(i as int), pn, pd),
        decreases dates@.len() - i,
    {
        let ghost pre_out = out@;
        let ghost gpn = pn;
        let ghost gpd = pd;
        let d = dates[i];
        match find_last_on(num, d) {
            Some(v) => pn = Some(v),
            None => {},
        }
        match find_last_on(den, d) {
            Some(v) => pd = Some(v),
            None => {},
        }
        proof {
            assert(pn == carry_step(gpn, num@, d));
            assert(pd == carry_step(gpd, den@, d));
        }
        match (pn, pd) {
            (Some(nv), Some(dv)) => {
                out.push(RatioRecord { date: d, num: nv, den: dv });
            },
            _ => {},
        }
        proof {
            let pre = dates@.skip(i as int);
            let rest = dates@.skip(i as int + 1);
            assert(pre.drop_first() =~= rest);
            assert(pre[0] == d);
            if pn is Some && pd is Some {
                let rec = RatioRecord { date: d, num: pn->0, den: pd->0 };
                assert(spec_walk(num@, den@, pre, gpn, gpd) == seq![rec] + spec_walk(
                    num@,
                    den@,
                    rest,
                    pn,
                    pd,
                ));
                assert(out@ =~= pre_out + seq![rec]);
                assert(pre_out + (seq![rec] + spec_walk(num@, den@, rest, pn, pd)) =~= out@
                    + spec_walk(num@, den@, rest, pn, pd));
            } else {
                assert(spec_walk(num@, den@, pre, gpn, gpd) == spec_walk(num@, den@, rest, pn, pd));
            }
        }
        i = i + 1;
    }
    proof {
        assert(dates@.skip(dates@.len() as int) =~= Seq::<i64>::empty());
        assert(out@ + Seq::<RatioRecord>::empty() =~= out@);
    }
    out
}

/// The time-aligned ratio computer. A missing input (a failed series)
/// yields a missing output; otherwise the two date axes are merged and
/// walked once with carry-forward, a point emitted at every day by which
/// both series have been observed. Each point carries the two
/// observations; the floating-point division itself is taken at the
/// serialization boundary, outside this crate.
pub fn ratio(num: Option<&Vec<CanonicalRecord>>, den: Option<&Vec<CanonicalRecord>>) -> (r: Option<
    Vec<RatioRecord>,
>)
    ensures
        ratio_post(opt_series(num), opt_series(den), ratio_model(r)),
{
    match (num, den) {
        (Some(ns), Some(ds)) => {
            let dates = merge_dates(ns, ds);
            let out = walk_dates(ns, ds, &dates);
            proof {
                lemma_ratio_post_intro(ns@, ds@, dates@, out@);
            }
            Some(out)
        },
        _ => None,
    }
}

/// A merged date axis witnesses the ratio computer's contract.
proof fn lemma_ratio_post_intro(
    ns: Seq<CanonicalRecord>,
    ds: Seq<CanonicalRecord>,
    dates: Seq<i64>,
    out: Seq<RatioRecord>,
)
    requires
        is_merged_dates(ns, ds, dates),
        out == spec_walk(ns, ds, dates, None::<SeriesValue>, None::<SeriesValue>),
    ensures
        ratio_post(Some(ns), Some(ds), Some(out)),
{
    assert(is_merged_dates(ns, ds, dates) && Some(out) == Some(
        spec_walk(ns, ds, dates, None::<SeriesValue>, None::<SeriesValue>),
    ));
    assert(ratio_pair_post(ns, ds, Some(out)));
}

/// Shape of the walk's output, by induction over the date axis: every
/// output date lies on the axis, the output dates ascend strictly, and
/// every output date is preceded (not strictly) by an observation of
/// each input — where a value carried in from before the axis counts as
/// an observation no later than the axis' first day.
proof fn lemma_walk_shape(
    num: Seq<CanonicalRecord>,
    den: Seq<CanonicalRecord>,
    dates: Seq<i64>,
    pn: Option<SeriesValue>,
    pd: Option<SeriesValue>,
)
    requires
        strictly_sorted(dates),
        pn is Some && dates.len() > 0 ==> exists|i: int|
            0 <= i < num.len() && num[i].date <= dates[0],
        pd is Some && dates.len() > 0 ==> exists|i: int|
            0 <= i < den.len() && den[i].date <= dates[0],
    ensures
        ({
            let out = spec_walk(num, den, dates, pn, pd);
            &&& forall|k: int| 0 <= k < out.len() ==> dates.contains((#[trigger] out[k]).date)
            &&& forall|k1: int, k2: int| 0 <= k1 < k2 < out.len() ==> out[k1].date < out[k2].date
            &&& forall|k: int|
                0 <= k < out.len() ==> exists|i: int|
                    0 <= i < num.len() && num[i].date <= (#[trigger] out[k]).date
            &&& forall|k: int|
                0 <= k < out.len() ==> exists|i: int|
                    0 <= i < den.len() && den[i].date <= (#[trigger] out[k]).date
        }),
    decreases dates.len(),
{
    if dates.len() > 0 {
        let d = dates[0];
        let tail = dates.drop_first();
        let pn2 = carry_step(pn, num, d);
        let pd2 = carry_step(pd, den, d);
        assert forall|p: int, q: int| 0 <= p < q < tail.len() implies tail[p] < tail[q] by {
            assert(tail[p] == dates[p + 1] && tail[q] == dates[q + 1]);
        }
        assert(pn2 is Some && tail.len() > 0 ==> exists|i: int|
            0 <= i < num.len() && num[i].date <= tail[0]) by {
            if pn2 is Some && tail.len() > 0 {
                assert(tail[0] == dates[1]);
                assert(d < dates[1]);
                if has_date(num, d) {
                    let i = choose|i: int| 0 <= i < num.len() && num[i].date == d;
                    assert(num[i].date <= tail[0]);
                } else {
                    let i = choose|i: int| 0 <= i < num.len() && num[i].date <= dates[0];
                    assert(num[i].date <= tail[0]);
                }
            }
        }
        assert(pd2 is Some && tail.len() > 0 ==> exists|i: int|
            0 <= i < den.len() && den[i].date <= tail[0]) by {
            if pd2 is Some && tail.len() > 0 {
                assert(tail[0] == dates[1]);
                assert(d < dates[1]);
                if has_date(den, d) {
                    let i = choose|i: int| 0 <= i < den.len() && den[i].date == d;
                    assert(den[i].date <= tail[0]);
                } else {
                    let i = choose|i: int| 0 <= i < den.len() && den[i].date <= dates[0];
                    assert(den[i].date <= tail[0]);
                }
            }
        }
        lemma_walk_shape(num, den, tail, pn2, pd2);
        let rest = spec_walk(num, den, tail, pn2, pd2);
        let out = spec_walk(num, den, dates, pn, pd);
        assert forall|m: int| 0 <= m < rest.len() implies dates.contains(
            (#[trigger] rest[m]).date,
        ) && rest[m].date > d by {
            assert(tail.contains(rest[m].date));
            let t = choose|t: int| 0 <= t < tail.len() && tail[t] == rest[m].date;
            assert(dates[t + 1] == rest[m].date);
            assert(d < dates[t + 1]);
        }
        if pn2 is Some && pd2 is Some {
            let rec = RatioRecord { date: d, num: pn2->0, den: pd2->0 };
            assert(out == seq![rec] + rest);
            assert(out[0] == rec);
            assert forall|k: int| 1 <= k < out.len() implies out[k] == rest[k - 1] by {}
            assert(dates.contains(d));
            assert(exists|i: int| 0 <= i < num.len() && num[i].date <= d) by {
                if has_date(num, d) {
                    let i = choose|i: int| 0 <= i < num.len() && num[i].date == d;
                    assert(num[i].date <= d);
                } else {
                    let i = choose|i: int| 0 <= i < num.len() && num[i].date <= dates[0];
                    assert(num[i].date <= d);
                }
            }
            assert(exists|i: int| 0 <= i < den.len() && den[i].date <= d) by {
                if has_date(den, d) {
                    let i = choose|i: int| 0 <= i < den.len() && den[i].date == d;
                    assert(den[i].date <= d);
                } else {
                    let i = choose|i: int| 0 <= i < den.len() && den[i].date <= dates[0];
                    assert(den[i].date <= d);
                }
            }
        } else {
            assert(out == rest);
        }
    }
}

/// Monotone-date law of the quotient series: its dates ascend strictly;
/// every output date is one of the input dates, so the output's date set
/// is a subset of the union of the two date axes; and no output date
/// precedes the first observation of either input — the walk carries
/// forward and never looks ahead.
pub proof fn lemma_ratio_dates(
    num: Seq<CanonicalRecord>,
    den: Seq<CanonicalRecord>,
    out: Seq<RatioRecord>,
)
    requires
        ratio_pair_post(num, den, Some(out)),
    ensures
        forall|k1: int, k2: int| 0 <= k1 < k2 < out.len() ==> out[k1].date < out[k2].date,
        forall|k: int|
            0 <= k < out.len() ==> has_date(num, (#[trigger] out[k]).date) || has_date(
                den,
                out[k].date,
            ),
        forall|k: int|
            0 <= k < out.len() ==> exists|i: int|
                0 <= i < num.len() && num[i].date <= (#[trigger] out[k]).date,
        forall|k: int|
            0 <= k < out.len() ==> exists|i: int|
                0 <= i < den.len() && den[i].date <= (#[trigger] out[k]).date,
{
    let dates = choose|dates: Seq<i64>|
        #[trigger] is_merged_dates(num, den, dates) && Some(out) == Some(
            spec_walk(num, den, dates, None::<SeriesValue>, None::<SeriesValue>),
        );
    lemma_walk_shape(num, den, dates, None::<SeriesValue>, None::<SeriesValue>);
    assert forall|k: int| 0 <= k < out.len() implies has_date(num, (#[trigger] out[k]).date)
        || has_date(den, out[k].date) by {
        assert(dates.contains(out[k].date));
    }
}

/// Two strictly ascending sequences with the same membership are equal.
pub proof fn lemma_sorted_unique(a: Seq<i64>, b: Seq<i64>)
    requires
        strictly_sorted(a),
        strictly_sorted(b),
        forall|d: i64| #![trigger a.contains(d)] #![trigger b.contains(d)]
            (a.contains(d) <==> b.contains(d)),
    ensures
        a == b,
    decreases a.len(),
{
    if a.len() == 0 {
        if b.len() > 0 {
            assert(b.contains(b[0]));
            assert(false);
        }
        assert(a =~= b);
    } else if b.len() == 0 {
        assert(a.contains(a[0]));
        assert(false);
    } else {
        assert(a.contains(a[0]));
        assert(b.contains(b[0]));
        let bi = choose|k: int| 0 <= k < b.len() && b[k] == a[0];
        let aj = choose|k: int| 0 <= k < a.len() && a[k] == b[0];
        assert(a[0] == b[0]);
        let at = a.drop_first();
        let bt = b.drop_first();
        assert forall|p: int, q: int| 0 <= p < q < at.len() implies at[p] < at[q] by {
            assert(at[p] == a[p + 1] && at[q] == a[q + 1]);
        }
        assert forall|p: int, q: int| 0 <= p < q < bt.len() implies bt[p] < bt[q] by {
            assert(bt[p] == b[p + 1] && bt[q] == b[q + 1]);
        }
        assert forall|d: i64| #![trigger at.contains(d)] #![trigger bt.contains(d)]
            (at.contains(d) <==> bt.contains(d)) by {
            if at.contains(d) {
                let k = choose|k: int| 0 <= k < at.len() && at[k] == d;
                assert(a[k + 1] == d);
                assert(a.contains(d));
                assert(d > a[0]);
                let m = choose|m: int| 0 <= m < b.len() && b[m] == d;
                assert(m >= 1) by {
                    if m == 0 {
                        assert(b[0] == d && d > b[0]);
                    }
                }
                assert(bt[m - 1] == d);
                assert(bt.contains(d));
            }
            if bt.contains(d) {
                let k = choose|k: int| 0 <= k < bt.len() && bt[k] == d;
                assert(b[k + 1] == d);
                assert(b.contains(d));
                assert(d > b[0]);
                let m = choose|m: int| 0 <= m < a.len() && a[m] == d;
                assert(m >= 1) by {
                    if m == 0 {
                        assert(a[0] == d && d > a[0]);
                    }
                }
                assert(at[m - 1] == d);
                assert(at.contains(d));
            }
        }
        lemma_sorted_unique(at, bt);
        assert forall|k: int| 0 <= k < a.len() implies a[k] == b[k] by {
            if k > 0 {
                assert(a[k] == at[k - 1] && b[k] == bt[k - 1]);
            }
        }
        assert(a =~= b);
    }
}

/// Idempotence law of the ratio computer: its contract pins the output,
/// so any two results for the same pair of inputs are equal; there is no
/// hidden state.
pub proof fn lemma_ratio_deterministic(
    num: Option<Seq<CanonicalRecord>>,
    den: Option<Seq<CanonicalRecord>>,
    r1: Option<Seq<RatioRecord>>,
    r2: Option<Seq<RatioRecord>>,
)
    requires
        ratio_post(num, den, r1),
        ratio_post(num, den, r2),
    ensures
        r1 == r2,
{
    if num is Some && den is Some {
        let ns = num->0;
        let ds = den->0;
        let d1 = choose|dates: Seq<i64>|
            #[trigger] is_merged_dates(ns, ds, dates) && r1 == Some(
                spec_walk(ns, ds, dates, None::<SeriesValue>, None::<SeriesValue>),
            );
        let d2 = choose|dates: Seq<i64>|
            #[trigger] is_merged_dates(ns, ds, dates) && r2 == Some(
                spec_walk(ns, ds, dates, None::<SeriesValue>, None::<SeriesValue>),
            );
        assert forall|x: i64| #![trigger d1.contains(x)] #![trigger d2.contains(x)]
            (d1.contains(x) <==> d2.contains(x)) by {
            assert(d1.contains(x) <==> has_date(ns, x) || has_date(ds, x));
            assert(d2.contains(x) <==> has_date(ns, x) || has_date(ds, x));
        }
        lemma_sorted_unique(d1, d2);
    }
}

} // verus!
