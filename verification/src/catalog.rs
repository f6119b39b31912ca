use vstd::prelude::*;

use vstd::string::StringExecFns;

verus! {

/// Which normalizer a catalog entry requires.
#[derive(Clone, Copy, PartialEq, Eq, Structural, Debug)]
pub enum NormalizerKind {
    StockSum,
    RealEstateSum,
    IndexValue,
    CurrencyPrice,
    PowerDiff,
    VolumeSum,
}

/// One entry of the static category catalog: the key the series is
/// published under, the physical source the records come from, and the
/// normalizer its rows require.
#[derive(Clone, Debug)]
pub struct CategoryEntry {
    pub key: String,
    pub source: String,
    pub kind: NormalizerKind,
}

/// The mathematical model of one entry: its key, source and kind.
pub open spec fn entry_model(e: CategoryEntry) -> (Seq<char>, Seq<char>, NormalizerKind) {
    (e.key@, e.source@, e.kind)
}

/// The closed set of asset-class identifiers, fixed configuration data.
pub open spec fn class_list() -> Seq<Seq<char>> {
    seq![
        "saham"@,
        "s_saham"@,
        "ahrom"@,
        "s_tala"@,
        "s_sabet"@,
        "s_zamin"@,
        "s_amlak"@,
        "e_forush"@,
        "ati_ahrom"@,
        "s_dar_s"@,
        "sokuk"@,
        "e_kharid"@,
        "s_kala_ghaza"@,
        "saham_majmu"@,
    ]
}

/// The two real-estate listing classes.
pub open spec fn estate_list() -> Seq<Seq<char>> {
    seq!["apartment"@, "plotold"@]
}

/// How many entries the catalog holds: three templated entries per asset
/// class, the two real-estate classes, the index and the currency.
pub open spec fn catalog_len() -> int {
    3 * (class_list().len() as int) + (estate_list().len() as int) + 2
}

/// The catalog's entry at position `i`, in declaration order: first one
/// cumulative-sum entry per asset class, then one power entry (key marked
/// with a `g` prefix), then one volume entry (`v` prefix), then the two
/// real-estate classes, the market index and the currency price. Each
/// physical source name substitutes the class identifier into a fixed
/// naming template.
pub open spec fn catalog_spec_at(i: int) -> (Seq<char>, Seq<char>, NormalizerKind) {
    let n = class_list().len() as int;
    if i < n {
        (
            class_list()[i],
            "mv_stock_cumulative_"@ + class_list()[i],
            NormalizerKind::StockSum,
        )
    } else if i < 2 * n {
        (
            "g"@ + class_list()[i - n],
            "mv_daily_power_"@ + class_list()[i - n],
            NormalizerKind::PowerDiff,
        )
    } else if i < 3 * n {
        (
            "v"@ + class_list()[i - 2 * n],
            "mv_daily_vol_"@ + class_list()[i - 2 * n],
            NormalizerKind::VolumeSum,
        )
    } else if i < 3 * n + 2 {
        (
            estate_list()[i - 3 * n],
            "mv_divar_"@ + estate_list()[i - 3 * n],
            NormalizerKind::RealEstateSum,
        )
    } else if i == 3 * n + 2 {
        ("shakhes"@, "b2_history"@, NormalizerKind::IndexValue)
    } else {
        ("dollar"@, "dollar"@, NormalizerKind::CurrencyPrice)
    }
}

/// The asset-class identifiers as executable strings, in catalog order.
pub fn class_names() -> (v: Vec<&'static str>)
    ensures
        v@.len() == class_list().len(),
        forall|i: int| 0 <= i < v@.len() ==> v@[i]@ == class_list()[i],
{
    let mut v: Vec<&'static str> = Vec::new();
    v.push("saham");
    v.push("s_saham");
    v.push("ahrom");
    v.push("s_tala");
    v.push("s_sabet");
    v.push("s_zamin");
    v.push("s_amlak");
    v.push("e_forush");
    v.push("ati_ahrom");
    v.push("s_dar_s");
    v.push("sokuk");
    v.push("e_kharid");
    v.push("s_kala_ghaza");
    v.push("saham_majmu");
    v
}

/// The two real-estate classes as executable strings, in catalog order.
pub fn estate_names() -> (v: Vec<&'static str>)
    ensures
        v@.len() == estate_list().len(),
        forall|i: int| 0 <= i < v@.len() ==> v@[i]@ == estate_list()[i],
{
    let mut v: Vec<&'static str> = Vec::new();
    v.push("apartment");
    v.push("plotold");
    v
}

/// The static catalog, in declaration order. It is read-only configuration:
/// built fresh per request, never mutated, and its source names are derived
/// only from the closed class set above.
pub fn entries() -> (v: Vec<CategoryEntry>)
    ensures
        v@.len() == catalog_len(),
        forall|i: int| 0 <= i < v@.len() ==> entry_model(v@[i]) == catalog_spec_at(i),
{
    let classes = class_names();
    let estates = estate_names();
    let n = classes.len();
    let mut v: Vec<CategoryEntry> = Vec::new();
    let mut i: usize = 0;
    while i < n
        invariant
            n == class_list().len(),
            classes@.len() == n,
            forall|j: int| 0 <= j < n ==> classes@[j]@ == class_list()[j],
            v@.len() == i,
            0 <= i <= n,
            forall|j: int| 0 <= j < i ==> entry_model(v@[j]) == catalog_spec_at(j),
        decreases n - i,
    {
        let class = classes[i];
        v.push(
            CategoryEntry {
                key: class.to_owned(),
                source: "mv_stock_cumulative_".to_owned().concat(class),
                kind: NormalizerKind::StockSum,
            },
        );
        i = i + 1;
    }
    i = 0;
    while i < n
        invariant
            n == class_list().len(),
            classes@.len() == n,
            forall|j: int| 0 <= j < n ==> classes@[j]@ == class_list()[j],
            v@.len() == n + i,
            0 <= i <= n,
            forall|j: int| 0 <= j < n + i ==> entry_model(v@[j]) == catalog_spec_at(j),
        decreases n - i,
    {
        let class = classes[i];
        v.push(
            CategoryEntry {
                key: "g".to_owned().concat(class),
                source: "mv_daily_power_".to_owned().concat(class),
                kind: NormalizerKind::PowerDiff,
            },
        );
        i = i + 1;
    }
    i = 0;
    while i < n
        invariant
            n == class_list().len(),
            classes@.len() == n,
            forall|j: int| 0 <= j < n ==> classes@[j]@ == class_list()[j],
            v@.len() == 2 * n + i,
            0 <= i <= n,
            forall|j: int| 0 <= j < 2 * n + i ==> entry_model(v@[j]) == catalog_spec_at(j),
        decreases n - i,
    {
        let class = classes[i];
        v.push(
            CategoryEntry {
                key: "v".to_owned().concat(class),
                source: "mv_daily_vol_".to_owned().concat(class),
                kind: NormalizerKind::VolumeSum,
            },
        );
        i = i + 1;
    }
    i = 0;
    while i < estates.len()
        invariant
            n == class_list().len(),
            estates@.len() == estate_list().len(),
            forall|j: int| 0 <= j < estates@.len() ==> estates@[j]@ == estate_list()[j],
            v@.len() == 3 * n + i,
            0 <= i <= estates@.len(),
            forall|j: int| 0 <= j < 3 * n + i ==> entry_model(v@[j]) == catalog_spec_at(j),
        decreases estates@.len() - i,
    {
        let class = estates[i];
        v.push(
            CategoryEntry {
                key: class.to_owned(),
                source: "mv_divar_".to_owned().concat(class),
                kind: NormalizerKind::RealEstateSum,
            },
        );
        i = i + 1;
    }
    v.push(
        CategoryEntry {
            key: "shakhes".to_owned(),
            source: "b2_history".to_owned(),
            kind: NormalizerKind::IndexValue,
        },
    );
    v.push(
        CategoryEntry {
            key: "dollar".to_owned(),
            source: "dollar".to_owned(),
            kind: NormalizerKind::CurrencyPrice,
        },
    );
    v
}

/// The query text issued against one entry's physical source: a plain full
/// scan for the templated sources, and a fixed projection with a static
/// epoch filter for the index and currency sources.
pub open spec fn spec_query(kind: NormalizerKind, source: Seq<char>) -> Seq<char> {
    match kind {
        NormalizerKind::IndexValue => (
        "SELECT d_even, CAST(x_niv_inu_cl_mres_ibs AS double precision) AS x_niv_inu_cl_mres_ibs FROM b2_history WHERE d_even > 20201005"@
        ),
        NormalizerKind::CurrencyPrice => (
        "SELECT date, dollar_price FROM dollar WHERE date > 20201005"@
        ),
        _ => "SELECT * FROM "@ + source,
    }
}

/// Build the query text for one catalog entry.
pub fn query_text(entry: &CategoryEntry) -> (q: String)
    ensures
        q@ == spec_query(entry.kind, entry.source@),
{
    match entry.kind {
        NormalizerKind::IndexValue => (
        "SELECT d_even, CAST(x_niv_inu_cl_mres_ibs AS double precision) AS x_niv_inu_cl_mres_ibs FROM b2_history WHERE d_even > 20201005".to_owned()
        ),
        NormalizerKind::CurrencyPrice => (
        "SELECT date, dollar_price FROM dollar WHERE date > 20201005".to_owned()
        ),
        _ => "SELECT * FROM ".to_owned().concat(entry.source.as_str()),
    }
}

} // verus!
