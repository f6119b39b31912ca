use std::collections::HashSet;

use series_agg::catalog::{entries, query_text, NormalizerKind};

#[test]
fn catalog_has_every_series_once() {
    let cat = entries();
    // 14 asset classes under three templates, two real-estate classes,
    // the index and the currency.
    assert_eq!(cat.len(), 3 * 14 + 2 + 2);
    let keys: HashSet<String> = cat.iter().map(|e| e.key.clone()).collect();
    assert_eq!(keys.len(), cat.len());
}

#[test]
fn stock_entries_substitute_the_class_into_the_template() {
    let cat = entries();
    assert_eq!(cat[0].key, "saham");
    assert_eq!(cat[0].source, "mv_stock_cumulative_saham");
    assert_eq!(cat[0].kind, NormalizerKind::StockSum);
    assert_eq!(cat[13].key, "saham_majmu");
    assert_eq!(cat[13].source, "mv_stock_cumulative_saham_majmu");
}

#[test]
fn power_and_volume_entries_mark_their_keys() {
    let cat = entries();
    assert_eq!(cat[14].key, "gsaham");
    assert_eq!(cat[14].source, "mv_daily_power_saham");
    assert_eq!(cat[14].kind, NormalizerKind::PowerDiff);
    assert_eq!(cat[28].key, "vsaham");
    assert_eq!(cat[28].source, "mv_daily_vol_saham");
    assert_eq!(cat[28].kind, NormalizerKind::VolumeSum);
}

#[test]
fn standalone_entries_close_the_catalog() {
    let cat = entries();
    assert_eq!(cat[42].key, "apartment");
    assert_eq!(cat[42].source, "mv_divar_apartment");
    assert_eq!(cat[42].kind, NormalizerKind::RealEstateSum);
    assert_eq!(cat[43].key, "plotold");
    assert_eq!(cat[43].source, "mv_divar_plotold");
    assert_eq!(cat[44].key, "shakhes");
    assert_eq!(cat[44].source, "b2_history");
    assert_eq!(cat[44].kind, NormalizerKind::IndexValue);
    assert_eq!(cat[45].key, "dollar");
    assert_eq!(cat[45].source, "dollar");
    assert_eq!(cat[45].kind, NormalizerKind::CurrencyPrice);
}

#[test]
fn templated_sources_get_a_full_scan_query() {
    let cat = entries();
    assert_eq!(query_text(&cat[0]), "SELECT * FROM mv_stock_cumulative_saham");
    assert_eq!(query_text(&cat[14]), "SELECT * FROM mv_daily_power_saham");
    assert_eq!(query_text(&cat[42]), "SELECT * FROM mv_divar_apartment");
}

#[test]
fn index_and_currency_get_fixed_filtered_queries() {
    let cat = entries();
    assert_eq!(
        query_text(&cat[44]),
        "SELECT d_even, CAST(x_niv_inu_cl_mres_ibs AS double precision) AS x_niv_inu_cl_mres_ibs FROM b2_history WHERE d_even > 20201005"
    );
    assert_eq!(query_text(&cat[45]), "SELECT date, dollar_price FROM dollar WHERE date > 20201005");
}
