use easy_occp::domain::stats::{
    by_employee_sql, by_wallbox_sql, employee_vs_guest_sql, guest_split_from_row, named_stats, overview_from_rows,
    overview_sql, quarter_rollup, try_quarter_rollup, Granularity, PeriodStat, BY_EMPLOYEE_ALL_SQL, BY_EMPLOYEE_SINCE_SQL,
    BY_WALLBOX_ALL_SQL, BY_WALLBOX_SINCE_SQL, EMPLOYEE_VS_GUEST_SQL,
};
use easy_occp::web::views::stats::{stats_query, Filter};

fn ps(b: &str, s: i64, e: i64) -> PeriodStat {
    PeriodStat { bucket: b.to_string(), sessions: s, energy_wh: e }
}

fn flat(v: &[PeriodStat]) -> Vec<(String, i64, i64)> {
    v.iter().map(|p| (p.bucket.clone(), p.sessions, p.energy_wh)).collect()
}

#[test]
fn bucket_expressions() {
    assert_eq!(Granularity::Month.bucket_expr(), "strftime('%Y-%m', start_time)");
    assert_eq!(Granularity::Quarter.bucket_expr(), "strftime('%Y-%m', start_time)");
    assert_eq!(Granularity::Year.bucket_expr(), "strftime('%Y', start_time)");
}

#[test]
fn overview_query_groups_by_bucket() {
    let q = overview_sql(Granularity::Year);
    assert!(q.starts_with("SELECT strftime('%Y', start_time) AS bucket,"));
    assert!(q.contains("WHERE stop_meter_wh IS NOT NULL"));
    assert!(q.ends_with("LIMIT 60"));
}

#[test]
fn quarter_rollup_sums_months_into_quarters() {
    let rows = vec![ps("2024-04", 1, 100), ps("2024-02", 2, 200), ps("2024-01", 3, 300)];
    let out = quarter_rollup(&rows);
    assert_eq!(
        flat(&out),
        vec![("2024-Q2".to_string(), 1, 100), ("2024-Q1".to_string(), 5, 500)]
    );
}

#[test]
fn quarter_rollup_orders_newest_first_across_years() {
    let rows = vec![ps("2023-12", 1, 10), ps("2024-03", 2, 20), ps("2023-10", 4, 40), ps("2023-07", 8, 80)];
    let out = quarter_rollup(&rows);
    assert_eq!(
        flat(&out),
        vec![
            ("2024-Q1".to_string(), 2, 20),
            ("2023-Q4".to_string(), 5, 50),
            ("2023-Q3".to_string(), 8, 80)
        ]
    );
}

#[test]
fn quarter_rollup_keeps_totals() {
    let rows = vec![ps("2022-05", 3, -7), ps("2022-06", 4, 70), ps("2022-11", 1, 5), ps("2021-01", 9, 900)];
    let out = quarter_rollup(&rows);
    let s_in: i64 = rows.iter().map(|p| p.sessions).sum();
    let e_in: i64 = rows.iter().map(|p| p.energy_wh).sum();
    let s_out: i64 = out.iter().map(|p| p.sessions).sum();
    let e_out: i64 = out.iter().map(|p| p.energy_wh).sum();
    assert_eq!((s_in, e_in), (s_out, e_out));
    assert_eq!(out.len(), 3);
}

#[test]
fn quarter_rollup_unreadable_month_counts_as_january() {
    let rows = vec![ps("2024-xx", 1, 1), ps("2024-02", 1, 1)];
    let out = quarter_rollup(&rows);
    assert_eq!(flat(&out), vec![("2024-Q1".to_string(), 2, 2)]);
}

#[test]
fn quarter_rollup_of_nothing() {
    assert!(quarter_rollup(&Vec::new()).is_empty());
}

#[test]
fn overview_from_rows_by_granularity() {
    let rows = vec![ps("2024-04", 1, 100), ps("2024-01", 3, 300)];
    assert_eq!(flat(&overview_from_rows(Granularity::Month, rows.clone())), flat(&rows));
    assert_eq!(
        flat(&overview_from_rows(Granularity::Quarter, rows)),
        vec![("2024-Q2".to_string(), 1, 100), ("2024-Q1".to_string(), 3, 300)]
    );
}

#[test]
fn named_stats_in_order() {
    let out = named_stats(vec![("Anna".to_string(), 3, 4500), ("(Gast)".to_string(), 1, 7)]);
    assert_eq!(out.len(), 2);
    assert_eq!((out[0].label.as_str(), out[0].sessions, out[0].energy_wh), ("Anna", 3, 4500));
    assert_eq!((out[1].label.as_str(), out[1].sessions, out[1].energy_wh), ("(Gast)", 1, 7));
}

#[test]
fn guest_split_defaults_and_clamps() {
    let g = guest_split_from_row((Some(3), Some(-5), None, Some(12)));
    assert_eq!((g.employee_sessions, g.employee_wh, g.guest_sessions, g.guest_wh), (3, 0, 0, 12));
    let n = guest_split_from_row((None, None, None, None));
    assert_eq!((n.employee_sessions, n.employee_wh, n.guest_sessions, n.guest_wh), (0, 0, 0, 0));
}

#[test]
fn rollup_queries_with_and_without_start() {
    assert_eq!(by_employee_sql(true), BY_EMPLOYEE_SINCE_SQL);
    assert_eq!(by_employee_sql(false), BY_EMPLOYEE_ALL_SQL);
    assert!(BY_EMPLOYEE_SINCE_SQL.contains("t.start_time >= ?1"));
    assert!(!BY_EMPLOYEE_ALL_SQL.contains("?1"));
    assert_eq!(by_wallbox_sql(true), BY_WALLBOX_SINCE_SQL);
    assert_eq!(by_wallbox_sql(false), BY_WALLBOX_ALL_SQL);
    assert_eq!(employee_vs_guest_sql(false), EMPLOYEE_VS_GUEST_SQL);
    assert_eq!(employee_vs_guest_sql(true), format!("{EMPLOYEE_VS_GUEST_SQL} AND t.start_time >= ?1"));
}

#[test]
fn stats_filter_defaults() {
    let q = stats_query(&Filter { g: None, r: None });
    assert_eq!(q.granularity, "month");
    assert_eq!(q.gran, Granularity::Month);
    assert_eq!(q.range, "90d");
    assert_eq!(q.since_days, Some(90));
}

#[test]
fn stats_filter_values() {
    let q = stats_query(&Filter { g: Some("quarter".to_string()), r: Some("all".to_string()) });
    assert_eq!(q.gran, Granularity::Quarter);
    assert_eq!(q.since_days, None);
    let q = stats_query(&Filter { g: Some("year".to_string()), r: Some("30d".to_string()) });
    assert_eq!(q.gran, Granularity::Year);
    assert_eq!(q.since_days, Some(30));
    let q = stats_query(&Filter { g: Some("decade".to_string()), r: Some("365d".to_string()) });
    assert_eq!(q.granularity, "decade");
    assert_eq!(q.gran, Granularity::Month);
    assert_eq!(q.since_days, Some(365));
    let q = stats_query(&Filter { g: None, r: Some("7d".to_string()) });
    assert_eq!(q.range, "7d");
    assert_eq!(q.since_days, Some(90));
}

#[test]
fn try_quarter_rollup_refuses_what_cannot_be_rolled_up() {
    assert!(try_quarter_rollup(&vec![ps("2024", 1, 1)]).is_none());
    assert!(try_quarter_rollup(&vec![ps("2024-00", 1, 1)]).is_none());
    assert!(try_quarter_rollup(&vec![ps("2024é01", 1, 1)]).is_none());
    assert!(try_quarter_rollup(&vec![ps("2024-01", i64::MAX, 1), ps("2024-02", 1, 1)]).is_none());
    assert!(try_quarter_rollup(&vec![ps("2024-01", 1, i64::MIN), ps("2024-03", 1, -1)]).is_none());
    // separate quarters do not add up
    let ok = try_quarter_rollup(&vec![ps("2024-01", i64::MAX, 1), ps("2024-04", 1, 1)]).expect("fits");
    assert_eq!(flat(&ok), vec![("2024-Q2".to_string(), 1, 1), ("2024-Q1".to_string(), i64::MAX, 1)]);
    let same = try_quarter_rollup(&vec![ps("2024-05", 2, 3)]).expect("fits");
    assert_eq!(flat(&same), flat(&quarter_rollup(&vec![ps("2024-05", 2, 3)])));
}
