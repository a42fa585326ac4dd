use easy_occp::error::AppError;
use easy_occp::web::views::reports::{
    fmt_iso, group_report_rows, kwh3, month_name, monthly_report_sections, report_filename, report_pages,
    report_period, truncate, ReportRow,
};

fn bad_request(r: Result<easy_occp::web::views::reports::ReportPeriod, AppError>) -> String {
    match r {
        Err(AppError::BadRequest(m)) => m,
        Err(_) => panic!("other error"),
        Ok(p) => panic!("unexpected period {} .. {}", p.start_iso, p.end_iso),
    }
}

#[test]
fn report_period_of_a_month() {
    let p = report_period(2024, 3).ok().expect("valid month");
    assert_eq!(p.start_iso, "2024-03-01T00:00:00+00:00");
    assert_eq!(p.end_iso, "2024-04-01T00:00:00+00:00");
}

#[test]
fn report_period_of_december_ends_next_year() {
    let p = report_period(2023, 12).ok().expect("valid month");
    assert_eq!(p.start_iso, "2023-12-01T00:00:00+00:00");
    assert_eq!(p.end_iso, "2024-01-01T00:00:00+00:00");
}

#[test]
fn report_period_rejects_bad_month() {
    assert_eq!(bad_request(report_period(2024, 0)), "Monat muss 1..12 sein.");
    assert_eq!(bad_request(report_period(2024, 13)), "Monat muss 1..12 sein.");
}

#[test]
fn report_period_rejects_unrepresentable_year() {
    assert_eq!(bad_request(report_period(300000, 5)), "ungültiges Datum");
    assert_eq!(bad_request(report_period(-300000, 5)), "ungültiges Datum");
}

#[test]
fn report_filenames() {
    assert_eq!(report_filename(2024, 3), "monatsbericht_2024-03.pdf");
    assert_eq!(report_filename(2024, 11), "monatsbericht_2024-11.pdf");
    assert_eq!(report_filename(7, 1), "monatsbericht_0007-01.pdf");
    assert_eq!(report_filename(-5, 1), "monatsbericht_-005-01.pdf");
    assert_eq!(report_filename(12345, 12), "monatsbericht_12345-12.pdf");
    assert_eq!(report_filename(2024, 123), "monatsbericht_2024-123.pdf");
}

#[test]
fn month_names() {
    let names = [
        "Januar", "Februar", "März", "April", "Mai", "Juni", "Juli", "August", "September", "Oktober", "November",
        "Dezember",
    ];
    for (i, n) in names.iter().enumerate() {
        assert_eq!(month_name(i as u32 + 1), *n);
    }
    assert_eq!(month_name(0), "");
    assert_eq!(month_name(13), "");
}

#[test]
fn truncate_texts() {
    assert_eq!(truncate("abcdef", 4), "abc…");
    assert_eq!(truncate("abcd", 4), "abcd");
    assert_eq!(truncate("abc", 4), "abc");
    assert_eq!(truncate("äöüß", 2), "ä…");
    assert_eq!(truncate("xy", 1), "…");
    assert_eq!(truncate("", 0), "");
    assert!(truncate("a long wallbox name", 10).chars().count() <= 10);
}

#[test]
fn fmt_iso_formats_rfc3339_in_utc() {
    assert_eq!(fmt_iso("2024-03-05T14:07:00+01:00"), "05.03.2024 13:07");
    assert_eq!(fmt_iso("2024-12-31T23:30:00Z"), "31.12.2024 23:30");
}

#[test]
fn fmt_iso_keeps_other_text() {
    assert_eq!(fmt_iso("gestern"), "gestern");
    assert_eq!(fmt_iso(""), "");
}

fn row(emp: i64, name: &str, wh: i64, secs: i64) -> ReportRow {
    ReportRow {
        emp_id: emp,
        name: name.to_string(),
        email: if emp == 1 { Some("a@example.org".to_string()) } else { None },
        wallbox: "WB".to_string(),
        id_tag: format!("TAG{emp}"),
        start_time: "2024-03-05T14:07:00+01:00".to_string(),
        stop_time: if secs >= 0 { Some("2024-03-05T15:07:00+01:00".to_string()) } else { None },
        energy_wh: wh,
        duration_sec: secs,
    }
}

#[test]
fn group_rows_by_employee() {
    let rows = vec![row(1, "Anna", 1000, 3600), row(1, "Anna", 500, 119), row(2, "Bernd", -20, -5), row(1, "Anna", 7, 60)];
    let g = group_report_rows(&rows);
    assert_eq!(g.len(), 2);
    assert_eq!((g[0].id, g[0].name.as_str(), g[0].rows.len(), g[0].total_wh), (1, "Anna", 3, 1507));
    assert_eq!(g[0].email.as_deref(), Some("a@example.org"));
    assert_eq!((g[1].id, g[1].rows.len(), g[1].total_wh), (2, 1, 0));
    let l = &g[0].rows[0];
    assert_eq!(l.start, "05.03.2024 13:07");
    assert_eq!(l.stop, "05.03.2024 14:07");
    assert_eq!(l.wallbox, "WB");
    assert_eq!(l.id_tag, "TAG1");
    assert_eq!((l.energy_wh, l.duration_min), (1000, 60));
    assert_eq!(g[0].rows[1].duration_min, 1);
    assert_eq!(g[0].rows[2].energy_wh, 7);
    let b = &g[1].rows[0];
    assert_eq!((b.energy_wh, b.duration_min, b.stop.as_str()), (-20, 0, ""));
}

#[test]
fn same_name_different_employees_stay_apart() {
    let rows = vec![row(3, "Chris", 1, 60), row(4, "Chris", 2, 60), row(3, "Chris", 4, 60), row(4, "Chris", 8, 60)];
    let g = group_report_rows(&rows);
    assert_eq!(g.len(), 2);
    assert_eq!((g[0].id, g[0].total_wh), (3, 5));
    assert_eq!((g[1].id, g[1].total_wh), (4, 10));
}

#[test]
fn grouping_lists_every_row_once_in_order() {
    let rows = vec![row(3, "C", 1, 60), row(3, "C", 2, 120), row(4, "D", 3, 180)];
    let g = group_report_rows(&rows);
    let energies: Vec<i64> = g.iter().flat_map(|s| s.rows.iter().map(|l| l.energy_wh)).collect();
    assert_eq!(energies, vec![1, 2, 3]);
    for s in &g {
        assert!(!s.rows.is_empty());
        let sum: i64 = s.rows.iter().map(|l| l.energy_wh.max(0)).sum();
        assert_eq!(s.total_wh, sum);
    }
    assert!(group_report_rows(&Vec::new()).is_empty());
}

#[test]
fn report_period_year_texts() {
    let p = report_period(7, 1).ok().unwrap();
    assert_eq!(p.start_iso, "0007-01-01T00:00:00+00:00");
    let p = report_period(10000, 2).ok().unwrap();
    assert_eq!(p.start_iso, "+10000-02-01T00:00:00+00:00");
    let p = report_period(-5, 3).ok().unwrap();
    assert_eq!(p.start_iso, "-0005-03-01T00:00:00+00:00");
    assert_eq!(p.end_iso, "-0005-04-01T00:00:00+00:00");
    let p = report_period(9999, 12).ok().unwrap();
    assert_eq!(p.end_iso, "+10000-01-01T00:00:00+00:00");
}

#[test]
fn kwh_with_three_decimals() {
    assert_eq!(kwh3(1234), "1.234");
    assert_eq!(kwh3(0), "0.000");
    assert_eq!(kwh3(5), "0.005");
    assert_eq!(kwh3(-5), "-0.005");
    assert_eq!(kwh3(1_000_000), "1000.000");
    assert_eq!(kwh3(-1500), "-1.500");
    for wh in [0i64, 1, 999, 1000, 123_456_789, -42, -123_456] {
        assert_eq!(kwh3(wh), format!("{:.3}", wh as f64 / 1000.0));
    }
    assert_eq!(kwh3(i64::MIN), "-9223372036854775.808");
}

#[test]
fn empty_month_is_not_found() {
    assert!(matches!(monthly_report_sections(&Vec::new()), Err(AppError::NotFound)));
    let g = monthly_report_sections(&vec![row(1, "Anna", 10, 60)]).ok().unwrap();
    assert_eq!(g.len(), 1);
}

#[test]
fn report_pages_layout() {
    let mut rows = vec![row(1, "Anna", 1500, 3600)];
    for _ in 0..49 {
        rows.push(row(1, "Anna", 2, 600));
    }
    rows.push(row(2, "Bernd", -3, -60));
    let g = group_report_rows(&rows);
    let pages = report_pages(2024, 3, &g);
    assert_eq!(pages.len(), 3);
    let p0 = &pages[0];
    assert!(!p0.continued);
    assert_eq!(p0.heading, vec!["Monatsbericht März 2024", "Mitarbeiter: Anna", "E-Mail: a@example.org"]);
    assert_eq!(p0.lines.len(), 39);
    assert!(p0.footer.is_none());
    let l = &p0.lines[0];
    assert_eq!((l.start.as_str(), l.stop.as_str()), ("05.03.2024 13:07", "05.03.2024 14:07"));
    assert_eq!((l.wallbox.as_str(), l.chip.as_str(), l.duration.as_str(), l.kwh.as_str()), ("WB", "TAG1", "60 min", "1.500"));
    let p1 = &pages[1];
    assert!(p1.continued);
    assert_eq!(p1.heading, vec!["… Fortsetzung: Anna"]);
    assert_eq!(p1.lines.len(), 11);
    let f = p1.footer.as_ref().unwrap();
    assert_eq!(f.count, "50 Ladungen");
    assert_eq!(f.minutes, "Gesamt: 550 min");
    assert_eq!(f.energy, "Energie: 1.598 kWh");
    let p2 = &pages[2];
    assert!(!p2.continued);
    assert_eq!(p2.heading, vec!["Monatsbericht März 2024", "Mitarbeiter: Bernd"]);
    assert_eq!(p2.lines.len(), 1);
    assert_eq!(p2.lines[0].duration, "0 min");
    assert_eq!(p2.lines[0].kwh, "-0.003");
    let f2 = p2.footer.as_ref().unwrap();
    assert_eq!((f2.count.as_str(), f2.minutes.as_str(), f2.energy.as_str()), ("1 Ladungen", "Gesamt: 0 min", "Energie: 0.000 kWh"));
}

#[test]
fn long_sections_continue_every_45_lines() {
    let rows: Vec<ReportRow> = (0..130).map(|_| row(1, "Anna", 1, 60)).collect();
    let pages = report_pages(2024, 1, &group_report_rows(&rows));
    let sizes: Vec<usize> = pages.iter().map(|p| p.lines.len()).collect();
    assert_eq!(sizes, vec![39, 45, 45, 1]);
    assert!(pages[..3].iter().all(|p| p.footer.is_none()));
    assert!(pages[3].footer.is_some());
    let exact: Vec<ReportRow> = (0..39).map(|_| row(1, "Anna", 1, 60)).collect();
    assert_eq!(report_pages(2024, 1, &group_report_rows(&exact)).len(), 1);
}
