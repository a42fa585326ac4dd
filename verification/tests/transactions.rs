use easy_occp::web::views::transactions::{
    csv_escape, export_csv_document, tx_energy_wh, tx_scope, ExportRow, Filter, TxScopeKind,
};

#[test]
fn non_admin_sees_own_transactions() {
    let s = tx_scope(false, 42, &Filter { employee: Some("Anna".to_string()) });
    assert_eq!(s.kind, TxScopeKind::Mine);
    assert_eq!(s.user_id, 42);
}

#[test]
fn admin_filters_by_name() {
    let s = tx_scope(true, 1, &Filter { employee: Some("Anna".to_string()) });
    assert_eq!(s.kind, TxScopeKind::NameLike);
    assert_eq!(s.pattern, "%Anna%");
    assert_eq!(tx_scope(true, 1, &Filter { employee: Some(String::new()) }).kind, TxScopeKind::All);
    assert_eq!(tx_scope(true, 1, &Filter { employee: None }).kind, TxScopeKind::All);
}

#[test]
fn energy_of_finished_transaction() {
    assert_eq!(tx_energy_wh(Some(15_500), 12_000), Some(3_500));
    assert_eq!(tx_energy_wh(Some(100), 400), Some(0));
    assert_eq!(tx_energy_wh(None, 400), None);
}

#[test]
fn csv_escape_fields() {
    assert_eq!(csv_escape("plain text"), "plain text");
    assert_eq!(csv_escape("a;b"), "\"a;b\"");
    assert_eq!(csv_escape("say \"hi\""), "\"say \"\"hi\"\"\"");
    assert_eq!(csv_escape("two\nlines"), "\"two\nlines\"");
    assert_eq!(csv_escape("cr\r"), "\"cr\r\"");
    assert_eq!(csv_escape(""), "");
}

fn unescape(f: &str) -> String {
    if f.len() >= 2 && f.starts_with('"') && f.ends_with('"') {
        f[1..f.len() - 1].replace("\"\"", "\"")
    } else {
        f.to_string()
    }
}

#[test]
fn csv_escape_reads_back() {
    for s in ["x", "a;b", "\"quoted\"", "\"", "\"\"", "semi;\"both\"\n", ""] {
        assert_eq!(unescape(&csv_escape(s)), s, "{s:?}");
    }
}

fn export_row(id: i64, stop: Option<&str>, stop_wh: Option<i64>) -> ExportRow {
    ExportRow {
        id,
        wallbox_name: "Hof; links".to_string(),
        connector_id: 1,
        id_tag: "ABC123".to_string(),
        employee_name: if id == 1 { Some("Anna".to_string()) } else { None },
        start_time: "2024-03-01T08:00:00+00:00".to_string(),
        stop_time: stop.map(|s| s.to_string()),
        stop_meter_wh: stop_wh,
        start_meter_wh: 1000,
        stop_reason: if id == 1 { Some("Local".to_string()) } else { None },
    }
}

#[test]
fn export_document() {
    let rows = vec![
        export_row(1, Some("2024-03-01T09:00:00+00:00"), Some(3500)),
        export_row(2, None, None),
        export_row(3, Some("2024-03-02T09:00:00+00:00"), None),
    ];
    let doc = export_csv_document(&rows, &vec![0, 777, 5]);
    let expected = "\u{FEFF}id;wallbox;connector;id_tag;mitarbeiter;start;ende;energie_wh;grund\n\
        1;\"Hof; links\";1;ABC123;Anna;2024-03-01T08:00:00+00:00;2024-03-01T09:00:00+00:00;2500;Local\n\
        2;\"Hof; links\";1;ABC123;;2024-03-01T08:00:00+00:00;;777;\n\
        3;\"Hof; links\";1;ABC123;;2024-03-01T08:00:00+00:00;2024-03-02T09:00:00+00:00;0;\n";
    assert_eq!(doc, expected);
}

#[test]
fn export_document_without_rows() {
    assert_eq!(
        export_csv_document(&Vec::new(), &Vec::new()),
        "\u{FEFF}id;wallbox;connector;id_tag;mitarbeiter;start;ende;energie_wh;grund\n"
    );
}
