use srecha_invoice::artefact::ArtefactStore;
use srecha_invoice::error::CmdError;
use srecha_invoice::schema::bootstrap_statements;

#[test]
fn artefact_save_then_load_round_trips() {
    let mut store = ArtefactStore::new();
    let path = store.save_invoice_html(
        "2024-100",
        "invoice",
        "2024",
        "03",
        "<html>march</html>".to_string(),
    );
    assert_eq!(path, "invoices/invoice/2024/03/2024-100.html");
    let html = store
        .load_invoice_html("2024-100", "invoice", "2024", "03")
        .expect("saved artefact must load");
    assert_eq!(html, "<html>march</html>");
}

#[test]
fn artefact_save_replaces_earlier_content() {
    let mut store = ArtefactStore::new();
    store.save_invoice_html("N-1", "offer", "2024", "01", "first".to_string());
    store.save_invoice_html("N-1", "offer", "2024", "01", "second".to_string());
    let html = store.load_invoice_html("N-1", "offer", "2024", "01").expect("load");
    assert_eq!(html, "second");
}

#[test]
fn artefact_delete_then_load_is_not_found() {
    let mut store = ArtefactStore::new();
    store.save_invoice_html("N-2", "invoice", "2024", "02", "x".to_string());
    store.delete_invoice_html("N-2", "invoice", "2024", "02").expect("delete");
    let r = store.load_invoice_html("N-2", "invoice", "2024", "02");
    assert!(matches!(r, Err(CmdError::NotFound)));
}

#[test]
fn artefact_delete_of_absent_file_is_a_no_op() {
    let mut store = ArtefactStore::new();
    store.delete_invoice_html("never-saved", "invoice", "2024", "02").expect("no-op delete");
}

#[test]
fn slashed_invoice_numbers_are_sanitised() {
    let mut store = ArtefactStore::new();
    let path = store.save_invoice_html("2024/01", "invoice", "2024", "01", "h".to_string());
    assert_eq!(path, "invoices/invoice/2024/01/2024-01.html");
    let back = store.save_invoice_html("2024\\01", "invoice", "2024", "01", "h2".to_string());
    assert_eq!(back, "invoices/invoice/2024/01/2024-01.html");
    let html = store.load_invoice_html("2024/01", "invoice", "2024", "01").expect("load");
    assert_eq!(html, "h2", "both separators map to the same file");
}

#[test]
fn artefacts_under_other_paths_are_untouched() {
    let mut store = ArtefactStore::new();
    store.save_invoice_html("A", "invoice", "2024", "01", "a".to_string());
    store.save_invoice_html("B", "invoice", "2024", "01", "b".to_string());
    store.delete_invoice_html("A", "invoice", "2024", "01").expect("delete");
    let html = store.load_invoice_html("B", "invoice", "2024", "01").expect("load");
    assert_eq!(html, "b");
}

#[test]
fn bootstrap_statement_list_is_the_historical_sequence() {
    let stmts = bootstrap_statements();
    assert_eq!(stmts.len(), 24);
    for (i, s) in stmts.iter().enumerate() {
        assert_eq!(s.ignore_failure, s.sql.starts_with("ALTER"));
        assert_eq!(s.ignore_failure, i == 3 || i >= 17);
        if !s.ignore_failure {
            assert!(s.sql.starts_with("CREATE TABLE IF NOT EXISTS"));
        }
    }
    assert!(stmts[0].sql.contains("users"));
    assert!(stmts[16].sql.contains("countries"));
    assert!(stmts[23].sql.contains("wechat"));
}
