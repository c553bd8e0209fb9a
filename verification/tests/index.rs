use rss_reader::index::{header_line, log_entry, needs_header, row_line, IndexRecord};

#[test]
fn header_line_names_the_four_columns() {
    assert_eq!(
        header_line(),
        "time,article_name,rss_subscription_name,path\n"
    );
}

#[test]
fn log_entry_puts_the_header_before_the_first_row() {
    let header = "time,article_name,rss_subscription_name,path\n";
    assert_eq!(log_entry(None, "a,b,c,d\n"), format!("{}a,b,c,d\n", header));
    assert_eq!(log_entry(Some(0), "a,b,c,d\n"), format!("{}a,b,c,d\n", header));
    assert_eq!(log_entry(Some(1), "a,b,c,d\n"), "a,b,c,d\n");
    assert_eq!(log_entry(Some(u64::MAX), ""), String::new());
    assert_eq!(log_entry(None, ""), header.to_string());
}

#[test]
fn row_line_of_plain_fields() {
    assert_eq!(
        row_line("2024-01-01T00:00:00+00:00", "Hello", "Example", "data/articles/x.md"),
        "2024-01-01T00:00:00+00:00,Hello,Example,data/articles/x.md\n"
    );
}

#[test]
fn row_line_quotes_where_needed() {
    assert_eq!(
        row_line("t", "Hello, \"World\"", "two\nlines", "p"),
        "t,\"Hello, \"\"World\"\"\",\"two\nlines\",p\n"
    );
}

#[test]
fn row_line_of_empty_fields() {
    assert_eq!(row_line("", "", "", ""), ",,,\n");
}

#[test]
fn index_record_line_holds_fields_in_column_order() {
    let record = IndexRecord {
        time: "T".to_string(),
        article_name: "A".to_string(),
        rss_subscription_name: "S".to_string(),
        path: "P".to_string(),
    };
    assert_eq!(record.line(), "T,A,S,P\n");
}

#[test]
fn needs_header_for_missing_or_empty_log() {
    assert!(needs_header(None));
    assert!(needs_header(Some(0)));
    assert!(!needs_header(Some(1)));
    assert!(!needs_header(Some(u64::MAX)));
}
