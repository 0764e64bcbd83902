use formatting_utils::images::{parse_image_column, DownloadImages, ImageColumn};
use formatting_utils::table::{field, Table};

fn request(extra: Option<&str>) -> DownloadImages {
    DownloadImages {
        creator_column: "Name".to_string(),
        extra_info_column: extra.map(|s| s.to_string()),
        image_column: vec![
            ImageColumn { column: "Front".to_string(), suffix: "F".to_string() },
            ImageColumn { column: "Back".to_string(), suffix: "B".to_string() },
        ],
        prefix: Some("Zine".to_string()),
        suffix: None,
        filename: "data/export.csv".to_string(),
    }
}

#[test]
fn image_column_splits_at_first_colon() {
    let c = parse_image_column("Front:F").unwrap();
    assert_eq!((c.column.as_str(), c.suffix.as_str()), ("Front", "F"));
    let c = parse_image_column("a:b:c").unwrap();
    assert_eq!((c.column.as_str(), c.suffix.as_str()), ("a", "b:c"));
    let c = parse_image_column(":").unwrap();
    assert_eq!((c.column.as_str(), c.suffix.as_str()), ("", ""));
}

#[test]
fn image_column_without_colon_is_refused() {
    let e = parse_image_column("Front").unwrap_err();
    assert_eq!(e.message(), "Invalid format for image column: Front");
}

#[test]
fn context_and_output_dir() {
    let r = request(None);
    let ctx = r.context();
    assert_eq!(ctx.global_prefix, "Zine - ");
    assert_eq!(ctx.global_suffix, "");
    let mut r2 = request(None);
    r2.prefix = None;
    r2.suffix = Some("2024".to_string());
    assert_eq!(r2.context().global_prefix, "");
    assert_eq!(r2.context().global_suffix, " - 2024");
    assert!(r.has_output_dir());
    assert_eq!(r.output_dir(), "outputs/export");
    let mut r3 = request(None);
    r3.filename = "..".to_string();
    assert!(!r3.has_output_dir());
    r3.filename = String::new();
    assert!(!r3.has_output_dir());
}

#[test]
fn csv_table_is_read() {
    let t = Table::parse(b"Name,Front,Back\nAlice,https://x/a.png,\nBob,only\n");
    assert_eq!(t.headers.as_ref().unwrap(), &vec!["Name".to_string(), "Front".to_string(), "Back".to_string()]);
    assert_eq!(t.row_count(), 2);
    assert!(t.records[0].is_ok());
    assert!(t.records[1].is_err());
}

#[test]
fn csv_with_bad_header_bytes_has_no_header_row() {
    let t = Table::parse(b"Na\xffme,Front\nA,b\n");
    assert!(t.headers.is_err());
}

#[test]
fn field_takes_the_last_column_of_a_name() {
    let h = vec!["A".to_string(), "B".to_string(), "A".to_string()];
    let f = vec!["1".to_string(), "2".to_string(), "3".to_string()];
    assert_eq!(field(&h, &f, "A").as_deref(), Some("3"));
    assert_eq!(field(&h, &f, "B").as_deref(), Some("2"));
    assert_eq!(field(&h, &f, "C"), None);
}

#[test]
fn plan_builds_jobs_and_skips_empty_urls() {
    let t = Table::parse(b"Name,Front,Back,Page\nAlice,https://x/a.png,,3\n");
    let r = request(Some("Page"));
    let job = r.plan(&t, 0, 0, "outputs/export").ok().unwrap().unwrap();
    assert_eq!(job.url, "https://x/a.png");
    assert_eq!(job.column, "Front");
    assert_eq!(job.downloader.dir, "outputs/export");
    assert_eq!(job.downloader.base_name(), "Zine - Alice - 3 - F");
    assert_eq!(job.manual_download_message(), "Alice's file in column `Front` needs a manual download: https://x/a.png");
    assert!(r.plan(&t, 0, 1, "outputs/export").ok().unwrap().is_none());
}

#[test]
fn missing_columns_are_found_in_order() {
    let t = Table::parse(b"Name,Front\nAlice,https://x/a.png\n");
    assert_eq!(request(None).missing_column(&t, 0, 0), None);
    assert_eq!(request(None).missing_column(&t, 0, 1).as_deref(), Some("Back"));
    assert_eq!(request(Some("Page")).missing_column(&t, 0, 0).as_deref(), Some("Page"));
    let t2 = Table::parse(b"Who,Front\nAlice,u\n");
    assert_eq!(request(Some("Page")).missing_column(&t2, 0, 0).as_deref(), Some("Name"));
    let t3 = Table::parse(b"Name,Front\nAlice\n");
    assert_eq!(request(None).missing_column(&t3, 0, 1), None);
}

#[test]
fn plan_reports_unreadable_rows() {
    let t = Table::parse(b"Name,Front\nAlice\n");
    assert!(request(None).plan(&t, 0, 0, "o").is_err());
    let t2 = Table::parse(b"Na\xffme,Front\nA,b\n");
    assert!(request(None).plan(&t2, 0, 0, "o").is_err());
}

#[test]
fn unreadable_header_row_fails_each_row_as_a_map_read() {
    let t = Table::parse(b"Na\xffme,Front\nA,b\n");
    assert_eq!(t.row_count(), 1);
    let e = t.row_error(0).unwrap();
    let expected = csv::Reader::from_reader(&b"Na\xffme,Front\nA,b\n"[..])
        .deserialize::<std::collections::HashMap<String, String>>()
        .next()
        .unwrap()
        .unwrap_err()
        .to_string();
    assert_eq!(e, expected);
    assert_eq!(request(None).plan(&t, 0, 0, "o").err(), Some(expected));
}

#[test]
fn readable_rows_have_no_error() {
    let t = Table::parse(b"Name,Front\nAlice,u\nBob\n");
    assert_eq!(t.row_count(), 2);
    assert_eq!(t.row_error(0), None);
    assert!(t.row_error(1).is_some());
}
