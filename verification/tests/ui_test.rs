use formatting_utils::hub::{flow_method, token_cache_file, FlowMethod};
use formatting_utils::ui::{download_in_progress, Ui};

#[test]
fn new_form_keeps_token_cache() {
    let ui = Ui::from_token_cache(Some("cache.json".to_string()));
    assert_eq!(ui.token_cache.as_deref(), Some("cache.json"));
    assert!(ui.filename.is_none() && ui.image_columns.is_empty() && !ui.can_download());
}

#[test]
fn image_columns_are_added_and_removed() {
    let mut ui = Ui::default();
    assert!(!ui.can_add_image_column());
    assert!(!ui.add_image_column());
    ui.new_image_column.column = Some("Front".to_string());
    assert!(!ui.can_add_image_column());
    ui.new_image_column.suffix = "F".to_string();
    assert!(ui.add_image_column());
    assert_eq!(ui.image_columns.len(), 1);
    assert_eq!(ui.image_columns[0].column, "Front");
    assert!(ui.new_image_column.column.is_none() && ui.new_image_column.suffix.is_empty());
    ui.remove_image_column(0);
    assert!(ui.image_columns.is_empty());
}

#[test]
fn download_starts_only_when_ready_and_clears_form() {
    let mut ui = Ui::from_token_cache(Some("t.json".to_string()));
    assert!(ui.start_download().is_none());
    ui.open_file("data/export.csv".to_string());
    ui.creator_column = Some("Name".to_string());
    assert!(ui.start_download().is_none());
    ui.new_image_column.column = Some("Front".to_string());
    ui.new_image_column.suffix = "F".to_string();
    ui.add_image_column();
    assert!(ui.can_download());
    let (job, cache) = ui.start_download().unwrap();
    assert_eq!(job.filename, "data/export.csv");
    assert_eq!(job.creator_column, "Name");
    assert_eq!(job.image_column.len(), 1);
    assert!(job.prefix.is_none() && job.suffix.is_none());
    assert_eq!(cache.as_deref(), Some("t.json"));
    assert!(ui.filename.is_none() && ui.token_cache.is_none() && ui.image_columns.is_empty());
}

#[test]
fn column_selector_choices() {
    let headers = vec!["A".to_string(), "B".to_string()];
    let c = Ui::column_choices(&headers, "- column -");
    assert_eq!(c, vec![(None, "- column -".to_string()), (Some("A".to_string()), "A".to_string()), (Some("B".to_string()), "B".to_string())]);
    assert_eq!(Ui::selected_text(&None, "- creator -"), "- creator -");
    assert_eq!(Ui::selected_text(&Some("Name".to_string()), "- creator -"), "Name");
}

#[test]
fn progress_shows_until_last_row() {
    assert!(download_in_progress(0, 2));
    assert!(download_in_progress(1, 2));
    assert!(!download_in_progress(2, 2));
    assert!(!download_in_progress(0, 0));
}

#[test]
fn drive_connection_choices() {
    assert_eq!(token_cache_file(None), "tokencache.json");
    assert_eq!(token_cache_file(Some("x.json")), "x.json");
    assert_eq!(flow_method(true), FlowMethod::Interactive);
    assert_eq!(flow_method(false), FlowMethod::HttpRedirect);
}
