use formatting_utils::images::{DownloadImages, ImageColumn};
use formatting_utils::run::{Run, RunAction};
use formatting_utils::sources::{EntryWalk, WalkStep};
use formatting_utils::table::Table;

fn request() -> DownloadImages {
    DownloadImages {
        creator_column: "Name".to_string(),
        extra_info_column: None,
        image_column: vec![
            ImageColumn { column: "Front".to_string(), suffix: "F".to_string() },
            ImageColumn { column: "Back".to_string(), suffix: "B".to_string() },
        ],
        prefix: None,
        suffix: None,
        filename: "export.csv".to_string(),
    }
}

/// Runs to the end, failing every download; a trace of the actions.
fn trace(table: &Table) -> Vec<String> {
    let req = request();
    let mut run = Run::new();
    let mut out = Vec::new();
    for _ in 0..100 {
        match run.next(&req, table, "out", false) {
            RunAction::Progress(d, t) => out.push(format!("progress {d}/{t}")),
            RunAction::Fail(_) => {
                out.push("fail".to_string());
                break;
            }
            RunAction::MissingColumn(c) => {
                out.push(format!("missing {c}"));
                break;
            }
            RunAction::Download(j) => out.push(format!("download {}", j.url)),
            RunAction::Notice(m) => out.push(format!("notice {m}")),
            RunAction::Continue => {}
            RunAction::Done => {
                out.push("done".to_string());
                break;
            }
        }
    }
    out
}

#[test]
fn run_reports_rows_and_offers_each_non_empty_cell_in_order() {
    let t = Table::parse(b"Name,Front,Back\nA,u1,\nB,u2,u3\n");
    assert_eq!(
        trace(&t),
        vec![
            "progress 0/2",
            "progress 1/2",
            "download u1",
            "notice A's file in column `Front` needs a manual download: u1",
            "progress 2/2",
            "download u2",
            "notice B's file in column `Front` needs a manual download: u2",
            "download u3",
            "notice B's file in column `Back` needs a manual download: u3",
            "done",
        ]
    );
}

#[test]
fn run_stops_at_first_unreadable_row() {
    let t = Table::parse(b"Name,Front,Back\nA,,\nB\nC,u,v\n");
    assert_eq!(trace(&t), vec!["progress 0/3", "progress 1/3", "progress 2/3", "fail"]);
}

#[test]
fn run_stops_on_missing_column() {
    let t = Table::parse(b"Name,Front\nA,u\n");
    assert_eq!(
        trace(&t),
        vec![
            "progress 0/1",
            "progress 1/1",
            "download u",
            "notice A's file in column `Front` needs a manual download: u",
            "missing Back",
        ]
    );
}

#[test]
fn successful_downloads_print_nothing() {
    let t = Table::parse(b"Name,Front,Back\nA,u1,u2\n");
    let req = request();
    let mut run = Run::new();
    let mut actions = Vec::new();
    for _ in 0..20 {
        match run.next(&req, &t, "out", true) {
            RunAction::Download(j) => actions.push(j.url),
            RunAction::Notice(_) => panic!("no notice after a success"),
            RunAction::Done => break,
            _ => {}
        }
    }
    assert_eq!(actions, vec!["u1".to_string(), "u2".to_string()]);
}

#[test]
fn empty_export_is_done_at_once() {
    let t = Table::parse(b"Name,Front,Back\n");
    assert_eq!(trace(&t), vec!["progress 0/0", "done"]);
}

#[test]
fn folder_walk_stops_at_first_failure() {
    let mut w = EntryWalk::new(3);
    assert!(matches!(w.step(true), WalkStep::Entry(0)));
    assert!(matches!(w.step(true), WalkStep::Entry(1)));
    assert!(matches!(w.step(false), WalkStep::Failed));
    let mut w = EntryWalk::new(1);
    assert!(matches!(w.step(true), WalkStep::Entry(0)));
    assert!(matches!(w.step(true), WalkStep::Finished));
    assert!(matches!(EntryWalk::new(0).step(true), WalkStep::Finished));
}
