use formatting_utils::registry::{Attempts, Downloadable, Downloadables, Step};
use formatting_utils::sources::{
    DirectoryEntry, DriveDirectory, DriveDocument, DriveFile, Dropbox, GenericFile,
};
use formatting_utils::downloader::{Downloader, DownloaderContext};

fn downloader(dir: &str) -> Downloader {
    Downloader {
        dir: dir.to_string(),
        ctx: DownloaderContext { global_prefix: String::new(), global_suffix: String::new() },
        extra_info: String::new(),
        creator: "Alice".to_string(),
        suffix: "Cover".to_string(),
    }
}

#[test]
fn drive_file_link_gives_its_id() {
    let id = DriveFile.matches("https://drive.google.com/file/d/1AbC_x-9/view?usp=sharing");
    assert_eq!(id.as_deref(), Some("1AbC_x-9"));
}

#[test]
fn drive_open_link_gives_its_id() {
    assert_eq!(DriveFile.matches("https://drive.google.com/open?id=XYZ").as_deref(), Some("XYZ"));
}

#[test]
fn drive_file_pattern_dot_is_any_character() {
    assert_eq!(DriveFile.matches("https://driveXgoogle.com/file/d/q").as_deref(), Some("q"));
}

#[test]
fn drive_file_takes_the_leftmost_match_and_the_longest_run() {
    let url = "see https://drive.google.com/file/d/a https://drive.google.com/file/d/b";
    assert_eq!(DriveFile.matches(url).as_deref(), Some("a https:"));
}

#[test]
fn drive_file_needs_a_non_empty_id() {
    assert_eq!(DriveFile.matches("https://drive.google.com/file/d//x"), None);
    assert_eq!(DriveFile.matches("https://drive.google.com/file/d/"), None);
    assert_eq!(DriveFile.matches("https://example.com/a.png"), None);
}

#[test]
fn drive_folder_link_gives_its_id() {
    let url = "https://drive.google.com/drive/folders/FOLDER42?usp=sharing";
    assert_eq!(DriveDirectory::new().matches(url).as_deref(), Some("FOLDER42"));
    assert_eq!(DriveDirectory::new().matches("https://drive.google.com/drive/folders/?x"), None);
}

#[test]
fn document_link_gives_its_id() {
    let url = "https://docs.google.com/document/d/DOC_1/edit";
    assert_eq!(DriveDocument.matches(url).as_deref(), Some("DOC_1"));
    assert_eq!(DriveDocument.matches("https://docs.google.com/spreadsheets/d/X"), None);
}

#[test]
fn dropbox_link_gives_its_path() {
    let url = "https://www.dropbox.com/scl/fi/xyz/a.png?rlkey=k&dl=0";
    assert_eq!(Dropbox.matches(url).as_deref(), Some("scl/fi/xyz/a.png?rlkey=k"));
    assert_eq!(Dropbox.matches("https://www.dropbox.com/s/abc/file.png?dl=0"), None);
}

#[test]
fn dropbox_capture_is_greedy() {
    let url = "https://www.dropbox.com/a&dl=0&dl=0";
    assert_eq!(Dropbox.matches(url).as_deref(), Some("a&dl=0"));
}

#[test]
fn dropbox_capture_stops_at_a_line_feed() {
    assert_eq!(Dropbox.matches("https://www.dropbox.com/a\nb&dl=0"), None);
}

#[test]
fn dropbox_download_url() {
    assert_eq!(Dropbox::download_url("s/abc/x.png"), "https://dl.dropbox.com/s/abc/x.png&dl=1");
}

#[test]
fn dropbox_attachment_names() {
    assert_eq!(Dropbox::attachment_name(None), "unknown.png");
    assert_eq!(
        Dropbox::attachment_name(Some("attachment; filename=\"photo.jpg\"; filename*=UTF-8''photo.jpg")),
        "photo.jpg"
    );
    assert_eq!(Dropbox::attachment_name(Some("inline; filename=plain.png")), "plain.png");
    assert_eq!(Dropbox::attachment_name(Some("inline")), "unknown.png");
    assert_eq!(Dropbox::attachment_name(Some("filename=")), "");
}

#[test]
fn dropbox_saved_name() {
    let d = downloader("out");
    assert_eq!(Dropbox::saved_name(&d, Some("attachment; filename=\"x.tif\"")), "Alice - Cover.tif");
    assert_eq!(Dropbox::saved_name(&d, None), "Alice - Cover.png");
}

#[test]
fn generic_files_by_extension() {
    for url in ["https://x.org/a.jpg", "https://x.org/a.png", "https://x.org/a.gif", "https://x.org/a.pdf", "https://x.org/a.tif"] {
        assert_eq!(GenericFile.matches(url).as_deref(), Some(url));
    }
    assert_eq!(GenericFile.matches("https://x.org/a.JPG"), None);
    assert_eq!(GenericFile.matches("https://x.org/a.jpeg"), None);
    assert_eq!(GenericFile.matches("jpg"), None);
}

#[test]
fn generic_file_saved_name_uses_url_extension() {
    let d = downloader("out");
    assert_eq!(GenericFile::saved_name(&d, "https://x.org/img/a.gif"), "Alice - Cover.gif");
}

#[test]
fn drive_file_saved_name() {
    let d = downloader("out");
    assert_eq!(DriveFile::saved_name(&d, Some("scan.pdf")), "Alice - Cover.pdf");
    assert_eq!(DriveFile::saved_name(&d, None), "Alice - Cover.png");
    assert_eq!(DriveFile::saved_name(&d, Some("noext")), "Alice - Cover.png");
}

#[test]
fn document_saved_as_rtf() {
    assert_eq!(DriveDocument::saved_name(&downloader("out")), "Alice - Cover.rtf");
}

#[test]
fn folder_listing_query() {
    assert_eq!(DriveDirectory::listing_query("abc"), "'abc' in parents");
}

#[test]
fn top_folder_gets_its_own_directory() {
    let d = downloader("outputs/export");
    let (target, create) = DriveDirectory::new().target(&d);
    assert!(create);
    assert_eq!(target.dir, "outputs/export/Alice - Cover");
    let (same, create) = DriveDirectory::inside().target(&d);
    assert!(!create);
    assert_eq!(same.dir, "outputs/export");
}

#[test]
fn folder_entries() {
    let d = downloader("out/Alice - Cover");
    match DriveDirectory::entry(&d, Some("id1"), Some("Sub"), Some("application/vnd.google-apps.folder")) {
        DirectoryEntry::Folder { id, downloader } => {
            assert_eq!(id, "id1");
            assert_eq!(downloader.dir, "out/Alice - Cover/Sub");
        }
        DirectoryEntry::File { .. } => panic!("expected a folder"),
    }
    match DriveDirectory::entry(&d, None, None, Some("image/png")) {
        DirectoryEntry::File { id, file_name } => {
            assert_eq!(id, "");
            assert_eq!(file_name, "unknown.png");
        }
        DirectoryEntry::Folder { .. } => panic!("expected a file"),
    }
    match DriveDirectory::entry(&d, Some("i"), Some("a.jpg"), None) {
        DirectoryEntry::File { file_name, .. } => assert_eq!(file_name, "a.jpg"),
        DirectoryEntry::Folder { .. } => panic!("expected a file"),
    }
}

#[test]
fn standard_registry_offers_urls_in_order() {
    let reg = Downloadables::standard();
    assert_eq!(reg.len(), 5);
    let c = reg.candidates("https://drive.google.com/file/d/a.png");
    let got: Vec<(usize, String)> = c.into_iter().map(|c| (c.index, c.id)).collect();
    assert_eq!(got, vec![(0, "a.png".to_string()), (4, "https://drive.google.com/file/d/a.png".to_string())]);
    assert!(matches!(reg.get(0), Downloadable::DriveFile(_)));
    assert!(matches!(reg.get(4), Downloadable::GenericFile(_)));
    assert!(reg.candidates("https://example.com/page.html").is_empty());
}

#[test]
fn registering_puts_a_source_last() {
    let mut reg = Downloadables::default();
    reg.register(Downloadable::GenericFile(GenericFile));
    reg.register(Downloadable::DriveFile(DriveFile));
    let c: Vec<usize> = reg.candidates("https://drive.google.com/file/d/x.jpg").into_iter().map(|c| c.index).collect();
    assert_eq!(c, vec![0, 1]);
    assert_eq!(Downloadables::default().len(), 0);
}

#[test]
fn attempts_stop_at_first_success() {
    let reg = Downloadables::standard();
    let mut a = Attempts::new(&reg, "https://drive.google.com/file/d/a.png");
    match a.next(false) {
        Step::Try(c) => assert_eq!((c.index, c.id.as_str()), (0, "a.png")),
        Step::Finished(_) => panic!("expected an attempt"),
    }
    assert!(matches!(a.next(true), Step::Finished(true)));
}

#[test]
fn attempts_try_every_candidate_then_give_up() {
    let reg = Downloadables::standard();
    let mut a = Attempts::new(&reg, "https://drive.google.com/file/d/a.png");
    assert!(matches!(a.next(false), Step::Try(ref c) if c.index == 0));
    assert!(matches!(a.next(false), Step::Try(ref c) if c.index == 4));
    assert!(matches!(a.next(false), Step::Finished(false)));
    let mut none = Attempts::new(&reg, "https://example.com/");
    assert!(matches!(none.next(false), Step::Finished(false)));
}
