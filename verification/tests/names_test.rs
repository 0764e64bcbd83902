use formatting_utils::downloader::{Downloader, DownloaderContext};
use formatting_utils::path::{extension, file_stem, join_path};

fn downloader() -> Downloader {
    Downloader {
        dir: "outputs/export".to_string(),
        ctx: DownloaderContext { global_prefix: "Zine - ".to_string(), global_suffix: " - 2024".to_string() },
        extra_info: " - Page 3".to_string(),
        creator: "Ann/Bo\\Cy".to_string(),
        suffix: "Cover".to_string(),
    }
}

#[test]
fn base_name_formats_and_replaces_separators() {
    assert_eq!(downloader().base_name(), "Zine - Ann_Bo_Cy - Page 3 - Cover - 2024");
}

#[test]
fn file_name_keeps_extension_or_uses_png() {
    let d = downloader();
    assert_eq!(d.file_name("photo.JPG"), "Zine - Ann_Bo_Cy - Page 3 - Cover - 2024.JPG");
    assert_eq!(d.file_name("README"), "Zine - Ann_Bo_Cy - Page 3 - Cover - 2024.png");
    assert_eq!(d.file_name("a.tar.gz"), "Zine - Ann_Bo_Cy - Page 3 - Cover - 2024.gz");
}

#[test]
fn saved_name_extension_reads_back() {
    let d = downloader();
    let name = d.file_name("https://host/x/photo.gif");
    assert_eq!(extension(&name).as_deref(), Some("gif"));
}

#[test]
fn subdir_changes_only_the_directory() {
    let d = downloader();
    let s = d.subdir("Folder");
    assert_eq!(s.dir, "outputs/export/Folder");
    assert_eq!(s.base_name(), d.base_name());
    assert_eq!(d.subdir("/abs").dir, "/abs");
}

#[test]
fn save_path_joins_directory_and_name() {
    assert_eq!(downloader().save_path("a.png"), "outputs/export/a.png");
}

#[test]
fn extensions_follow_path_rules() {
    assert_eq!(extension("a/b.tar.gz").as_deref(), Some("gz"));
    assert_eq!(extension(".bashrc"), None);
    assert_eq!(extension("a.").as_deref(), Some(""));
    assert_eq!(extension("dir.d/file"), None);
    assert_eq!(extension("x.png/"), Some("png".to_string()));
    assert_eq!(extension("x.png/."), Some("png".to_string()));
    assert_eq!(extension("a/.."), None);
    assert_eq!(extension(""), None);
    assert_eq!(extension("https://example.com/img/b.jpg").as_deref(), Some("jpg"));
}

#[test]
fn stems_follow_path_rules() {
    assert_eq!(file_stem("data/export.csv").as_deref(), Some("export"));
    assert_eq!(file_stem("a.b.c").as_deref(), Some("a.b"));
    assert_eq!(file_stem(".hidden").as_deref(), Some(".hidden"));
    assert_eq!(file_stem("plain").as_deref(), Some("plain"));
    assert_eq!(file_stem(".."), None);
    assert_eq!(file_stem("/"), None);
}

#[test]
fn joins_follow_path_rules() {
    assert_eq!(join_path("", "outputs"), "outputs");
    assert_eq!(join_path("outputs", "x"), "outputs/x");
    assert_eq!(join_path("outputs/", "x"), "outputs/x");
    assert_eq!(join_path("outputs", "/x"), "/x");
    assert_eq!(join_path("outputs", ""), "outputs/");
}
