//! The places that files are downloaded from: which URLs each one serves, and
//! the decisions each one makes around its transfers.
use vstd::prelude::*;
use crate::downloader::{base_name_of, file_name_of_download, Downloader, DownloaderView};
use crate::path::join;
use crate::pattern::{
    lemma_plus_capture_shape, capture_greedy, capture_plus, capture_quoted, greedy_capture, opt_view, plus_capture,
    quoted_capture,
};
use crate::text::{chars_of, concat3, copy_str, str_ends_with, str_eq, ends_with};

verus! {

/// A file on Google Drive.
pub struct DriveFile;

/// A folder on Google Drive; `nested` when it lies inside a folder being downloaded.
pub struct DriveDirectory {
    pub nested: bool,
}

/// A document on Google Docs, downloaded as RTF.
pub struct DriveDocument;

/// A file shared on Dropbox.
pub struct Dropbox;

/// Any other URL of an image or PDF.
pub struct GenericFile;

/// The id of a Drive file in `url`:
/// `https://drive.google.com/file/d/([^/]+).*`, else
/// `https://drive.google.com/open\?id=([^/]+).*`.
pub open spec fn drive_file_id(url: Seq<char>) -> Option<Seq<char>> {
    match plus_capture(url, "https://drive.google.com/file/d/"@, "/"@) {
        Some(id) => Some(id),
        None => plus_capture(url, "https://drive.google.com/open?id="@, "/"@),
    }
}

/// The id of a Drive folder in `url`:
/// `https://drive.google.com/drive/folders/([^/?]+).*`.
pub open spec fn drive_directory_id(url: Seq<char>) -> Option<Seq<char>> {
    plus_capture(url, "https://drive.google.com/drive/folders/"@, "/?"@)
}

/// The id of a Google document in `url`:
/// `https://docs.google.com/document/d/([^/?]+).*`.
pub open spec fn drive_document_id(url: Seq<char>) -> Option<Seq<char>> {
    plus_capture(url, "https://docs.google.com/document/d/"@, "/?"@)
}

/// The shared path of a Dropbox file in `url`: `https://www.dropbox.com/(.*)&dl=0`.
pub open spec fn dropbox_path(url: Seq<char>) -> Option<Seq<char>> {
    greedy_capture(url, "https://www.dropbox.com/"@, "&dl=0"@)
}

/// Whether `url` ends with one of the extensions fetched directly.
pub open spec fn is_generic_file(url: Seq<char>) -> bool {
    ||| ends_with(url, ".jpg"@)
    ||| ends_with(url, ".png"@)
    ||| ends_with(url, ".gif"@)
    ||| ends_with(url, ".pdf"@)
    ||| ends_with(url, ".tif"@)
}

/// The content disposition assumed when a Dropbox response has none.
pub open spec fn default_disposition() -> Seq<char> {
    "attachment; filename=\"unknown.png\""@
}

/// The name that a Dropbox response gives its file: what follows `filename=`
/// (and an optional quote) up to the next quote, in the content disposition, or
/// in the default one when there is none; `unknown.png` when it names none.
pub open spec fn attachment_name_of(disposition: Option<Seq<char>>) -> Seq<char> {
    let header = match disposition {
        Some(d) => d,
        None => default_disposition(),
    };
    match quoted_capture(header, "filename="@) {
        Some(name) => name,
        None => "unknown.png"@,
    }
}

/// The name given to a file of a Drive listing that has none.
pub open spec fn unnamed() -> Seq<char> {
    "unknown.png"@
}

impl DriveFile {
    /// The id of the Drive file that `url` links to.
    pub fn matches(&self, url: &str) -> (res: Option<String>)
        ensures
            opt_view(res) == drive_file_id(url@),
    {
        let text = chars_of(url);
        let slash = chars_of("/");
        match capture_plus(&text, &chars_of("https://drive.google.com/file/d/"), &slash) {
            Some(id) => Some(id),
            None => capture_plus(&text, &chars_of("https://drive.google.com/open?id="), &slash),
        }
    }

    /// The name that a Drive file is saved under, given the name Drive reports for it.
    pub fn saved_name(downloader: &Downloader, name: Option<&str>) -> (res: String)
        ensures
            res@ == file_name_of_download(
                downloader@,
                match name {
                    Some(n) => n@,
                    None => unnamed(),
                },
            ),
    {
        match name {
            Some(n) => downloader.file_name(n),
            None => downloader.file_name("unknown.png"),
        }
    }
}

/// What to do with one entry of a Drive folder listing.
pub enum DirectoryEntry {
    /// Download the folder with `id` into the downloader's directory.
    Folder { id: String, downloader: Downloader },
    /// Download the file with `id` and save it as `file_name` in the target's directory.
    File { id: String, file_name: String },
}

impl DriveDirectory {
    /// A folder as a link names it, not inside another one.
    pub fn new() -> (res: DriveDirectory)
        ensures
            !res.nested,
    {
        DriveDirectory { nested: false }
    }

    /// A folder found inside a folder being downloaded.
    pub fn inside() -> (res: DriveDirectory)
        ensures
            res.nested,
    {
        DriveDirectory { nested: true }
    }

    /// The id of the Drive folder that `url` links to.
    pub fn matches(&self, url: &str) -> (res: Option<String>)
        ensures
            opt_view(res) == drive_directory_id(url@),
    {
        capture_plus(
            &chars_of(url),
            &chars_of("https://drive.google.com/drive/folders/"),
            &chars_of("/?"),
        )
    }

    /// The query that lists the folder with `id`.
    pub fn listing_query(id: &str) -> (res: String)
        ensures
            res@ == "'"@ + id@ + "' in parents"@,
    {
        concat3("'", id, "' in parents")
    }

    /// Where the entries of this folder go, and whether that directory is to be
    /// created first: a folder linked directly gets a directory of its own,
    /// named by the base name; a nested one fills the directory it is given.
    pub fn target(&self, downloader: &Downloader) -> (res: (Downloader, bool))
        ensures
            res.1 == !self.nested,
            !self.nested ==> res.0@ == (DownloaderView {
                dir: join(downloader@.dir, base_name_of(downloader@)),
                ..downloader@
            }),
            self.nested ==> res.0@ == downloader@,
    {
        if !self.nested {
            let name = downloader.base_name();
            (downloader.subdir(name.as_str()), true)
        } else {
            (downloader.duplicate(), false)
        }
    }

    /// What to do with an entry of the folder listing, downloaded into `target`:
    /// a folder is downloaded into a directory of its name, any other file is
    /// saved under its own name.  A missing id reads as empty, a missing name
    /// as `unknown.png`.
    pub fn entry(target: &Downloader, id: Option<&str>, name: Option<&str>, mime_type: Option<&str>) -> (res: DirectoryEntry)
        ensures
            ({
                let id_v = match id {
                    Some(i) => i@,
                    None => Seq::<char>::empty(),
                };
                let name_v = match name {
                    Some(n) => n@,
                    None => unnamed(),
                };
                let is_folder = match mime_type {
                    Some(m) => m@ == "application/vnd.google-apps.folder"@,
                    None => false,
                };
                match res {
                    DirectoryEntry::Folder { id, downloader } => is_folder && id@ == id_v
                        && downloader@ == (DownloaderView { dir: join(target@.dir, name_v), ..target@ }),
                    DirectoryEntry::File { id, file_name } => !is_folder && id@ == id_v
                        && file_name@ == name_v,
                }
            }),
    {
        let id_s = match id {
            Some(i) => copy_str(i),
            None => String::new(),
        };
        let name_s = match name {
            Some(n) => copy_str(n),
            None => copy_str("unknown.png"),
        };
        let is_folder = match mime_type {
            Some(m) => str_eq(m, "application/vnd.google-apps.folder"),
            None => false,
        };
        if is_folder {
            DirectoryEntry::Folder { id: id_s, downloader: target.subdir(name_s.as_str()) }
        } else {
            DirectoryEntry::File { id: id_s, file_name: name_s }
        }
    }
}

/// What to do next in a folder listing.
pub enum WalkStep {
    /// Download the entry at this position of the listing.
    Entry(usize),
    /// Stop: every entry was downloaded.
    Finished,
    /// Stop: the last entry failed, and so does the folder.
    Failed,
}

/// The walk through the entries of one folder listing.
pub struct EntryWalk {
    pub count: usize,
    pub next: usize,
}

impl EntryWalk {
    /// A walk through `count` entries, none taken yet.
    pub fn new(count: usize) -> (res: EntryWalk)
        ensures
            res.count == count,
            res.next == 0,
    {
        EntryWalk { count, next: 0 }
    }

    /// The next step, told whether the last entry succeeded (`true` before
    /// the first): after a failure, stop with `Failed`; else take the next
    /// entry in listing order, or finish when all were taken.
    pub fn step(&mut self, last_ok: bool) -> (res: WalkStep)
        ensures
            final(self).count == old(self).count,
            match res {
                WalkStep::Failed => !last_ok && final(self).next == old(self).next,
                WalkStep::Finished => last_ok && old(self).next >= old(self).count
                    && final(self).next == old(self).next,
                WalkStep::Entry(i) => last_ok && i == old(self).next && i < old(self).count
                    && final(self).next == i + 1,
            },
    {
        if !last_ok {
            return WalkStep::Failed;
        }
        if self.next >= self.count {
            return WalkStep::Finished;
        }
        let i = self.next;
        self.next = i + 1;
        WalkStep::Entry(i)
    }
}

impl DriveDocument {
    /// The id of the Google document that `url` links to.
    pub fn matches(&self, url: &str) -> (res: Option<String>)
        ensures
            opt_view(res) == drive_document_id(url@),
    {
        capture_plus(
            &chars_of(url),
            &chars_of("https://docs.google.com/document/d/"),
            &chars_of("/?"),
        )
    }

    /// The name that an exported document is saved under.
    pub fn saved_name(downloader: &Downloader) -> (res: String)
        ensures
            res@ == file_name_of_download(downloader@, "file.rtf"@),
    {
        downloader.file_name("file.rtf")
    }
}

impl Dropbox {
    /// The shared path of the Dropbox file that `url` links to.
    pub fn matches(&self, url: &str) -> (res: Option<String>)
        ensures
            opt_view(res) == dropbox_path(url@),
    {
        capture_greedy(&chars_of(url), &chars_of("https://www.dropbox.com/"), &chars_of("&dl=0"))
    }

    /// The URL that downloads the shared file at `path`.
    pub fn download_url(path: &str) -> (res: String)
        ensures
            res@ == "https://dl.dropbox.com/"@ + path@ + "&dl=1"@,
    {
        concat3("https://dl.dropbox.com/", path, "&dl=1")
    }

    /// The file name that a response names in its content disposition.
    pub fn attachment_name(disposition: Option<&str>) -> (res: String)
        ensures
            res@ == attachment_name_of(
                match disposition {
                    Some(d) => Some(d@),
                    None => None,
                },
            ),
    {
        let header = match disposition {
            Some(d) => chars_of(d),
            None => chars_of("attachment; filename=\"unknown.png\""),
        };
        match capture_quoted(&header, &chars_of("filename=")) {
            Some(name) => name,
            None => copy_str("unknown.png"),
        }
    }

    /// The name that a Dropbox file is saved under, given the content
    /// disposition of its response.
    pub fn saved_name(downloader: &Downloader, disposition: Option<&str>) -> (res: String)
        ensures
            res@ == file_name_of_download(
                downloader@,
                attachment_name_of(
                    match disposition {
                        Some(d) => Some(d@),
                        None => None,
                    },
                ),
            ),
    {
        let name = Dropbox::attachment_name(disposition);
        downloader.file_name(name.as_str())
    }
}

impl GenericFile {
    /// `url` itself, when it ends with `.jpg`, `.png`, `.gif`, `.pdf` or `.tif`.
    pub fn matches(&self, url: &str) -> (res: Option<String>)
        ensures
            opt_view(res) == (if is_generic_file(url@) {
                Some(url@)
            } else {
                None
            }),
    {
        if str_ends_with(url, ".jpg") || str_ends_with(url, ".png") || str_ends_with(url, ".gif")
            || str_ends_with(url, ".pdf") || str_ends_with(url, ".tif") {
            Some(copy_str(url))
        } else {
            None
        }
    }

    /// The name that a file fetched from `url` is saved under.
    pub fn saved_name(downloader: &Downloader, url: &str) -> (res: String)
        ensures
            res@ == file_name_of_download(downloader@, url@),
    {
        downloader.file_name(url)
    }
}

/// A Drive id read from a URL is never empty and never holds a `/`; a folder
/// or document id holds no `?` either.
pub proof fn lemma_drive_ids_are_single_components(url: Seq<char>)
    ensures
        drive_file_id(url) matches Some(id) ==> id.len() > 0 && forall|k: int|
            0 <= k < id.len() ==> #[trigger] id[k] != '/',
        drive_directory_id(url) matches Some(id) ==> id.len() > 0 && forall|k: int|
            0 <= k < id.len() ==> #[trigger] id[k] != '/' && id[k] != '?',
        drive_document_id(url) matches Some(id) ==> id.len() > 0 && forall|k: int|
            0 <= k < id.len() ==> #[trigger] id[k] != '/' && id[k] != '?',
{
    reveal_strlit("/");
    reveal_strlit("/?");
    assert("/"@[0] == '/');
    assert("/?"@[0] == '/' && "/?"@[1] == '?');
    lemma_plus_capture_shape(url, "https://drive.google.com/file/d/"@, "/"@);
    lemma_plus_capture_shape(url, "https://drive.google.com/open?id="@, "/"@);
    lemma_plus_capture_shape(url, "https://drive.google.com/drive/folders/"@, "/?"@);
    lemma_plus_capture_shape(url, "https://docs.google.com/document/d/"@, "/?"@);
}

} // verus!
