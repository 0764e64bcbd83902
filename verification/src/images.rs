//! What a download run is asked to do, and the job it plans for each row and
//! image column of the export.
use vstd::prelude::*;
use crate::downloader::{base_name_of, sanitize, Downloader, DownloaderContext, DownloaderView};
use crate::path::{file_stem, join, join_path, path_stem};
use crate::table::{field, lookup, well_formed, Table, TableView};
use crate::text::{chars_of, concat2, copy_str, string_from};

verus! {

/// A column of the export that holds image URLs, and the suffix that names
/// the files downloaded from it.
#[derive(Clone, Debug)]
pub struct ImageColumn {
    pub column: String,
    pub suffix: String,
}

/// An image column argument that is not of the form `column:suffix`.
#[derive(Clone, Debug)]
pub struct ImageColumnError {
    pub input: String,
}

impl ImageColumnError {
    /// `Invalid format for image column: {input}`.
    pub fn message(&self) -> (res: String)
        ensures
            res@ == "Invalid format for image column: "@ + self.input@,
    {
        concat2("Invalid format for image column: ", self.input.as_str())
    }
}

/// Position of the first `sep` in `s`, searching from `from`.
pub open spec fn first_index_from(s: Seq<char>, sep: char, from: int) -> Option<int>
    decreases s.len() - from,
{
    if from < 0 || from >= s.len() {
        None
    } else if s[from] == sep {
        Some(from)
    } else {
        first_index_from(s, sep, from + 1)
    }
}

/// `s` split at its first `sep`: what precedes it and what follows it.
pub open spec fn split_once(s: Seq<char>, sep: char) -> Option<(Seq<char>, Seq<char>)> {
    match first_index_from(s, sep, 0) {
        Some(k) => Some((s.subrange(0, k), s.subrange(k + 1, s.len() as int))),
        None => None,
    }
}

/// Reads an image column argument `column:suffix`, split at its first `:`.
pub fn parse_image_column(c: &str) -> (res: Result<ImageColumn, ImageColumnError>)
    ensures
        match res {
            Ok(col) => split_once(c@, ':') == Some((col.column@, col.suffix@)),
            Err(e) => split_once(c@, ':') is None && e.input@ == c@,
        },
{
    let cs = chars_of(c);
    let mut k: usize = 0;
    while k < cs.len()
        invariant
            k <= cs@.len(),
            cs@ == c@,
            first_index_from(c@, ':', 0) == first_index_from(c@, ':', k as int),
        decreases cs.len() - k,
    {
        if cs[k] == ':' {
            return Ok(
                ImageColumn {
                    column: string_from(&cs, 0, k),
                    suffix: string_from(&cs, k + 1, cs.len()),
                },
            );
        }
        k += 1;
    }
    Err(ImageColumnError { input: copy_str(c) })
}

/// A column name and suffix that holds no `:` in its name reads back as itself.
pub proof fn lemma_image_column_roundtrip(column: Seq<char>, suffix: Seq<char>)
    requires
        !column.contains(':'),
    ensures
        split_once(column + seq![':'] + suffix, ':') == Some((column, suffix)),
{
    let s = column + seq![':'] + suffix;
    lemma_first_index_skips(s, ':', 0, column.len() as int);
    assert(s[column.len() as int] == ':');
    assert(s.subrange(0, column.len() as int) =~= column);
    assert(s.subrange(column.len() as int + 1, s.len() as int) =~= suffix);
}

proof fn lemma_first_index_skips(s: Seq<char>, sep: char, from: int, to: int)
    requires
        0 <= from <= to < s.len(),
        s[to] == sep,
        forall|i: int| from <= i < to ==> s[i] != sep,
    ensures
        first_index_from(s, sep, from) == Some(to),
    decreases to - from,
{
    if from < to {
        lemma_first_index_skips(s, sep, from + 1, to);
    }
}

/// What a download run is asked to do.
pub struct DownloadImages {
    /// The column that names the creator of each row.
    pub creator_column: String,
    /// A column whose value is added to every file name, if any.
    pub extra_info_column: Option<String>,
    /// The columns that hold image URLs.
    pub image_column: Vec<ImageColumn>,
    /// Text put before every file name, if any.
    pub prefix: Option<String>,
    /// Text put after every file name, if any.
    pub suffix: Option<String>,
    /// The path of the CSV export.
    pub filename: String,
}

/// The text put before every file name: `{prefix} - `, or nothing.
pub open spec fn global_prefix_of(prefix: Option<Seq<char>>) -> Seq<char> {
    match prefix {
        Some(p) => p + " - "@,
        None => Seq::empty(),
    }
}

/// The text put after every file name: ` - {suffix}`, or nothing.
pub open spec fn global_suffix_of(suffix: Option<Seq<char>>) -> Seq<char> {
    match suffix {
        Some(s) => " - "@ + s,
        None => Seq::empty(),
    }
}

/// The model of an optional string.
pub open spec fn opt_chars(o: Option<String>) -> Option<Seq<char>> {
    match o {
        Some(s) => Some(s@),
        None => None,
    }
}

/// What a planned job is: the image column, the URL, and where its file goes.
pub struct JobView {
    pub column: Seq<char>,
    pub url: Seq<char>,
    pub downloader: DownloaderView,
}

/// One file to download.
pub struct Job {
    /// The image column the URL was found in.
    pub column: String,
    pub url: String,
    pub downloader: Downloader,
}

impl View for Job {
    type V = JobView;

    open spec fn view(&self) -> JobView {
        JobView { column: self.column@, url: self.url@, downloader: self.downloader@ }
    }
}

/// `{creator}'s file in column `{column}` needs a manual download: {url}`.
pub open spec fn manual_message_of(j: JobView) -> Seq<char> {
    j.downloader.creator + "'s file in column `"@ + j.column + "` needs a manual download: "@ + j.url
}

/// The model of what `plan` returns.
pub open spec fn plan_view(r: Result<Option<Job>, String>) -> Result<Option<JobView>, Seq<char>> {
    match r {
        Ok(Some(j)) => Ok(Some(j@)),
        Ok(None) => Ok(None),
        Err(e) => Err(e@),
    }
}

/// The first of the columns a job reads (the creator column, the image
/// column, then the extra information column) that the row has no value
/// for, if any.
pub open spec fn first_missing(
    names: Seq<Seq<char>>,
    fields: Seq<Seq<char>>,
    creator_column: Seq<char>,
    extra_info_column: Option<Seq<char>>,
    column: Seq<char>,
) -> Option<Seq<char>> {
    if lookup(names, fields, creator_column) is None {
        Some(creator_column)
    } else if lookup(names, fields, column) is None {
        Some(column)
    } else {
        match extra_info_column {
            Some(c) => if lookup(names, fields, c) is None {
                Some(c)
            } else {
                None
            },
            None => None,
        }
    }
}

/// The job for one record of an export and one image column, given the
/// header row and the record's fields: no job when the URL is empty; else the
/// URL, in a downloader at `dir` named after the creator, the extra
/// information (` - {value}`) and the column's suffix.
pub open spec fn job_for(
    names: Seq<Seq<char>>,
    fields: Seq<Seq<char>>,
    creator_column: Seq<char>,
    extra_info_column: Option<Seq<char>>,
    column: Seq<char>,
    suffix: Seq<char>,
    prefix: Option<Seq<char>>,
    global_suffix: Option<Seq<char>>,
    dir: Seq<char>,
) -> Option<JobView> {
    let creator = lookup(names, fields, creator_column)->0;
    let url = lookup(names, fields, column)->0;
    let extra_info = match extra_info_column {
        Some(c) => " - "@ + lookup(names, fields, c)->0,
        None => Seq::empty(),
    };
    if url.len() == 0 {
        None
    } else {
        Some(
            JobView {
                column,
                url,
                downloader: DownloaderView {
                    dir,
                    global_prefix: global_prefix_of(prefix),
                    global_suffix: global_suffix_of(global_suffix),
                    extra_info,
                    creator,
                    suffix,
                },
            },
        )
    }
}

/// The first column that image column `column` of `request` needs and
/// record `row` of `table` lacks, when the record reads as a map.
pub open spec fn cell_missing(request: DownloadImages, table: TableView, row: int, column: int) -> Option<Seq<char>> {
    if table.row_errors[row] is None {
        first_missing(
            table.headers->Ok_0,
            table.records[row]->Ok_0,
            request.creator_column@,
            opt_chars(request.extra_info_column),
            request.image_column@[column].column@,
        )
    } else {
        None
    }
}

/// The job for record `row` of `table` and image column `column` of
/// `request`, with its files going to `dir`.
pub open spec fn cell_job(request: DownloadImages, table: TableView, row: int, column: int, dir: Seq<char>) -> Option<JobView> {
    job_for(
        table.headers->Ok_0,
        table.records[row]->Ok_0,
        request.creator_column@,
        opt_chars(request.extra_info_column),
        request.image_column@[column].column@,
        request.image_column@[column].suffix@,
        opt_chars(request.prefix),
        opt_chars(request.suffix),
        dir,
    )
}

impl DownloadImages {
    /// The texts put before and after every file name.
    pub fn context(&self) -> (res: DownloaderContext)
        ensures
            res.global_prefix@ == global_prefix_of(opt_chars(self.prefix)),
            res.global_suffix@ == global_suffix_of(opt_chars(self.suffix)),
    {
        let global_prefix = match &self.prefix {
            Some(p) => concat2(p.as_str(), " - "),
            None => String::new(),
        };
        let global_suffix = match &self.suffix {
            Some(s) => concat2(" - ", s.as_str()),
            None => String::new(),
        };
        DownloaderContext { global_prefix, global_suffix }
    }

    /// Whether the export's path names a file, whose stem names the output directory.
    pub fn has_output_dir(&self) -> (res: bool)
        ensures
            res == (path_stem(self.filename@) is Some),
    {
        file_stem(self.filename.as_str()).is_some()
    }

    /// The directory that the files go to: `outputs/{stem of the export's
    /// file name}`.
    pub fn output_dir(&self) -> (res: String)
        requires
            path_stem(self.filename@) is Some,
        ensures
            res@ == join("outputs"@, path_stem(self.filename@)->0),
    {
        match file_stem(self.filename.as_str()) {
            Some(stem) => join_path("outputs", stem.as_str()),
            None => String::new(),
        }
    }

    /// The first column that a job for record `row` and image column `column`
    /// reads and the row lacks (creator column, image column, extra
    /// information column, in that order), when the record reads as a map;
    /// `None` when there is none or it does not.
    pub fn missing_column(&self, table: &Table, row: usize, column: usize) -> (res: Option<String>)
        requires
            well_formed(table@),
            row < table@.row_errors.len(),
            column < self.image_column@.len(),
        ensures
            opt_chars(res) == cell_missing(*self, table@, row as int, column as int),
    {
        if table.row_errors[row].is_some() {
            return None;
        }
        let image = &self.image_column[column];
        let fields = match &table.records[row] {
            Err(_) => {
                return None;
            },
            Ok(f) => f,
        };
        let names = match &table.headers {
            Err(_) => {
                return None;
            },
            Ok(h) => h,
        };
        if field(names, fields, self.creator_column.as_str()).is_none() {
            return Some(copy_str(self.creator_column.as_str()));
        }
        if field(names, fields, image.column.as_str()).is_none() {
            return Some(copy_str(image.column.as_str()));
        }
        match &self.extra_info_column {
            Some(c) => if field(names, fields, c.as_str()).is_none() {
                Some(copy_str(c.as_str()))
            } else {
                None
            },
            None => None,
        }
    }

    /// The job for record `row` of `table` and image column `column`, with
    /// its files going to `dir`: the record's map-read error when it has one;
    /// else no job for an empty URL, or the job.  The row must have every
    /// column a job reads.
    pub fn plan(&self, table: &Table, row: usize, column: usize, dir: &str) -> (res: Result<
        Option<Job>,
        String,
    >)
        requires
            well_formed(table@),
            row < table@.row_errors.len(),
            column < self.image_column@.len(),
            cell_missing(*self, table@, row as int, column as int) is None,
        ensures
            plan_view(res) == match table@.row_errors[row as int] {
                Some(e) => Err(e),
                None => Ok(cell_job(*self, table@, row as int, column as int, dir@)),
            },
    {
        if let Some(e) = &table.row_errors[row] {
            return Err(copy_str(e.as_str()));
        }
        let image = &self.image_column[column];
        let fields = match &table.records[row] {
            Err(e) => {
                return Err(copy_str(e.as_str()));
            },
            Ok(f) => f,
        };
        let names = match &table.headers {
            Err(e) => {
                return Err(copy_str(e.as_str()));
            },
            Ok(h) => h,
        };
        let creator = match field(names, fields, self.creator_column.as_str()) {
            Some(v) => v,
            None => String::new(),
        };
        let url = match field(names, fields, image.column.as_str()) {
            Some(v) => v,
            None => String::new(),
        };
        let extra_info = match &self.extra_info_column {
            Some(c) => match field(names, fields, c.as_str()) {
                Some(v) => concat2(" - ", v.as_str()),
                None => String::new(),
            },
            None => String::new(),
        };
        if url.as_str().is_empty() {
            return Ok(None);
        }
        Ok(
            Some(
                Job {
                    column: copy_str(image.column.as_str()),
                    url,
                    downloader: Downloader {
                        dir: copy_str(dir),
                        ctx: self.context(),
                        extra_info,
                        creator,
                        suffix: copy_str(image.suffix.as_str()),
                    },
                },
            ),
        )
    }
}

impl Job {
    /// `{creator}'s file in column `{column}` needs a manual download: {url}`.
    pub fn manual_download_message(&self) -> (res: String)
        ensures
            res@ == manual_message_of(self@),
    {
        let mut res = copy_str(self.downloader.creator.as_str());
        res.append("'s file in column `");
        res.append(self.column.as_str());
        res.append("` needs a manual download: ");
        res.append(self.url.as_str());
        res
    }
}

/// A planned job is named from its own row and the request: its URL is the
/// row's value in the image column, and there is a job exactly when that
/// value is not empty; its downloader goes to `dir`, is named after the
/// row's creator and extra information and the column's suffix, and carries
/// the request's global prefix (`{prefix} - `) and suffix (` - {suffix}`).
pub proof fn lemma_planned_job_is_named_from_its_row(
    request: DownloadImages,
    table: TableView,
    row: int,
    column: int,
    dir: Seq<char>,
)
    ensures
        ({
            let names = table.headers->Ok_0;
            let fields = table.records[row]->Ok_0;
            let col = request.image_column@[column];
            let url = lookup(names, fields, col.column@)->0;
            let creator = lookup(names, fields, request.creator_column@)->0;
            let extra = match request.extra_info_column {
                Some(c) => " - "@ + lookup(names, fields, c@)->0,
                None => Seq::empty(),
            };
            let pfx = match request.prefix {
                Some(p) => p@ + " - "@,
                None => Seq::empty(),
            };
            let sfx = match request.suffix {
                Some(s) => " - "@ + s@,
                None => Seq::empty(),
            };
            &&& (url.len() == 0 <==> cell_job(request, table, row, column, dir) is None)
            &&& cell_job(request, table, row, column, dir) matches Some(j) ==> {
                &&& j.url == url
                &&& j.column == col.column@
                &&& j.downloader.dir == dir
                &&& j.downloader.creator == creator
                &&& j.downloader.extra_info == extra
                &&& j.downloader.suffix == col.suffix@
                &&& j.downloader.global_prefix == pfx
                &&& j.downloader.global_suffix == sfx
                &&& base_name_of(j.downloader) == sanitize(
                    pfx + creator + extra + " - "@ + col.suffix@ + sfx,
                )
            }
        }),
{
}

} // verus!
