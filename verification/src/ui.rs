//! The state of the form in which a download is set up, and what its buttons do.
use vstd::prelude::*;
use crate::images::{opt_chars, DownloadImages, ImageColumn};
use crate::text::copy_str;

verus! {

/// An image column being entered: the column chosen so far and the suffix typed.
pub struct MaybeImageColumn {
    pub column: Option<String>,
    pub suffix: String,
}

/// The form: the export chosen, the columns picked, and the token cache to use.
pub struct Ui {
    pub filename: Option<String>,
    pub creator_column: Option<String>,
    pub extra_info_column: Option<String>,
    pub image_columns: Vec<ImageColumn>,
    pub new_image_column: MaybeImageColumn,
    pub token_cache: Option<String>,
}

/// The model of an image column: its name and suffix.
pub open spec fn image_column_view(c: ImageColumn) -> (Seq<char>, Seq<char>) {
    (c.column@, c.suffix@)
}

/// The model of the form.
pub struct UiView {
    pub filename: Option<Seq<char>>,
    pub creator_column: Option<Seq<char>>,
    pub extra_info_column: Option<Seq<char>>,
    pub image_columns: Seq<(Seq<char>, Seq<char>)>,
    pub new_column: Option<Seq<char>>,
    pub new_suffix: Seq<char>,
    pub token_cache: Option<Seq<char>>,
}

impl View for Ui {
    type V = UiView;

    open spec fn view(&self) -> UiView {
        UiView {
            filename: opt_chars(self.filename),
            creator_column: opt_chars(self.creator_column),
            extra_info_column: opt_chars(self.extra_info_column),
            image_columns: self.image_columns@.map_values(|c: ImageColumn| image_column_view(c)),
            new_column: opt_chars(self.new_image_column.column),
            new_suffix: self.new_image_column.suffix@,
            token_cache: opt_chars(self.token_cache),
        }
    }
}

/// The empty form, remembering `token_cache`.
pub open spec fn fresh_form(token_cache: Option<Seq<char>>) -> UiView {
    UiView {
        filename: None,
        creator_column: None,
        extra_info_column: None,
        image_columns: Seq::empty(),
        new_column: None,
        new_suffix: Seq::empty(),
        token_cache,
    }
}

/// Whether the image column being entered can be added: it has a column and a suffix.
pub open spec fn can_add(u: UiView) -> bool {
    u.new_column is Some && u.new_suffix.len() > 0
}

/// Whether a download can start: the creator column is chosen and there is an image column.
pub open spec fn can_start(u: UiView) -> bool {
    u.creator_column is Some && u.image_columns.len() > 0
}

impl Default for Ui {
    /// The empty form, with no token cache.
    fn default() -> (res: Ui)
        ensures
            res@ == fresh_form(None),
    {
        let res = Ui {
            filename: None,
            creator_column: None,
            extra_info_column: None,
            image_columns: Vec::new(),
            new_image_column: MaybeImageColumn { column: None, suffix: String::new() },
            token_cache: None,
        };
        assert(res@.image_columns =~= Seq::empty());
        res
    }
}

/// A copy of an optional string.
fn dup_opt(o: &Option<String>) -> (r: Option<String>)
    ensures
        opt_chars(r) == opt_chars(*o),
{
    match o {
        Some(s) => Some(copy_str(s.as_str())),
        None => None,
    }
}

impl Ui {
    /// The empty form, remembering the token cache to authenticate with.
    pub fn from_token_cache(token_cache: Option<String>) -> (res: Ui)
        ensures
            res@ == fresh_form(opt_chars(token_cache)),
    {
        let mut res = Ui::default();
        res.token_cache = token_cache;
        res
    }

    /// Records the export chosen in the file dialog.
    pub fn open_file(&mut self, path: String)
        ensures
            final(self)@ == (UiView { filename: Some(path@), ..old(self)@ }),
    {
        self.filename = Some(path);
    }

    /// Whether the image column being entered can be added.
    pub fn can_add_image_column(&self) -> (res: bool)
        ensures
            res == can_add(self@),
    {
        match &self.new_image_column.column {
            Some(_) => !self.new_image_column.suffix.as_str().is_empty(),
            None => false,
        }
    }

    /// Adds the image column being entered after the others and clears the
    /// entry, when it can be added; else changes nothing.  Tells whether it added.
    pub fn add_image_column(&mut self) -> (added: bool)
        ensures
            added == can_add(old(self)@),
            added ==> final(self)@ == (UiView {
                image_columns: old(self)@.image_columns.push(
                    (old(self)@.new_column->0, old(self)@.new_suffix),
                ),
                new_column: None,
                new_suffix: Seq::empty(),
                ..old(self)@
            }),
            !added ==> final(self)@ == old(self)@,
    {
        if !self.can_add_image_column() {
            return false;
        }
        let mut entry = MaybeImageColumn { column: None, suffix: String::new() };
        std::mem::swap(&mut entry, &mut self.new_image_column);
        match entry.column {
            Some(column) => {
                let ghost before = self.image_columns@;
                self.image_columns.push(ImageColumn { column, suffix: entry.suffix });
                assert(self@.image_columns =~= before.map_values(
                    |c: ImageColumn| image_column_view(c),
                ).push((column@, entry.suffix@)));
                true
            },
            None => false,
        }
    }

    /// Removes the image column at position `i`.
    pub fn remove_image_column(&mut self, i: usize)
        requires
            i < old(self)@.image_columns.len(),
        ensures
            final(self)@ == (UiView {
                image_columns: old(self)@.image_columns.remove(i as int),
                ..old(self)@
            }),
    {
        let ghost before = self.image_columns@;
        self.image_columns.remove(i);
        assert(self@.image_columns =~= before.map_values(
            |c: ImageColumn| image_column_view(c),
        ).remove(i as int));
    }

    /// Whether a download can start.
    pub fn can_download(&self) -> (res: bool)
        ensures
            res == can_start(self@),
    {
        self.creator_column.is_some() && self.image_columns.len() > 0
    }

    /// Starts a download: when one can start and an export was chosen, hands
    /// out what to download (with no global prefix or suffix) and the token
    /// cache, and empties the form, token cache included; else changes nothing.
    pub fn start_download(&mut self) -> (res: Option<(DownloadImages, Option<String>)>)
        ensures
            match res {
                Some((job, token_cache)) => {
                    &&& can_start(old(self)@)
                    &&& old(self)@.filename == Some(job.filename@)
                    &&& old(self)@.creator_column == Some(job.creator_column@)
                    &&& old(self)@.extra_info_column == opt_chars(job.extra_info_column)
                    &&& old(self)@.image_columns == job.image_column@.map_values(
                        |c: ImageColumn| image_column_view(c),
                    )
                    &&& job.prefix is None
                    &&& job.suffix is None
                    &&& opt_chars(token_cache) == old(self)@.token_cache
                    &&& final(self)@ == fresh_form(None)
                },
                None => !(can_start(old(self)@) && old(self)@.filename is Some) && final(self)@
                    == old(self)@,
            },
    {
        if !self.can_download() || self.filename.is_none() {
            return None;
        }
        let token_cache = dup_opt(&self.token_cache);
        let mut data = Ui::default();
        std::mem::swap(self, &mut data);
        match (data.filename, data.creator_column) {
            (Some(filename), Some(creator_column)) => Some(
                (
                    DownloadImages {
                        creator_column,
                        extra_info_column: data.extra_info_column,
                        image_column: data.image_columns,
                        prefix: None,
                        suffix: None,
                        filename,
                    },
                    token_cache,
                ),
            ),
            _ => None,
        }
    }

    /// The text a column selector shows: the column chosen, or `unselected`.
    pub fn selected_text(current: &Option<String>, unselected: &str) -> (res: String)
        ensures
            res@ == match current {
                Some(c) => c@,
                None => unselected@,
            },
    {
        match current {
            Some(c) => copy_str(c.as_str()),
            None => copy_str(unselected),
        }
    }

    /// The choices a column selector offers, each a value and its label:
    /// no column (labelled `unselected`), then every column of the header row.
    pub fn column_choices(headers: &Vec<String>, unselected: &str) -> (res: Vec<(Option<String>, String)>)
        ensures
            res@.len() == headers@.len() + 1,
            res@[0].0 is None,
            res@[0].1@ == unselected@,
            forall|i: int|
                0 < i < res@.len() ==> opt_chars((#[trigger] res@[i]).0) == Some(headers@[i - 1]@)
                    && res@[i].1@ == headers@[i - 1]@,
    {
        let mut res: Vec<(Option<String>, String)> = Vec::new();
        res.push((None, copy_str(unselected)));
        let mut i: usize = 0;
        while i < headers.len()
            invariant
                i <= headers@.len(),
                res@.len() == i + 1,
                res@[0].0 is None,
                res@[0].1@ == unselected@,
                forall|k: int|
                    0 < k < res@.len() ==> opt_chars((#[trigger] res@[k]).0) == Some(
                        headers@[k - 1]@,
                    ) && res@[k].1@ == headers@[k - 1]@,
            decreases headers.len() - i,
        {
            let h = headers[i].as_str();
            res.push((Some(copy_str(h)), copy_str(h)));
            i += 1;
        }
        res
    }
}

/// Whether a download is under way after `current` of `total` rows were
/// started: the progress bar shows until the last row starts.
pub fn download_in_progress(current: usize, total: usize) -> (res: bool)
    ensures
        res == (current < total),
{
    current < total
}

/// Adding an image column and then removing the last one gives back the
/// columns there were.
pub proof fn lemma_add_then_remove_last(columns: Seq<(Seq<char>, Seq<char>)>, added: (Seq<char>, Seq<char>))
    ensures
        columns.push(added).remove(columns.len() as int) == columns,
{
    assert(columns.push(added).remove(columns.len() as int) =~= columns);
}

/// A download can start exactly when a creator column is chosen and at
/// least one image column is listed, whatever the other fields of the form
/// hold (the export, the extra information column, the column being
/// entered, the token cache).
pub proof fn lemma_download_needs_only_creator_and_image_column(u: UiView, v: UiView)
    ensures
        can_start(u) <==> (u.creator_column is Some && u.image_columns.len() > 0),
        (u.creator_column is Some <==> v.creator_column is Some) && u.image_columns.len()
            == v.image_columns.len() ==> can_start(u) == can_start(v),
{
}

} // verus!
