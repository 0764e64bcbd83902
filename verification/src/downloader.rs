//! Where a downloaded file goes and under what name.
use vstd::prelude::*;
use crate::path::{
    extension, join, join_path, lemma_extension_is_plain, lemma_extension_of_dotted,
    path_extension,
};
use crate::text::chars_of;

verus! {

/// What every file of one run shares: text put before and after each name.
pub struct DownloaderContext {
    pub global_prefix: String,
    pub global_suffix: String,
}

/// The target of the files found for one creator in one image column.
pub struct Downloader {
    /// The directory that the files go to.
    pub dir: String,
    pub ctx: DownloaderContext,
    /// Text put after the creator's name (empty, or ` - ` and a value).
    pub extra_info: String,
    /// The creator's name.
    pub creator: String,
    /// The suffix of the image column.
    pub suffix: String,
}

/// The model of a `Downloader`: its texts.
pub struct DownloaderView {
    pub dir: Seq<char>,
    pub global_prefix: Seq<char>,
    pub global_suffix: Seq<char>,
    pub extra_info: Seq<char>,
    pub creator: Seq<char>,
    pub suffix: Seq<char>,
}

impl View for Downloader {
    type V = DownloaderView;

    open spec fn view(&self) -> DownloaderView {
        DownloaderView {
            dir: self.dir@,
            global_prefix: self.ctx.global_prefix@,
            global_suffix: self.ctx.global_suffix@,
            extra_info: self.extra_info@,
            creator: self.creator@,
            suffix: self.suffix@,
        }
    }
}

/// `s` with every `/` and `\` replaced by `_`.
pub open spec fn sanitize(s: Seq<char>) -> Seq<char> {
    Seq::new(s.len(), |i: int| if s[i] == '/' || s[i] == '\\' { '_' } else { s[i] })
}

/// The name that every file of a downloader starts with:
/// `{global prefix}{creator}{extra info} - {column suffix}{global suffix}`,
/// with every `/` and `\` replaced by `_`.
pub open spec fn base_name_of(d: DownloaderView) -> Seq<char> {
    sanitize(
        d.global_prefix + d.creator + d.extra_info + " - "@ + d.suffix + d.global_suffix,
    )
}

/// The extension that a file named after `filename` gets: that of its final
/// component, or `png`.
pub open spec fn extension_or_png(filename: Seq<char>) -> Seq<char> {
    match path_extension(filename) {
        Some(x) => x,
        None => "png"@,
    }
}

/// The name of a file saved for `filename`: the base name, a `.`, and the extension.
pub open spec fn file_name_of_download(d: DownloaderView, filename: Seq<char>) -> Seq<char> {
    base_name_of(d) + "."@ + extension_or_png(filename)
}

/// A copy of a string.
fn dup(s: &String) -> (r: String)
    ensures
        r@ == s@,
{
    s.clone()
}

impl DownloaderContext {
    /// A copy of this context.
    pub fn duplicate(&self) -> (r: DownloaderContext)
        ensures
            r.global_prefix@ == self.global_prefix@,
            r.global_suffix@ == self.global_suffix@,
    {
        DownloaderContext { global_prefix: dup(&self.global_prefix), global_suffix: dup(&self.global_suffix) }
    }
}

impl Downloader {
    /// The name that every file of this downloader starts with.
    pub fn base_name(&self) -> (res: String)
        ensures
            res@ == base_name_of(self@),
    {
        let mut raw = self.ctx.global_prefix.clone();
        raw.append(self.creator.as_str());
        raw.append(self.extra_info.as_str());
        raw.append(" - ");
        raw.append(self.suffix.as_str());
        raw.append(self.ctx.global_suffix.as_str());
        let cs = chars_of(raw.as_str());
        let mut out = String::new();
        let mut i: usize = 0;
        while i < cs.len()
            invariant
                i <= cs@.len(),
                cs@ == raw@,
                out@ == sanitize(cs@).subrange(0, i as int),
            decreases cs.len() - i,
        {
            let c = cs[i];
            if c == '/' || c == '\\' {
                out.push('_');
            } else {
                out.push(c);
            }
            i += 1;
            assert(out@ =~= sanitize(cs@).subrange(0, i as int));
        }
        assert(out@ =~= sanitize(cs@));
        out
    }

    /// The name of the file saved for `filename`: the base name, a `.`, and
    /// the extension of `filename`'s final component, or `png` when it has none.
    pub fn file_name(&self, filename: &str) -> (res: String)
        ensures
            res@ == file_name_of_download(self@, filename@),
    {
        let mut res = self.base_name();
        res.append(".");
        match extension(filename) {
            Some(x) => res.append(x.as_str()),
            None => res.append("png"),
        }
        res
    }

    /// The same downloader, aimed at `dir` inside its directory.
    pub fn subdir(&self, dir: &str) -> (res: Downloader)
        ensures
            res@ == (DownloaderView { dir: join(self.dir@, dir@), ..self@ }),
    {
        Downloader {
            dir: join_path(self.dir.as_str(), dir),
            ctx: self.ctx.duplicate(),
            extra_info: dup(&self.extra_info),
            creator: dup(&self.creator),
            suffix: dup(&self.suffix),
        }
    }

    /// A copy of this downloader.
    pub fn duplicate(&self) -> (res: Downloader)
        ensures
            res@ == self@,
    {
        Downloader {
            dir: dup(&self.dir),
            ctx: self.ctx.duplicate(),
            extra_info: dup(&self.extra_info),
            creator: dup(&self.creator),
            suffix: dup(&self.suffix),
        }
    }

    /// The path that a file named `file_name` is saved at.
    pub fn save_path(&self, file_name: &str) -> (res: String)
        ensures
            res@ == join(self.dir@, file_name@),
    {
        join_path(self.dir.as_str(), file_name)
    }
}

/// A base name is a single path component: it holds neither `/` nor `\`.
pub proof fn lemma_base_name_has_no_separator(d: DownloaderView)
    ensures
        forall|i: int|
            0 <= i < base_name_of(d).len() ==> #[trigger] base_name_of(d)[i] != '/'
                && base_name_of(d)[i] != '\\',
{
}

/// A saved file keeps the extension of the name it was saved for (or `png`):
/// reading the extension of its name gives that extension back.
pub proof fn lemma_saved_name_keeps_extension(d: DownloaderView, filename: Seq<char>)
    ensures
        path_extension(file_name_of_download(d, filename)) == Some(extension_or_png(filename)),
{
    reveal_strlit(" - ");
    reveal_strlit("png");
    reveal_strlit(".");
    let base = base_name_of(d);
    let ext = extension_or_png(filename);
    lemma_base_name_has_no_separator(d);
    lemma_extension_is_plain(filename);
    assert(base.len() >= 3);
    assert forall|j: int| 0 <= j < ext.len() implies #[trigger] ext[j] != '/' && ext[j] != '.' by {
        if path_extension(filename) is None {
            assert(ext == "png"@);
        }
    }
    assert("."@ == seq!['.']);
    lemma_extension_of_dotted(base, ext);
}

/// A saved file keeps the extension of the name it is saved for, whatever
/// its length: its name is the base name, a `.` and that extension; only a
/// name without extension gets `png`.
pub proof fn lemma_saved_name_takes_the_extension(d: DownloaderView, filename: Seq<char>)
    ensures
        path_extension(filename) matches Some(x) ==> file_name_of_download(d, filename)
            == base_name_of(d) + seq!['.'] + x && path_extension(file_name_of_download(d, filename))
            == Some(x),
        path_extension(filename) is None ==> file_name_of_download(d, filename) == base_name_of(d)
            + seq!['.', 'p', 'n', 'g'],
{
    reveal_strlit(".");
    reveal_strlit("png");
    assert("."@ =~= seq!['.']);
    assert("png"@ =~= seq!['p', 'n', 'g']);
    assert(base_name_of(d) + seq!['.'] + seq!['p', 'n', 'g'] =~= base_name_of(d) + seq![
        '.',
        'p',
        'n',
        'g',
    ]);
    lemma_saved_name_keeps_extension(d, filename);
}

} // verus!
