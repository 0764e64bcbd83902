//! The ordered set of sources that a URL is offered to.
use vstd::prelude::*;
use crate::pattern::{lemma_greedy_capture_of_link, lemma_plus_capture_of_link, opt_view};
use crate::text::{copy_str, ends_with};
use crate::sources::{
    drive_directory_id, drive_document_id, drive_file_id, dropbox_path, is_generic_file,
    DriveDirectory, DriveDocument, DriveFile, Dropbox, GenericFile,
};

verus! {

/// One source of files.
pub enum Downloadable {
    DriveFile(DriveFile),
    DriveDirectory(DriveDirectory),
    DriveDocument(DriveDocument),
    Dropbox(Dropbox),
    GenericFile(GenericFile),
}

/// What `source` reads from `url`: the id it downloads, when the URL is one of its.
pub open spec fn id_in(source: Downloadable, url: Seq<char>) -> Option<Seq<char>> {
    match source {
        Downloadable::DriveFile(_) => drive_file_id(url),
        Downloadable::DriveDirectory(_) => drive_directory_id(url),
        Downloadable::DriveDocument(_) => drive_document_id(url),
        Downloadable::Dropbox(_) => dropbox_path(url),
        Downloadable::GenericFile(_) => if is_generic_file(url) {
            Some(url)
        } else {
            None
        },
    }
}

impl Downloadable {
    /// The id that this source downloads for `url`, if the URL is one of its.
    pub fn matches(&self, url: &str) -> (res: Option<String>)
        ensures
            opt_view(res) == id_in(*self, url@),
    {
        match self {
            Downloadable::DriveFile(d) => d.matches(url),
            Downloadable::DriveDirectory(d) => d.matches(url),
            Downloadable::DriveDocument(d) => d.matches(url),
            Downloadable::Dropbox(d) => d.matches(url),
            Downloadable::GenericFile(d) => d.matches(url),
        }
    }
}

/// A source to try for a URL: its position in the registry and the id it reads.
pub struct Candidate {
    pub index: usize,
    pub id: String,
}

/// The model of a candidate.
pub open spec fn candidate_view(c: Candidate) -> (int, Seq<char>) {
    (c.index as int, c.id@)
}

/// The sources among `sources` that accept `url`, in order, each with its
/// position and the id it reads.
pub open spec fn matching(sources: Seq<Downloadable>, url: Seq<char>) -> Seq<(int, Seq<char>)>
    decreases sources.len(),
{
    if sources.len() == 0 {
        Seq::empty()
    } else {
        let earlier = matching(sources.drop_last(), url);
        match id_in(sources.last(), url) {
            Some(id) => earlier.push(((sources.len() - 1) as int, id)),
            None => earlier,
        }
    }
}

/// The sources that URLs are offered to, in the order they were registered.
pub struct Downloadables {
    sources: Vec<Downloadable>,
}

impl View for Downloadables {
    type V = Seq<Downloadable>;

    closed spec fn view(&self) -> Seq<Downloadable> {
        self.sources@
    }
}

impl Default for Downloadables {
    /// No sources.
    fn default() -> (res: Downloadables)
        ensures
            res@ == Seq::<Downloadable>::empty(),
    {
        Downloadables { sources: Vec::new() }
    }
}

impl Downloadables {
    /// Adds `d` after the sources registered so far.
    pub fn register(&mut self, d: Downloadable)
        ensures
            final(self)@ == old(self)@.push(d),
    {
        self.sources.push(d);
    }

    /// The five sources, in the order URLs are offered to them: Drive files,
    /// Drive folders, Google documents, Dropbox, then plain files.
    pub fn standard() -> (res: Downloadables)
        ensures
            res@ == seq![
                Downloadable::DriveFile(DriveFile),
                Downloadable::DriveDirectory(DriveDirectory { nested: false }),
                Downloadable::DriveDocument(DriveDocument),
                Downloadable::Dropbox(Dropbox),
                Downloadable::GenericFile(GenericFile),
            ],
    {
        let mut d = Downloadables::default();
        d.register(Downloadable::DriveFile(DriveFile));
        d.register(Downloadable::DriveDirectory(DriveDirectory::new()));
        d.register(Downloadable::DriveDocument(DriveDocument));
        d.register(Downloadable::Dropbox(Dropbox));
        d.register(Downloadable::GenericFile(GenericFile));
        d
    }

    /// How many sources there are.
    pub fn len(&self) -> (n: usize)
        ensures
            n == self@.len(),
    {
        self.sources.len()
    }

    /// The source at position `i`.
    pub fn get(&self, i: usize) -> (d: &Downloadable)
        requires
            i < self@.len(),
        ensures
            *d == self@[i as int],
    {
        &self.sources[i]
    }

    /// The sources to try for `url`, in the order to try them: every source
    /// that accepts the URL, in registration order, with the id it reads.
    /// A download stops at the first of them that succeeds.
    pub fn candidates(&self, url: &str) -> (res: Vec<Candidate>)
        ensures
            res@.map_values(|c: Candidate| candidate_view(c)) == matching(self@, url@),
    {
        let mut res: Vec<Candidate> = Vec::new();
        let n = self.sources.len();
        let mut i: usize = 0;
        while i < n
            invariant
                i <= n,
                n == self.sources@.len(),
                res@.map_values(|c: Candidate| candidate_view(c)) == matching(
                    self.sources@.take(i as int),
                    url@,
                ),
            decreases n - i,
        {
            let ghost before = res@;
            assert(self.sources@.take(i + 1).drop_last() =~= self.sources@.take(i as int));
            match self.sources[i].matches(url) {
                Some(id) => {
                    res.push(Candidate { index: i, id });
                    assert(res@.map_values(|c: Candidate| candidate_view(c)) =~= before.map_values(
                        |c: Candidate| candidate_view(c),
                    ).push((i as int, id@)));
                },
                None => {},
            }
            i += 1;
        }
        assert(self.sources@.take(n as int) =~= self.sources@);
        res
    }
}

/// What to do next with a URL.
pub enum Step {
    /// Download the id with the source at this position of the registry.
    Try(Candidate),
    /// Stop: `true` when a source downloaded the URL, `false` when none could
    /// and it needs a manual download.
    Finished(bool),
}

/// The attempts to download one URL: its candidates, and how many were tried.
pub struct Attempts {
    candidates: Vec<Candidate>,
    tried: usize,
}

impl View for Attempts {
    type V = (Seq<(int, Seq<char>)>, int);

    closed spec fn view(&self) -> (Seq<(int, Seq<char>)>, int) {
        (self.candidates@.map_values(|c: Candidate| candidate_view(c)), self.tried as int)
    }
}

impl Attempts {
    /// No more candidates are tried than there are.
    #[verifier::type_invariant]
    spec fn tried_within(&self) -> bool {
        self.tried <= self.candidates@.len()
    }

    /// The attempts for `url`: none tried yet.
    pub fn new(downloadables: &Downloadables, url: &str) -> (res: Attempts)
        ensures
            res@ == (matching(downloadables@, url@), 0int),
    {
        Attempts { candidates: downloadables.candidates(url), tried: 0 }
    }

    /// The next step, told whether the last attempt succeeded (`false` before
    /// the first): after a success, stop with `true`; else try the next
    /// candidate, or stop with `false` when all were tried.
    pub fn next(&mut self, last_succeeded: bool) -> (step: Step)
        ensures
            0 <= final(self)@.1 <= final(self)@.0.len(),
            final(self)@.0 == old(self)@.0,
            match step {
                Step::Finished(done) => done == last_succeeded && final(self)@ == old(self)@
                    && (!done ==> old(self)@.1 == old(self)@.0.len()),
                Step::Try(c) => !last_succeeded && old(self)@.1 < old(self)@.0.len()
                    && candidate_view(c) == old(self)@.0[old(self)@.1] && final(self)@.1 == old(
                    self,
                )@.1 + 1,
            },
    {
        proof {
            use_type_invariant(&*self);
        }
        if last_succeeded {
            return Step::Finished(true);
        }
        if self.tried >= self.candidates.len() {
            return Step::Finished(false);
        }
        let c = &self.candidates[self.tried];
        let step = Step::Try(Candidate { index: c.index, id: copy_str(c.id.as_str()) });
        self.tried = self.tried + 1;
        step
    }
}

/// Registering a source puts it last in the order URLs are offered in: the
/// candidates afterwards are those before, followed by the new source when it
/// accepts the URL.
pub proof fn lemma_register_tries_last(sources: Seq<Downloadable>, d: Downloadable, url: Seq<char>)
    ensures
        matching(sources.push(d), url) == match id_in(d, url) {
            Some(id) => matching(sources, url).push((sources.len() as int, id)),
            None => matching(sources, url),
        },
{
    assert(sources.push(d).drop_last() =~= sources);
}

/// The candidates for a URL are exactly the sources that accept it, each once,
/// in registration order.
pub proof fn lemma_candidates_are_the_accepting_sources(sources: Seq<Downloadable>, url: Seq<char>)
    ensures
        forall|k: int|
            0 <= k < matching(sources, url).len() ==> {
                let (i, id) = #[trigger] matching(sources, url)[k];
                0 <= i < sources.len() && id_in(sources[i], url) == Some(id)
            },
        forall|k1: int, k2: int|
            0 <= k1 < k2 < matching(sources, url).len() ==> (#[trigger] matching(sources, url)[k1]).0
                < (#[trigger] matching(sources, url)[k2]).0,
        forall|i: int|
            0 <= i < sources.len() && #[trigger] id_in(sources[i], url) is Some ==> exists|k: int|
                0 <= k < matching(sources, url).len() && matching(sources, url)[k] == (
                    i,
                    id_in(sources[i], url)->0,
                ),
    decreases sources.len(),
{
    if sources.len() > 0 {
        let earlier = sources.drop_last();
        lemma_candidates_are_the_accepting_sources(earlier, url);
        lemma_matching_bound(earlier, url);
        let m = matching(sources, url);
        let e = matching(earlier, url);
        assert forall|i: int|
            0 <= i < sources.len() && #[trigger] id_in(sources[i], url) is Some implies exists|k: int|
                0 <= k < m.len() && m[k] == (i, id_in(sources[i], url)->0) by {
            if i < sources.len() - 1 {
                assert(sources[i] == earlier[i]);
                let k = choose|k: int| 0 <= k < e.len() && e[k] == (i, id_in(earlier[i], url)->0);
                assert(m[k] == e[k]);
            } else {
                assert(m[m.len() - 1] == (i, id_in(sources[i], url)->0));
            }
        }
        assert forall|k: int| 0 <= k < m.len() implies {
            let (i, id) = #[trigger] m[k];
            0 <= i < sources.len() && id_in(sources[i], url) == Some(id)
        } by {
            if k < e.len() {
                assert(m[k] == e[k]);
                assert(sources[e[k].0] == earlier[e[k].0]);
            }
        }
        assert forall|k1: int, k2: int|
            0 <= k1 < k2 < m.len() implies (#[trigger] m[k1]).0 < (#[trigger] m[k2]).0 by {
            assert(m[k1] == e[k1]);
            if k2 < e.len() {
                assert(m[k2] == e[k2]);
            }
        }
    }
}

/// Every candidate position lies below the number of sources.
proof fn lemma_matching_bound(sources: Seq<Downloadable>, url: Seq<char>)
    ensures
        forall|k: int|
            0 <= k < matching(sources, url).len() ==> 0 <= (#[trigger] matching(sources, url)[k]).0
                < sources.len(),
        matching(sources, url).len() <= sources.len(),
    decreases sources.len(),
{
    if sources.len() > 0 {
        lemma_matching_bound(sources.drop_last(), url);
    }
}


/// The sources in the order `Downloadables::standard` registers them.
pub open spec fn standard_sources() -> Seq<Downloadable> {
    seq![
        Downloadable::DriveFile(DriveFile),
        Downloadable::DriveDirectory(DriveDirectory { nested: false }),
        Downloadable::DriveDocument(DriveDocument),
        Downloadable::Dropbox(Dropbox),
        Downloadable::GenericFile(GenericFile),
    ]
}

proof fn lemma_ends_with_suffix(base: Seq<char>, suffix: Seq<char>)
    ensures
        ends_with(base + suffix, suffix),
{
    let t = base + suffix;
    assert(t.subrange(t.len() - suffix.len(), t.len() as int) =~= suffix);
}

/// Each source reads its own kind of link: a Drive file, folder or document
/// link gives the id that follows its prefix (up to a `/` or the end), a
/// Dropbox link gives the shared path between its prefix and `&dl=0`, and a
/// link to a `.jpg`, `.png`, `.gif`, `.pdf` or `.tif` file gives the link
/// itself.  Among the standard sources, a document link is offered to the
/// document source, third, with its id.
pub proof fn lemma_each_source_reads_its_own_links(
    id: Seq<char>,
    rest: Seq<char>,
    path: Seq<char>,
    base: Seq<char>,
    d: DriveDirectory,
)
    requires
        id.len() > 0,
        forall|k: int| 0 <= k < id.len() ==> #[trigger] id[k] != '/' && id[k] != '?',
        rest.len() == 0 || rest[0] == '/',
        forall|k: int| 0 <= k < path.len() ==> #[trigger] path[k] != '\n',
    ensures
        id_in(Downloadable::DriveFile(DriveFile), "https://drive.google.com/file/d/"@ + id + rest)
            == Some(id),
        id_in(
            Downloadable::DriveDirectory(d),
            "https://drive.google.com/drive/folders/"@ + id + rest,
        ) == Some(id),
        id_in(
            Downloadable::DriveDocument(DriveDocument),
            "https://docs.google.com/document/d/"@ + id + rest,
        ) == Some(id),
        id_in(Downloadable::Dropbox(Dropbox), "https://www.dropbox.com/"@ + path + "&dl=0"@)
            == Some(path),
        id_in(Downloadable::GenericFile(GenericFile), base + ".jpg"@) == Some(base + ".jpg"@),
        id_in(Downloadable::GenericFile(GenericFile), base + ".png"@) == Some(base + ".png"@),
        id_in(Downloadable::GenericFile(GenericFile), base + ".gif"@) == Some(base + ".gif"@),
        id_in(Downloadable::GenericFile(GenericFile), base + ".pdf"@) == Some(base + ".pdf"@),
        id_in(Downloadable::GenericFile(GenericFile), base + ".tif"@) == Some(base + ".tif"@),
        exists|k: int|
            0 <= k < matching(standard_sources(), "https://docs.google.com/document/d/"@ + id + rest).len()
                && #[trigger] matching(
                standard_sources(),
                "https://docs.google.com/document/d/"@ + id + rest,
            )[k] == (2int, id),
{
    reveal_strlit("/");
    reveal_strlit("/?");
    reveal_strlit("&dl=0");
    let slash = "/"@;
    let slash_q = "/?"@;
    assert(slash[0] == '/');
    assert(slash_q[0] == '/' && slash_q[1] == '?');
    assert forall|k: int| 0 <= k < id.len() implies !slash.contains(#[trigger] id[k]) by {
        if slash.contains(id[k]) {
            let w = choose|w: int| 0 <= w < slash.len() && slash[w] == id[k];
        }
    }
    assert forall|k: int| 0 <= k < id.len() implies !slash_q.contains(#[trigger] id[k]) by {
        if slash_q.contains(id[k]) {
            let w = choose|w: int| 0 <= w < slash_q.len() && slash_q[w] == id[k];
        }
    }
    if rest.len() > 0 {
        assert(slash.contains(rest[0]));
        assert(slash_q.contains(rest[0]));
    }
    lemma_plus_capture_of_link("https://drive.google.com/file/d/"@, id, rest, slash);
    lemma_plus_capture_of_link("https://drive.google.com/drive/folders/"@, id, rest, slash_q);
    lemma_plus_capture_of_link("https://docs.google.com/document/d/"@, id, rest, slash_q);
    let term = "&dl=0"@;
    assert(term[0] == '&' && term[1] == 'd' && term[2] == 'l' && term[3] == '=' && term[4] == '0');
    lemma_greedy_capture_of_link("https://www.dropbox.com/"@, path, term);
    lemma_ends_with_suffix(base, ".jpg"@);
    lemma_ends_with_suffix(base, ".png"@);
    lemma_ends_with_suffix(base, ".gif"@);
    lemma_ends_with_suffix(base, ".pdf"@);
    lemma_ends_with_suffix(base, ".tif"@);
    let url = "https://docs.google.com/document/d/"@ + id + rest;
    lemma_candidates_are_the_accepting_sources(standard_sources(), url);
    assert(standard_sources()[2] == Downloadable::DriveDocument(DriveDocument));
    assert(id_in(standard_sources()[2], url) is Some);
}

} // verus!
