//! The URL shapes that the sources recognise, and a matcher for them.
//!
//! A shape is a prefix written as regular-expression text in which `.` is the only
//! metacharacter (it stands for any character but a line feed; every other
//! character stands for itself), followed by a capture.  Matching is leftmost-first:
//! the capture is taken from the earliest position at which the whole shape matches.
use vstd::prelude::*;
use crate::text::string_from;

verus! {

/// Whether the pattern character `p` accepts the text character `c`.
pub open spec fn accepts(p: char, c: char) -> bool {
    if p == '.' {
        c != '\n'
    } else {
        c == p
    }
}

/// Whether `pattern` matches `text` at position `i`.
pub open spec fn occurs_at(pattern: Seq<char>, text: Seq<char>, i: int) -> bool {
    &&& 0 <= i
    &&& i + pattern.len() <= text.len()
    &&& forall|k: int| 0 <= k < pattern.len() ==> accepts(#[trigger] pattern[k], text[i + k])
}

/// End of the longest run of characters from `from` on that are all outside `stop`.
pub open spec fn run_end(text: Seq<char>, from: int, stop: Seq<char>) -> int
    decreases text.len() - from,
{
    if from < 0 || from >= text.len() || stop.contains(text[from]) {
        from
    } else {
        run_end(text, from + 1, stop)
    }
}

/// The smallest `i` in `from..=last` with `hit(i)`.
pub open spec fn first_from(hit: spec_fn(int) -> bool, from: int, last: int) -> Option<int>
    decreases last + 1 - from,
{
    if from > last {
        None
    } else if hit(from) {
        Some(from)
    } else {
        first_from(hit, from + 1, last)
    }
}

/// The largest `j` in `first..=from` with `hit(j)`.
pub open spec fn last_from(hit: spec_fn(int) -> bool, from: int, first: int) -> Option<int>
    decreases from + 1 - first,
{
    if from < first {
        None
    } else if hit(from) {
        Some(from)
    } else {
        last_from(hit, from - 1, first)
    }
}

/// `prefix([^stop]+).*` matches at `i`.
pub open spec fn plus_hit(text: Seq<char>, prefix: Seq<char>, stop: Seq<char>, i: int) -> bool {
    &&& occurs_at(prefix, text, i)
    &&& i + prefix.len() < text.len()
    &&& !stop.contains(text[i + prefix.len()])
}

/// What `prefix([^stop]+).*` captures in `text`: the longest run of characters
/// outside `stop` that follows the leftmost match of `prefix` which such a
/// non-empty run follows.
pub open spec fn plus_capture(text: Seq<char>, prefix: Seq<char>, stop: Seq<char>) -> Option<
    Seq<char>,
> {
    match first_from(|i: int| plus_hit(text, prefix, stop, i), 0, text.len() as int) {
        Some(i) => Some(
            text.subrange(i + prefix.len(), run_end(text, i + prefix.len(), stop)),
        ),
        None => None,
    }
}

/// Where the capture of `prefix(.*)term` ends when the match starts at `i`:
/// the last position, on the line that follows `prefix`, at which `term` starts.
pub open spec fn greedy_end(text: Seq<char>, prefix: Seq<char>, term: Seq<char>, i: int) -> Option<
    int,
> {
    let start = i + prefix.len();
    last_from(
        |j: int| occurs_at(term, text, j),
        run_end(text, start, seq!['\n']) - 1,
        start,
    )
}

/// `prefix(.*)term` matches at `i`.
pub open spec fn greedy_hit(text: Seq<char>, prefix: Seq<char>, term: Seq<char>, i: int) -> bool {
    occurs_at(prefix, text, i) && greedy_end(text, prefix, term, i) is Some
}

/// What `prefix(.*)term` captures in `text` at its leftmost match.
pub open spec fn greedy_capture(text: Seq<char>, prefix: Seq<char>, term: Seq<char>) -> Option<
    Seq<char>,
> {
    match first_from(|i: int| greedy_hit(text, prefix, term, i), 0, text.len() as int) {
        Some(i) => Some(
            text.subrange(i + prefix.len(), greedy_end(text, prefix, term, i)->0),
        ),
        None => None,
    }
}

/// Where the capture of `key"?([^"]*)"?` starts when `key` matches at `i`.
pub open spec fn quoted_start(text: Seq<char>, key: Seq<char>, i: int) -> int {
    let after = i + key.len();
    if after < text.len() && text[after] == '"' {
        after + 1
    } else {
        after
    }
}

/// What `key"?([^"]*)"?` captures in `text` at its leftmost match.
pub open spec fn quoted_capture(text: Seq<char>, key: Seq<char>) -> Option<Seq<char>> {
    match first_from(|i: int| occurs_at(key, text, i), 0, text.len() as int) {
        Some(i) => Some(
            text.subrange(
                quoted_start(text, key, i),
                run_end(text, quoted_start(text, key, i), seq!['"']),
            ),
        ),
        None => None,
    }
}

/// The view of an optional string.
pub open spec fn opt_view(o: Option<String>) -> Option<Seq<char>> {
    match o {
        Some(s) => Some(s@),
        None => None,
    }
}

/// A run ends within the text, after its start, and holds no stop character.
pub proof fn lemma_run_end(text: Seq<char>, from: int, stop: Seq<char>)
    requires
        0 <= from <= text.len(),
    ensures
        from <= run_end(text, from, stop) <= text.len(),
        forall|k: int| from <= k < run_end(text, from, stop) ==> !stop.contains(#[trigger] text[k]),
        run_end(text, from, stop) == text.len() || stop.contains(text[run_end(text, from, stop)]),
    decreases text.len() - from,
{
    if from < text.len() && !stop.contains(text[from]) {
        lemma_run_end(text, from + 1, stop);
    }
}

/// `first_from` finds the least position that hits.
pub proof fn lemma_first_from(hit: spec_fn(int) -> bool, from: int, last: int)
    ensures
        match first_from(hit, from, last) {
            Some(i) => from <= i <= last && hit(i) && forall|j: int| from <= j < i ==> !#[trigger] hit(j),
            None => forall|j: int| from <= j <= last ==> !#[trigger] hit(j),
        },
    decreases last + 1 - from,
{
    if from <= last && !hit(from) {
        lemma_first_from(hit, from + 1, last);
    }
}

/// `last_from` finds the greatest position that hits.
pub proof fn lemma_last_from(hit: spec_fn(int) -> bool, from: int, first: int)
    ensures
        match last_from(hit, from, first) {
            Some(j) => first <= j <= from && hit(j) && forall|k: int| j < k <= from ==> !#[trigger] hit(k),
            None => forall|k: int| first <= k <= from ==> !#[trigger] hit(k),
        },
    decreases from + 1 - first,
{
    if first <= from && !hit(from) {
        lemma_last_from(hit, from - 1, first);
    }
}

/// What `prefix([^stop]+).*` captures is a non-empty run of characters
/// outside `stop`, taken from the leftmost position where such a run follows
/// `prefix`.
pub proof fn lemma_plus_capture_shape(text: Seq<char>, prefix: Seq<char>, stop: Seq<char>)
    ensures
        plus_capture(text, prefix, stop) matches Some(c) ==> {
            &&& c.len() > 0
            &&& forall|k: int| 0 <= k < c.len() ==> !stop.contains(#[trigger] c[k])
            &&& exists|i: int|
                #![trigger plus_hit(text, prefix, stop, i)]
                plus_hit(text, prefix, stop, i) && (forall|j: int|
                    0 <= j < i ==> !#[trigger] plus_hit(text, prefix, stop, j)) && c
                    == text.subrange(i + prefix.len(), run_end(text, i + prefix.len(), stop))
        },
        plus_capture(text, prefix, stop) is None ==> forall|i: int|
            !#[trigger] plus_hit(text, prefix, stop, i),
{
    let hit = |i: int| plus_hit(text, prefix, stop, i);
    lemma_first_from(hit, 0, text.len() as int);
    match first_from(hit, 0, text.len() as int) {
        Some(i) => {
            let s = i + prefix.len();
            lemma_run_end(text, s, stop);
            let c = text.subrange(s, run_end(text, s, stop));
            assert(run_end(text, s, stop) > s) by {
                assert(!stop.contains(text[s]));
            }
            assert forall|k: int| 0 <= k < c.len() implies !stop.contains(#[trigger] c[k]) by {
                assert(c[k] == text[s + k]);
            }
            assert forall|j: int| 0 <= j < i implies !#[trigger] plus_hit(text, prefix, stop, j) by {
                assert(!hit(j));
            }
        },
        None => {
            assert forall|i: int| !#[trigger] plus_hit(text, prefix, stop, i) by {
                if 0 <= i <= text.len() {
                    assert(!hit(i));
                }
            }
        },
    }
}

/// A run that ends at a stop character (or the end of the text) after
/// characters outside `stop` ends there.
proof fn lemma_run_end_at(text: Seq<char>, from: int, end: int, stop: Seq<char>)
    requires
        0 <= from <= end <= text.len(),
        forall|k: int| from <= k < end ==> !stop.contains(#[trigger] text[k]),
        end == text.len() || stop.contains(text[end]),
    ensures
        run_end(text, from, stop) == end,
    decreases end - from,
{
    if from < end {
        lemma_run_end_at(text, from + 1, end, stop);
    }
}

/// `last_from` finds a hit when nothing after it, up to `from`, hits.
proof fn lemma_last_from_at(hit: spec_fn(int) -> bool, from: int, first: int, j: int)
    requires
        first <= j <= from,
        hit(j),
        forall|k: int| j < k <= from ==> !#[trigger] hit(k),
    ensures
        last_from(hit, from, first) == Some(j),
    decreases from - j,
{
    if from > j {
        assert(!hit(from));
        lemma_last_from_at(hit, from - 1, first, j);
    }
}

/// A text that starts with `pattern` (read literally) matches it there.
proof fn lemma_occurs_at_start(pattern: Seq<char>, tail: Seq<char>)
    ensures
        occurs_at(pattern, pattern + tail, 0),
{
    assert forall|k: int| 0 <= k < pattern.len() implies accepts(#[trigger] pattern[k], (pattern + tail)[0 + k]) by {
        assert((pattern + tail)[k] == pattern[k]);
    }
}

/// A link made of `prefix`, a non-empty `id` of characters outside `stop`, and
/// a rest that is empty or starts with a stop character: `prefix([^stop]+).*`
/// captures exactly `id`.
pub proof fn lemma_plus_capture_of_link(prefix: Seq<char>, id: Seq<char>, rest: Seq<char>, stop: Seq<char>)
    requires
        id.len() > 0,
        forall|k: int| 0 <= k < id.len() ==> !stop.contains(#[trigger] id[k]),
        rest.len() == 0 || stop.contains(rest[0]),
    ensures
        plus_capture(prefix + id + rest, prefix, stop) == Some(id),
{
    let text = prefix + id + rest;
    assert(text =~= prefix + (id + rest));
    lemma_occurs_at_start(prefix, id + rest);
    let s = prefix.len() as int;
    let e = s + id.len();
    assert(text[s] == id[0]);
    let hit = |i: int| plus_hit(text, prefix, stop, i);
    assert(hit(0));
    assert(first_from(hit, 0, text.len() as int) == Some(0int));
    assert forall|k: int| s <= k < e implies !stop.contains(#[trigger] text[k]) by {
        assert(text[k] == id[k - s]);
    }
    if e < text.len() {
        assert(text[e] == rest[0]);
    }
    lemma_run_end_at(text, s, e, stop);
    assert(text.subrange(s, e) =~= id);
}

/// A link made of `prefix`, a `path` with no line feed, and `term` (with no
/// line feed, not empty) at its very end: `prefix(.*)term` captures exactly `path`.
pub proof fn lemma_greedy_capture_of_link(prefix: Seq<char>, path: Seq<char>, term: Seq<char>)
    requires
        term.len() > 0,
        forall|k: int| 0 <= k < path.len() ==> #[trigger] path[k] != '\n',
        forall|k: int| 0 <= k < term.len() ==> #[trigger] term[k] != '\n',
    ensures
        greedy_capture(prefix + path + term, prefix, term) == Some(path),
{
    let text = prefix + path + term;
    assert(text =~= prefix + (path + term));
    lemma_occurs_at_start(prefix, path + term);
    let s = prefix.len() as int;
    let j0 = s + path.len();
    let newline = seq!['\n'];
    assert forall|k: int| s <= k < text.len() implies !newline.contains(#[trigger] text[k]) by {
        if k < j0 {
            assert(text[k] == path[k - s]);
        } else {
            assert(text[k] == term[k - j0]);
        }
        if newline.contains(text[k]) {
            let w = choose|w: int| 0 <= w < newline.len() && newline[w] == text[k];
            assert(newline[w] == '\n');
        }
    }
    lemma_run_end_at(text, s, text.len() as int, newline);
    let th = |j: int| occurs_at(term, text, j);
    assert(th(j0)) by {
        assert forall|k: int| 0 <= k < term.len() implies accepts(#[trigger] term[k], text[j0 + k]) by {
            assert(text[j0 + k] == term[k]);
        }
    }
    assert forall|k: int| j0 < k <= text.len() - 1 implies !#[trigger] th(k) by {}
    lemma_last_from_at(th, text.len() - 1, s, j0);
    let hit = |i: int| greedy_hit(text, prefix, term, i);
    assert(hit(0));
    assert(first_from(hit, 0, text.len() as int) == Some(0int));
    assert(text.subrange(s, j0) =~= path);
}

/// Whether `pattern` matches `text` at `i`.
pub fn occurs_at_exec(pattern: &Vec<char>, text: &Vec<char>, i: usize) -> (b: bool)
    ensures
        b == occurs_at(pattern@, text@, i as int),
{
    if i > text.len() || pattern.len() > text.len() - i {
        return false;
    }
    let mut k: usize = 0;
    while k < pattern.len()
        invariant
            k <= pattern@.len(),
            i + pattern@.len() <= text@.len(),
            forall|m: int| 0 <= m < k ==> accepts(#[trigger] pattern@[m], text@[i + m]),
        decreases pattern.len() - k,
    {
        assert(i + k < text.len());
        let p = pattern[k];
        let c = text[i + k];
        let ok = if p == '.' {
            c != '\n'
        } else {
            c == p
        };
        if !ok {
            assert(!accepts(pattern@[k as int], text@[i + k]));
            return false;
        }
        k += 1;
    }
    true
}

/// Whether `c` is one of `set`.
pub fn contains_char(set: &Vec<char>, c: char) -> (b: bool)
    ensures
        b == set@.contains(c),
{
    let mut k: usize = 0;
    while k < set.len()
        invariant
            k <= set@.len(),
            forall|m: int| 0 <= m < k ==> set@[m] != c,
        decreases set.len() - k,
    {
        if set[k] == c {
            return true;
        }
        k += 1;
    }
    false
}

/// `run_end` computed.
pub fn run_end_exec(text: &Vec<char>, from: usize, stop: &Vec<char>) -> (e: usize)
    requires
        from <= text@.len(),
    ensures
        e == run_end(text@, from as int, stop@),
{
    let mut j = from;
    while j < text.len() && !contains_char(stop, text[j])
        invariant
            from <= j <= text@.len(),
            run_end(text@, from as int, stop@) == run_end(text@, j as int, stop@),
        decreases text.len() - j,
    {
        j += 1;
    }
    j
}

/// What `prefix([^stop]+).*` captures in `text`, if it matches.
pub fn capture_plus(text: &Vec<char>, prefix: &Vec<char>, stop: &Vec<char>) -> (res: Option<
    String,
>)
    ensures
        opt_view(res) == plus_capture(text@, prefix@, stop@),
{
    let ghost hit = |i: int| plus_hit(text@, prefix@, stop@, i);
    let n = text.len();
    let mut i: usize = 0;
    while i < n
        invariant
            i <= n,
            n == text@.len(),
            hit == (|i: int| plus_hit(text@, prefix@, stop@, i)),
            first_from(hit, 0, n as int) == first_from(hit, i as int, n as int),
        decreases n - i,
    {
        if occurs_at_exec(prefix, text, i) && prefix.len() < n - i && !contains_char(
            stop,
            text[i + prefix.len()],
        ) {
            assert(hit(i as int));
            let s = i + prefix.len();
            let e = run_end_exec(text, s, stop);
            proof {
                lemma_run_end(text@, s as int, stop@);
            }
            return Some(string_from(text, s, e));
        }
        assert(!hit(i as int));
        i += 1;
    }
    assert(!hit(n as int));
    assert(first_from(hit, n + 1, n as int) is None);
    None
}

/// The last position in `lo..=hi` at which `term` starts, searched downwards.
fn last_occurrence(text: &Vec<char>, term: &Vec<char>, lo: usize, hi_end: usize) -> (res: Option<
    usize,
>)
    requires
        lo <= hi_end <= text@.len(),
    ensures
        match res {
            Some(j) => last_from(|j: int| occurs_at(term@, text@, j), hi_end - 1, lo as int)
                == Some(j as int),
            None => last_from(|j: int| occurs_at(term@, text@, j), hi_end - 1, lo as int)
                is None,
        },
{
    let ghost hit = |j: int| occurs_at(term@, text@, j);
    let mut j = hi_end;
    while j > lo
        invariant
            lo <= j <= hi_end,
            hit == (|j: int| occurs_at(term@, text@, j)),
            last_from(hit, hi_end - 1, lo as int) == last_from(hit, j - 1, lo as int),
        decreases j - lo,
    {
        if occurs_at_exec(term, text, j - 1) {
            return Some(j - 1);
        }
        j -= 1;
    }
    None
}

/// What `prefix(.*)term` captures in `text`, if it matches.
pub fn capture_greedy(text: &Vec<char>, prefix: &Vec<char>, term: &Vec<char>) -> (res: Option<
    String,
>)
    ensures
        opt_view(res) == greedy_capture(text@, prefix@, term@),
{
    let ghost hit = |i: int| greedy_hit(text@, prefix@, term@, i);
    let newline: Vec<char> = vec!['\n'];
    assert(newline@ =~= seq!['\n']);
    let n = text.len();
    let mut i: usize = 0;
    while i < n
        invariant
            i <= n,
            n == text@.len(),
            newline@ == seq!['\n'],
            hit == (|i: int| greedy_hit(text@, prefix@, term@, i)),
            first_from(hit, 0, n as int) == first_from(hit, i as int, n as int),
        decreases n - i,
    {
        if occurs_at_exec(prefix, text, i) {
            let s = i + prefix.len();
            let e = run_end_exec(text, s, &newline);
            proof {
                lemma_run_end(text@, s as int, newline@);
            }
            match last_occurrence(text, term, s, e) {
                Some(j) => {
                    assert(hit(i as int));
                    proof {
                        lemma_last_from(|j: int| occurs_at(term@, text@, j), e - 1, s as int);
                    }
                    return Some(string_from(text, s, j));
                },
                None => {
                    assert(!hit(i as int));
                },
            }
        } else {
            assert(!hit(i as int));
        }
        i += 1;
    }
    assert(!hit(n as int));
    assert(first_from(hit, n + 1, n as int) is None);
    None
}

/// The capture of `key"?([^"]*)"?` for a match of `key` at `i`.
fn quoted_at(text: &Vec<char>, key: &Vec<char>, i: usize) -> (res: String)
    requires
        occurs_at(key@, text@, i as int),
    ensures
        res@ == text@.subrange(
            quoted_start(text@, key@, i as int),
            run_end(text@, quoted_start(text@, key@, i as int), seq!['"']),
        ),
{
    let quote: Vec<char> = vec!['"'];
    assert(quote@ =~= seq!['"']);
    let n = text.len();
    let after = i + key.len();
    let s = if after < n && text[after] == '"' {
        after + 1
    } else {
        after
    };
    let e = run_end_exec(text, s, &quote);
    proof {
        lemma_run_end(text@, s as int, quote@);
    }
    string_from(text, s, e)
}

/// What `key"?([^"]*)"?` captures in `text`, if `key` occurs in it.
pub fn capture_quoted(text: &Vec<char>, key: &Vec<char>) -> (res: Option<String>)
    ensures
        opt_view(res) == quoted_capture(text@, key@),
{
    let ghost hit = |i: int| occurs_at(key@, text@, i);
    let n = text.len();
    let mut i: usize = 0;
    while i < n
        invariant
            i <= n,
            n == text@.len(),
            hit == (|i: int| occurs_at(key@, text@, i)),
            first_from(hit, 0, n as int) == first_from(hit, i as int, n as int),
        decreases n - i,
    {
        if occurs_at_exec(key, text, i) {
            assert(hit(i as int));
            return Some(quoted_at(text, key, i));
        }
        assert(!hit(i as int));
        i += 1;
    }
    if occurs_at_exec(key, text, n) {
        assert(hit(n as int));
        return Some(quoted_at(text, key, n));
    }
    assert(!hit(n as int));
    assert(first_from(hit, n + 1, n as int) is None);
    None
}

} // verus!
