//! The entries of the ROM repository's `.jsonl` files.
//!
//! Each line is an object of its own:
//! `{"type":"file","p":"sfiii3.zip","n":"sfiii3","ext":".zip","parent":"",
//! "urls":[{"u":"https://...","label":"..."}]}`. The program around the
//! library reads the file line by line and parses each one; here the parsed
//! lines become the index of a platform.

use vstd::prelude::*;

use crate::library::opt_text;
use crate::names::{display_name, display_name_of};
use crate::text::{
    chars_of, lemma_utf8_len_prefix, lemma_utf8_len_step, owned, same_text, slice_chars, string_of,
    trim_bounds, trim_ws, utf8_len, char_width,
};
use crate::util::{normalize, normalized};

verus! {

#[derive(Debug, Clone, PartialEq, Eq)]
pub struct EntryUrl {
    pub url: String,
    pub label: Option<String>,
}

pub struct EntryUrlView {
    pub url: Seq<char>,
    pub label: Option<Seq<char>>,
}

impl View for EntryUrl {
    type V = EntryUrlView;

    open spec fn view(&self) -> EntryUrlView {
        EntryUrlView { url: self.url@, label: opt_text(self.label) }
    }
}

#[derive(Debug, Clone)]
pub struct CatalogEntry {
    /// Readable name (field `n`).
    pub name: String,
    /// Path inside the set (field `p`).
    pub path: String,
    pub ext: String,
    pub parent: String,
    pub urls: Vec<EntryUrl>,
    /// Normalised name, for searching.
    pub search_key: String,
}

pub struct CatalogEntryView {
    pub name: Seq<char>,
    pub path: Seq<char>,
    pub ext: Seq<char>,
    pub parent: Seq<char>,
    pub urls: Seq<EntryUrlView>,
    pub search_key: Seq<char>,
}

pub open spec fn url_views(v: Seq<EntryUrl>) -> Seq<EntryUrlView> {
    v.map_values(|u: EntryUrl| u@)
}

impl View for CatalogEntry {
    type V = CatalogEntryView;

    open spec fn view(&self) -> CatalogEntryView {
        CatalogEntryView {
            name: self.name@,
            path: self.path@,
            ext: self.ext@,
            parent: self.parent@,
            urls: url_views(self.urls@),
            search_key: self.search_key@,
        }
    }
}

/// What follows the last `sep` of a text (all of it when there is none).
pub open spec fn after_last(s: Seq<char>, sep: char) -> Seq<char>
    decreases s.len(),
{
    if s.len() == 0 {
        s
    } else if s.last() == sep {
        Seq::empty()
    } else {
        after_last(s.drop_last(), sep).push(s.last())
    }
}

/// The file name suggested for a download: the last part of the path, or
/// the name when that is empty.
pub open spec fn file_name_of(e: CatalogEntryView) -> Seq<char> {
    let candidate = after_last(e.path, '/');
    if candidate.len() == 0 {
        e.name
    } else {
        candidate
    }
}

pub open spec fn label_bytes(l: Option<Seq<char>>) -> nat {
    match l {
        Some(t) => utf8_len(t),
        None => 0,
    }
}

pub open spec fn urls_bytes(us: Seq<EntryUrlView>) -> nat
    decreases us.len(),
{
    if us.len() == 0 {
        0
    } else {
        urls_bytes(us.drop_last()) + utf8_len(us.last().url) + label_bytes(us.last().label)
    }
}

/// Memory an entry takes, roughly: the bytes of its texts and a fixed
/// allowance for the headers of the strings and the list.
pub open spec fn entry_weight(e: CatalogEntryView) -> nat {
    utf8_len(e.name) + utf8_len(e.path) + utf8_len(e.ext) + utf8_len(e.parent) + utf8_len(
        e.search_key,
    ) + urls_bytes(e.urls) + 96
}

fn byte_len(s: &str, limit: usize) -> (r: Option<usize>)
    ensures
        match r {
            Some(n) => n == utf8_len(s@) && n <= limit,
            None => utf8_len(s@) > limit,
        },
{
    let cs = chars_of(s);
    let mut total: usize = 0;
    let mut i: usize = 0;
    while i < cs.len()
        invariant
            i <= cs.len(),
            cs@ == s@,
            total <= limit,
            total == utf8_len(cs@.take(i as int)),
        decreases cs.len() - i,
    {
        let w = char_width(cs[i]);
        proof {
            lemma_utf8_len_step(cs@, i as int);
        }
        if w > limit - total {
            proof {
                lemma_utf8_len_prefix(cs@, i + 1);
            }
            return None;
        }
        total = total + w;
        i += 1;
    }
    assert(cs@.take(cs.len() as int) == cs@);
    Some(total)
}

fn add_bytes(total: usize, s: &str) -> (r: Option<usize>)
    ensures
        match r {
            Some(n) => n == total + utf8_len(s@),
            None => total + utf8_len(s@) > usize::MAX,
        },
{
    match byte_len(s, usize::MAX - total) {
        Some(n) => Some(total + n),
        None => None,
    }
}

impl CatalogEntry {
    /// The first download address, if any.
    pub fn primary_url(&self) -> (r: Option<&str>)
        ensures
            match r {
                Some(u) => self.urls@.len() > 0 && u@ == self.urls@[0].url@,
                None => self.urls@.len() == 0,
            },
    {
        if self.urls.len() == 0 {
            None
        } else {
            Some(self.urls[0].url.as_str())
        }
    }

    /// The file name suggested when downloading.
    pub fn file_name(&self) -> (s: String)
        ensures
            s@ == file_name_of(self@),
    {
        let cs = chars_of(self.path.as_str());
        let mut start: usize = cs.len();
        assert(cs@.take(cs.len() as int) =~= cs@);
        assert(cs@.subrange(cs.len() as int, cs.len() as int) =~= Seq::<char>::empty());
        assert(after_last(cs@, '/') =~= after_last(cs@.take(start as int), '/') + cs@.subrange(
            start as int,
            cs.len() as int,
        ));
        while start > 0 && cs[start - 1] != '/'
            invariant
                start <= cs.len(),
                cs@ == self.path@,
                after_last(cs@, '/') == after_last(cs@.take(start as int), '/') + cs@.subrange(
                    start as int,
                    cs.len() as int,
                ),
            decreases start,
        {
            assert(cs@.take(start as int).drop_last() == cs@.take(start - 1));
            assert(cs@.subrange(start - 1, cs.len() as int) =~= seq![cs@[start - 1]] + cs@.subrange(
                start as int,
                cs.len() as int,
            ));
            start -= 1;
        }
        let candidate = slice_chars(&cs, start, cs.len());
        proof {
            if start > 0 {
                assert(cs@.take(start as int).last() == '/');
            } else {
                assert(cs@.take(0) =~= Seq::<char>::empty());
            }
            assert(after_last(cs@, '/') =~= candidate@);
        }
        if candidate.len() == 0 {
            self.name.clone()
        } else {
            string_of(&candidate)
        }
    }

    /// Memory the entry takes, roughly.
    pub fn approx_bytes(&self) -> (n: usize)
        requires
            entry_weight(self@) <= usize::MAX,
        ensures
            n == entry_weight(self@),
    {
        let mut total: usize = 0;
        total = add_bytes(total, self.name.as_str()).unwrap();
        total = add_bytes(total, self.path.as_str()).unwrap();
        total = add_bytes(total, self.ext.as_str()).unwrap();
        total = add_bytes(total, self.parent.as_str()).unwrap();
        total = add_bytes(total, self.search_key.as_str()).unwrap();
        let ghost base = total as int;
        let ghost us = url_views(self.urls@);
        let mut i: usize = 0;
        while i < self.urls.len()
            invariant
                i <= self.urls.len(),
                us == url_views(self.urls@),
                total == base + urls_bytes(us.take(i as int)),
                base + urls_bytes(us) + 96 == entry_weight(self@),
                entry_weight(self@) <= usize::MAX,
            decreases self.urls.len() - i,
        {
            assert(us.take(i + 1).drop_last() == us.take(i as int));
            assert(us.take(i + 1).last() == self.urls@[i as int]@);
            proof {
                lemma_urls_bytes_prefix(us, i + 1);
            }
            total = add_bytes(total, self.urls[i].url.as_str()).unwrap();
            match &self.urls[i].label {
                Some(l) => {
                    total = add_bytes(total, l.as_str()).unwrap();
                },
                None => {},
            }
            i += 1;
        }
        assert(us.take(self.urls.len() as int) == us);
        total + 96
    }
}

proof fn lemma_urls_bytes_prefix(us: Seq<EntryUrlView>, i: int)
    requires
        0 <= i <= us.len(),
    ensures
        urls_bytes(us.take(i)) <= urls_bytes(us),
    decreases us.len(),
{
    if i == us.len() {
        assert(us.take(i) == us);
    } else {
        lemma_urls_bytes_prefix(us.drop_last(), i);
        assert(us.drop_last().take(i) == us.take(i));
    }
}

/// An address as a line of the file gives it.
#[derive(Debug, Clone)]
pub struct RawUrl {
    pub u: String,
    pub label: Option<String>,
}

/// A line of the file as it was parsed; missing fields are empty.
#[derive(Debug, Clone)]
pub struct RawEntry {
    /// Field `type`: `file` or `dir`.
    pub kind: String,
    pub p: String,
    pub n: String,
    pub ext: String,
    pub parent: String,
    pub urls: Vec<RawUrl>,
}

/// A platform of the catalog, loaded in memory.
#[derive(Debug, Clone)]
pub struct PlatformIndex {
    pub id: String,
    pub display: String,
    pub entries: Vec<CatalogEntry>,
    /// Approximate memory, for the budget of the catalog.
    pub approx_bytes: usize,
    /// Lines dropped (broken JSON, or entries without a download).
    pub skipped: usize,
}

/// The text of a line worth parsing: the line without white space around
/// it, when something is left.
pub fn line_content(line: &str) -> (r: Option<String>)
    ensures
        match r {
            Some(t) => t@ == trim_ws(line@) && t@.len() > 0,
            None => trim_ws(line@).len() == 0,
        },
{
    let cs = chars_of(line);
    let (lo, hi) = trim_bounds(&cs);
    if lo == hi {
        return None;
    }
    Some(string_of(&slice_chars(&cs, lo, hi)))
}

/// The addresses that are not empty, in order.
pub open spec fn kept_urls(us: Seq<RawUrl>) -> Seq<EntryUrlView>
    decreases us.len(),
{
    if us.len() == 0 {
        seq![]
    } else if us.last().u@.len() == 0 {
        kept_urls(us.drop_last())
    } else {
        kept_urls(us.drop_last()).push(EntryUrlView { url: us.last().u@, label: opt_text(us.last().label) })
    }
}

/// The entry a parsed line gives: none for a folder (`type` `dir`) or a
/// line without a download (no address left once the empty ones are
/// dropped); the name falls back to the path; the search key is the
/// normalised name.
pub open spec fn entry_of(raw: RawEntry) -> Option<CatalogEntryView> {
    if raw.kind@ == "dir"@ || kept_urls(raw.urls@).len() == 0 {
        None
    } else {
        let name = if raw.n@.len() == 0 {
            raw.p@
        } else {
            raw.n@
        };
        Some(
            CatalogEntryView {
                name,
                path: raw.p@,
                ext: raw.ext@,
                parent: raw.parent@,
                urls: kept_urls(raw.urls@),
                search_key: normalized(name),
            },
        )
    }
}

pub fn entry_from_raw(raw: &RawEntry) -> (r: Option<CatalogEntry>)
    ensures
        match r {
            Some(e) => entry_of(*raw) == Some(e@),
            None => entry_of(*raw) is None,
        },
{
    if same_text(raw.kind.as_str(), "dir") || raw.urls.len() == 0 {
        return None;
    }
    let name = if raw.n.as_str().is_empty() {
        raw.p.clone()
    } else {
        raw.n.clone()
    };
    let mut urls: Vec<EntryUrl> = Vec::new();
    let mut i: usize = 0;
    while i < raw.urls.len()
        invariant
            i <= raw.urls.len(),
            url_views(urls@) == kept_urls(raw.urls@.take(i as int)),
        decreases raw.urls.len() - i,
    {
        let u = &raw.urls[i];
        assert(raw.urls@.take(i + 1).drop_last() == raw.urls@.take(i as int));
        assert(raw.urls@.take(i + 1).last() == *u);
        if !u.u.as_str().is_empty() {
            let ghost before = url_views(urls@);
            let eu = EntryUrl { url: u.u.clone(), label: crate::library::copy_opt_string(&u.label) };
            urls.push(eu);
            assert(url_views(urls@) =~= before.push(eu@));
        }
        i += 1;
    }
    assert(raw.urls@.take(raw.urls.len() as int) == raw.urls@);
    if urls.len() == 0 {
        return None;
    }
    let search_key = normalize(name.as_str());
    Some(
        CatalogEntry {
            name,
            path: raw.p.clone(),
            ext: raw.ext.clone(),
            parent: raw.parent.clone(),
            urls,
            search_key,
        },
    )
}

/// Entries, memory and dropped lines after reading the parsed lines in
/// order (`None` stands for a line that did not parse).
pub open spec fn platform_state(lines: Seq<Option<RawEntry>>) -> (Seq<CatalogEntryView>, nat, nat)
    decreases lines.len(),
{
    if lines.len() == 0 {
        (seq![], 0, 0)
    } else {
        let prev = platform_state(lines.drop_last());
        match lines.last() {
            None => (prev.0, prev.1, prev.2 + 1),
            Some(raw) => match entry_of(raw) {
                None => (prev.0, prev.1, prev.2 + 1),
                Some(e) => (prev.0.push(e), prev.1 + entry_weight(e), prev.2),
            },
        }
    }
}

proof fn lemma_platform_weight_prefix(lines: Seq<Option<RawEntry>>, i: int)
    requires
        0 <= i <= lines.len(),
    ensures
        platform_state(lines.take(i)).1 <= platform_state(lines).1,
        platform_state(lines.take(i)).2 <= i,
    decreases lines.len(),
{
    if i == lines.len() {
        assert(lines.take(i) == lines);
        lemma_platform_skipped_bound(lines);
    } else {
        lemma_platform_weight_prefix(lines.drop_last(), i);
        assert(lines.drop_last().take(i) == lines.take(i));
    }
}

proof fn lemma_platform_skipped_bound(lines: Seq<Option<RawEntry>>)
    ensures
        platform_state(lines).2 <= lines.len(),
    decreases lines.len(),
{
    if lines.len() > 0 {
        lemma_platform_skipped_bound(lines.drop_last());
    }
}

pub open spec fn entry_views(v: Seq<CatalogEntry>) -> Seq<CatalogEntryView> {
    v.map_values(|e: CatalogEntry| e@)
}

/// Builds the index of a platform from the parsed lines of its file
/// (blank lines left out; `None` for a line that did not parse).
pub fn load_platform(lines: &[Option<RawEntry>], id: &str) -> (index: PlatformIndex)
    requires
        platform_state(lines@).1 <= usize::MAX,
    ensures
        index.id@ == id@,
        index.display@ == display_name_of(id@),
        entry_views(index.entries@) == platform_state(lines@).0,
        index.approx_bytes == platform_state(lines@).1,
        index.skipped == platform_state(lines@).2,
{
    let mut entries: Vec<CatalogEntry> = Vec::new();
    let mut approx_bytes: usize = 0;
    let mut skipped: usize = 0;
    let mut i: usize = 0;
    while i < lines.len()
        invariant
            i <= lines.len(),
            platform_state(lines@).1 <= usize::MAX,
            entry_views(entries@) == platform_state(lines@.take(i as int)).0,
            approx_bytes == platform_state(lines@.take(i as int)).1,
            skipped == platform_state(lines@.take(i as int)).2,
        decreases lines.len() - i,
    {
        assert(lines@.take(i + 1).drop_last() == lines@.take(i as int));
        assert(lines@.take(i + 1).last() == lines@[i as int]);
        proof {
            lemma_platform_weight_prefix(lines@, i + 1);
        }
        match &lines[i] {
            None => {
                skipped += 1;
            },
            Some(raw) => match entry_from_raw(raw) {
                None => {
                    skipped += 1;
                },
                Some(e) => {
                    approx_bytes = approx_bytes + e.approx_bytes();
                    let ghost before = entry_views(entries@);
                    entries.push(e);
                    assert(entry_views(entries@) =~= before.push(e@));
                },
            },
        }
        i += 1;
    }
    assert(lines@.take(lines.len() as int) == lines@);
    PlatformIndex { id: owned(id), display: display_name(id), entries, approx_bytes, skipped }
}

} // verus!
