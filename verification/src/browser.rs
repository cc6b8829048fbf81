//! The file browser that is driven with a pad: which entries of a folder it
//! shows, in which order, and where "open" and "up" lead. Reading the folder
//! is the program's part; it hands the entries over.

use vstd::prelude::*;
use crate::input::NavAction;
use crate::shell::BrowserPurpose;
use crate::nav::{list_after, move_list};
use crate::text::{
    lemma_seq_lt_total, lemma_seq_lt_transitive,
    owned, push_str, same_text, seq_lt, str_to_lowercase, text_lower, text_lt, chars_of,
};

verus! {

#[derive(Debug, Clone, Copy, PartialEq, Eq, Structural)]
pub enum Filter {
    /// Programs that can be started.
    Executables,
    /// Folders only (to pick a folder to import).
    Directories,
}

/// An entry of a folder.
#[derive(Debug, Clone)]
pub struct Item {
    pub name: String,
    pub path: String,
    pub is_dir: bool,
    pub size: u64,
}

impl Item {
    pub fn duplicate(&self) -> (r: Item)
        ensures
            r == *self,
    {
        Item { name: self.name.clone(), path: self.path.clone(), is_dir: self.is_dir, size: self.size }
    }
}

/// What `Path::extension` gives for a path.
pub uninterp spec fn path_extension(path: Seq<char>) -> Option<Seq<char>>;

/// What `Path::parent` gives for a path.
pub uninterp spec fn path_parent(path: Seq<char>) -> Option<Seq<char>>;

/// `Path::extension`, converted to text.
#[verifier::external_body]
pub(crate) fn extension_of(path: &str) -> (r: Option<String>)
    ensures
        match r {
            Some(e) => path_extension(path@) == Some(e@),
            None => path_extension(path@) is None,
        },
{
    std::path::Path::new(path).extension().map(|e| e.to_string_lossy().to_string())
}

/// `Path::parent`, converted to text.
#[verifier::external_body]
pub(crate) fn parent_of(path: &str) -> (r: Option<String>)
    ensures
        match r {
            Some(p) => path_parent(path@) == Some(p@),
            None => path_parent(path@) is None,
        },
{
    std::path::Path::new(path).parent().map(|p| p.to_string_lossy().to_string())
}

/// The extensions of programs that can be started.
pub open spec fn executable_exts() -> Seq<Seq<char>> {
    seq!["exe"@, "lnk"@, "bat"@, "cmd"@, "url"@, "msi"@]
}

pub open spec fn extension_or_empty(path: Seq<char>) -> Seq<char> {
    match path_extension(path) {
        Some(e) => e,
        None => seq![],
    }
}

/// A file is offered: with the program filter, when its extension in small
/// letters is one of a program's; with the folder filter, never.
pub open spec fn accepted(filter: Filter, path: Seq<char>) -> bool {
    match filter {
        Filter::Executables => executable_exts().contains(text_lower(extension_or_empty(path))),
        Filter::Directories => false,
    }
}

/// Whether a file is offered under the filter.
pub fn accepts(filter: Filter, path: &str) -> (r: bool)
    ensures
        r == accepted(filter, path@),
{
    match filter {
        Filter::Directories => false,
        Filter::Executables => {
            let ext = match extension_of(path) {
                Some(e) => str_to_lowercase(e.as_str()),
                None => str_to_lowercase(""),
            };
            proof {
                if path_extension(path@) is None {
                    assert(""@ == Seq::<char>::empty()) by {
                        reveal_strlit("");
                    }
                }
            }
            let exts: Vec<&str> = vec!["exe", "lnk", "bat", "cmd", "url", "msi"];
            assert(forall|k: int| 0 <= k < exts@.len() ==> #[trigger] exts@[k]@ == executable_exts()[k]);
            let mut i: usize = 0;
            while i < exts.len()
                invariant
                    i <= exts@.len() == executable_exts().len(),
                    filter == Filter::Executables,
                    ext@ == text_lower(extension_or_empty(path@)),
                    forall|k: int| 0 <= k < exts@.len() ==> #[trigger] exts@[k]@ == executable_exts()[k],
                    forall|k: int| 0 <= k < i ==> executable_exts()[k] != ext@,
                decreases exts.len() - i,
            {
                if same_text(ext.as_str(), exts[i]) {
                    assert(executable_exts()[i as int] == ext@);
                    assert(executable_exts().contains(ext@));
                    assert(accepted(filter, path@));
                    return true;
                }
                i += 1;
            }
            false
        },
    }
}

/// Hidden entries (a name that starts with a dot) are never listed.
pub open spec fn hidden(name: Seq<char>) -> bool {
    name.len() > 0 && name[0] == '.'
}

/// An entry is listed: not hidden, and a folder or an offered file.
pub open spec fn shown(filter: Filter, it: Item) -> bool {
    !hidden(it.name@) && (it.is_dir || accepted(filter, it.path@))
}

/// The entries that are listed, in the order they were read.
pub open spec fn kept_items(filter: Filter, entries: Seq<Item>) -> Seq<Item>
    decreases entries.len(),
{
    if entries.len() == 0 {
        seq![]
    } else if shown(filter, entries.last()) {
        kept_items(filter, entries.drop_last()).push(entries.last())
    } else {
        kept_items(filter, entries.drop_last())
    }
}

pub open spec fn low_name(it: Item) -> Seq<char> {
    text_lower(it.name@)
}

/// Entry `a` is listed before entry `b`: folders first, then by name in
/// small letters, then as they were read.
pub open spec fn listed_before(items: Seq<Item>, a: int, b: int) -> bool {
    ||| items[a].is_dir && !items[b].is_dir
    ||| items[a].is_dir == items[b].is_dir && seq_lt(low_name(items[a]), low_name(items[b]))
    ||| items[a].is_dir == items[b].is_dir && low_name(items[a]) == low_name(items[b]) && a < b
}

proof fn lemma_listed_total(items: Seq<Item>, a: int, b: int)
    requires
        a != b,
    ensures
        listed_before(items, a, b) || listed_before(items, b, a),
{
    lemma_seq_lt_total(low_name(items[a]), low_name(items[b]));
}

proof fn lemma_listed_transitive(items: Seq<Item>, a: int, b: int, c: int)
    requires
        listed_before(items, a, b),
        listed_before(items, b, c),
    ensures
        listed_before(items, a, c),
{
    let (na, nb, nc) = (low_name(items[a]), low_name(items[b]), low_name(items[c]));
    if seq_lt(na, nb) && seq_lt(nb, nc) {
        lemma_seq_lt_transitive(na, nb, nc);
    }
}

/// `order` lists every position of `items` once, in listing order.
pub open spec fn is_listing_order(items: Seq<Item>, order: Seq<int>) -> bool {
    &&& order.len() == items.len()
    &&& forall|i: int| 0 <= i < order.len() ==> 0 <= #[trigger] order[i] < items.len()
    &&& forall|j: int| 0 <= j < items.len() ==> order.contains(j)
    &&& forall|i: int, k: int|
        0 <= i < k < order.len() ==> listed_before(items, #[trigger] order[i], #[trigger] order[k])
}

/// `out` is `items` in listing order.
pub open spec fn is_listing(items: Seq<Item>, out: Seq<Item>) -> bool {
    exists|order: Seq<int>|
        #[trigger] is_listing_order(items, order) && out.len() == order.len() && forall|i: int|
            0 <= i < out.len() ==> #[trigger] out[i] == items[order[i]]
}

fn listed_before_at(items: &Vec<Item>, a: usize, b: usize) -> (r: bool)
    requires
        a < items.len(),
        b < items.len(),
    ensures
        r == listed_before(items@, a as int, b as int),
{
    let ia = &items[a];
    let ib = &items[b];
    if ia.is_dir != ib.is_dir {
        return ia.is_dir;
    }
    let la = str_to_lowercase(ia.name.as_str());
    let lb = str_to_lowercase(ib.name.as_str());
    if text_lt(la.as_str(), lb.as_str()) {
        return true;
    }
    same_text(la.as_str(), lb.as_str()) && a < b
}

/// Inserts position `j` into `r`, kept in listing order.
fn insert_listed(items: &Vec<Item>, r: &mut Vec<usize>, j: usize)
    requires
        j < items.len(),
        forall|i: int| 0 <= i < old(r)@.len() ==> old(r)@[i] < j,
        forall|i: int, k: int|
            0 <= i < k < old(r)@.len() ==> listed_before(items@, old(r)@[i] as int, old(r)@[k] as int),
    ensures
        final(r)@.len() == old(r)@.len() + 1,
        forall|i: int| 0 <= i < final(r)@.len() ==> final(r)@[i] <= j,
        forall|x: usize| final(r)@.contains(x) <==> (old(r)@.contains(x) || x == j),
        forall|i: int, k: int|
            0 <= i < k < final(r)@.len() ==> listed_before(items@, final(r)@[i] as int, final(r)@[k] as int),
{
    let ghost old_r = r@;
    let mut p: usize = 0;
    while p < r.len() && !listed_before_at(items, j, r[p])
        invariant
            p <= r.len(),
            r@ == old_r,
            j < items.len(),
            forall|i: int| 0 <= i < r@.len() ==> r@[i] < j,
            forall|i: int| 0 <= i < p ==> !listed_before(items@, j as int, r@[i] as int),
        decreases r.len() - p,
    {
        p += 1;
    }
    proof {
        assert forall|i: int| 0 <= i < p implies listed_before(items@, r@[i] as int, j as int) by {
            lemma_listed_total(items@, r@[i] as int, j as int);
        }
        assert forall|k: int| p <= k < r@.len() implies listed_before(items@, j as int, r@[k] as int) by {
            if k > p {
                lemma_listed_transitive(items@, j as int, r@[p as int] as int, r@[k] as int);
            }
        }
    }
    r.insert(p, j);
    proof {
        assert forall|i: int, k: int| 0 <= i < k < r@.len() implies listed_before(
            items@,
            r@[i] as int,
            r@[k] as int,
        ) by {
            if k < p {
                assert(r@[i] == old_r[i] && r@[k] == old_r[k]);
            } else if k == p {
                assert(r@[i] == old_r[i]);
            } else if i < p {
                assert(r@[i] == old_r[i] && r@[k] == old_r[k - 1]);
                lemma_listed_transitive(items@, r@[i] as int, j as int, r@[k] as int);
            } else if i == p {
                assert(r@[k] == old_r[k - 1]);
            } else {
                assert(r@[i] == old_r[i - 1] && r@[k] == old_r[k - 1]);
            }
        }
        assert forall|x: usize| r@.contains(x) <==> (old_r.contains(x) || x == j) by {
            if old_r.contains(x) {
                let i0 = choose|i: int| 0 <= i < old_r.len() && old_r[i] == x;
                if i0 < p {
                    assert(r@[i0] == x);
                } else {
                    assert(r@[i0 + 1] == x);
                }
            }
            if x == j {
                assert(r@[p as int] == j);
            }
            if r@.contains(x) {
                let i0 = choose|i: int| 0 <= i < r@.len() && r@[i] == x;
                if i0 < p {
                    assert(old_r[i0] == x);
                } else if i0 > p {
                    assert(old_r[i0 - 1] == x);
                }
            }
        }
        assert forall|i: int| 0 <= i < r@.len() implies r@[i] <= j by {
            if i < p {
                assert(r@[i] == old_r[i]);
            } else if i > p {
                assert(r@[i] == old_r[i - 1]);
            }
        }
    }
}

/// The entries of a folder as the browser lists them: hidden ones and
/// files the filter does not offer left out, folders first, then by name
/// in small letters.
pub fn listing(filter: Filter, entries: &Vec<Item>) -> (out: Vec<Item>)
    ensures
        is_listing(kept_items(filter, entries@), out@),
{
    let mut kept: Vec<Item> = Vec::new();
    let mut i: usize = 0;
    while i < entries.len()
        invariant
            i <= entries@.len(),
            kept@ == kept_items(filter, entries@.take(i as int)),
        decreases entries.len() - i,
    {
        assert(entries@.take(i + 1).drop_last() == entries@.take(i as int));
        let it = &entries[i];
        let name = chars_of(it.name.as_str());
        let is_hidden = name.len() > 0 && name[0] == '.';
        if !is_hidden && (it.is_dir || accepts(filter, it.path.as_str())) {
            kept.push(it.duplicate());
        }
        i += 1;
    }
    assert(entries@.take(entries@.len() as int) == entries@);
    let mut r: Vec<usize> = Vec::new();
    let mut j: usize = 0;
    while j < kept.len()
        invariant
            j <= kept.len(),
            r@.len() == j,
            forall|i: int| 0 <= i < r@.len() ==> r@[i] < j,
            forall|x: usize| r@.contains(x) <==> x < j,
            forall|i: int, k: int| 0 <= i < k < r@.len() ==> listed_before(kept@, r@[i] as int, r@[k] as int),
        decreases kept.len() - j,
    {
        let ghost old_r = r@;
        insert_listed(&kept, &mut r, j);
        assert forall|x: usize| r@.contains(x) <==> x < j + 1 by {
            if x < j {
                assert(old_r.contains(x));
            }
        }
        assert forall|i: int| 0 <= i < r@.len() implies r@[i] < j + 1 by {
            assert(r@[i] <= j);
        }
        j += 1;
    }
    let ghost order = r@.map_values(|x: usize| x as int);
    assert forall|q: int| 0 <= q < kept@.len() implies order.contains(q) by {
        assert(r@.contains(q as usize));
        let i0 = choose|i: int| 0 <= i < r@.len() && r@[i] == q as usize;
        assert(order[i0] == q);
    }
    let mut out: Vec<Item> = Vec::new();
    let mut k: usize = 0;
    while k < r.len()
        invariant
            k <= r.len(),
            r@.len() == kept@.len(),
            order == r@.map_values(|x: usize| x as int),
            forall|i: int| 0 <= i < r@.len() ==> r@[i] < kept@.len(),
            out@.len() == k,
            forall|i: int| 0 <= i < k ==> #[trigger] out@[i] == kept@[order[i]],
        decreases r.len() - k,
    {
        out.push(kept[r[k]].duplicate());
        k += 1;
    }
    assert(is_listing_order(kept@, order));
    out
}

/// The browser: the folder shown (`None` for the list of drives), its
/// entries, the one under the focus, and the last error.
pub struct Browser {
    pub cwd: Option<String>,
    pub items: Vec<Item>,
    pub selected: usize,
    pub filter: Filter,
    pub error: Option<String>,
}

pub open spec fn opt_view(o: Option<String>) -> Option<Seq<char>> {
    match o {
        Some(s) => Some(s@),
        None => None,
    }
}

/// The message shown when a folder cannot be read.
pub open spec fn unreadable_message(dir: Seq<char>, why: Seq<char>) -> Seq<char> {
    "no se puede abrir "@ + dir + ": "@ + why
}

impl Browser {
    /// A browser on `start`, empty until the program reads the folder.
    pub fn new(filter: Filter, start: Option<String>) -> (b: Browser)
        ensures
            opt_view(b.cwd) == opt_view(start),
            b.items@.len() == 0,
            b.selected == 0,
            b.filter == filter,
            b.error is None,
    {
        Browser { cwd: start, items: Vec::new(), selected: 0, filter, error: None }
    }

    /// The heading: the folder shown, or "Equipo" for the drives.
    pub fn title(&self) -> (s: String)
        ensures
            s@ == (match self.cwd {
                Some(p) => p@,
                None => "Equipo"@,
            }),
    {
        match &self.cwd {
            Some(p) => p.clone(),
            None => owned("Equipo"),
        }
    }

    /// Shows what was read from the folder: the listed entries, or the
    /// reason it could not be read. The focus goes back to the top.
    pub fn refresh_with(&mut self, read: Result<Vec<Item>, String>)
        ensures
            final(self).selected == 0,
            opt_view(final(self).cwd) == opt_view(old(self).cwd),
            final(self).filter == old(self).filter,
            match read {
                Ok(entries) => final(self).error is None && is_listing(
                    kept_items(old(self).filter, entries@),
                    final(self).items@,
                ),
                Err(why) => final(self).items@.len() == 0 && (final(self).error matches Some(m)
                    && m@ == unreadable_message(
                    match old(self).cwd {
                        Some(p) => p@,
                        None => Seq::<char>::empty(),
                    },
                    why@,
                )),
            },
    {
        self.error = None;
        match read {
            Ok(entries) => {
                self.items = listing(self.filter, &entries);
            },
            Err(why) => {
                self.items = Vec::new();
                let mut m = owned("no se puede abrir ");
                match &self.cwd {
                    Some(p) => push_str(&mut m, p.as_str()),
                    None => {},
                }
                push_str(&mut m, ": ");
                push_str(&mut m, why.as_str());
                self.error = Some(m);
            },
        }
        self.selected = 0;
    }

    /// Shows the list of drives as given.
    pub fn show_roots(&mut self, roots: Vec<Item>)
        requires
            old(self).cwd is None,
        ensures
            final(self).items@ == roots@,
            final(self).selected == 0,
            final(self).error is None,
            final(self).cwd is None,
            final(self).filter == old(self).filter,
    {
        self.error = None;
        self.items = roots;
        self.selected = 0;
    }

    /// Moves the focus in the list, wrapping at both ends.
    pub fn navigate(&mut self, action: NavAction)
        ensures
            final(self).selected == list_after(old(self).selected as nat, old(self).items@.len(), action),
            final(self).items@ == old(self).items@,
            opt_view(final(self).cwd) == opt_view(old(self).cwd),
            final(self).filter == old(self).filter,
            opt_view(final(self).error) == opt_view(old(self).error),
    {
        self.selected = move_list(self.selected, self.items.len(), action);
    }

    /// Goes up one level; from the top of a drive, to the list of drives.
    /// Returns `false` when already at the list of drives. The program reads
    /// the new folder afterwards.
    pub fn go_up(&mut self) -> (moved: bool)
        ensures
            moved == (old(self).cwd is Some),
            match old(self).cwd {
                Some(c) => match path_parent(c@) {
                    Some(p) => if p != c@ {
                        opt_view(final(self).cwd) == Some(p)
                    } else {
                        final(self).cwd is None
                    },
                    None => final(self).cwd is None,
                },
                None => final(self).cwd is None,
            },
            !moved ==> *final(self) == *old(self),
            final(self).items@ == old(self).items@,
            final(self).filter == old(self).filter,
            final(self).selected == old(self).selected,
            final(self).error == old(self).error,
    {
        let current = match &self.cwd {
            Some(c) => c.clone(),
            None => {
                return false;
            },
        };
        match parent_of(current.as_str()) {
            Some(parent) => {
                if same_text(parent.as_str(), current.as_str()) {
                    self.cwd = None;
                } else {
                    self.cwd = Some(parent);
                }
            },
            None => {
                self.cwd = None;
            },
        }
        true
    }

    /// Opens the entry under the focus: a folder becomes the one shown
    /// (the program reads it next) and nothing is returned; a file is
    /// returned.
    pub fn open_selected(&mut self) -> (r: Option<String>)
        ensures
            old(self).selected >= old(self).items@.len() ==> r is None && opt_view(final(self).cwd)
                == opt_view(old(self).cwd),
            old(self).selected < old(self).items@.len() ==> {
                let it = old(self).items@[old(self).selected as int];
                if it.is_dir {
                    r is None && opt_view(final(self).cwd) == Some(it.path@)
                } else {
                    (r matches Some(p) && p@ == it.path@) && opt_view(final(self).cwd) == opt_view(
                        old(self).cwd,
                    )
                }
            },
            final(self).items@ == old(self).items@,
            final(self).filter == old(self).filter,
            final(self).selected == old(self).selected,
            opt_view(final(self).error) == opt_view(old(self).error),
    {
        if self.selected >= self.items.len() {
            return None;
        }
        let it = self.items[self.selected].duplicate();
        if it.is_dir {
            self.cwd = Some(it.path);
            None
        } else {
            Some(it.path)
        }
    }

    /// The folder shown (for picking a folder).
    pub fn current_dir(&self) -> (r: Option<String>)
        ensures
            opt_view(r) == opt_view(self.cwd),
    {
        match &self.cwd {
            Some(c) => Some(c.clone()),
            None => None,
        }
    }
}

/// The browser picks programs to add; for anything else, folders.
pub open spec fn filter_of(purpose: BrowserPurpose) -> Filter {
    match purpose {
        BrowserPurpose::AddExecutable => Filter::Executables,
        _ => Filter::Directories,
    }
}

/// What the browser is opened to show, for what it was opened for.
pub fn filter_for(purpose: BrowserPurpose) -> (f: Filter)
    ensures
        f == filter_of(purpose),
{
    match purpose {
        BrowserPurpose::AddExecutable => Filter::Executables,
        _ => Filter::Directories,
    }
}

/// Programs are offered whatever the case of their extension: `.exe`,
/// `.lnk` shortcuts, `.bat` and `.cmd` scripts, `.url` links and `.msi`
/// installers; under the folder filter no file is.
pub proof fn lemma_programs_offered(path: Seq<char>)
    ensures
        path_extension(path) == Some("exe"@) || path_extension(path) == Some("EXE"@) ==> accepted(Filter::Executables, path),
        path_extension(path) == Some("lnk"@) || path_extension(path) == Some("LNK"@) ==> accepted(Filter::Executables, path),
        path_extension(path) == Some("bat"@) || path_extension(path) == Some("BAT"@) ==> accepted(Filter::Executables, path),
        path_extension(path) == Some("cmd"@) || path_extension(path) == Some("CMD"@) ==> accepted(Filter::Executables, path),
        path_extension(path) == Some("url"@) || path_extension(path) == Some("URL"@) ==> accepted(Filter::Executables, path),
        path_extension(path) == Some("msi"@) || path_extension(path) == Some("MSI"@) ==> accepted(Filter::Executables, path),
        !accepted(Filter::Directories, path),
{
    {
        reveal_strlit("exe");
        reveal_strlit("EXE");
        assert(text_lower("exe"@) =~= "exe"@);
        assert(text_lower("EXE"@) =~= "exe"@);
        assert(executable_exts()[0] == "exe"@);
    }
    {
        reveal_strlit("lnk");
        reveal_strlit("LNK");
        assert(text_lower("lnk"@) =~= "lnk"@);
        assert(text_lower("LNK"@) =~= "lnk"@);
        assert(executable_exts()[1] == "lnk"@);
    }
    {
        reveal_strlit("bat");
        reveal_strlit("BAT");
        assert(text_lower("bat"@) =~= "bat"@);
        assert(text_lower("BAT"@) =~= "bat"@);
        assert(executable_exts()[2] == "bat"@);
    }
    {
        reveal_strlit("cmd");
        reveal_strlit("CMD");
        assert(text_lower("cmd"@) =~= "cmd"@);
        assert(text_lower("CMD"@) =~= "cmd"@);
        assert(executable_exts()[3] == "cmd"@);
    }
    {
        reveal_strlit("url");
        reveal_strlit("URL");
        assert(text_lower("url"@) =~= "url"@);
        assert(text_lower("URL"@) =~= "url"@);
        assert(executable_exts()[4] == "url"@);
    }
    {
        reveal_strlit("msi");
        reveal_strlit("MSI");
        assert(text_lower("msi"@) =~= "msi"@);
        assert(text_lower("MSI"@) =~= "msi"@);
        assert(executable_exts()[5] == "msi"@);
    }
}

} // verus!
