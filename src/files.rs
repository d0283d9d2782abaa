//! A directory listing: its entries in sort order, which of them are
//! visible, and how they are ordered.

use vstd::prelude::*;
use vstd::string::StringExecFns;
use crate::text::{contains_str, is_substring, lemma_lex_total, lex_le, name_le};

verus! {

broadcast use vstd::seq_lib::group_to_multiset_ensures;

/// Metadata of one entry, once fetched.
#[derive(Clone, Copy, Debug, PartialEq, Eq)]
pub struct Meta {
    pub size: u64,
    pub mtime: u64,
}

/// The key a listing is sorted by.
#[derive(Clone, Copy, Debug, PartialEq, Eq)]
pub enum SortBy {
    Name,
    Size,
    MTime,
}

/// One entry of a directory. Two entries are the same entry when their
/// names are equal.
#[derive(Clone, Debug)]
pub struct FileEntry {
    pub name: String,
    pub is_dir: bool,
    pub hidden: bool,
    pub selected: bool,
    pub tagged: bool,
    pub meta: Option<Meta>,
}

impl PartialEq for FileEntry {
    fn eq(&self, other: &FileEntry) -> (r: bool)
        ensures
            r == (self.name@ == other.name@),
    {
        self.name == other.name
    }
}

impl vstd::std_specs::cmp::PartialEqSpecImpl for FileEntry {
    open spec fn obeys_eq_spec() -> bool {
        true
    }

    open spec fn eq_spec(&self, other: &FileEntry) -> bool {
        self.name@ == other.name@
    }
}

pub open spec fn size_of(e: FileEntry) -> u64 {
    match e.meta {
        Some(m) => m.size,
        None => 0,
    }
}

pub open spec fn mtime_of(e: FileEntry) -> u64 {
    match e.meta {
        Some(m) => m.mtime,
        None => 0,
    }
}

pub open spec fn key_le(a: FileEntry, b: FileEntry, sort: SortBy) -> bool {
    match sort {
        SortBy::Name => lex_le(a.name@, b.name@),
        SortBy::Size => size_of(a) <= size_of(b),
        SortBy::MTime => mtime_of(a) <= mtime_of(b),
    }
}

/// The order of a listing: directories ahead when `dirs_first`, then by
/// the key, descending when `reverse`.
pub open spec fn entry_le(
    a: FileEntry,
    b: FileEntry,
    sort: SortBy,
    reverse: bool,
    dirs_first: bool,
) -> bool {
    if dirs_first && a.is_dir != b.is_dir {
        a.is_dir
    } else if reverse {
        key_le(b, a, sort)
    } else {
        key_le(a, b, sort)
    }
}

pub open spec fn sorted_by(s: Seq<FileEntry>, sort: SortBy, reverse: bool, dirs_first: bool) -> bool {
    forall|i: int| 0 <= i < s.len() - 1 ==> #[trigger] entry_le(s[i], s[i + 1], sort, reverse, dirs_first)
}

pub proof fn lemma_entry_le_total(a: FileEntry, b: FileEntry, sort: SortBy, reverse: bool, dirs_first: bool)
    ensures
        entry_le(a, b, sort, reverse, dirs_first) || entry_le(b, a, sort, reverse, dirs_first),
{
    lemma_lex_total(a.name@, b.name@);
}

proof fn lemma_insert_multiset(s: Seq<FileEntry>, p: int, e: FileEntry)
    requires
        0 <= p <= s.len(),
    ensures
        s.insert(p, e).to_multiset() =~= s.to_multiset().insert(e),
{
    let t = s.insert(p, e);
    assert(t.remove(p) =~= s);
    assert(t[p] == e);
    assert(t.to_multiset().count(e) > 0);
    assert(t.remove(p).to_multiset() =~= t.to_multiset().remove(e));
}

impl FileEntry {
    /// A copy with every field kept.
    pub fn duplicate(&self) -> (r: FileEntry)
        ensures
            r == *self,
    {
        FileEntry {
            name: self.name.clone(),
            is_dir: self.is_dir,
            hidden: self.hidden,
            selected: self.selected,
            tagged: self.tagged,
            meta: self.meta,
        }
    }
}

/// Whether `a` goes no later than `b` in the given order.
pub fn entry_before(a: &FileEntry, b: &FileEntry, sort: SortBy, reverse: bool, dirs_first: bool) -> (r: bool)
    ensures
        r == entry_le(*a, *b, sort, reverse, dirs_first),
{
    if dirs_first && a.is_dir != b.is_dir {
        return a.is_dir;
    }
    let (x, y) = if reverse { (b, a) } else { (a, b) };
    match sort {
        SortBy::Name => name_le(x.name.as_str(), y.name.as_str()),
        SortBy::Size => {
            let sx: u64 = match x.meta { Some(m) => m.size, None => 0 };
            let sy: u64 = match y.meta { Some(m) => m.size, None => 0 };
            sx <= sy
        },
        SortBy::MTime => {
            let tx: u64 = match x.meta { Some(m) => m.mtime, None => 0 };
            let ty: u64 = match y.meta { Some(m) => m.mtime, None => 0 };
            tx <= ty
        },
    }
}

/// Sorts the entries, keeping entries of equal rank in their order.
pub fn sort_entries(v: Vec<FileEntry>, sort: SortBy, reverse: bool, dirs_first: bool) -> (r: Vec<FileEntry>)
    ensures
        r@.to_multiset() == v@.to_multiset(),
        sorted_by(r@, sort, reverse, dirs_first),
{
    let mut rest = v;
    let mut out: Vec<FileEntry> = Vec::new();
    let ghost orig = rest@;
    while rest.len() > 0
        invariant
            out@.to_multiset().add(rest@.to_multiset()) =~= orig.to_multiset(),
            sorted_by(out@, sort, reverse, dirs_first),
        decreases rest.len(),
    {
        let ghost before = rest@;
        let e = rest.remove(0);
        proof {
            assert(before.to_multiset() =~= rest@.to_multiset().insert(e)) by {
                assert(before.remove(0) =~= rest@);
            }
        }
        let mut j: usize = out.len();
        while j > 0 && !entry_before(&out[j - 1], &e, sort, reverse, dirs_first)
            invariant
                j <= out.len(),
                sorted_by(out@, sort, reverse, dirs_first),
                forall|k: int| j <= k < out.len() ==> !entry_le(out@[k], e, sort, reverse, dirs_first),
            decreases j,
        {
            j = j - 1;
        }
        let ghost old_out = out@;
        assert(j > 0 ==> entry_le(old_out[j - 1], e, sort, reverse, dirs_first));
        proof {
            if j < out.len() {
                lemma_entry_le_total(old_out[j as int], e, sort, reverse, dirs_first);
            }
            lemma_insert_multiset(old_out, j as int, e);
        }
        out.insert(j, e);
        proof {
            let s = out@;
            assert forall|i: int| 0 <= i < s.len() - 1 implies #[trigger] entry_le(s[i], s[i + 1], sort, reverse, dirs_first) by {
                if i < j - 1 {
                    assert(s[i] == old_out[i] && s[i + 1] == old_out[i + 1]);
                    assert(entry_le(old_out[i], old_out[i + 1], sort, reverse, dirs_first));
                } else if i == j - 1 {
                    assert(s[i] == old_out[i] && s[i + 1] == e);
                } else if i == j {
                    assert(s[i] == e && s[i + 1] == old_out[i]);
                } else {
                    assert(s[i] == old_out[i - 1] && s[i + 1] == old_out[i]);
                    let k = i - 1;
                    assert(entry_le(old_out[k], old_out[k + 1], sort, reverse, dirs_first));
                }
            }
        }
    }
    proof {
        assert(rest@ =~= Seq::<FileEntry>::empty());
        assert(rest@.to_multiset() =~= vstd::multiset::Multiset::empty());
    }
    out
}

/// The entries of a directory, the settings that decide their order and
/// which are shown, and the indices of the shown ones.
#[derive(Debug)]
pub struct Files {
    pub files: Vec<FileEntry>,
    pub visible: Vec<usize>,
    pub show_hidden: bool,
    pub dirs_first: bool,
    pub sort: SortBy,
    pub reverse: bool,
    pub filter: Option<String>,
    pub filter_selected: bool,
    pub meta_upto: Option<usize>,
    pub dirty: bool,
}

pub open spec fn flip_selected(e: FileEntry) -> FileEntry {
    FileEntry { selected: !e.selected, ..e }
}

/// Whether an entry is shown under the given settings.
pub open spec fn shown(e: FileEntry, show_hidden: bool, filter: Option<Seq<char>>, filter_selected: bool) -> bool {
    &&& show_hidden || !e.hidden
    &&& match filter {
        Some(p) => is_substring(p, e.name@),
        None => true,
    }
    &&& !filter_selected || e.selected
}

/// Indices, ascending, of the entries among the first `n` of `files` that
/// the settings show.
pub open spec fn visible_in(
    files: Seq<FileEntry>,
    show_hidden: bool,
    filter: Option<Seq<char>>,
    filter_selected: bool,
    n: int,
) -> Seq<usize>
    decreases n,
{
    if n <= 0 {
        Seq::empty()
    } else if shown(files[n - 1], show_hidden, filter, filter_selected) {
        visible_in(files, show_hidden, filter, filter_selected, n - 1).push((n - 1) as usize)
    } else {
        visible_in(files, show_hidden, filter, filter_selected, n - 1)
    }
}

impl Files {
    pub open spec fn filter_view(self) -> Option<Seq<char>> {
        match self.filter {
            Some(p) => Some(p@),
            None => None,
        }
    }

    /// Whether the settings show `e`.
    pub open spec fn shows(self, e: FileEntry) -> bool {
        shown(e, self.show_hidden, self.filter_view(), self.filter_selected)
    }

    /// Indices, ascending, of the shown entries among the first `n`.
    pub open spec fn visible_upto(self, n: int) -> Seq<usize> {
        visible_in(self.files@, self.show_hidden, self.filter_view(), self.filter_selected, n)
    }

    pub open spec fn wf(self) -> bool {
        &&& self.files@.len() <= usize::MAX
        &&& self.visible@ == self.visible_upto(self.files@.len() as int)
        &&& self.visible@.len() <= self.files@.len()
    }

    /// Number of shown entries.
    pub open spec fn count(self) -> nat {
        self.visible@.len()
    }

    /// The shown entry at position `pos`.
    pub open spec fn entry_at(self, pos: int) -> FileEntry {
        self.files@[self.visible@[pos] as int]
    }

    pub open spec fn sorted(self) -> bool {
        sorted_by(self.files@, self.sort, self.reverse, self.dirs_first)
    }

    /// Position of the first shown entry named `name`, if any.
    pub open spec fn finds(self, name: Seq<char>, r: Option<usize>) -> bool {
        match r {
            Some(p) => {
                &&& p < self.count()
                &&& self.entry_at(p as int).name@ == name
                &&& forall|q: int| 0 <= q < p ==> self.entry_at(q).name@ != name
            },
            None => forall|q: int| 0 <= q < self.count() ==> self.entry_at(q).name@ != name,
        }
    }

    pub proof fn lemma_visible_bounds(self, n: int)
        requires
            0 <= n <= self.files@.len(),
            self.files@.len() <= usize::MAX,
        ensures
            self.visible_upto(n).len() <= n,
            forall|i: int| 0 <= i < self.visible_upto(n).len() ==> #[trigger] self.visible_upto(n)[i] < n,
            forall|i: int, j: int| 0 <= i < j < self.visible_upto(n).len() ==> self.visible_upto(n)[i] < self.visible_upto(n)[j],
            forall|k: int| 0 <= k < n ==> (self.shows(self.files@[k]) <==> self.visible_upto(n).contains(k as usize)),
        decreases n,
    {
        if n > 0 {
            self.lemma_visible_bounds(n - 1);
            let v = self.visible_upto(n - 1);
            if self.shows(self.files@[n - 1]) {
                assert(v.push((n - 1) as usize)[v.len() as int] == (n - 1) as usize);
                assert forall|k: int| 0 <= k < n implies (self.shows(self.files@[k]) <==> self.visible_upto(n).contains(k as usize)) by {
                    if k < n - 1 {
                        if v.contains(k as usize) {
                            let i = choose|i: int| 0 <= i < v.len() && v[i] == k as usize;
                            assert(self.visible_upto(n)[i] == k as usize);
                        }
                        if self.visible_upto(n).contains(k as usize) {
                            let i = choose|i: int| 0 <= i < self.visible_upto(n).len() && self.visible_upto(n)[i] == k as usize;
                            assert(i < v.len());
                            assert(v[i] == k as usize);
                        }
                    } else {
                        assert(self.visible_upto(n)[v.len() as int] == k as usize);
                    }
                }
            } else {
                assert forall|k: int| 0 <= k < n implies (self.shows(self.files@[k]) <==> self.visible_upto(n).contains(k as usize)) by {
                    if k == n - 1 && v.contains(k as usize) {
                        let i = choose|i: int| 0 <= i < v.len() && v[i] == k as usize;
                    }
                }
            }
        }
    }

    /// Whether the settings show `e`.
    pub fn is_shown(&self, e: &FileEntry) -> (r: bool)
        ensures
            r == self.shows(*e),
    {
        if !self.show_hidden && e.hidden {
            return false;
        }
        if self.filter_selected && !e.selected {
            return false;
        }
        match &self.filter {
            Some(p) => contains_str(e.name.as_str(), p.as_str()),
            None => true,
        }
    }

    /// Recomputes which entries are shown.
    pub fn refilter(&mut self)
        ensures
            final(self).wf(),
            final(self).files == old(self).files,
            final(self).show_hidden == old(self).show_hidden,
            final(self).dirs_first == old(self).dirs_first,
            final(self).sort == old(self).sort,
            final(self).reverse == old(self).reverse,
            final(self).filter == old(self).filter,
            final(self).filter_selected == old(self).filter_selected,
            final(self).meta_upto == old(self).meta_upto,
            final(self).dirty == old(self).dirty,
    {
        let mut v: Vec<usize> = Vec::new();
        let mut i: usize = 0;
        let n: usize = self.files.len();
        while i < n
            invariant
                n == self.files@.len(),
                i <= self.files@.len(),
                v@ == self.visible_upto(i as int),
            decreases self.files@.len() - i,
        {
            if self.is_shown(&self.files[i]) {
                v.push(i);
            }
            i = i + 1;
        }
        proof {
            self.lemma_visible_bounds(n as int);
        }
        self.visible = v;
    }

    /// A listing of `entries`, sorted by name with directories first,
    /// hidden entries not shown.
    pub fn new(entries: Vec<FileEntry>) -> (r: Files)
        ensures
            r.wf(),
            r.files@.to_multiset() == entries@.to_multiset(),
            r.sort == SortBy::Name,
            !r.reverse,
            r.dirs_first,
            !r.show_hidden,
            r.filter is None,
            !r.filter_selected,
            r.meta_upto is None,
            r.sorted(),
    {
        let files = sort_entries(entries, SortBy::Name, false, true);
        let mut r = Files {
            files,
            visible: Vec::new(),
            show_hidden: false,
            dirs_first: true,
            sort: SortBy::Name,
            reverse: false,
            filter: None,
            filter_selected: false,
            meta_upto: None,
            dirty: true,
        };
        proof {
            assert(r.files@.len() == r.files@.to_multiset().len());
            assert(entries@.len() == entries@.to_multiset().len());
        }
        r.refilter();
        r
    }

    pub fn len(&self) -> (r: usize)
        ensures
            r == self.count(),
    {
        self.visible.len()
    }

    /// The shown entry at `pos`.
    pub fn get(&self, pos: usize) -> (r: &FileEntry)
        requires
            self.wf(),
            pos < self.count(),
        ensures
            *r == self.entry_at(pos as int),
    {
        proof {
            self.lemma_visible_bounds(self.files@.len() as int);
        }
        &self.files[self.visible[pos]]
    }

    /// The first shown entry with the name of `e`.
    pub fn position_of(&self, e: &FileEntry) -> (r: Option<usize>)
        requires
            self.wf(),
        ensures
            self.finds(e.name@, r),
    {
        let mut p: usize = 0;
        while p < self.len()
            invariant
                self.wf(),
                p <= self.count(),
                forall|q: int| 0 <= q < p ==> self.entry_at(q).name@ != e.name@,
            decreases self.count() - p,
        {
            if *self.get(p) == *e {
                return Some(p);
            }
            p = p + 1;
        }
        None
    }

    /// Sorts the entries in the given order and recomputes what is shown.
    pub fn set_order(&mut self, sort: SortBy, reverse: bool, dirs_first: bool)
        ensures
            final(self).wf(),
            final(self).sorted(),
            final(self).files@.to_multiset() == old(self).files@.to_multiset(),
            final(self).sort == sort,
            final(self).reverse == reverse,
            final(self).dirs_first == dirs_first,
            final(self).show_hidden == old(self).show_hidden,
            final(self).filter == old(self).filter,
            final(self).filter_selected == old(self).filter_selected,
            final(self).dirty,
    {
        let mut taken: Vec<FileEntry> = Vec::new();
        std::mem::swap(&mut taken, &mut self.files);
        let ghost n = taken@.len();
        proof {
            assert(taken@.len() == taken@.to_multiset().len());
        }
        self.files = sort_entries(taken, sort, reverse, dirs_first);
        proof {
            assert(self.files@.len() == self.files@.to_multiset().len());
        }
        self.sort = sort;
        self.reverse = reverse;
        self.dirs_first = dirs_first;
        self.dirty = true;
        self.refilter();
    }
}

impl Files {
    /// Shows and hides entries by the same settings as `other`.
    pub open spec fn same_visibility(self, other: Files) -> bool {
        &&& self.show_hidden == other.show_hidden
        &&& self.filter == other.filter
        &&& self.filter_selected == other.filter_selected
    }

    /// `files` is the entries of `self` with the mark of every shown entry
    /// flipped when `invert`, else cleared.
    pub open spec fn marked(self, files: Seq<FileEntry>, invert: bool) -> bool {
        &&& files.len() == self.files@.len()
        &&& forall|k: int| 0 <= k < self.files@.len() ==> #[trigger] files[k] == if self.visible@.contains(k as usize) {
            FileEntry { selected: invert && !self.files@[k].selected, ..self.files@[k] }
        } else {
            self.files@[k]
        }
    }

    /// Keeps everything but the shown entries and `files`, which may differ.
    pub open spec fn same_settings(self, other: Files) -> bool {
        &&& self.show_hidden == other.show_hidden
        &&& self.dirs_first == other.dirs_first
        &&& self.sort == other.sort
        &&& self.reverse == other.reverse
        &&& self.filter == other.filter
        &&& self.filter_selected == other.filter_selected
        &&& self.meta_upto == other.meta_upto
    }

    fn replace_entry(&mut self, k: usize, e: FileEntry)
        requires
            k < old(self).files@.len(),
        ensures
            final(self).files@ == old(self).files@.update(k as int, e),
            final(self).visible == old(self).visible,
            final(self).same_settings(*old(self)),
            final(self).dirty == old(self).dirty,
    {
        self.files.set(k, e);
    }

    /// Shows or stops showing hidden entries.
    pub fn toggle_hidden(&mut self)
        ensures
            final(self).wf(),
            final(self).files == old(self).files,
            final(self).show_hidden == !old(self).show_hidden,
            final(self).filter == old(self).filter,
            final(self).filter_selected == old(self).filter_selected,
            final(self).sort == old(self).sort,
            final(self).reverse == old(self).reverse,
            final(self).dirs_first == old(self).dirs_first,
            final(self).dirty,
    {
        self.show_hidden = !self.show_hidden;
        self.dirty = true;
        self.refilter();
    }

    /// Shows only the entries whose name holds `filter`, or all of them.
    pub fn set_filter(&mut self, filter: Option<String>)
        ensures
            final(self).wf(),
            final(self).files == old(self).files,
            final(self).filter == filter,
            final(self).show_hidden == old(self).show_hidden,
            final(self).filter_selected == old(self).filter_selected,
            final(self).sort == old(self).sort,
            final(self).reverse == old(self).reverse,
            final(self).dirs_first == old(self).dirs_first,
            final(self).dirty,
    {
        self.filter = filter;
        self.dirty = true;
        self.refilter();
    }

    /// Shows only the selected entries, or all of them.
    pub fn toggle_filter_selected(&mut self)
        ensures
            final(self).wf(),
            final(self).files == old(self).files,
            final(self).filter_selected == !old(self).filter_selected,
            final(self).show_hidden == old(self).show_hidden,
            final(self).filter == old(self).filter,
            final(self).sort == old(self).sort,
            final(self).reverse == old(self).reverse,
            final(self).dirs_first == old(self).dirs_first,
            final(self).dirty,
    {
        self.filter_selected = !self.filter_selected;
        self.dirty = true;
        self.refilter();
    }

    /// Flips the mark of the shown entry at `pos`.
    pub fn toggle_selection(&mut self, pos: usize)
        requires
            old(self).wf(),
            pos < old(self).count(),
        ensures
            final(self).wf(),
            final(self).files@ == old(self).files@.update(
                old(self).visible@[pos as int] as int,
                flip_selected(old(self).entry_at(pos as int)),
            ),
            final(self).same_settings(*old(self)),
            !old(self).filter_selected ==> final(self).visible@ == old(self).visible@,
            final(self).dirty,
    {
        proof {
            self.lemma_visible_bounds(self.files@.len() as int);
        }
        let k: usize = self.visible[pos];
        let mut e = self.files[k].duplicate();
        e.selected = !e.selected;
        self.replace_entry(k, e);
        self.dirty = true;
        proof {
            if !self.filter_selected {
                lemma_visible_in_same(old(self).files@, self.files@, self.show_hidden, self.filter_view(), self.filter_selected, self.files@.len() as int);
            }
        }
        self.refilter();
    }

    /// Flips the tag of the shown entry at `pos`.
    pub fn toggle_tag(&mut self, pos: usize)
        requires
            old(self).wf(),
            pos < old(self).count(),
        ensures
            final(self).wf(),
            final(self).files@ == old(self).files@.update(
                old(self).visible@[pos as int] as int,
                FileEntry { tagged: !old(self).entry_at(pos as int).tagged, ..old(self).entry_at(pos as int) },
            ),
            final(self).same_settings(*old(self)),
            final(self).visible == old(self).visible,
            final(self).dirty,
    {
        proof {
            self.lemma_visible_bounds(self.files@.len() as int);
        }
        let k: usize = self.visible[pos];
        let mut e = self.files[k].duplicate();
        e.tagged = !e.tagged;
        self.replace_entry(k, e);
        self.dirty = true;
        proof {
            lemma_visible_in_same(old(self).files@, self.files@, self.show_hidden, self.filter_view(), self.filter_selected, self.files@.len() as int);
        }
    }

    /// Records the metadata of the shown entry at `pos`.
    pub fn set_meta(&mut self, pos: usize, meta: Meta)
        requires
            old(self).wf(),
            pos < old(self).count(),
        ensures
            final(self).wf(),
            final(self).files@ == old(self).files@.update(
                old(self).visible@[pos as int] as int,
                FileEntry { meta: Some(meta), ..old(self).entry_at(pos as int) },
            ),
            final(self).same_settings(*old(self)),
            final(self).visible == old(self).visible,
            final(self).dirty,
    {
        proof {
            self.lemma_visible_bounds(self.files@.len() as int);
        }
        let k: usize = self.visible[pos];
        let mut e = self.files[k].duplicate();
        e.meta = Some(meta);
        self.replace_entry(k, e);
        self.dirty = true;
        proof {
            assert(self.visible_upto(self.files@.len() as int) =~= old(self).visible_upto(old(self).files@.len() as int)) by {
                lemma_visible_in_same(old(self).files@, self.files@, self.show_hidden, self.filter_view(), self.filter_selected, self.files@.len() as int);
            }
        }
    }

    /// Sets the mark of every shown entry: flipped when `invert`, else
    /// cleared.
    pub fn mark_shown(&mut self, invert: bool)
        requires
            old(self).wf(),
        ensures
            final(self).wf(),
            old(self).marked(final(self).files@, invert),
            final(self).same_settings(*old(self)),
            final(self).dirty,
    {
        proof {
            self.lemma_visible_bounds(self.files@.len() as int);
        }
        let ghost orig = self.files@;
        let ghost vis = self.visible@;
        let mut p: usize = 0;
        let n: usize = self.visible.len();
        while p < n
            invariant
                n == vis.len(),
                self.visible@ == vis,
                p <= n,
                self.files@.len() == orig.len(),
                orig.len() <= usize::MAX,
                self.same_settings(*old(self)),
                forall|i: int| 0 <= i < vis.len() ==> #[trigger] vis[i] < orig.len(),
                forall|i: int, j: int| 0 <= i < j < vis.len() ==> vis[i] < vis[j],
                forall|k: int| 0 <= k < orig.len() ==> #[trigger] self.files@[k] == if vis.subrange(0, p as int).contains(k as usize) {
                    FileEntry { selected: invert && !orig[k].selected, ..orig[k] }
                } else {
                    orig[k]
                },
            decreases n - p,
        {
            let k: usize = self.visible[p];
            let mut e = self.files[k].duplicate();
            e.selected = invert && !e.selected;
            proof {
                assert(!vis.subrange(0, p as int).contains(k)) by {
                    if vis.subrange(0, p as int).contains(k) {
                        let i = choose|i: int| 0 <= i < p && #[trigger] vis.subrange(0, p as int)[i] == k;
                        assert(vis[i] == k);
                    }
                }
            }
            self.replace_entry(k, e);
            proof {
                assert forall|q: int| 0 <= q < orig.len() implies #[trigger] self.files@[q] == if vis.subrange(0, p + 1).contains(q as usize) {
                    FileEntry { selected: invert && !orig[q].selected, ..orig[q] }
                } else {
                    orig[q]
                } by {
                    if vis.subrange(0, p as int).contains(q as usize) {
                        let i = choose|i: int| 0 <= i < p && #[trigger] vis.subrange(0, p as int)[i] == q as usize;
                        assert(vis.subrange(0, p + 1)[i] == q as usize);
                    }
                    assert(vis.subrange(0, p + 1)[p as int] == k);
                    if vis.subrange(0, p + 1).contains(q as usize) && q != k {
                        let i = choose|i: int| 0 <= i < p + 1 && #[trigger] vis.subrange(0, p + 1)[i] == q as usize;
                        assert(vis.subrange(0, p as int)[i] == q as usize);
                    }
                    if q == k {
                        assert(vis.subrange(0, p + 1)[p as int] == q as usize);
                    }
                }
            }
            p = p + 1;
        }
        proof {
            assert(vis.subrange(0, n as int) =~= vis);
        }
        self.dirty = true;
        self.refilter();
    }
}

/// Entries that differ only in what visibility ignores are shown alike.
proof fn lemma_visible_in_same(
    a: Seq<FileEntry>,
    b: Seq<FileEntry>,
    show_hidden: bool,
    filter: Option<Seq<char>>,
    filter_selected: bool,
    n: int,
)
    requires
        0 <= n <= a.len(),
        a.len() == b.len(),
        forall|k: int| 0 <= k < n ==> shown(a[k], show_hidden, filter, filter_selected) == shown(b[k], show_hidden, filter, filter_selected),
    ensures
        visible_in(a, show_hidden, filter, filter_selected, n) == visible_in(b, show_hidden, filter, filter_selected, n),
    decreases n,
{
    if n > 0 {
        lemma_visible_in_same(a, b, show_hidden, filter, filter_selected, n - 1);
    }
}

/// The row an empty directory shows.
pub open spec fn is_placeholder(e: FileEntry) -> bool {
    &&& e.name@ == seq!['<', 'e', 'm', 'p', 't', 'y', '>']
    &&& !e.is_dir
    &&& !e.hidden
    &&& !e.selected
    &&& !e.tagged
    &&& e.meta is None
}

impl Files {
    /// Gives an empty directory its placeholder row.
    pub fn add_placeholder(&mut self)
        ensures
            final(self).wf(),
            final(self).same_settings(*old(self)),
            old(self).files@.len() == 0 ==> final(self).files@.len() == 1 && is_placeholder(final(self).files@[0]),
            old(self).files@.len() > 0 ==> final(self).files == old(self).files,
    {
        if self.files.len() == 0 {
            proof {
                reveal_strlit("<empty>");
            }
            let name = String::from_str("<empty>");
            assert(name@ =~= seq!['<', 'e', 'm', 'p', 't', 'y', '>']);
            self.files.push(FileEntry { name, is_dir: false, hidden: false, selected: false, tagged: false, meta: None });
        }
        self.refilter();
    }
}

} // verus!
