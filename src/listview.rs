//! The file listing panel: a viewport bound to a listing, with search,
//! filter, marks and sort order, which keeps the selected entry selected
//! when the listing changes shape.

use vstd::prelude::*;
use crate::files::{sorted_by, visible_in, FileEntry, Files, SortBy};
use crate::text::{contains_str, is_substring};
use crate::viewport::{last_index, Movement, Viewport};

verus! {

/// What `str::to_lowercase` makes of a string.
pub uninterp spec fn lower_of(s: Seq<char>) -> Seq<char>;

/// Relies on `str::to_lowercase`: the result depends on the characters
/// alone, and an empty string stays empty.
#[verifier::external_body]
fn lowercase(s: &str) -> (r: String)
    ensures
        r@ == lower_of(s@),
        s@.len() == 0 ==> r@.len() == 0,
{
    s.to_lowercase()
}

/// Why a list action did nothing.
#[derive(Clone, Copy, Debug, PartialEq, Eq)]
pub enum ListError {
    NoSearchPattern,
    NoMoreMatches,
}

/// Where a walk starts: the first row showing `prev`, else the top.
pub open spec fn walk_from(c: Files, prev: Option<FileEntry>) -> int {
    match prev {
        Some(f) => if exists|p: usize| c.finds(f.name@, Some(p)) {
            (choose|p: usize| c.finds(f.name@, Some(p))) as int
        } else {
            0
        },
        None => 0,
    }
}

/// One step of a walk over `n` rows from row `i`: a walk that was not
/// already going on, or that runs past an end, starts over at the first
/// row going forward and at the last going back.
pub open spec fn walk_step(i: int, n: nat, seeking: bool, forward: bool) -> int {
    if forward {
        if !seeking || i + 1 >= n { 0 } else { i + 1 }
    } else {
        if !seeking || i == 0 { last_index(n) as int } else { i - 1 }
    }
}

/// Whether `name` matches the search `pattern`, ignoring case.
pub open spec fn search_match(pattern: Seq<char>, name: Seq<char>) -> bool {
    is_substring(lower_of(pattern), lower_of(name))
}

#[derive(Debug)]
pub struct ListView {
    pub content: Files,
    pub current_item: Option<FileEntry>,
    pub view: Viewport,
    pub seeking: bool,
    pub searching: Option<String>,
}

impl ListView {
    pub open spec fn wf(self) -> bool {
        &&& self.content.wf()
        &&& self.view.wf(self.content.count())
    }

    pub open spec fn selection(self) -> int {
        self.view.selection as int
    }

    /// The entry under the cursor, if the listing shows any.
    pub open spec fn selected(self) -> Option<FileEntry> {
        if self.content.count() == 0 {
            None
        } else {
            Some(self.content.entry_at(self.selection()))
        }
    }

    /// The selection follows the entry named `name`: it is on that entry
    /// where the listing shows it, and on the first row where it does not.
    pub open spec fn tracks(self, name: Seq<char>) -> bool {
        &&& forall|q: int|
            0 <= q < self.content.count() && #[trigger] self.content.entry_at(q).name@ == name
                ==> self.content.entry_at(self.selection()).name@ == name
        &&& (forall|q: int| 0 <= q < self.content.count() ==> #[trigger] self.content.entry_at(q).name@ != name)
                ==> self.selection() == 0
    }

    /// Keeps the selection of `prev` across a change of the listing.
    pub open spec fn kept(self, prev: Option<FileEntry>) -> bool {
        match prev {
            Some(f) => self.tracks(f.name@),
            None => self.selection() == 0,
        }
    }

    /// A panel over `content` whose viewport shows `height` rows.
    pub fn new(height: usize, content: Files) -> (r: ListView)
        requires
            height >= 1,
            content.wf(),
        ensures
            r.wf(),
            r.content == content,
            r.view == (Viewport { selection: 0, offset: 0, height }),
            r.current_item == r.selected(),
            !r.seeking,
            r.searching is None,
    {
        let mut r = ListView {
            content,
            current_item: None,
            view: Viewport::new(height),
            seeking: false,
            searching: None,
        };
        r.update_selected_file();
        r
    }

    pub fn len(&self) -> (r: usize)
        ensures
            r == self.content.count(),
    {
        self.content.len()
    }

    pub fn get_selection(&self) -> (r: usize)
        ensures
            r == self.view.selection,
    {
        self.view.get_selection()
    }

    /// A copy of the entry under the cursor.
    pub fn clone_selected_file(&self) -> (r: Option<FileEntry>)
        requires
            self.wf(),
        ensures
            r == self.selected(),
    {
        if self.content.len() == 0 {
            None
        } else {
            Some(self.content.get(self.view.selection).duplicate())
        }
    }

    /// The entry recorded as under the cursor.
    pub fn selected_file(&self) -> (r: Option<&FileEntry>)
        ensures
            r == match self.current_item {
                Some(f) => Some(&f),
                None => None::<&FileEntry>,
            },
    {
        match &self.current_item {
            Some(f) => Some(f),
            None => None,
        }
    }

    /// Records the entry under the cursor.
    pub fn update_selected_file(&mut self)
        requires
            old(self).wf(),
        ensures
            *final(self) == (ListView { current_item: old(self).selected(), ..*old(self) }),
    {
        self.current_item = self.clone_selected_file();
    }

    /// Moves the cursor to `position` and records the entry there.
    pub fn set_selection(&mut self, position: usize)
        requires
            old(self).wf(),
            position <= last_index(old(self).content.count()),
        ensures
            final(self).wf(),
            final(self).view == old(self).view.select(position as nat),
            final(self).content == old(self).content,
            final(self).current_item == final(self).selected(),
            final(self).seeking == old(self).seeking,
            final(self).searching == old(self).searching,
    {
        self.view.set_selection(position);
        self.update_selected_file();
    }

    /// Moves the cursor to the first shown entry equal to `file`, or to the
    /// first row where none is.
    pub fn select_file(&mut self, file: &FileEntry)
        requires
            old(self).wf(),
        ensures
            final(self).wf(),
            final(self).content == old(self).content,
            final(self).view.height == old(self).view.height,
            final(self).view == old(self).view.select(final(self).view.selection as nat),
            final(self).tracks(file.name@),
            final(self).content.finds(file.name@, Some(final(self).view.selection))
                || (final(self).content.finds(file.name@, None) && final(self).view.selection == 0),
            final(self).current_item == final(self).selected(),
            final(self).seeking == old(self).seeking,
            final(self).searching == old(self).searching,
    {
        let pos: usize = match self.content.position_of(file) {
            Some(p) => p,
            None => 0,
        };
        self.set_selection(pos);
    }

    /// Puts the cursor back on `prev` after the listing changed.
    fn reselect(&mut self, prev: &Option<FileEntry>)
        requires
            old(self).content.wf(),
            old(self).view.ok(),
        ensures
            final(self).wf(),
            final(self).content == old(self).content,
            final(self).kept(*prev),
            final(self).current_item == final(self).selected(),
            final(self).seeking == old(self).seeking,
            final(self).searching == old(self).searching,
            final(self).view.selection == walk_from(old(self).content, *prev),
    {
        proof {
            if let Some(f) = prev {
                if exists|p: usize| self.content.finds(f.name@, Some(p)) {
                    let p = choose|p: usize| self.content.finds(f.name@, Some(p));
                    assert forall|q: usize| self.content.finds(f.name@, Some(q)) implies q == p by {
                        if q < p {
                            assert(self.content.entry_at(q as int).name@ == f.name@);
                        } else if p < q {
                            assert(self.content.entry_at(p as int).name@ == f.name@);
                        }
                    }
                }
            }
        }
        self.view.set_selection(0);
        match prev {
            Some(f) => self.select_file(f),
            None => self.update_selected_file(),
        }
    }

    /// Brings the cursor back inside a listing that shrank.
    pub fn refresh(&mut self)
        requires
            old(self).content.wf(),
            old(self).view.ok(),
        ensures
            final(self).wf(),
            final(self).content == old(self).content,
            old(self).view.selection <= last_index(old(self).content.count()) ==> final(self).view == old(self).view,
            old(self).view.selection > last_index(old(self).content.count()) ==> final(self).view == old(self).view.select(last_index(old(self).content.count())),
            final(self).current_item == final(self).selected(),
            final(self).seeking == old(self).seeking,
            final(self).searching == old(self).searching,
    {
        let n: usize = self.content.len();
        if n == 0 {
            if self.view.selection > 0 {
                self.view.set_selection(0);
            }
        } else if self.view.selection >= n {
            self.view.set_selection(n - 1);
        }
        self.update_selected_file();
    }
}

impl ListView {
    pub fn move_up(&mut self)
        requires
            old(self).wf(),
        ensures
            final(self).wf(),
            final(self).view == old(self).view.up(),
            final(self).content == old(self).content,
            final(self).current_item == final(self).selected(),
            !final(self).seeking,
    {
        proof {
            crate::viewport::lemma_step_keeps_wf(self.view, self.content.count(), crate::viewport::Nav::Up);
        }
        self.view.move_up();
        self.seeking = false;
        self.update_selected_file();
    }

    pub fn move_down(&mut self)
        requires
            old(self).wf(),
        ensures
            final(self).wf(),
            final(self).view == old(self).view.down(old(self).content.count()),
            final(self).content == old(self).content,
            final(self).current_item == final(self).selected(),
            !final(self).seeking,
    {
        proof {
            crate::viewport::lemma_step_keeps_wf(self.view, self.content.count(), crate::viewport::Nav::Down);
        }
        let n: usize = self.content.len();
        self.view.move_down(n);
        self.seeking = false;
        self.update_selected_file();
    }

    pub fn move_top(&mut self)
        requires
            old(self).wf(),
        ensures
            final(self).wf(),
            final(self).view == old(self).view.select(0),
            final(self).content == old(self).content,
            final(self).current_item == final(self).selected(),
    {
        self.set_selection(0);
    }

    pub fn move_bottom(&mut self)
        requires
            old(self).wf(),
        ensures
            final(self).wf(),
            final(self).view == old(self).view.select(last_index(old(self).content.count())),
            final(self).content == old(self).content,
            final(self).current_item == final(self).selected(),
    {
        let n: usize = self.content.len();
        if n == 0 {
            self.set_selection(0);
        } else {
            self.set_selection(n - 1);
        }
    }

    pub fn page_up(&mut self)
        requires
            old(self).wf(),
        ensures
            final(self).wf(),
            final(self).view == old(self).view.page_up_to(),
            final(self).content == old(self).content,
            final(self).current_item == final(self).selected(),
    {
        proof {
            crate::viewport::lemma_step_keeps_wf(self.view, self.content.count(), crate::viewport::Nav::PageUp);
        }
        self.view.page_up();
        self.update_selected_file();
    }

    pub fn page_down(&mut self)
        requires
            old(self).wf(),
        ensures
            final(self).wf(),
            final(self).view == old(self).view.page_down_to(old(self).content.count()),
            final(self).content == old(self).content,
            final(self).current_item == final(self).selected(),
    {
        proof {
            crate::viewport::lemma_step_keeps_wf(self.view, self.content.count(), crate::viewport::Nav::PageDown);
        }
        let n: usize = self.content.len();
        self.view.page_down(n);
        self.update_selected_file();
    }

    /// Carries out a movement request.
    pub fn movement(&mut self, m: Movement)
        requires
            old(self).wf(),
        ensures
            final(self).wf(),
            final(self).content == old(self).content,
            final(self).current_item == final(self).selected(),
            m matches Movement::PageUp ==> final(self).view == old(self).view.page_up_to(),
            m matches Movement::PageDown ==> final(self).view == old(self).view.page_down_to(old(self).content.count()),
            m matches Movement::Top ==> final(self).view == old(self).view.select(0),
            m matches Movement::Bottom ==> final(self).view == old(self).view.select(last_index(old(self).content.count())),
            (m matches Movement::Left) || (m matches Movement::Right) ==> final(self).view == old(self).view,
            m matches Movement::Up(n) ==> final(self).view == old(self).view.up_by(n as nat),
            m matches Movement::Down(n) ==> final(self).view == old(self).view.down_by(old(self).content.count(), n as nat),
    {
        let n: usize = self.content.len();
        let before: usize = self.view.selection;
        self.view.movement(m, n);
        if before != self.view.selection {
            self.seeking = false;
        }
        self.update_selected_file();
    }

    /// Replaces the listing, as when another directory is opened, with the
    /// cursor on the first row.
    pub fn set_content(&mut self, content: Files)
        requires
            old(self).wf(),
            content.wf(),
        ensures
            final(self).wf(),
            content.files@.len() > 0 ==> final(self).content == content,
            content.files@.len() == 0 ==> final(self).content.same_settings(content)
                && final(self).content.files@.len() == 1 && crate::files::is_placeholder(final(self).content.files@[0]),
            final(self).view == old(self).view.select(0),
            final(self).current_item == final(self).selected(),
    {
        self.content = content;
        if self.content.files.len() == 0 {
            self.content.add_placeholder();
        }
        self.view.set_selection(0);
        self.update_selected_file();
    }

    /// Sorts by the next key: name, then size, then modification time.
    pub fn cycle_sort(&mut self)
        requires
            old(self).wf(),
        ensures
            final(self).wf(),
            final(self).content.sort == match old(self).content.sort {
                SortBy::Name => SortBy::Size,
                SortBy::Size => SortBy::MTime,
                SortBy::MTime => SortBy::Name,
            },
            final(self).content.reverse == old(self).content.reverse,
            final(self).content.dirs_first == old(self).content.dirs_first,
            final(self).content.sorted(),
            final(self).content.files@.to_multiset() == old(self).content.files@.to_multiset(),
            final(self).content.same_visibility(old(self).content),
            final(self).kept(old(self).selected()),
            final(self).current_item == final(self).selected(),
    {
        let prev = self.clone_selected_file();
        let next = match self.content.sort {
            SortBy::Name => SortBy::Size,
            SortBy::Size => SortBy::MTime,
            SortBy::MTime => SortBy::Name,
        };
        let reverse = self.content.reverse;
        let dirs_first = self.content.dirs_first;
        self.content.set_order(next, reverse, dirs_first);
        self.reselect(&prev);
    }

    /// Reverses the sort order.
    pub fn reverse_sort(&mut self)
        requires
            old(self).wf(),
        ensures
            final(self).wf(),
            final(self).content.sort == old(self).content.sort,
            final(self).content.reverse == !old(self).content.reverse,
            final(self).content.dirs_first == old(self).content.dirs_first,
            final(self).content.sorted(),
            final(self).content.files@.to_multiset() == old(self).content.files@.to_multiset(),
            final(self).content.same_visibility(old(self).content),
            final(self).kept(old(self).selected()),
            final(self).current_item == final(self).selected(),
    {
        let prev = self.clone_selected_file();
        let sort = self.content.sort;
        let reverse = !self.content.reverse;
        let dirs_first = self.content.dirs_first;
        self.content.set_order(sort, reverse, dirs_first);
        self.reselect(&prev);
    }

    /// Puts directories ahead of files, or stops doing so.
    pub fn toggle_dirs_first(&mut self)
        requires
            old(self).wf(),
        ensures
            final(self).wf(),
            final(self).content.sort == old(self).content.sort,
            final(self).content.reverse == old(self).content.reverse,
            final(self).content.dirs_first == !old(self).content.dirs_first,
            final(self).content.sorted(),
            final(self).content.files@.to_multiset() == old(self).content.files@.to_multiset(),
            final(self).content.same_visibility(old(self).content),
            final(self).kept(old(self).selected()),
            final(self).current_item == final(self).selected(),
    {
        let prev = self.clone_selected_file();
        let sort = self.content.sort;
        let reverse = self.content.reverse;
        let dirs_first = !self.content.dirs_first;
        self.content.set_order(sort, reverse, dirs_first);
        self.reselect(&prev);
    }

    /// Shows or hides hidden entries.
    pub fn toggle_hidden(&mut self)
        requires
            old(self).wf(),
        ensures
            final(self).wf(),
            final(self).content.files == old(self).content.files,
            final(self).content.show_hidden == !old(self).content.show_hidden,
            final(self).content.filter == old(self).content.filter,
            final(self).content.filter_selected == old(self).content.filter_selected,
            final(self).content.sort == old(self).content.sort,
            final(self).content.reverse == old(self).content.reverse,
            final(self).content.dirs_first == old(self).content.dirs_first,
            final(self).kept(old(self).selected()),
            final(self).current_item == final(self).selected(),
    {
        let prev = self.clone_selected_file();
        self.content.toggle_hidden();
        self.reselect(&prev);
    }

    /// Narrows the shown entries to those whose name holds `pattern`, or
    /// shows all of them again.
    pub fn filter(&mut self, pattern: Option<String>)
        requires
            old(self).wf(),
        ensures
            final(self).wf(),
            final(self).content.files == old(self).content.files,
            final(self).content.filter == pattern,
            final(self).content.show_hidden == old(self).content.show_hidden,
            final(self).content.filter_selected == old(self).content.filter_selected,
            final(self).content.sort == old(self).content.sort,
            final(self).content.reverse == old(self).content.reverse,
            final(self).content.dirs_first == old(self).content.dirs_first,
            final(self).kept(old(self).selected()),
            final(self).current_item == final(self).selected(),
    {
        let prev = self.clone_selected_file();
        self.content.set_filter(pattern);
        self.reselect(&prev);
    }

    /// The marked-only setting after it is toggled on `c`: it stays as it
    /// was where the toggle would leave nothing shown.
    pub open spec fn filter_selected_after(c: Files) -> bool {
        if visible_in(c.files@, c.show_hidden, c.filter_view(), !c.filter_selected, c.files@.len() as int).len() == 0 {
            c.filter_selected
        } else {
            !c.filter_selected
        }
    }

    /// One step of a filter session that began with `start` selected: the
    /// cursor goes back to `start` wherever the new pattern shows it, so
    /// that clearing the filter at the end restores the selection.
    pub fn filter_from(&mut self, pattern: Option<String>, start: &Option<FileEntry>)
        requires
            old(self).wf(),
        ensures
            final(self).wf(),
            final(self).content.files == old(self).content.files,
            final(self).content.filter == pattern,
            final(self).content.show_hidden == old(self).content.show_hidden,
            final(self).content.filter_selected == old(self).content.filter_selected,
            final(self).content.sort == old(self).content.sort,
            final(self).content.reverse == old(self).content.reverse,
            final(self).content.dirs_first == old(self).content.dirs_first,
            final(self).kept(*start),
            final(self).current_item == final(self).selected(),
    {
        self.content.set_filter(pattern);
        self.reselect(start);
    }

    /// Ends a search session that was cancelled or left empty: the cursor
    /// goes back to `start`, the entry selected when the session began.
    pub fn cancel_search(&mut self, start: &Option<FileEntry>)
        requires
            old(self).wf(),
        ensures
            final(self).wf(),
            final(self).content == old(self).content,
            final(self).searching == old(self).searching,
            final(self).kept(*start),
            final(self).current_item == final(self).selected(),
    {
        self.reselect(start);
    }

    /// Shows only the marked entries, or all again. Where no entry is
    /// marked, the listing is left showing all of them.
    pub fn toggle_filter_selected(&mut self)
        requires
            old(self).wf(),
        ensures
            final(self).wf(),
            final(self).content.files == old(self).content.files,
            final(self).content.filter_selected == Self::filter_selected_after(old(self).content),
            final(self).content.show_hidden == old(self).content.show_hidden,
            final(self).content.filter == old(self).content.filter,
            final(self).content.sort == old(self).content.sort,
            final(self).content.reverse == old(self).content.reverse,
            final(self).content.dirs_first == old(self).content.dirs_first,
            final(self).kept(old(self).selected()),
            final(self).current_item == final(self).selected(),
    {
        let prev = self.clone_selected_file();
        self.content.toggle_filter_selected();
        if self.content.len() == 0 {
            self.content.toggle_filter_selected();
        }
        self.reselect(&prev);
    }

    /// Flips the mark of every shown entry.
    pub fn invert_selection(&mut self)
        requires
            old(self).wf(),
        ensures
            final(self).wf(),
            old(self).content.marked(final(self).content.files@, true),
            final(self).content.show_hidden == old(self).content.show_hidden,
            final(self).content.filter == old(self).content.filter,
            final(self).content.sort == old(self).content.sort,
            final(self).content.reverse == old(self).content.reverse,
            final(self).content.dirs_first == old(self).content.dirs_first,
            final(self).content.filter_selected == (old(self).content.filter_selected
                && visible_in(final(self).content.files@, old(self).content.show_hidden, old(self).content.filter_view(), true, final(self).content.files@.len() as int).len() > 0),
            final(self).current_item == final(self).selected(),
    {
        self.content.mark_shown(true);
        if self.content.filter_selected && self.content.len() == 0 {
            self.content.toggle_filter_selected();
        }
        self.refresh();
    }

    /// Clears the mark of every shown entry.
    pub fn clear_selections(&mut self)
        requires
            old(self).wf(),
        ensures
            final(self).wf(),
            old(self).content.marked(final(self).content.files@, false),
            final(self).content.show_hidden == old(self).content.show_hidden,
            final(self).content.filter == old(self).content.filter,
            final(self).content.sort == old(self).content.sort,
            final(self).content.reverse == old(self).content.reverse,
            final(self).content.dirs_first == old(self).content.dirs_first,
            final(self).content.filter_selected == (old(self).content.filter_selected
                && visible_in(final(self).content.files@, old(self).content.show_hidden, old(self).content.filter_view(), true, final(self).content.files@.len() as int).len() > 0),
            final(self).current_item == final(self).selected(),
    {
        self.content.mark_shown(false);
        if self.content.filter_selected && self.content.len() == 0 {
            self.content.toggle_filter_selected();
        }
        self.refresh();
    }

    /// Flips the mark of the entry under the cursor; moves down unless
    /// only marked entries are shown.
    pub fn multi_select_file(&mut self)
        requires
            old(self).wf(),
        ensures
            final(self).wf(),
            old(self).content.count() > 0 ==> final(self).content.files@ == old(self).content.files@.update(
                old(self).content.visible@[old(self).selection()] as int,
                crate::files::flip_selected(old(self).content.entry_at(old(self).selection())),
            ),
            old(self).content.count() > 0 && !old(self).content.filter_selected ==> final(self).view == old(self).view.down(old(self).content.count()),
    {
        let n: usize = self.content.len();
        if n == 0 {
            return;
        }
        let pos: usize = self.view.selection;
        self.content.toggle_selection(pos);
        if !self.content.filter_selected {
            self.move_down();
        } else {
            if self.content.len() == 0 {
                self.content.toggle_filter_selected();
            }
            self.refresh();
        }
    }

    /// Flips the tag of the entry under the cursor and moves down.
    pub fn toggle_tag(&mut self)
        requires
            old(self).wf(),
        ensures
            final(self).wf(),
            old(self).content.count() > 0 ==> final(self).content.files@[old(self).content.visible@[old(self).selection()] as int].tagged
                == !old(self).content.entry_at(old(self).selection()).tagged,
            old(self).content.count() > 0 ==> final(self).view == old(self).view.down(old(self).content.count()),
    {
        let n: usize = self.content.len();
        if n == 0 {
            return;
        }
        let pos: usize = self.view.selection;
        proof {
            self.content.lemma_visible_bounds(self.content.files@.len() as int);
        }
        self.content.toggle_tag(pos);
        self.move_down();
    }
}

/// Whether `name` holds `pattern`, both already lowercased.
pub fn matches_lowered(name_lower: &str, pattern_lower: &str) -> (r: bool)
    ensures
        r == is_substring(pattern_lower@, name_lower@),
{
    contains_str(name_lower, pattern_lower)
}

impl ListView {
    fn entry_matches(&self, pos: usize, pattern: &String) -> (r: bool)
        requires
            self.content.wf(),
            pos < self.content.count(),
        ensures
            r == search_match(pattern@, self.content.entry_at(pos as int).name@),
    {
        let name = lowercase(self.content.get(pos).name.as_str());
        let pat = lowercase(pattern.as_str());
        matches_lowered(name.as_str(), pat.as_str())
    }

    /// The first shown entry at or after `start` that matches `pattern`.
    pub fn find_forward(&self, pattern: &String, start: usize) -> (r: Option<usize>)
        requires
            self.content.wf(),
        ensures
            match r {
                Some(p) => start <= p < self.content.count()
                    && search_match(pattern@, self.content.entry_at(p as int).name@)
                    && forall|q: int| start <= q < p ==> !search_match(pattern@, #[trigger] self.content.entry_at(q).name@),
                None => forall|q: int| start <= q < self.content.count() ==> !search_match(pattern@, #[trigger] self.content.entry_at(q).name@),
            },
    {
        let n: usize = self.content.len();
        let mut p: usize = start;
        while p < n
            invariant
                self.content.wf(),
                n == self.content.count(),
                start <= p,
                forall|q: int| start <= q < p ==> !search_match(pattern@, #[trigger] self.content.entry_at(q).name@),
            decreases n - p,
        {
            if self.entry_matches(p, pattern) {
                return Some(p);
            }
            p = p + 1;
        }
        None
    }

    /// The last shown entry before `end` that matches `pattern`.
    pub fn find_backward(&self, pattern: &String, end: usize) -> (r: Option<usize>)
        requires
            self.content.wf(),
            end <= self.content.count(),
        ensures
            match r {
                Some(p) => p < end
                    && search_match(pattern@, self.content.entry_at(p as int).name@)
                    && forall|q: int| p < q < end ==> !search_match(pattern@, #[trigger] self.content.entry_at(q).name@),
                None => forall|q: int| 0 <= q < end ==> !search_match(pattern@, #[trigger] self.content.entry_at(q).name@),
            },
    {
        let mut p: usize = end;
        while p > 0
            invariant
                self.content.wf(),
                end <= self.content.count(),
                p <= end,
                forall|q: int| p <= q < end ==> !search_match(pattern@, #[trigger] self.content.entry_at(q).name@),
            decreases p,
        {
            if self.entry_matches(p - 1, pattern) {
                return Some(p - 1);
            }
            p = p - 1;
        }
        None
    }

    /// Sets the search pattern and moves to the first entry matching it.
    pub fn search_file(&mut self, pattern: String) -> (r: Result<(), ListError>)
        requires
            old(self).wf(),
        ensures
            final(self).wf(),
            final(self).content == old(self).content,
            final(self).searching == Some(pattern),
            match r {
                Ok(()) => search_match(pattern@, final(self).content.entry_at(final(self).selection()).name@)
                    && forall|q: int| 0 <= q < final(self).selection() ==> !search_match(pattern@, #[trigger] final(self).content.entry_at(q).name@),
                Err(e) => e == ListError::NoMoreMatches && final(self).view == old(self).view
                    && forall|q: int| 0 <= q < old(self).content.count() ==> !search_match(pattern@, #[trigger] old(self).content.entry_at(q).name@),
            },
    {
        let found = self.find_forward(&pattern, 0);
        self.searching = Some(pattern);
        match found {
            Some(p) => {
                self.set_selection(p);
                Ok(())
            },
            None => Err(ListError::NoMoreMatches),
        }
    }

    /// Moves to the next entry below the cursor that matches the search
    /// pattern; no wrapping at the end.
    pub fn search_next(&mut self) -> (r: Result<(), ListError>)
        requires
            old(self).wf(),
        ensures
            final(self).wf(),
            final(self).content == old(self).content,
            final(self).searching == old(self).searching,
            old(self).searching is None ==> r == Err::<(), ListError>(ListError::NoSearchPattern) && final(self).view == old(self).view,
            old(self).searching matches Some(pat) ==> match r {
                Ok(()) => old(self).selection() < final(self).selection()
                    && search_match(pat@, final(self).content.entry_at(final(self).selection()).name@)
                    && forall|q: int| old(self).selection() < q < final(self).selection() ==> !search_match(pat@, #[trigger] final(self).content.entry_at(q).name@),
                Err(e) => e == ListError::NoMoreMatches && final(self).view == old(self).view
                    && forall|q: int| old(self).selection() < q < old(self).content.count() ==> !search_match(pat@, #[trigger] old(self).content.entry_at(q).name@),
            },
    {
        let pattern = match &self.searching {
            Some(p) => p.clone(),
            None => return Err(ListError::NoSearchPattern),
        };
        let start: usize = self.view.selection + 1;
        match self.find_forward(&pattern, start) {
            Some(p) => {
                self.set_selection(p);
                Ok(())
            },
            None => Err(ListError::NoMoreMatches),
        }
    }

    /// Moves to the nearest entry above the cursor that matches the search
    /// pattern; no wrapping at the top.
    pub fn search_prev(&mut self) -> (r: Result<(), ListError>)
        requires
            old(self).wf(),
        ensures
            final(self).wf(),
            final(self).content == old(self).content,
            final(self).searching == old(self).searching,
            old(self).searching is None ==> r == Err::<(), ListError>(ListError::NoSearchPattern) && final(self).view == old(self).view,
            old(self).searching matches Some(pat) ==> match r {
                Ok(()) => final(self).selection() < old(self).selection()
                    && search_match(pat@, final(self).content.entry_at(final(self).selection()).name@)
                    && forall|q: int| final(self).selection() < q < old(self).selection() ==> !search_match(pat@, #[trigger] final(self).content.entry_at(q).name@),
                Err(e) => e == ListError::NoMoreMatches && final(self).view == old(self).view
                    && forall|q: int| 0 <= q < old(self).selection() ==> !search_match(pat@, #[trigger] old(self).content.entry_at(q).name@),
            },
    {
        let pattern = match &self.searching {
            Some(p) => p.clone(),
            None => return Err(ListError::NoSearchPattern),
        };
        let end: usize = if self.content.len() == 0 { 0 } else { self.view.selection };
        match self.find_backward(&pattern, end) {
            Some(p) => {
                self.set_selection(p);
                Ok(())
            },
            None => Err(ListError::NoMoreMatches),
        }
    }

    /// Steps through the listing in order of modification time, keeping
    /// the listing's own order; `forward` picks the direction. A walk that
    /// was not already going on starts at the oldest entry, or the newest
    /// going back, as it does past either end.
    fn seek_mtime(&mut self, forward: bool)
        requires
            old(self).wf(),
        ensures
            final(self).wf(),
            final(self).seeking,
            final(self).content.sort == old(self).content.sort,
            final(self).content.reverse == old(self).content.reverse,
            final(self).content.dirs_first == old(self).content.dirs_first,
            final(self).content.sorted(),
            final(self).content.same_visibility(old(self).content),
            final(self).content.files@.to_multiset() == old(self).content.files@.to_multiset(),
            exists|c: Files| #[trigger] c.wf() && Self::mtime_order_of(c, old(self).content)
                && final(self).kept(Self::walk_target(c, old(self).selected(), old(self).seeking, forward)),
            final(self).current_item == final(self).selected(),
    {
        let prev = self.clone_selected_file();
        let seeking = self.seeking;
        let sort = self.content.sort;
        let reverse = self.content.reverse;
        let dirs_first = self.content.dirs_first;
        self.content.set_order(SortBy::MTime, false, false);
        let ghost c = self.content;
        self.reselect(&prev);
        let n: usize = self.content.len();
        if forward {
            if !seeking || self.view.selection + 1 >= n {
                self.set_selection(0);
            } else {
                self.move_down();
            }
        } else {
            if !seeking || self.view.selection == 0 {
                if n == 0 {
                    self.set_selection(0);
                } else {
                    self.set_selection(n - 1);
                }
            } else {
                self.move_up();
            }
        }
        let target = self.clone_selected_file();
        assert(target == Self::walk_target(c, prev, seeking, forward));
        self.content.set_order(sort, reverse, dirs_first);
        self.reselect(&target);
        self.seeking = true;
        assert(c.wf() && Self::mtime_order_of(c, old(self).content));
    }

    /// `c` holds the entries of `content` in order of modification time,
    /// oldest first, directories among the files, showing what `content`
    /// shows.
    pub open spec fn mtime_order_of(c: Files, content: Files) -> bool {
        &&& sorted_by(c.files@, SortBy::MTime, false, false)
        &&& c.files@.to_multiset() == content.files@.to_multiset()
        &&& c.show_hidden == content.show_hidden
        &&& c.filter == content.filter
        &&& c.filter_selected == content.filter_selected
    }

    /// The entry a step of the walk over `c` lands on, from `prev`.
    pub open spec fn walk_target(c: Files, prev: Option<FileEntry>, seeking: bool, forward: bool) -> Option<FileEntry> {
        if c.count() == 0 {
            None
        } else {
            Some(c.entry_at(walk_step(walk_from(c, prev), c.count(), seeking, forward)))
        }
    }

    /// Moves to the entry modified next after the one under the cursor.
    pub fn select_next_mtime(&mut self)
        requires
            old(self).wf(),
        ensures
            final(self).wf(),
            final(self).seeking,
            final(self).content.sort == old(self).content.sort,
            final(self).content.reverse == old(self).content.reverse,
            final(self).content.dirs_first == old(self).content.dirs_first,
            final(self).content.sorted(),
            final(self).content.same_visibility(old(self).content),
            final(self).content.files@.to_multiset() == old(self).content.files@.to_multiset(),
            exists|c: Files| #[trigger] c.wf() && Self::mtime_order_of(c, old(self).content)
                && final(self).kept(Self::walk_target(c, old(self).selected(), old(self).seeking, true)),
            final(self).current_item == final(self).selected(),
    {
        self.seek_mtime(true);
    }

    /// Moves to the entry modified just before the one under the cursor.
    pub fn select_prev_mtime(&mut self)
        requires
            old(self).wf(),
        ensures
            final(self).wf(),
            final(self).seeking,
            final(self).content.sort == old(self).content.sort,
            final(self).content.reverse == old(self).content.reverse,
            final(self).content.dirs_first == old(self).content.dirs_first,
            final(self).content.sorted(),
            final(self).content.same_visibility(old(self).content),
            final(self).content.files@.to_multiset() == old(self).content.files@.to_multiset(),
            exists|c: Files| #[trigger] c.wf() && Self::mtime_order_of(c, old(self).content)
                && final(self).kept(Self::walk_target(c, old(self).selected(), old(self).seeking, false)),
            final(self).current_item == final(self).selected(),
    {
        self.seek_mtime(false);
    }
}

/// The list actions that need no further input.
#[derive(Clone, Copy, Debug, PartialEq, Eq)]
pub enum FileListAction {
    SearchNext,
    SearchPrev,
    Select,
    InvertSelection,
    ClearSelection,
    FilterSelection,
    ToggleTag,
    ToggleHidden,
    ReverseSort,
    CycleSort,
    ToNextMtime,
    ToPrevMtime,
    ToggleDirsFirst,
}

impl ListView {
    /// What each action does, from `o` to `n`, with result `r`.
    pub open spec fn action_done(o: ListView, n: ListView, action: FileListAction, r: Result<(), ListError>) -> bool {
        match action {
            FileListAction::SearchNext => n.content == o.content && n.searching == o.searching && match o.searching {
                None => r == Err::<(), ListError>(ListError::NoSearchPattern) && n.view == o.view,
                Some(pat) => match r {
                    Ok(()) => o.selection() < n.selection()
                        && search_match(pat@, n.content.entry_at(n.selection()).name@)
                        && forall|q: int| o.selection() < q < n.selection() ==> !search_match(pat@, #[trigger] n.content.entry_at(q).name@),
                    Err(e) => e == ListError::NoMoreMatches && n.view == o.view
                        && forall|q: int| o.selection() < q < o.content.count() ==> !search_match(pat@, #[trigger] o.content.entry_at(q).name@),
                },
            },
            FileListAction::SearchPrev => n.content == o.content && n.searching == o.searching && match o.searching {
                None => r == Err::<(), ListError>(ListError::NoSearchPattern) && n.view == o.view,
                Some(pat) => match r {
                    Ok(()) => n.selection() < o.selection()
                        && search_match(pat@, n.content.entry_at(n.selection()).name@)
                        && forall|q: int| n.selection() < q < o.selection() ==> !search_match(pat@, #[trigger] n.content.entry_at(q).name@),
                    Err(e) => e == ListError::NoMoreMatches && n.view == o.view
                        && forall|q: int| 0 <= q < o.selection() ==> !search_match(pat@, #[trigger] o.content.entry_at(q).name@),
                },
            },
            FileListAction::Select => r is Ok && (o.content.count() > 0 ==> n.content.files@ == o.content.files@.update(
                o.content.visible@[o.selection()] as int,
                crate::files::flip_selected(o.content.entry_at(o.selection())),
            )) && (o.content.count() > 0 && !o.content.filter_selected ==> n.view == o.view.down(o.content.count())),
            FileListAction::InvertSelection => r is Ok && o.content.marked(n.content.files@, true)
                && n.content.show_hidden == o.content.show_hidden && n.content.filter == o.content.filter,
            FileListAction::ClearSelection => r is Ok && o.content.marked(n.content.files@, false)
                && n.content.show_hidden == o.content.show_hidden && n.content.filter == o.content.filter,
            FileListAction::FilterSelection => r is Ok && n.content.files == o.content.files
                && n.content.filter_selected == Self::filter_selected_after(o.content)
                && n.content.show_hidden == o.content.show_hidden && n.content.filter == o.content.filter
                && n.kept(o.selected()),
            FileListAction::ToggleTag => r is Ok && (o.content.count() > 0 ==> n.content.files@[o.content.visible@[o.selection()] as int].tagged
                == !o.content.entry_at(o.selection()).tagged && n.view == o.view.down(o.content.count())),
            FileListAction::ToggleHidden => r is Ok && n.content.files == o.content.files
                && n.content.show_hidden == !o.content.show_hidden && n.content.filter == o.content.filter
                && n.content.filter_selected == o.content.filter_selected && n.kept(o.selected()),
            FileListAction::ReverseSort => r is Ok && n.content.reverse == !o.content.reverse
                && n.content.sort == o.content.sort && n.content.dirs_first == o.content.dirs_first
                && n.content.sorted() && n.content.files@.to_multiset() == o.content.files@.to_multiset()
                && n.content.same_visibility(o.content) && n.kept(o.selected()),
            FileListAction::CycleSort => r is Ok && n.content.sort == match o.content.sort {
                SortBy::Name => SortBy::Size,
                SortBy::Size => SortBy::MTime,
                SortBy::MTime => SortBy::Name,
            } && n.content.reverse == o.content.reverse && n.content.dirs_first == o.content.dirs_first
                && n.content.sorted() && n.content.files@.to_multiset() == o.content.files@.to_multiset()
                && n.content.same_visibility(o.content) && n.kept(o.selected()),
            FileListAction::ToggleDirsFirst => r is Ok && n.content.dirs_first == !o.content.dirs_first
                && n.content.sort == o.content.sort && n.content.reverse == o.content.reverse
                && n.content.sorted() && n.content.files@.to_multiset() == o.content.files@.to_multiset()
                && n.content.same_visibility(o.content) && n.kept(o.selected()),
            FileListAction::ToNextMtime => r is Ok && n.seeking && n.content.sorted()
                && n.content.same_visibility(o.content)
                && exists|c: Files| #[trigger] c.wf() && Self::mtime_order_of(c, o.content)
                    && n.kept(Self::walk_target(c, o.selected(), o.seeking, true)),
            FileListAction::ToPrevMtime => r is Ok && n.seeking && n.content.sorted()
                && n.content.same_visibility(o.content)
                && exists|c: Files| #[trigger] c.wf() && Self::mtime_order_of(c, o.content)
                    && n.kept(Self::walk_target(c, o.selected(), o.seeking, false)),
        }
    }

    /// Carries out a list action.
    pub fn do_action(&mut self, action: FileListAction) -> (r: Result<(), ListError>)
        requires
            old(self).wf(),
        ensures
            final(self).wf(),
            final(self).current_item == final(self).selected(),
            Self::action_done(*old(self), *final(self), action, r),
    {
        match action {
            FileListAction::SearchNext => {
                let r = self.search_next();
                self.update_selected_file();
                r
            },
            FileListAction::SearchPrev => {
                let r = self.search_prev();
                self.update_selected_file();
                r
            },
            FileListAction::Select => {
                self.multi_select_file();
                self.update_selected_file();
                Ok(())
            },
            FileListAction::InvertSelection => {
                self.invert_selection();
                Ok(())
            },
            FileListAction::ClearSelection => {
                self.clear_selections();
                Ok(())
            },
            FileListAction::FilterSelection => {
                self.toggle_filter_selected();
                Ok(())
            },
            FileListAction::ToggleTag => {
                self.toggle_tag();
                self.update_selected_file();
                Ok(())
            },
            FileListAction::ToggleHidden => {
                self.toggle_hidden();
                Ok(())
            },
            FileListAction::ReverseSort => {
                self.reverse_sort();
                Ok(())
            },
            FileListAction::CycleSort => {
                self.cycle_sort();
                Ok(())
            },
            FileListAction::ToNextMtime => {
                self.select_next_mtime();
                self.update_selected_file();
                Ok(())
            },
            FileListAction::ToPrevMtime => {
                self.select_prev_mtime();
                self.update_selected_file();
                Ok(())
            },
            FileListAction::ToggleDirsFirst => {
                self.toggle_dirs_first();
                Ok(())
            },
        }
    }
}

} // verus!
