//! Building a file listing panel: the initial selection, which rows get
//! their metadata fetched, and whether a finished build is still wanted.

use vstd::prelude::*;
use async_value::Stale;
use crate::files::{FileEntry, Files, Meta};
use crate::listview::ListView;

verus! {

#[verifier::external_type_specification]
#[verifier::external_body]
pub struct ExStale(async_value::Stale);

/// Relies on `async_value::Stale::is_stale`, which reads the shared flag;
/// the flag may be set by another holder at any time, so nothing is known
/// of the answer. Its source never fails; a failure would count as stale.
#[verifier::external_body]
fn token_is_stale(token: &Stale) -> (r: bool) {
    match token.is_stale() {
        Ok(b) => b,
        Err(_) => true,
    }
}

/// Why a build produced no panel.
#[derive(Clone, Copy, Debug, PartialEq, Eq)]
pub enum BuildError {
    /// The navigation that asked for the build has moved on.
    Stale,
}

/// The rows `[from, upto)` whose metadata a build fetches: all of them, or
/// the visible window and one row past it.
pub open spec fn population_spec(len: nat, offset: nat, height: nat, all: bool) -> (nat, nat) {
    if all {
        (0, len)
    } else {
        let from = if offset <= len { offset } else { len };
        (from, if from + height + 1 <= len { (from + height + 1) as nat } else { len })
    }
}

pub fn population_range(len: usize, offset: usize, height: usize, all: bool) -> (r: (usize, usize))
    ensures
        (r.0 as nat, r.1 as nat) == population_spec(len as nat, offset as nat, height as nat, all),
{
    if all {
        return (0, len);
    }
    let from: usize = if offset <= len { offset } else { len };
    let upto: usize = if height < len - from { from + height + 1 } else { len };
    (from, upto)
}

/// The metadata that the last of `results` naming row `pos` carries.
pub open spec fn meta_for(results: Seq<(usize, Meta)>, pos: int) -> Option<Meta>
    decreases results.len(),
{
    if results.len() == 0 {
        None
    } else if results.last().0 == pos {
        Some(results.last().1)
    } else {
        meta_for(results.drop_last(), pos)
    }
}

/// `after` is `before` with the metadata of `results` recorded.
pub open spec fn merged(before: Files, after: Files, results: Seq<(usize, Meta)>) -> bool {
    &&& after.wf()
    &&& after.same_settings(before)
    &&& after.visible@ == before.visible@
    &&& after.files@.len() == before.files@.len()
    &&& forall|q: int| 0 <= q < before.count() ==> #[trigger] after.entry_at(q) == match meta_for(results, q) {
        Some(m) => FileEntry { meta: Some(m), ..before.entry_at(q) },
        None => before.entry_at(q),
    }
    &&& forall|k: int| 0 <= k < before.files@.len() && !before.visible@.contains(k as usize) ==> #[trigger] after.files@[k] == before.files@[k]
}

/// Records fetched metadata in a listing; results for rows it does not
/// show are left out.
pub fn merge_metadata(files: &mut Files, results: &Vec<(usize, Meta)>)
    requires
        old(files).wf(),
    ensures
        merged(*old(files), *final(files), results@.filter(|r: (usize, Meta)| r.0 < old(files).count())),
{
    let ghost orig = *files;
    let ghost kept = Seq::<(usize, Meta)>::empty();
    proof {
        orig.lemma_visible_bounds(orig.files@.len() as int);
    }
    let mut i: usize = 0;
    while i < results.len()
        invariant
            orig.wf(),
            i <= results@.len(),
            kept == results@.subrange(0, i as int).filter(|r: (usize, Meta)| r.0 < orig.count()),
            merged(orig, *files, kept),
            forall|j: int| 0 <= j < orig.visible@.len() ==> #[trigger] orig.visible@[j] < orig.files@.len(),
            forall|j: int, l: int| 0 <= j < l < orig.visible@.len() ==> orig.visible@[j] < orig.visible@[l],
        decreases results@.len() - i,
    {
        let (pos, m) = results[i];
        proof {
            assert(results@.subrange(0, i + 1).drop_last() =~= results@.subrange(0, i as int));
            assert(results@.subrange(0, i + 1) =~= results@.subrange(0, i as int).push(results@[i as int]));
            results@.subrange(0, i as int).lemma_filter_push(results@[i as int], |r: (usize, Meta)| r.0 < orig.count());
        }
        if pos < files.len() {
            let ghost before = *files;
            files.set_meta(pos, m);
            proof {
                let nk = kept.push((pos, m));
                assert forall|q: int| 0 <= q < orig.count() implies #[trigger] files.entry_at(q) == match meta_for(nk, q) {
                    Some(mm) => FileEntry { meta: Some(mm), ..orig.entry_at(q) },
                    None => orig.entry_at(q),
                } by {
                    assert(nk.drop_last() =~= kept);
                    if q != pos {
                        assert(orig.visible@[q] != orig.visible@[pos as int]) by {
                            if q < pos { } else { }
                        }
                        assert(files.entry_at(q) == before.entry_at(q));
                    }
                }
                assert forall|k: int| 0 <= k < orig.files@.len() && !orig.visible@.contains(k as usize) implies #[trigger] files.files@[k] == orig.files@[k] by {
                    assert(orig.visible@[pos as int] != k as usize);
                }
                kept = nk;
            }
        } else {
            proof {
                assert(!(results@[i as int].0 < orig.count()));
            }
        }
        i = i + 1;
    }
    proof {
        assert(results@.subrange(0, results@.len() as int) =~= results@);
    }
}

/// Collects what a build needs before it runs.
pub struct FileListBuilder {
    pub height: usize,
    pub source: Files,
    pub selected_file: Option<FileEntry>,
    pub stale: Option<Stale>,
    pub meta_upto: usize,
    pub meta_all: bool,
    pub prerender: bool,
}

/// A built panel whose rows `[from, upto)` still wait for their metadata.
pub struct FileListBuild {
    pub view: ListView,
    pub from: usize,
    pub upto: usize,
    pub stale: Option<Stale>,
}

impl FileListBuilder {
    /// A builder over `source`, for a viewport of `height` rows.
    pub fn new(height: usize, source: Files) -> (r: FileListBuilder)
        ensures
            r.height == height,
            r.source == source,
            r.selected_file is None,
            r.stale is None,
            r.meta_upto == 0,
            !r.meta_all,
            !r.prerender,
    {
        FileListBuilder {
            height,
            source,
            selected_file: None,
            stale: None,
            meta_upto: 0,
            meta_all: false,
            prerender: false,
        }
    }

    /// The entry to put the cursor on.
    pub fn select(self, file: Option<FileEntry>) -> (r: FileListBuilder)
        ensures
            r == (FileListBuilder { selected_file: file, ..self }),
    {
        FileListBuilder { selected_file: file, ..self }
    }

    /// The token of the navigation that asks for the build.
    pub fn with_stale(self, stale: Option<Stale>) -> (r: FileListBuilder)
        ensures
            r == (FileListBuilder { stale, ..self }),
    {
        FileListBuilder { stale, ..self }
    }

    pub fn meta_upto(self, upto: Option<usize>) -> (r: FileListBuilder)
        ensures
            r == (FileListBuilder {
                meta_upto: match upto {
                    Some(u) => u,
                    None => 0,
                },
                ..self
            }),
    {
        let meta_upto = match upto {
            Some(u) => u,
            None => 0,
        };
        FileListBuilder { meta_upto, ..self }
    }

    /// Fetch the metadata of every row, not only the visible ones.
    pub fn meta_all(self) -> (r: FileListBuilder)
        ensures
            r == (FileListBuilder { meta_all: true, ..self }),
    {
        FileListBuilder { meta_all: true, ..self }
    }

    pub fn prerender(self) -> (r: FileListBuilder)
        ensures
            r == (FileListBuilder { prerender: true, ..self }),
    {
        FileListBuilder { prerender: true, ..self }
    }

    /// Builds the panel with the cursor on the chosen entry, and says which
    /// rows to fetch metadata for.
    pub fn build(self) -> (r: FileListBuild)
        requires
            self.height >= 1,
            self.source.wf(),
        ensures
            r.view.wf(),
            r.view.content.files == self.source.files,
            r.view.content.visible == self.source.visible,
            r.view.content.same_settings(FileListBuilder::source_with_upto(self.source, r.upto)),
            !r.view.content.dirty,
            r.view.view.height == self.height,
            r.view.kept(self.selected_file),
            r.view.current_item == r.view.selected(),
            (r.from as nat, r.upto as nat) == population_spec(
                self.source.count(),
                r.view.view.offset as nat,
                self.height as nat,
                self.meta_all,
            ),
            r.stale == self.stale,
    {
        let mut view = ListView::new(self.height, self.source);
        match &self.selected_file {
            Some(f) => view.select_file(f),
            None => {},
        }
        let n: usize = view.content.len();
        let (from, upto) = population_range(n, view.view.offset, self.height, self.meta_all);
        let ghost before = view;
        view.content.meta_upto = Some(upto);
        view.content.dirty = false;
        proof {
            assert forall|q: int| 0 <= q < view.content.count() implies #[trigger] view.content.entry_at(q) == before.content.entry_at(q) by {}
            assert(view.selected() == before.selected());
        }
        FileListBuild { view, from, upto, stale: self.stale }
    }

    pub open spec fn source_with_upto(source: Files, upto: usize) -> Files {
        Files { meta_upto: Some(upto), ..source }
    }
}

impl FileListBuild {
    /// The rows in `[from, upto)` that show a directory, ascending: those
    /// whose recursive size is computed along with their metadata.
    pub fn dirsize_rows(&self) -> (r: Vec<usize>)
        requires
            self.view.wf(),
            self.upto <= self.view.content.count(),
        ensures
            forall|i: int| 0 <= i < r@.len() ==> self.from <= #[trigger] r@[i] < self.upto
                && self.view.content.entry_at(r@[i] as int).is_dir,
            forall|i: int, j: int| 0 <= i < j < r@.len() ==> r@[i] < r@[j],
            forall|p: int| self.from <= p < self.upto && #[trigger] self.view.content.entry_at(p).is_dir
                ==> r@.contains(p as usize),
    {
        let mut r: Vec<usize> = Vec::new();
        let mut p: usize = self.from;
        while p < self.upto
            invariant
                self.view.wf(),
                self.upto <= self.view.content.count(),
                self.from <= p,
                r@.len() > 0 ==> p <= self.upto,
                forall|i: int| 0 <= i < r@.len() ==> self.from <= #[trigger] r@[i] < p
                    && self.view.content.entry_at(r@[i] as int).is_dir,
                forall|i: int, j: int| 0 <= i < j < r@.len() ==> r@[i] < r@[j],
                forall|q: int| self.from <= q < p && #[trigger] self.view.content.entry_at(q).is_dir
                    ==> r@.contains(q as usize),
            decreases self.upto - p,
        {
            if self.view.content.get(p).is_dir {
                let ghost old_r = r@;
                r.push(p);
                proof {
                    assert(r@[r@.len() - 1] == p);
                    assert forall|q: int| self.from <= q < p + 1 && #[trigger] self.view.content.entry_at(q).is_dir
                        implies r@.contains(q as usize) by {
                        if q < p {
                            let i = choose|i: int| 0 <= i < old_r.len() && old_r[i] == q as usize;
                            assert(r@[i] == q as usize);
                        } else {
                            assert(r@[r@.len() - 1] == q as usize);
                        }
                    }
                }
            }
            p = p + 1;
        }
        r
    }

    /// Hands out the panel with the fetched metadata merged in, unless the
    /// navigation went stale before the build completed: then nothing of
    /// it is kept.
    pub fn finish_with(self, results: &Vec<(usize, Meta)>, stale: bool) -> (r: Result<ListView, BuildError>)
        requires
            self.view.wf(),
        ensures
            stale ==> r == Err::<ListView, BuildError>(BuildError::Stale),
            !stale ==> (r matches Ok(v) && merged(
                self.view.content,
                v.content,
                results@.filter(|x: (usize, Meta)| x.0 < self.view.content.count()),
            ) && v.view == self.view.view && v.wf() && v.current_item == v.selected() && !v.content.dirty),
    {
        if stale {
            return Err(BuildError::Stale);
        }
        let mut view = self.view;
        merge_metadata(&mut view.content, results);
        let ghost merged_content = view.content;
        view.content.dirty = false;
        proof {
            assert forall|q: int| 0 <= q < view.content.count() implies #[trigger] view.content.entry_at(q) == merged_content.entry_at(q) by {}
        }
        view.update_selected_file();
        Ok(view)
    }

    /// As `finish_with`, asking the build's token whether it went stale.
    pub fn finish(self, results: &Vec<(usize, Meta)>) -> (r: Result<ListView, BuildError>)
        requires
            self.view.wf(),
        ensures
            self.stale is None ==> (r matches Ok(v) && merged(
                self.view.content,
                v.content,
                results@.filter(|x: (usize, Meta)| x.0 < self.view.content.count()),
            ) && v.view == self.view.view),
            r matches Ok(v) ==> merged(
                self.view.content,
                v.content,
                results@.filter(|x: (usize, Meta)| x.0 < self.view.content.count()),
            ) && v.view == self.view.view && v.wf() && v.current_item == v.selected() && !v.content.dirty,
    {
        let stale = match &self.stale {
            Some(t) => token_is_stale(t),
            None => false,
        };
        self.finish_with(results, stale)
    }
}

} // verus!
