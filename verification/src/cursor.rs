//! The wallpaper cursor: an ordered, navigable list of image paths, the
//! pair of crop records (baseline and edited) for the image under the
//! cursor, the active aspect ratio, and the injected record store.  Every
//! operation keeps the cursor, the file list and the loaded records
//! mutually consistent.

use vstd::prelude::*;
use vstd::pervasive::unreached;
use crate::geometry::{spec_crop_candidates, AspectRatio, Geometry};
use crate::store::{filename, spec_filename, spec_find, WallpapersCsv};
use crate::wallinfo::{spec_get_geometry, spec_set_geometry, WallInfo};

verus! {

/// Why a cursor could not be built.
#[derive(Debug)]
pub enum WallpapersError {
    /// The resolved file list was empty.
    NoWallpapers,
    /// The store holds no record for this file name, although the file
    /// stands in the list: the store and the list have drifted apart.
    RecordNotFound(String),
}

/// One step forward in a cyclic list of `len` entries.
pub open spec fn advance(i: int, len: int) -> int {
    if i == len - 1 {
        0
    } else {
        i + 1
    }
}

/// One step backward in a cyclic list of `len` entries.
pub open spec fn retreat(i: int, len: int) -> int {
    if i == 0 {
        len - 1
    } else {
        i - 1
    }
}

/// `n` steps forward in a cyclic list of `len` entries.
pub open spec fn advance_n(i: int, len: int, n: nat) -> int
    decreases n,
{
    if n == 0 {
        i
    } else {
        advance(advance_n(i, len, (n - 1) as nat), len)
    }
}

/// Within one cycle, stepping forward `n` times from `i` lands on `i + n`,
/// wrapped once past the end.
proof fn lemma_advance_n_within_cycle(i: int, len: int, n: nat)
    requires
        0 <= i < len,
        n <= len,
    ensures
        advance_n(i, len, n) == if i + n < len {
            i + n
        } else {
            i + n - len
        },
    decreases n,
{
    if n > 0 {
        lemma_advance_n_within_cycle(i, len, (n - 1) as nat);
    }
}

/// Law: in a cyclic list, stepping forward exactly as many times as the
/// list has entries returns the cursor to its starting position.
pub proof fn lemma_advance_full_cycle(i: int, len: int)
    requires
        0 <= i < len,
    ensures
        advance_n(i, len, len as nat) == i,
{
    lemma_advance_n_within_cycle(i, len, len as nat);
}

/// Law: one step backward then one forward restores the cursor position,
/// and so does one step forward then one backward.
pub proof fn lemma_prev_next_inverse(i: int, len: int)
    requires
        0 <= i < len,
    ensures
        advance(retreat(i, len), len) == i,
        retreat(advance(i, len), len) == i,
{
}

/// The discovered files stand most recently modified first: the
/// modification times never increase along the list.
pub open spec fn sorted_by_mtime_desc(s: Seq<(String, u64)>) -> bool {
    forall|a: int, b: int| 0 <= a < b < s.len() ==> s[a].1 >= s[b].1
}

/// Orders discovered files most recently modified first, as the cursor
/// expects them: the result is a permutation of the input whose
/// modification times never increase along the list.
pub fn sort_by_mtime(files: &mut Vec<(String, u64)>)
    ensures
        final(files)@.len() == old(files)@.len(),
        final(files)@.to_multiset() == old(files)@.to_multiset(),
        sorted_by_mtime_desc(final(files)@),
{
    let ghost orig = old(files)@;
    if files.len() < 2 {
        return ;
    }
    let mut i: usize = 1;
    while i < files.len()
        invariant
            1 <= i <= files@.len(),
            files@.len() == orig.len(),
            files@.to_multiset() == orig.to_multiset(),
            forall|a: int, b: int| 0 <= a < b < i ==> files@[a].1 >= files@[b].1,
        decreases files@.len() - i,
    {
        let mut j: usize = i;
        while j > 0 && files[j - 1].1 < files[j].1
            invariant
                0 <= j <= i < files@.len(),
                files@.len() == orig.len(),
                files@.to_multiset() == orig.to_multiset(),
                forall|a: int, b: int|
                    0 <= a < b <= i && a != j && b != j ==> files@[a].1 >= files@[b].1,
                forall|b: int| j < b <= i ==> files@[j as int].1 > files@[b].1,
            decreases j,
        {
            let ghost v = files@;
            let moved = files.remove(j - 1);
            files.insert(j, moved);
            proof {
                broadcast use vstd::seq_lib::group_to_multiset_ensures;
                broadcast use vstd::multiset::group_multiset_axioms;

                let rem = v.remove(j - 1);
                assert(files@ == rem.insert(j as int, v[j - 1]));
                vstd::seq_lib::to_multiset_remove::<(String, u64)>(v, j - 1);
                vstd::seq_lib::to_multiset_insert::<(String, u64)>(rem, j as int, v[j - 1]);
                assert(v.contains(v[j - 1])) by {
                    assert(v[j - 1] == v[j - 1]);
                }
                assert(v.to_multiset().count(v[j - 1]) > 0);
                assert(files@.to_multiset() =~= v.to_multiset());
                assert(files@[j - 1] == v[j as int]);
                assert(files@[j as int] == v[j - 1]);
                assert(forall|k: int|
                    0 <= k < v.len() && k != j - 1 && k != j ==> files@[k] == v[k]);
            }
            j -= 1;
        }
        proof {
            assert forall|a: int, b: int| 0 <= a < b <= i implies files@[a].1 >= files@[b].1 by {
                if a == j as int {
                    assert(files@[a].1 > files@[b].1);
                } else if b == j as int {
                    assert(j > 0);
                    assert(files@[j - 1].1 >= files@[j as int].1);
                    if a < j - 1 {
                        assert(files@[a].1 >= files@[j - 1].1);
                    }
                }
            }
        }
        i += 1;
    }
}

/// The wallpaper cursor.  `files` is ordered most recently modified
/// first; `source` is the record as last loaded from the store for the
/// file at `index`, `current` the same record as modified by in-session
/// edits.  Edits are discarded whenever the cursor moves.
#[derive(Debug)]
pub struct Wallpapers {
    /// Ordered list of image paths.
    pub files: Vec<String>,
    /// The record as last loaded from the store for the file at `index`:
    /// the unmodified baseline.
    pub source: WallInfo,
    /// The record for the file at `index`, as modified by in-session
    /// edits.
    pub current: WallInfo,
    /// Position of the cursor within `files`.
    pub index: usize,
    /// The aspect ratio currently being edited.
    pub ratio: AspectRatio,
    /// The record store, injected at construction.
    pub csv: WallpapersCsv,
}

impl Wallpapers {
    /// The record the store holds for the file at position `i`.
    pub open spec fn record_at(self, i: int) -> <WallInfo as View>::V {
        spec_find(self.csv.entries@, spec_filename(self.files@[i]@)).unwrap()@
    }

    /// Every listed file has a record in the store.
    pub open spec fn files_covered(self) -> bool {
        forall|i: int|
            0 <= i < self.files@.len() ==> (#[trigger] spec_find(
                self.csv.entries@,
                spec_filename(self.files@[i]@),
            )) is Some
    }

    /// Well-formedness: the cursor stands inside a non-empty file list,
    /// the active ratio is meaningful, every listed file has a record in
    /// the store, and `source` is the store's record for the file under
    /// the cursor.
    pub open spec fn wf(self) -> bool {
        &&& 0 < self.files@.len()
        &&& (self.index as int) < self.files@.len()
        &&& self.ratio.valid()
        &&& self.files_covered()
        &&& self.source@ == self.record_at(self.index as int)
    }

    /// Reloads `source` and `current` from the store for the file at
    /// `index`, discarding any unsaved edits.
    fn reload(&mut self)
        requires
            (old(self).index as int) < old(self).files@.len(),
            spec_find(
                old(self).csv.entries@,
                spec_filename(old(self).files@[old(self).index as int]@),
            ) is Some,
        ensures
            final(self).files == old(self).files,
            final(self).index == old(self).index,
            final(self).ratio == old(self).ratio,
            final(self).csv == old(self).csv,
            final(self).source@ == old(self).record_at(old(self).index as int),
            final(self).current@ == final(self).source@,
    {
        let name = filename(self.files[self.index].as_str());
        let loaded: WallInfo = match self.csv.get(name.as_str()) {
            Some(w) => w.clone(),
            None => unreached(),
        };
        self.source = loaded.clone();
        self.current = loaded;
    }

    /// Moves the cursor one entry backward, wrapping from the first entry
    /// to the last, and reloads both records from the store for the new
    /// file, discarding unsaved edits.
    pub fn prev_wall(&mut self)
        requires
            old(self).wf(),
        ensures
            final(self).wf(),
            final(self).files == old(self).files,
            final(self).ratio == old(self).ratio,
            final(self).csv == old(self).csv,
            final(self).index as int == retreat(
                old(self).index as int,
                old(self).files@.len() as int,
            ),
            final(self).source@ == old(self).record_at(final(self).index as int),
            final(self).current@ == final(self).source@,
    {
        self.index = if self.index == 0 {
            self.files.len() - 1
        } else {
            self.index - 1
        };
        self.reload();
    }

    /// Moves the cursor one entry forward, wrapping from the last entry
    /// to the first, and reloads both records from the store for the new
    /// file, discarding unsaved edits.
    pub fn next_wall(&mut self)
        requires
            old(self).wf(),
        ensures
            final(self).wf(),
            final(self).files == old(self).files,
            final(self).ratio == old(self).ratio,
            final(self).csv == old(self).csv,
            final(self).index as int == advance(
                old(self).index as int,
                old(self).files@.len() as int,
            ),
            final(self).source@ == old(self).record_at(final(self).index as int),
            final(self).current@ == final(self).source@,
    {
        self.index = if self.index == self.files.len() - 1 {
            0
        } else {
            self.index + 1
        };
        self.reload();
    }

    /// Removes the entry under the cursor from the file list and leaves
    /// the cursor on the entry that followed it, wrapping when the removed
    /// entry was the last.  The backing file and its record are untouched;
    /// the records are reloaded for the new current file.
    pub fn remove(&mut self)
        requires
            old(self).wf(),
            2 <= old(self).files@.len(),
        ensures
            final(self).wf(),
            final(self).files@ == old(self).files@.remove(old(self).index as int),
            final(self).ratio == old(self).ratio,
            final(self).csv == old(self).csv,
            final(self).index as int == if (old(self).index as int) + 1 < old(
                self,
            ).files@.len() {
                old(self).index as int
            } else {
                0
            },
            final(self).source@ == old(self).record_at(
                advance(old(self).index as int, old(self).files@.len() as int),
            ),
            final(self).current@ == final(self).source@,
    {
        let current_index = self.index;
        self.next_wall();
        self.files.remove(current_index);
        if current_index < self.files.len() {
            self.index = current_index;
        } else {
            self.index = 0;
        }
        proof {
            let oldf = old(self).files@;
            let ci = old(self).index as int;
            assert forall|i: int| 0 <= i < self.files@.len() implies (#[trigger] spec_find(
                self.csv.entries@,
                spec_filename(self.files@[i]@),
            )) is Some by {
                if i < ci {
                    assert(self.files@[i] == oldf[i]);
                } else {
                    assert(self.files@[i] == oldf[i + 1]);
                }
            }
            if ci + 1 < oldf.len() {
                assert(self.files@[ci] == oldf[ci + 1]);
            } else {
                assert(self.files@[0] == oldf[0]);
            }
        }
    }

    /// Moves the cursor to the earliest entry whose file-name component
    /// is `fname` and reloads both records from the store for that name,
    /// discarding unsaved edits.
    pub fn set_from_filename(&mut self, fname: &str)
        requires
            old(self).wf(),
            exists|i: int|
                0 <= i < old(self).files@.len() && spec_filename(
                    #[trigger] old(self).files@[i]@,
                ) == fname@,
        ensures
            final(self).wf(),
            final(self).files == old(self).files,
            final(self).ratio == old(self).ratio,
            final(self).csv == old(self).csv,
            (final(self).index as int) < old(self).files@.len(),
            spec_filename(old(self).files@[final(self).index as int]@) == fname@,
            forall|j: int|
                0 <= j < final(self).index ==> spec_filename(
                    #[trigger] old(self).files@[j]@,
                ) != fname@,
            final(self).source@ == spec_find(old(self).csv.entries@, fname@).unwrap()@,
            final(self).current@ == final(self).source@,
    {
        proof {
            let i = choose|i: int|
                0 <= i < self.files@.len() && spec_filename(#[trigger] self.files@[i]@) == fname@;
            assert(spec_find(self.csv.entries@, spec_filename(self.files@[i]@)) is Some);
        }
        let loaded: WallInfo = match self.csv.get(fname) {
            Some(w) => w.clone(),
            None => unreached(),
        };
        self.source = loaded.clone();
        self.current = loaded;
        let key: String = fname.to_owned();
        let mut i: usize = 0;
        while i < self.files.len()
            invariant
                i <= self.files@.len(),
                key@ == fname@,
                old(self).wf(),
                self.files == old(self).files,
                self.ratio == old(self).ratio,
                self.csv == old(self).csv,
                self.source@ == spec_find(self.csv.entries@, fname@).unwrap()@,
                self.current@ == self.source@,
                forall|j: int|
                    0 <= j < i ==> spec_filename(#[trigger] self.files@[j]@) != fname@,
                exists|k: int|
                    0 <= k < self.files@.len() && spec_filename(
                        #[trigger] self.files@[k]@,
                    ) == fname@,
            decreases self.files@.len() - i,
        {
            let name = filename(self.files[i].as_str());
            if name == key {
                self.index = i;
                return ;
            }
            i += 1;
        }
        proof {
            assert(false);
        }
    }

    /// Geometry of the edited record for the active ratio: the saved one,
    /// or the centered ratio-fitting crop when none is saved.
    pub fn get_geometry(&self) -> (g: Geometry)
        requires
            self.ratio.valid(),
        ensures
            g == spec_get_geometry(self.current@, self.ratio),
    {
        self.current.get_geometry(&self.ratio)
    }

    /// Saves `geom` for the active ratio in the edited record alone; the
    /// baseline record, the store and the cursor are untouched.
    pub fn set_geometry(&mut self, geom: &Geometry)
        ensures
            final(self).current@ == spec_set_geometry(old(self).current@, old(self).ratio, *geom),
            final(self).files == old(self).files,
            final(self).source == old(self).source,
            final(self).index == old(self).index,
            final(self).ratio == old(self).ratio,
            final(self).csv == old(self).csv,
            old(self).wf() ==> final(self).wf(),
    {
        self.current.set_geometry(&self.ratio, geom);
    }

    /// The ordered candidate crops for the current image and the active
    /// ratio.
    pub fn crop_candidates(&self) -> (r: Vec<Geometry>)
        requires
            self.ratio.valid(),
        ensures
            r@ == spec_crop_candidates(self.current@.width, self.current@.height, self.ratio),
    {
        self.current.crop_candidates(&self.ratio)
    }

    /// Builds a cursor over `files`, which must already stand in the
    /// intended order (most recently modified first), with the store the
    /// cursor will reload records from.  Fails when the list is empty or
    /// when the store lacks a record for a listed file; on success the
    /// cursor stands on the first file with both records freshly loaded
    /// and the fixed default ratio active.
    pub fn from_files(files: Vec<String>, csv: WallpapersCsv) -> (r: Result<
        Wallpapers,
        WallpapersError,
    >)
        ensures
            match r {
                Ok(w) => {
                    &&& w.wf()
                    &&& w.files@ == files@
                    &&& w.csv == csv
                    &&& w.index == 0
                    &&& w.ratio == AspectRatio(1440, 2560)
                    &&& 0 < files@.len()
                    &&& w.source@ == spec_find(csv.entries@, spec_filename(files@[0]@)).unwrap()@
                    &&& w.current@ == w.source@
                },
                Err(WallpapersError::NoWallpapers) => files@.len() == 0,
                Err(WallpapersError::RecordNotFound(name)) => exists|i: int|
                    {
                        &&& 0 <= i < files@.len()
                        &&& (#[trigger] spec_find(
                            csv.entries@,
                            spec_filename(files@[i]@),
                        )) is None
                        &&& name@ == spec_filename(files@[i]@)
                        &&& forall|j: int|
                            0 <= j < i ==> (#[trigger] spec_find(
                                csv.entries@,
                                spec_filename(files@[j]@),
                            )) is Some
                    },
            },
    {
        if files.len() == 0 {
            return Err(WallpapersError::NoWallpapers);
        }
        let mut k: usize = 0;
        while k < files.len()
            invariant
                k <= files@.len(),
                forall|j: int|
                    0 <= j < k ==> (#[trigger] spec_find(
                        csv.entries@,
                        spec_filename(files@[j]@),
                    )) is Some,
            decreases files@.len() - k,
        {
            let name = filename(files[k].as_str());
            if csv.get(name.as_str()).is_none() {
                return Err(WallpapersError::RecordNotFound(name));
            }
            k += 1;
        }
        let name0 = filename(files[0].as_str());
        let loaded: WallInfo = match csv.get(name0.as_str()) {
            Some(w) => w.clone(),
            None => unreached(),
        };
        let current = loaded.clone();
        Ok(
            Wallpapers {
                files,
                source: loaded,
                current,
                index: 0,
                ratio: AspectRatio(1440, 2560),
                csv,
            },
        )
    }
}

impl Default for Wallpapers {
    /// The base value before construction: no files, empty records, the
    /// fixed default ratio.
    fn default() -> (r: Self)
        ensures
            r.files@ == Seq::<String>::empty(),
            r.source@ == r.current@,
            r.source@.filename == Seq::<char>::empty(),
            r.source@.width == 0,
            r.source@.height == 0,
            r.source@.geometries == Seq::<(AspectRatio, Geometry)>::empty(),
            r.index == 0,
            r.ratio == AspectRatio(1440, 2560),
            r.csv.entries@ == Seq::<WallInfo>::empty(),
    {
        Wallpapers {
            files: Vec::new(),
            source: WallInfo::default(),
            current: WallInfo::default(),
            index: 0,
            ratio: AspectRatio(1440, 2560),
            csv: WallpapersCsv::new(),
        }
    }
}

} // verus!
