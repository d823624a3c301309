//! The per-image crop record: image dimensions and the saved crop geometry
//! for each aspect ratio, with lookup falling back to a derived centered
//! crop when no geometry was saved yet.

use vstd::prelude::*;
use vstd::pervasive::VecAdditionalExecFns;
use crate::geometry::{
    centered_crop, crop_candidates_for, spec_centered_crop, spec_crop_candidates, AspectRatio,
    Geometry,
};

verus! {

/// Spec-level image of a [`WallInfo`].
pub struct WallInfoView {
    pub filename: Seq<char>,
    pub width: u32,
    pub height: u32,
    pub geometries: Seq<(AspectRatio, Geometry)>,
}

/// Per-image crop record: the file name it is keyed by, the source image
/// dimensions, and the saved crop geometry per aspect ratio.
#[derive(Debug, PartialEq, Eq)]
pub struct WallInfo {
    /// File name (without any directory part) the record is keyed by.
    pub filename: String,
    /// Source image width in pixels.
    pub width: u32,
    /// Source image height in pixels.
    pub height: u32,
    /// Saved crop geometry per aspect ratio; the earliest entry for a
    /// ratio is the authoritative one.
    pub geometries: Vec<(AspectRatio, Geometry)>,
}

impl View for WallInfo {
    type V = WallInfoView;

    open spec fn view(&self) -> WallInfoView {
        WallInfoView {
            filename: self.filename@,
            width: self.width,
            height: self.height,
            geometries: self.geometries@,
        }
    }
}

/// The geometry saved for `ratio`, reading the earliest entry for that
/// ratio, if any.
pub open spec fn stored_geometry(
    gs: Seq<(AspectRatio, Geometry)>,
    ratio: AspectRatio,
) -> Option<Geometry>
    decreases gs.len(),
{
    if gs.len() == 0 {
        None
    } else if gs[0].0 == ratio {
        Some(gs[0].1)
    } else {
        stored_geometry(gs.drop_first(), ratio)
    }
}

/// The saved geometries after saving `g` for `ratio`: the earliest entry
/// for that ratio is replaced, or a new entry is appended.
pub open spec fn with_geometry(
    gs: Seq<(AspectRatio, Geometry)>,
    ratio: AspectRatio,
    g: Geometry,
) -> Seq<(AspectRatio, Geometry)>
    decreases gs.len(),
{
    if gs.len() == 0 {
        seq![(ratio, g)]
    } else if gs[0].0 == ratio {
        seq![(ratio, g)] + gs.drop_first()
    } else {
        seq![gs[0]] + with_geometry(gs.drop_first(), ratio, g)
    }
}

/// What a geometry lookup on a record returns: the saved geometry for
/// `ratio`, or the centered ratio-fitting crop when none is saved.
pub open spec fn spec_get_geometry(w: WallInfoView, ratio: AspectRatio) -> Geometry {
    match stored_geometry(w.geometries, ratio) {
        Some(g) => g,
        None => spec_centered_crop(w.width, w.height, ratio),
    }
}

/// The record after saving `g` for `ratio`; only the saved geometries
/// change.
pub open spec fn spec_set_geometry(w: WallInfoView, ratio: AspectRatio, g: Geometry) -> WallInfoView {
    WallInfoView { geometries: with_geometry(w.geometries, ratio, g), ..w }
}

/// When the earliest entry for `ratio` stands at `i`, the lookup reads
/// exactly that entry.
proof fn lemma_stored_geometry_first(gs: Seq<(AspectRatio, Geometry)>, ratio: AspectRatio, i: int)
    requires
        0 <= i < gs.len(),
        gs[i].0 == ratio,
        forall|j: int| 0 <= j < i ==> gs[j].0 != ratio,
    ensures
        stored_geometry(gs, ratio) == Some(gs[i].1),
    decreases i,
{
    if i > 0 {
        lemma_stored_geometry_first(gs.drop_first(), ratio, i - 1);
    }
}

/// When no entry holds `ratio`, the lookup finds nothing.
proof fn lemma_stored_geometry_none(gs: Seq<(AspectRatio, Geometry)>, ratio: AspectRatio)
    requires
        forall|j: int| 0 <= j < gs.len() ==> gs[j].0 != ratio,
    ensures
        stored_geometry(gs, ratio) is None,
    decreases gs.len(),
{
    if gs.len() > 0 {
        lemma_stored_geometry_none(gs.drop_first(), ratio);
    }
}

/// When the earliest entry for `ratio` stands at `i`, saving updates
/// exactly that entry.
proof fn lemma_with_geometry_first(
    gs: Seq<(AspectRatio, Geometry)>,
    ratio: AspectRatio,
    g: Geometry,
    i: int,
)
    requires
        0 <= i < gs.len(),
        gs[i].0 == ratio,
        forall|j: int| 0 <= j < i ==> gs[j].0 != ratio,
    ensures
        with_geometry(gs, ratio, g) == gs.update(i, (ratio, g)),
    decreases i,
{
    if i == 0 {
        assert(with_geometry(gs, ratio, g) =~= gs.update(0, (ratio, g)));
    } else {
        lemma_with_geometry_first(gs.drop_first(), ratio, g, i - 1);
        assert(with_geometry(gs, ratio, g) =~= gs.update(i, (ratio, g)));
    }
}

/// When no entry holds `ratio`, saving appends a new entry.
proof fn lemma_with_geometry_none(gs: Seq<(AspectRatio, Geometry)>, ratio: AspectRatio, g: Geometry)
    requires
        forall|j: int| 0 <= j < gs.len() ==> gs[j].0 != ratio,
    ensures
        with_geometry(gs, ratio, g) == gs.push((ratio, g)),
    decreases gs.len(),
{
    if gs.len() == 0 {
        assert(with_geometry(gs, ratio, g) =~= gs.push((ratio, g)));
    } else {
        lemma_with_geometry_none(gs.drop_first(), ratio, g);
        assert(with_geometry(gs, ratio, g) =~= gs.push((ratio, g)));
    }
}

/// Law: after saving a geometry for a ratio, a lookup for that ratio reads
/// back exactly the saved geometry, and a lookup for any other ratio is
/// unchanged.
pub proof fn lemma_geometry_round_trip(
    gs: Seq<(AspectRatio, Geometry)>,
    ratio: AspectRatio,
    g: Geometry,
    other: AspectRatio,
)
    ensures
        stored_geometry(with_geometry(gs, ratio, g), ratio) == Some(g),
        other != ratio ==> stored_geometry(with_geometry(gs, ratio, g), other) == stored_geometry(
            gs,
            other,
        ),
    decreases gs.len(),
{
    let w = with_geometry(gs, ratio, g);
    if gs.len() == 0 {
        assert(w[0] == (ratio, g));
        if other != ratio {
            assert(w.drop_first() =~= gs);
        }
    } else if gs[0].0 == ratio {
        assert(w[0] == (ratio, g));
        assert(w.drop_first() =~= gs.drop_first());
        if other != ratio {
            assert(stored_geometry(w, other) == stored_geometry(gs.drop_first(), other));
            assert(stored_geometry(gs, other) == stored_geometry(gs.drop_first(), other));
        }
    } else {
        lemma_geometry_round_trip(gs.drop_first(), ratio, g, other);
        assert(w[0] == gs[0]);
        assert(w.drop_first() =~= with_geometry(gs.drop_first(), ratio, g));
        assert(stored_geometry(w, ratio) == stored_geometry(w.drop_first(), ratio));
        if other != ratio {
            if gs[0].0 == other {
                assert(stored_geometry(w, other) == Some(gs[0].1));
                assert(stored_geometry(gs, other) == Some(gs[0].1));
            } else {
                assert(stored_geometry(w, other) == stored_geometry(w.drop_first(), other));
                assert(stored_geometry(gs, other) == stored_geometry(gs.drop_first(), other));
            }
        }
    }
}

/// Law: on a whole record, saving the geometry for the active ratio and
/// reading it back yields the geometry just saved, while a lookup for any
/// other ratio returns what it returned before the save.
pub proof fn lemma_set_then_get(w: WallInfoView, ratio: AspectRatio, g: Geometry, other: AspectRatio)
    ensures
        spec_get_geometry(spec_set_geometry(w, ratio, g), ratio) == g,
        other != ratio ==> spec_get_geometry(spec_set_geometry(w, ratio, g), other)
            == spec_get_geometry(w, other),
{
    lemma_geometry_round_trip(w.geometries, ratio, g, other);
}

impl WallInfo {
    /// Geometry for `ratio`: the saved one if present, else the centered
    /// ratio-fitting crop derived from the image dimensions.
    pub fn get_geometry(&self, ratio: &AspectRatio) -> (g: Geometry)
        requires
            ratio.valid(),
        ensures
            g == spec_get_geometry(self@, *ratio),
    {
        let mut i: usize = 0;
        while i < self.geometries.len()
            invariant
                ratio.valid(),
                i <= self.geometries.len(),
                forall|j: int| 0 <= j < i ==> self.geometries@[j].0 != *ratio,
            decreases self.geometries.len() - i,
        {
            if self.geometries[i].0 == *ratio {
                proof {
                    lemma_stored_geometry_first(self.geometries@, *ratio, i as int);
                }
                return self.geometries[i].1;
            }
            i += 1;
        }
        proof {
            lemma_stored_geometry_none(self.geometries@, *ratio);
        }
        centered_crop(self.width, self.height, ratio)
    }

    /// Saves `g` as the geometry for `ratio` in this record alone; nothing
    /// else about the record changes.
    pub fn set_geometry(&mut self, ratio: &AspectRatio, g: &Geometry)
        ensures
            final(self)@ == spec_set_geometry(old(self)@, *ratio, *g),
    {
        let mut i: usize = 0;
        while i < self.geometries.len()
            invariant
                i <= self.geometries.len(),
                *self == *old(self),
                forall|j: int| 0 <= j < i ==> self.geometries@[j].0 != *ratio,
            decreases self.geometries.len() - i,
        {
            if self.geometries[i].0 == *ratio {
                proof {
                    lemma_with_geometry_first(self.geometries@, *ratio, *g, i as int);
                }
                self.geometries.set(i, (*ratio, *g));
                return;
            }
            i += 1;
        }
        proof {
            lemma_with_geometry_none(self.geometries@, *ratio, *g);
        }
        self.geometries.push((*ratio, *g));
    }

    /// The ordered candidate crops for this image and `ratio`:
    /// start-aligned, centered, end-aligned.
    pub fn crop_candidates(&self, ratio: &AspectRatio) -> (r: Vec<Geometry>)
        requires
            ratio.valid(),
        ensures
            r@ == spec_crop_candidates(self@.width, self@.height, *ratio),
    {
        crop_candidates_for(self.width, self.height, ratio)
    }
}

impl Clone for WallInfo {
    /// A clone carries the same abstract record.
    fn clone(&self) -> (r: Self)
        ensures
            r@ == self@,
    {
        let mut gs: Vec<(AspectRatio, Geometry)> = Vec::new();
        let mut i: usize = 0;
        while i < self.geometries.len()
            invariant
                i <= self.geometries.len(),
                gs@ == self.geometries@.subrange(0, i as int),
            decreases self.geometries.len() - i,
        {
            gs.push(self.geometries[i]);
            proof {
                assert(gs@ =~= self.geometries@.subrange(0, i + 1));
            }
            i += 1;
        }
        proof {
            assert(gs@ =~= self.geometries@);
        }
        WallInfo {
            filename: self.filename.clone(),
            width: self.width,
            height: self.height,
            geometries: gs,
        }
    }
}

impl Default for WallInfo {
    /// An empty record: no name, zero dimensions, no saved geometries.
    fn default() -> (r: Self)
        ensures
            r@.filename == Seq::<char>::empty(),
            r@.width == 0,
            r@.height == 0,
            r@.geometries == Seq::<(AspectRatio, Geometry)>::empty(),
    {
        WallInfo { filename: String::new(), width: 0, height: 0, geometries: Vec::new() }
    }
}

} // verus!
