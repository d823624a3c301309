//! The record store consumed by the cursor: per-image crop records keyed
//! by file name, and the extraction of a path's file-name component.

use vstd::prelude::*;
use vstd::string::StrSliceExecFns;
use crate::wallinfo::WallInfo;

verus! {

/// The file-name component of a path: the suffix after the last `/`, or
/// the whole path when it holds none.
pub open spec fn spec_filename(s: Seq<char>) -> Seq<char>
    decreases s.len(),
{
    if s.len() == 0 {
        s
    } else if s[s.len() - 1] == '/' {
        Seq::empty()
    } else {
        spec_filename(s.drop_last()).push(s.last())
    }
}

/// The file-name component is the suffix that starts right after the last
/// `/`.
proof fn lemma_spec_filename_suffix(s: Seq<char>, cut: int)
    requires
        0 <= cut <= s.len(),
        forall|j: int| cut <= j < s.len() ==> s[j] != '/',
        cut > 0 ==> s[cut - 1] == '/',
    ensures
        spec_filename(s) == s.subrange(cut, s.len() as int),
    decreases s.len(),
{
    if s.len() == cut {
        assert(spec_filename(s) =~= s.subrange(cut, cut));
    } else {
        lemma_spec_filename_suffix(s.drop_last(), cut);
        assert(spec_filename(s) =~= s.subrange(cut, s.len() as int));
    }
}

/// The file-name component of `path`: everything after the last `/`.
pub fn filename(path: &str) -> (r: String)
    ensures
        r@ == spec_filename(path@),
{
    let len = path.unicode_len();
    let mut cut: usize = len;
    while cut > 0 && path.get_char(cut - 1) != '/'
        invariant
            cut <= len,
            len == path@.len(),
            forall|j: int| cut <= j < len ==> path@[j] != '/',
        decreases cut,
    {
        cut -= 1;
    }
    proof {
        lemma_spec_filename_suffix(path@, cut as int);
    }
    let r = path.substring_char(cut, len);
    r.to_owned()
}

/// The record store: per-image crop records keyed by file name.  The
/// earliest entry for a name is the authoritative one.
#[derive(Debug)]
pub struct WallpapersCsv {
    pub entries: Vec<WallInfo>,
}

/// The earliest record in `entries` whose file name is `name`, if any.
pub open spec fn spec_find(entries: Seq<WallInfo>, name: Seq<char>) -> Option<WallInfo>
    decreases entries.len(),
{
    if entries.len() == 0 {
        None
    } else if entries[0].filename@ == name {
        Some(entries[0])
    } else {
        spec_find(entries.drop_first(), name)
    }
}

/// When the earliest entry named `name` stands at `i`, the lookup reads
/// exactly that entry.
proof fn lemma_spec_find_first(entries: Seq<WallInfo>, name: Seq<char>, i: int)
    requires
        0 <= i < entries.len(),
        entries[i].filename@ == name,
        forall|j: int| 0 <= j < i ==> entries[j].filename@ != name,
    ensures
        spec_find(entries, name) == Some(entries[i]),
    decreases i,
{
    if i > 0 {
        lemma_spec_find_first(entries.drop_first(), name, i - 1);
    }
}

/// When no entry is named `name`, the lookup finds nothing.
proof fn lemma_spec_find_none(entries: Seq<WallInfo>, name: Seq<char>)
    requires
        forall|j: int| 0 <= j < entries.len() ==> entries[j].filename@ != name,
    ensures
        spec_find(entries, name) is None,
    decreases entries.len(),
{
    if entries.len() > 0 {
        lemma_spec_find_none(entries.drop_first(), name);
    }
}

impl WallpapersCsv {
    /// An empty store.
    pub fn new() -> (r: Self)
        ensures
            r.entries@ == Seq::<WallInfo>::empty(),
    {
        WallpapersCsv { entries: Vec::new() }
    }

    /// Adds a record at the end of the store.
    pub fn insert(&mut self, info: WallInfo)
        ensures
            final(self).entries@ == old(self).entries@.push(info),
    {
        self.entries.push(info);
    }

    /// Looks up the record for a file name; returns the earliest record
    /// carrying that name, or nothing when the store holds none.
    pub fn get(&self, name: &str) -> (r: Option<&WallInfo>)
        ensures
            match r {
                Some(w) => spec_find(self.entries@, name@) == Some(*w),
                None => spec_find(self.entries@, name@) is None,
            },
    {
        let key: String = name.to_owned();
        let mut i: usize = 0;
        while i < self.entries.len()
            invariant
                i <= self.entries.len(),
                key@ == name@,
                forall|j: int| 0 <= j < i ==> self.entries@[j].filename@ != name@,
            decreases self.entries.len() - i,
        {
            if self.entries[i].filename == key {
                proof {
                    lemma_spec_find_first(self.entries@, name@, i as int);
                }
                return Some(&self.entries[i]);
            }
            i += 1;
        }
        proof {
            lemma_spec_find_none(self.entries@, name@);
        }
        None
    }
}

} // verus!
