//! An explicit font cache, owned by the shared frame context: rasterized
//! font resources live in the embedding program's store and are found here
//! by path and point size, so no font is loaded twice.

use vstd::prelude::*;

verus! {

/// One cached font: the path it was loaded from (as bytes), its point size,
/// and the embedder's handle for the loaded resource.
#[derive(Debug)]
pub struct FontEntry {
    pub path: Vec<u8>,
    pub size: u16,
    pub font: u64,
}

/// The handle of the first cached entry matching `path` and `size`, if any.
pub open spec fn lookup_font(entries: Seq<FontEntry>, path: Seq<u8>, size: u16) -> Option<u64>
    decreases entries.len(),
{
    if entries.len() == 0 {
        None
    } else if entries[0].path@ == path && entries[0].size == size {
        Some(entries[0].font)
    } else {
        lookup_font(entries.drop_first(), path, size)
    }
}

/// A cache of loaded fonts keyed by path and point size.
#[derive(Debug)]
pub struct FontCache {
    entries: Vec<FontEntry>,
}

impl FontCache {
    /// The cached entries, oldest first.
    pub closed spec fn entries(self) -> Seq<FontEntry> {
        self.entries@
    }

    /// An empty cache.
    pub fn new() -> (c: FontCache)
        ensures
            c.entries() == Seq::<FontEntry>::empty(),
    {
        FontCache { entries: Vec::new() }
    }

    /// The handle cached for `path` and `size`, if one is cached.
    pub fn get(&self, path: &Vec<u8>, size: u16) -> (r: Option<u64>)
        ensures
            r == lookup_font(self.entries(), path@, size),
    {
        let mut i: usize = 0;
        while i < self.entries.len()
            invariant
                i <= self.entries@.len(),
                forall|j: int| 0 <= j < i
                    ==> !(self.entries@[j].path@ == path@ && self.entries@[j].size == size),
            decreases self.entries@.len() - i,
        {
            if self.entries[i].size == size && bytes_eq(&self.entries[i].path, path) {
                proof {
                    lemma_lookup_font_at(self.entries@, path@, size, i as int);
                }
                return Some(self.entries[i].font);
            }
            i += 1;
        }
        proof {
            lemma_lookup_font_none(self.entries@, path@, size);
        }
        None
    }

    /// Caches a handle for `path` and `size`. The key must not be cached
    /// yet — callers insert only after a failed [`FontCache::get`] — so
    /// every key ever maps to exactly one handle and no entry can shadow
    /// another.
    pub fn insert(&mut self, path: Vec<u8>, size: u16, font: u64)
        requires
            lookup_font(old(self).entries(), path@, size) is None,
        ensures
            final(self).entries().len() == old(self).entries().len() + 1,
            final(self).entries() == old(self).entries().push(FontEntry { path, size, font }),
    {
        self.entries.push(FontEntry { path, size, font });
    }
}

/// Byte-for-byte equality of two byte vectors.
fn bytes_eq(a: &Vec<u8>, b: &Vec<u8>) -> (r: bool)
    ensures
        r == (a@ == b@),
{
    if a.len() != b.len() {
        return false;
    }
    let mut i: usize = 0;
    while i < a.len()
        invariant
            i <= a@.len(),
            a@.len() == b@.len(),
            forall|j: int| 0 <= j < i ==> a@[j] == b@[j],
        decreases a@.len() - i,
    {
        if a[i] != b[i] {
            return false;
        }
        i += 1;
    }
    proof {
        assert(a@ =~= b@);
    }
    true
}

/// A scan that finds the key first at position `i` agrees with
/// [`lookup_font`].
proof fn lemma_lookup_font_at(entries: Seq<FontEntry>, path: Seq<u8>, size: u16, i: int)
    requires
        0 <= i < entries.len(),
        entries[i].path@ == path && entries[i].size == size,
        forall|j: int| 0 <= j < i ==> !(entries[j].path@ == path && entries[j].size == size),
    ensures
        lookup_font(entries, path, size) == Some(entries[i].font),
    decreases i,
{
    if i > 0 {
        lemma_lookup_font_at(entries.drop_first(), path, size, i - 1);
    }
}

/// A scan that never finds the key agrees with [`lookup_font`].
proof fn lemma_lookup_font_none(entries: Seq<FontEntry>, path: Seq<u8>, size: u16)
    requires
        forall|j: int| 0 <= j < entries.len()
            ==> !(entries[j].path@ == path && entries[j].size == size),
    ensures
        lookup_font(entries, path, size) is None,
    decreases entries.len(),
{
    if entries.len() > 0 {
        lemma_lookup_font_none(entries.drop_first(), path, size);
    }
}

} // verus!
