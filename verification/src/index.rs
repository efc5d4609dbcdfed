//! The embedded asset index: generation-time construction and runtime lookup.
//!
//! [`build_index`] plays the embedder's role: it turns the discovered entries
//! into an immutable [`AssetIndex`], sized according to the chosen
//! [`CapacityMode`], rejecting an empty file set outright. The index is the
//! runtime store: it exposes a single read-only lookup, [`AssetIndex::get_raw`],
//! and no mutation at all, so its abstract value — a map from relative path
//! to the exact original bytes — is fixed for the life of the process.

use vstd::prelude::*;
use vstd::seq_lib::group_to_multiset_ensures;
use crate::capacity::{clog2, is_pow2, pow2, round_pow_2, CapacityMode};
use crate::errors::BuildError;

verus! {

/// One discovered file: its lookup key relative to the scan root, the
/// canonical absolute path it was read from (meaningful at generation time
/// only), and its raw content, embedded verbatim.
pub struct FileEntry {
    pub relative_path: String,
    pub canonical_path: String,
    pub bytes: Vec<u8>,
}

/// No two entries share a relative path. The filesystem guarantees this for
/// the files under a single scan root.
pub open spec fn unique_keys(s: Seq<FileEntry>) -> bool {
    forall|i: int, j: int|
        0 <= i < j < s.len() ==> s[i].relative_path@ != s[j].relative_path@
}

/// The mapping the entries denote: each relative path bound to that file's
/// bytes. Later entries win on a repeated key, which `unique_keys` rules out.
pub open spec fn asset_map(s: Seq<FileEntry>) -> Map<Seq<char>, Seq<u8>>
    decreases s.len(),
{
    if s.len() == 0 {
        Map::empty()
    } else {
        asset_map(s.drop_last()).insert(s.last().relative_path@, s.last().bytes@)
    }
}

/// A key is in the map exactly when some entry carries it.
pub proof fn lemma_asset_map_dom(s: Seq<FileEntry>, k: Seq<char>)
    ensures
        asset_map(s).contains_key(k) <==> exists|i: int|
            0 <= i < s.len() && s[i].relative_path@ == k,
    decreases s.len(),
{
    if s.len() > 0 {
        let t = s.drop_last();
        lemma_asset_map_dom(t, k);
        assert(forall|i: int| 0 <= i < t.len() ==> t[i] == s[i]);
        if s.last().relative_path@ == k {
            assert(s[s.len() - 1].relative_path@ == k);
        } else {
            if asset_map(s).contains_key(k) {
                let i = choose|i: int| 0 <= i < t.len() && t[i].relative_path@ == k;
                assert(s[i].relative_path@ == k);
            }
            if exists|i: int| 0 <= i < s.len() && s[i].relative_path@ == k {
                let i = choose|i: int| 0 <= i < s.len() && s[i].relative_path@ == k;
                assert(i < s.len() - 1);
                assert(t[i].relative_path@ == k);
            }
        }
    }
}

/// Embedding preserves content: with unique keys, looking an entry's key up
/// in the map yields exactly that entry's bytes — byte-for-byte the original
/// file content handed to the embedder.
pub proof fn lemma_embedded_bytes_exact(s: Seq<FileEntry>, i: int)
    requires
        unique_keys(s),
        0 <= i < s.len(),
    ensures
        asset_map(s).contains_key(s[i].relative_path@),
        asset_map(s)[s[i].relative_path@] == s[i].bytes@,
    decreases s.len(),
{
    let t = s.drop_last();
    assert(forall|j: int| 0 <= j < t.len() ==> t[j] == s[j]);
    if i == s.len() - 1 {
        assert(s.last() == s[i]);
    } else {
        assert(unique_keys(t));
        lemma_embedded_bytes_exact(t, i);
        assert(s.last().relative_path@ != s[i].relative_path@);
    }
}

/// With unique keys, the map holds exactly one binding per entry.
pub proof fn lemma_asset_map_len(s: Seq<FileEntry>)
    requires
        unique_keys(s),
    ensures
        asset_map(s).dom().finite(),
        asset_map(s).dom().len() == s.len(),
    decreases s.len(),
{
    if s.len() > 0 {
        let t = s.drop_last();
        assert(forall|j: int| 0 <= j < t.len() ==> t[j] == s[j]);
        assert(unique_keys(t));
        lemma_asset_map_len(t);
        let k = s.last().relative_path@;
        lemma_asset_map_dom(t, k);
        assert(!asset_map(t).contains_key(k)) by {
            if exists|i: int| 0 <= i < t.len() && t[i].relative_path@ == k {
                let i = choose|i: int| 0 <= i < t.len() && t[i].relative_path@ == k;
                assert(s[i].relative_path@ == s[s.len() - 1].relative_path@);
            }
        }
    }
}

/// Generation is deterministic up to traversal order: two scans of an
/// unchanged tree hand the embedder the same entries, possibly in another
/// order, and the resulting maps — in particular their key sets — coincide.
pub proof fn lemma_generation_order_irrelevant(a: Seq<FileEntry>, b: Seq<FileEntry>)
    requires
        a.to_multiset() == b.to_multiset(),
        unique_keys(a),
        unique_keys(b),
    ensures
        asset_map(a).dom() == asset_map(b).dom(),
        asset_map(a) == asset_map(b),
{
    broadcast use group_to_multiset_ensures;

    assert forall|k: Seq<char>|
        asset_map(a).contains_key(k) implies asset_map(b).contains_key(k) by {
        lemma_maps_share_key(a, b, k);
    }
    assert forall|k: Seq<char>|
        asset_map(b).contains_key(k) implies asset_map(a).contains_key(k) by {
        lemma_maps_share_key(b, a, k);
    }
    assert(asset_map(a).dom() =~= asset_map(b).dom());
    assert forall|k: Seq<char>| #[trigger]
        asset_map(a).contains_key(k) implies asset_map(a)[k] == asset_map(b)[k] by {
        lemma_asset_map_dom(a, k);
        let i = choose|i: int| 0 <= i < a.len() && a[i].relative_path@ == k;
        lemma_embedded_bytes_exact(a, i);
        assert(a.contains(a[i]));
        assert(a.to_multiset().count(a[i]) > 0);
        assert(b.to_multiset().count(a[i]) > 0);
        assert(b.contains(a[i]));
        let j = choose|j: int| 0 <= j < b.len() && b[j] == a[i];
        lemma_embedded_bytes_exact(b, j);
    }
    assert(asset_map(a) =~= asset_map(b));
}

/// An entry of `a` whose key is `k` also appears in `b` when the two hold
/// the same entries as multisets, so `k` is in `b`'s map as well.
proof fn lemma_maps_share_key(a: Seq<FileEntry>, b: Seq<FileEntry>, k: Seq<char>)
    requires
        a.to_multiset() == b.to_multiset(),
        asset_map(a).contains_key(k),
    ensures
        asset_map(b).contains_key(k),
{
    broadcast use group_to_multiset_ensures;

    lemma_asset_map_dom(a, k);
    lemma_asset_map_dom(b, k);
    let i = choose|i: int| 0 <= i < a.len() && a[i].relative_path@ == k;
    assert(a.contains(a[i]));
    assert(a.to_multiset().count(a[i]) > 0);
    assert(b.to_multiset().count(a[i]) > 0);
    assert(b.contains(a[i]));
    let j = choose|j: int| 0 <= j < b.len() && b[j] == a[i];
    assert(b[j].relative_path@ == k);
}

/// The immutable runtime store. Once built it only answers lookups; its
/// abstract value is the map from relative path to embedded bytes.
pub struct AssetIndex {
    entries: Vec<FileEntry>,
    capacity: Option<usize>,
}

impl View for AssetIndex {
    type V = Map<Seq<char>, Seq<u8>>;

    closed spec fn view(&self) -> Map<Seq<char>, Seq<u8>> {
        asset_map(self.entries@)
    }
}

impl AssetIndex {
    /// Keys are unique, the index is never empty, and a fixed capacity is
    /// exactly the smallest power of two holding every entry.
    #[verifier::type_invariant]
    closed spec fn inv(&self) -> bool {
        &&& unique_keys(self.entries@)
        &&& self.entries@.len() >= 1
        &&& match self.capacity {
            None => true,
            Some(c) => is_pow2(c as nat) && self.entries@.len() <= c < 2 * self.entries@.len(),
        }
    }

    /// The fixed capacity the index was generated with, or nothing in
    /// dynamic mode.
    pub closed spec fn spec_capacity(&self) -> Option<usize> {
        self.capacity
    }

    pub fn capacity(&self) -> (c: Option<usize>)
        ensures
            c == self.spec_capacity(),
    {
        self.capacity
    }

    /// How many assets are embedded: one binding per discovered file.
    pub fn len(&self) -> (n: usize)
        ensures
            n as nat == self@.dom().len(),
            n >= 1,
    {
        proof {
            use_type_invariant(&*self);
            lemma_asset_map_len(self.entries@);
        }
        self.entries.len()
    }

    /// Read-only lookup: the bytes embedded under `path`, exactly as they
    /// were at generation time, or nothing when the key was never embedded.
    pub fn get_raw<'a>(&'a self, path: &str) -> (r: Option<&'a [u8]>)
        ensures
            match r {
                Some(bytes) => self@.contains_key(path@) && bytes@ == self@[path@],
                None => !self@.contains_key(path@),
            },
    {
        proof {
            use_type_invariant(&*self);
        }
        let needle = path.to_owned();
        let n = self.entries.len();
        let mut i: usize = 0;
        while i < n
            invariant
                0 <= i <= n == self.entries@.len(),
                needle@ == path@,
                unique_keys(self.entries@),
                forall|j: int| 0 <= j < i ==> self.entries@[j].relative_path@ != path@,
            decreases n - i,
        {
            let e = &self.entries[i];
            if e.relative_path == needle {
                proof {
                    lemma_embedded_bytes_exact(self.entries@, i as int);
                }
                return Some(e.bytes.as_slice());
            }
            i += 1;
        }
        proof {
            lemma_asset_map_dom(self.entries@, path@);
        }
        None
    }
}

/// Assembles the immutable index from the discovered entries, in the chosen
/// capacity mode. Zero discovered files are rejected outright: an empty embed
/// must never arise silently. In `FixedPow2` mode the capacity is the
/// smallest power of two at least the entry count, so inserting every entry
/// can never overflow it.
pub fn build_index(entries: Vec<FileEntry>, mode: CapacityMode) -> (r: Result<
    AssetIndex,
    BuildError,
>)
    requires
        unique_keys(entries@),
        mode == CapacityMode::FixedPow2 ==> entries@.len() <= usize::MAX / 2 + 1,
    ensures
        match r {
            Ok(index) => {
                &&& entries@.len() >= 1
                &&& index@ == asset_map(entries@)
                &&& match mode {
                    CapacityMode::Dynamic => index.spec_capacity() is None,
                    CapacityMode::FixedPow2 => match index.spec_capacity() {
                        Some(c) => {
                            &&& c as nat == pow2(clog2(entries@.len()))
                            &&& is_pow2(c as nat)
                            &&& entries@.len() <= c < 2 * entries@.len()
                        },
                        None => false,
                    },
                }
            },
            Err(e) => e == BuildError::EmptyFileSet && entries@.len() == 0,
        },
{
    if entries.len() == 0 {
        return Err(BuildError::EmptyFileSet);
    }
    let capacity = match mode {
        CapacityMode::Dynamic => None,
        CapacityMode::FixedPow2 => Some(round_pow_2(entries.len())),
    };
    Ok(AssetIndex { entries, capacity })
}

} // verus!
