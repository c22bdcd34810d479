use vstd::prelude::*;

use crate::errors::ShareError;
use crate::paths::{get_export_path, seg_chars_ok, split_slash};

verus! {

/// A content identity: the store's digest of a blob's bytes, held as
/// plain bytes so that the pipeline's logic can be stated over them.
pub struct HashId {
    bytes: Vec<u8>,
}

impl View for HashId {
    type V = Seq<u8>;

    closed spec fn view(&self) -> Seq<u8> {
        self.bytes@
    }
}

impl HashId {
    pub fn from_bytes(bytes: Vec<u8>) -> (r: HashId)
        ensures
            r@ == bytes@,
    {
        HashId { bytes }
    }

    pub fn bytes(&self) -> (r: &Vec<u8>)
        ensures
            r@ == self@,
    {
        &self.bytes
    }

    /// A second handle to the same identity.
    pub fn duplicate(&self) -> (r: HashId)
        ensures
            r@ == self@,
    {
        let mut copy: Vec<u8> = Vec::new();
        let mut i: usize = 0;
        while i < self.bytes.len()
            invariant
                i <= self.bytes@.len(),
                copy@ == self.bytes@.take(i as int),
            decreases self.bytes@.len() - i,
        {
            copy.push(self.bytes[i]);
            proof {
                assert(copy@ =~= self.bytes@.take(i as int + 1));
            }
            i += 1;
        }
        proof {
            assert(self.bytes@.take(self.bytes@.len() as int) =~= self.bytes@);
        }
        HashId { bytes: copy }
    }
}

/// One named entry of a collection.
pub struct CollectionEntry {
    pub name: String,
    pub hash: HashId,
}

/// An ordered sequence of (name, content identity) pairs. The order is
/// the caller's and is preserved: it carries no meaning beyond
/// reproducibility, but a stable order gives a deterministic identity
/// once the collection is stored.
pub struct Collection {
    entries: Vec<CollectionEntry>,
}

impl View for Collection {
    type V = Seq<(Seq<char>, Seq<u8>)>;

    closed spec fn view(&self) -> Seq<(Seq<char>, Seq<u8>)> {
        self.entries@.map_values(|e: CollectionEntry| (e.name@, e.hash@))
    }
}

impl Collection {
    pub fn new() -> (r: Collection)
        ensures
            r@ == Seq::<(Seq<char>, Seq<u8>)>::empty(),
    {
        let c = Collection { entries: Vec::new() };
        proof {
            assert(c@ =~= Seq::<(Seq<char>, Seq<u8>)>::empty());
        }
        c
    }

    /// Appends one entry; everything already present keeps its place.
    pub fn push_entry(&mut self, name: String, hash: HashId)
        ensures
            final(self)@ == old(self)@.push((name@, hash@)),
    {
        let ghost before = self@;
        let ghost n = name@;
        let ghost h = hash@;
        self.entries.push(CollectionEntry { name, hash });
        proof {
            assert(self@ =~= before.push((n, h)));
        }
    }

    pub fn len(&self) -> (r: usize)
        ensures
            r == self@.len(),
    {
        self.entries.len()
    }

    pub fn name_at(&self, i: usize) -> (r: &String)
        requires
            i < self@.len(),
        ensures
            r@ == self@[i as int].0,
    {
        &self.entries[i].name
    }

    pub fn hash_at(&self, i: usize) -> (r: &HashId)
        requires
            i < self@.len(),
        ensures
            r@ == self@[i as int].1,
    {
        &self.entries[i].hash
    }

    /// Builds a collection from an ordered sequence of entries,
    /// preserving the input ordering.
    pub fn from_entries(entries: Vec<CollectionEntry>) -> (r: Collection)
        ensures
            r@.len() == entries@.len(),
            forall|i: int|
                0 <= i < entries@.len() ==> #[trigger] r@[i] == (entries@[i].name@,
                entries@[i].hash@),
    {
        Collection { entries }
    }
}

/// Two entries share one name. Downstream export assumes one file per
/// name, so names should be unique by construction; a builder caller
/// can test for this and reject the collection.
pub open spec fn has_duplicate_names(c: Seq<(Seq<char>, Seq<u8>)>) -> bool {
    exists|i: int, j: int| 0 <= i < j < c.len() && c[i].0 == c[j].0
}

impl Collection {
    /// Whether any two entries share one name.
    pub fn find_duplicate_name(&self) -> (r: bool)
        ensures
            r == has_duplicate_names(self@),
    {
        let n = self.entries.len();
        let mut i: usize = 0;
        while i < n
            invariant
                i <= n,
                n == self@.len(),
                forall|a: int, b: int| 0 <= a < b < n && a < i ==> self@[a].0 != self@[b].0,
            decreases n - i,
        {
            let mut j: usize = i + 1;
            while j < n
                invariant
                    i < j <= n,
                    n == self@.len(),
                    forall|b: int| i < b < j ==> self@[i as int].0 != self@[b].0,
                decreases n - j,
            {
                if self.entries[i].name == self.entries[j].name {
                    proof {
                        assert(self@[i as int].0 == self@[j as int].0);
                    }
                    return true;
                }
                j += 1;
            }
            i += 1;
        }
        false
    }
}

/// The persist step is atomic from the caller's side: either the store
/// hands back the collection's root identity, or nothing of the
/// collection became addressable and the whole call failed.
pub fn persist_outcome(stored: Option<HashId>) -> (r: Result<HashId, ShareError>)
    ensures
        (r is Ok) == (stored is Some),
        r matches Ok(h) ==> stored matches Some(h0) && h@ == h0@,
        stored is None ==> r == Err::<HashId, ShareError>(ShareError::PersistFailure),
{
    match stored {
        Some(h) => Ok(h),
        None => Err(ShareError::PersistFailure),
    }
}

/// A failed materialization of one entry fails the whole export.
pub fn materialize_outcome(ok: bool) -> (r: Result<(), ShareError>)
    ensures
        ok == (r is Ok),
        !ok ==> r == Err::<(), ShareError>(ShareError::ExportFailure),
{
    if ok {
        Ok(())
    } else {
        Err(ShareError::ExportFailure)
    }
}

/// Spec-level validity of one collection entry name for export: every
/// piece the name splits into is a plain segment.
pub open spec fn export_name_ok(name: Seq<char>) -> bool {
    forall|i: int|
        0 <= i < split_slash(name).len() ==> seg_chars_ok(#[trigger] split_slash(name)[i])
}

/// Computes the validated destination path of every entry, in order;
/// the first invalid name fails the whole export.
pub fn export_targets(root: &str, c: &Collection) -> (r: Result<Vec<String>, ShareError>)
    ensures
        (r is Ok) == (forall|i: int| 0 <= i < c@.len() ==> export_name_ok(#[trigger] c@[i].0)),
        r matches Ok(v) ==> v@.len() == c@.len() && (forall|i: int|
            0 <= i < c@.len() ==> (#[trigger] v@[i])@ == root@ + seq!['/'] + c@[i].0),
        r is Err ==> r == Err::<Vec<String>, ShareError>(ShareError::InvalidPath),
{
    let mut out: Vec<String> = Vec::new();
    let n = c.len();
    let mut i: usize = 0;
    while i < n
        invariant
            i <= n,
            n == c@.len(),
            out@.len() == i,
            forall|j: int| 0 <= j < i ==> export_name_ok(#[trigger] c@[j].0),
            forall|j: int| 0 <= j < i ==> (#[trigger] out@[j])@ == root@ + seq!['/'] + c@[j].0,
        decreases n - i,
    {
        let name = c.name_at(i);
        match get_export_path(root, name.as_str()) {
            Ok(p) => {
                out.push(p);
            },
            Err(e) => {
                return Err(e);
            },
        }
        i += 1;
    }
    Ok(out)
}

} // verus!
