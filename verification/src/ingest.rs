use vstd::prelude::*;

use crate::collection::{Collection, HashId};
use crate::errors::ShareError;
use crate::paths::{canonical_str, canonicalized_path_to_string, parts_ok, PathPart};

verus! {

/// What the walk found at one node of the source subtree.
#[derive(Clone, Copy, Debug, PartialEq, Eq, Structural)]
pub enum EntryKind {
    File,
    Directory,
    Symlink,
}

/// One node of the walked subtree: its kind, and its path components
/// relative to the parent of the walk root.
pub struct WalkEntry {
    pub kind: EntryKind,
    pub parts: Vec<PathPart>,
}

/// A file selected for ingestion: its collection entry name, and the
/// index of the walk node it came from.
pub struct PathEntry {
    pub name: String,
    pub source: usize,
}

/// How many regular files a walk holds; directories are traversal nodes
/// only and symbolic links are skipped, so neither is counted.
pub open spec fn file_count(es: Seq<WalkEntry>) -> nat
    decreases es.len(),
{
    if es.len() == 0 {
        0
    } else {
        file_count(es.drop_last()) + if es.last().kind is File {
            1nat
        } else {
            0nat
        }
    }
}

/// The walk indices of the regular files, in walk order.
pub open spec fn file_indices(es: Seq<WalkEntry>) -> Seq<int>
    decreases es.len(),
{
    if es.len() == 0 {
        Seq::<int>::empty()
    } else {
        let rest = file_indices(es.drop_last());
        if es.last().kind is File {
            rest.push(es.len() - 1)
        } else {
            rest
        }
    }
}

/// Every regular file of the walk has a valid relative component
/// sequence.
pub open spec fn files_valid(es: Seq<WalkEntry>) -> bool {
    forall|i: int|
        0 <= i < es.len() && (#[trigger] es[i]).kind is File ==> parts_ok(es[i].parts@, true)
}

pub proof fn lemma_file_indices(es: Seq<WalkEntry>)
    ensures
        file_indices(es).len() == file_count(es),
        forall|j: int|
            0 <= j < file_indices(es).len() ==> 0 <= #[trigger] file_indices(es)[j] < es.len()
                && es[file_indices(es)[j]].kind is File,
    decreases es.len(),
{
    if es.len() > 0 {
        lemma_file_indices(es.drop_last());
        assert(forall|i: int| 0 <= i < es.len() - 1 ==> es.drop_last()[i] == es[i]);
    }
}

/// Law: a node that is not a regular file contributes nothing to the
/// count; a regular file contributes exactly one entry.
pub proof fn lemma_only_files_counted(es: Seq<WalkEntry>, e: WalkEntry)
    ensures
        !(e.kind is File) ==> file_count(es.push(e)) == file_count(es),
        e.kind is File ==> file_count(es.push(e)) == file_count(es) + 1,
{
    assert(es.push(e).drop_last() =~= es);
    assert(es.push(e).last() == e);
}

/// Selects the regular files of a walk and gives each its collection
/// entry name: the canonical form of its components relative to the
/// parent of the walk root. Symbolic links and directories contribute
/// nothing; the first invalid name fails the whole import.
pub fn plan_entries(entries: &Vec<WalkEntry>) -> (r: Result<Vec<PathEntry>, ShareError>)
    ensures
        (r is Ok) == files_valid(entries@),
        r matches Ok(v) ==> {
            &&& v@.len() == file_count(entries@)
            &&& forall|j: int|
                0 <= j < v@.len() ==> (#[trigger] v@[j]).source == file_indices(entries@)[j]
                    && v@[j].name@ == canonical_str(entries@[file_indices(entries@)[j]].parts@)
        },
        r is Err ==> r == Err::<Vec<PathEntry>, ShareError>(ShareError::InvalidPath),
{
    let ghost es = entries@;
    let mut out: Vec<PathEntry> = Vec::new();
    let mut i: usize = 0;
    while i < entries.len()
        invariant
            i <= es.len(),
            entries@ == es,
            forall|j: int| 0 <= j < i && (#[trigger] es[j]).kind is File ==> parts_ok(
                es[j].parts@,
                true,
            ),
            out@.len() == file_count(es.take(i as int)),
            forall|j: int|
                0 <= j < out@.len() ==> (#[trigger] out@[j]).source == file_indices(
                    es.take(i as int),
                )[j] && out@[j].name@ == canonical_str(
                    es[file_indices(es.take(i as int))[j]].parts@,
                ),
        decreases es.len() - i,
    {
        proof {
            lemma_file_indices(es.take(i as int));
            assert(es.take(i as int + 1).drop_last() =~= es.take(i as int));
            assert(es.take(i as int + 1).last() == es[i as int]);
        }
        let entry = &entries[i];
        let is_file = match entry.kind {
            EntryKind::File => true,
            EntryKind::Directory => false,
            EntryKind::Symlink => false,
        };
        if is_file {
            match canonicalized_path_to_string(&entry.parts, true) {
                Ok(name) => {
                    out.push(PathEntry { name, source: i });
                },
                Err(e) => {
                    proof {
                        assert(!parts_ok(es[i as int].parts@, true));
                        assert(!files_valid(es));
                    }
                    return Err(e);
                },
            }
        }
        proof {
            lemma_file_indices(es.take(i as int + 1));
        }
        i += 1;
    }
    proof {
        assert(es.take(es.len() as int) =~= es);
    }
    Ok(out)
}

/// Relies on num_cpus::get: the number of available processing units,
/// documented to always be at least one.
#[verifier::external_body]
pub(crate) fn available_workers() -> (r: usize)
    ensures
        r >= 1,
{
    num_cpus::get()
}

/// Drives bounded-concurrency ingestion. The caller launches one unit of
/// work whenever the scheduler allows it and reports each completion;
/// the number in flight never exceeds the bound, and after a failure no
/// further work is launched (fail-fast, first failure wins).
pub struct IngestScheduler {
    bound: usize,
    total: usize,
    launched: usize,
    in_flight: usize,
    done: usize,
    failed: bool,
}

impl IngestScheduler {
    pub closed spec fn bound(&self) -> nat {
        self.bound as nat
    }

    pub closed spec fn total(&self) -> nat {
        self.total as nat
    }

    pub closed spec fn launched(&self) -> nat {
        self.launched as nat
    }

    pub closed spec fn in_flight(&self) -> nat {
        self.in_flight as nat
    }

    pub closed spec fn done(&self) -> nat {
        self.done as nat
    }

    pub closed spec fn has_failed(&self) -> bool {
        self.failed
    }

    /// The scheduler's invariant; every operation preserves it, so the
    /// ingestion concurrency never exceeds the configured bound.
    pub open spec fn wf(&self) -> bool {
        &&& self.bound() >= 1
        &&& self.launched() <= self.total()
        &&& self.in_flight() + self.done() == self.launched()
        &&& self.in_flight() <= self.bound()
    }

    pub fn new(bound: usize, total: usize) -> (r: IngestScheduler)
        requires
            bound >= 1,
        ensures
            r.wf(),
            r.bound() == bound,
            r.total() == total,
            r.launched() == 0,
            r.in_flight() == 0,
            r.done() == 0,
            !r.has_failed(),
    {
        IngestScheduler { bound, total, launched: 0, in_flight: 0, done: 0, failed: false }
    }

    /// Whether one more unit of work may start now: work remains, a
    /// worker is free, and nothing has failed yet.
    pub fn can_launch(&self) -> (r: bool)
        requires
            self.wf(),
        ensures
            r == (self.launched() < self.total() && self.in_flight() < self.bound()
                && !self.has_failed()),
    {
        self.launched < self.total && self.in_flight < self.bound && !self.failed
    }

    pub fn launch(&mut self)
        requires
            old(self).wf(),
            old(self).launched() < old(self).total(),
            old(self).in_flight() < old(self).bound(),
            !old(self).has_failed(),
        ensures
            final(self).wf(),
            final(self).bound() == old(self).bound(),
            final(self).total() == old(self).total(),
            final(self).launched() == old(self).launched() + 1,
            final(self).in_flight() == old(self).in_flight() + 1,
            final(self).done() == old(self).done(),
            !final(self).has_failed(),
            final(self).in_flight() <= final(self).bound(),
    {
        self.launched = self.launched + 1;
        self.in_flight = self.in_flight + 1;
    }

    /// Reports one unit of work finished; a failure is remembered and
    /// stops further launches.
    pub fn complete(&mut self, ok: bool)
        requires
            old(self).wf(),
            old(self).in_flight() >= 1,
        ensures
            final(self).wf(),
            final(self).bound() == old(self).bound(),
            final(self).total() == old(self).total(),
            final(self).launched() == old(self).launched(),
            final(self).in_flight() == old(self).in_flight() - 1,
            final(self).done() == old(self).done() + 1,
            final(self).has_failed() == (old(self).has_failed() || !ok),
    {
        self.in_flight = self.in_flight - 1;
        self.done = self.done + 1;
        if !ok {
            self.failed = true;
        }
    }

    /// Whether the fan-out is over: nothing in flight, and either all
    /// work is done or a failure ended the run early.
    pub fn settled(&self) -> (r: bool)
        requires
            self.wf(),
        ensures
            r == (self.in_flight() == 0 && (self.done() == self.total() || self.has_failed())),
    {
        self.in_flight == 0 && (self.done == self.total || self.failed)
    }

    /// The aggregated result: the first failure wins and surfaces as
    /// `ImportFailure`.
    pub fn outcome(&self) -> (r: Result<(), ShareError>)
        requires
            self.wf(),
        ensures
            (r is Ok) == !self.has_failed(),
            self.has_failed() ==> r == Err::<(), ShareError>(ShareError::ImportFailure),
    {
        if self.failed {
            Err(ShareError::ImportFailure)
        } else {
            Ok(())
        }
    }

    pub fn current_in_flight(&self) -> (r: usize)
        ensures
            r == self.in_flight(),
    {
        self.in_flight
    }

    pub fn concurrency_bound(&self) -> (r: usize)
        ensures
            r == self.bound(),
    {
        self.bound
    }
}

/// A scheduler sized to this host: the bound is the number of available
/// processing units.
pub fn scheduler_for_host(total: usize) -> (r: IngestScheduler)
    ensures
        r.wf(),
        r.total() == total,
        r.launched() == 0,
        r.in_flight() == 0,
        r.done() == 0,
        !r.has_failed(),
        r.bound() >= 1,
{
    let workers = available_workers();
    IngestScheduler::new(workers, total)
}

/// One ingested file: its entry name, the identity the store gave its
/// bytes, and its size in bytes.
pub struct IngestedFile {
    pub name: String,
    pub hash: HashId,
    pub size: u64,
}

/// The sum of the sizes of the ingested files.
pub open spec fn total_size(files: Seq<IngestedFile>) -> int
    decreases files.len(),
{
    if files.len() == 0 {
        0
    } else {
        total_size(files.drop_last()) + files.last().size
    }
}

pub proof fn lemma_total_size_nonneg(files: Seq<IngestedFile>)
    ensures
        total_size(files) >= 0,
    decreases files.len(),
{
    if files.len() > 0 {
        lemma_total_size_nonneg(files.drop_last());
    }
}

pub proof fn lemma_total_size_take_step(files: Seq<IngestedFile>, i: int)
    requires
        0 <= i < files.len(),
    ensures
        total_size(files.take(i + 1)) == total_size(files.take(i)) + files[i].size,
{
    assert(files.take(i + 1).drop_last() =~= files.take(i));
    assert(files.take(i + 1).last() == files[i]);
}

pub proof fn lemma_total_size_take_le(files: Seq<IngestedFile>, i: int)
    requires
        0 <= i <= files.len(),
    ensures
        total_size(files.take(i)) <= total_size(files),
    decreases files.len() - i,
{
    if i == files.len() {
        assert(files.take(i) =~= files);
    } else {
        lemma_total_size_take_step(files, i);
        lemma_total_size_take_le(files, i + 1);
        assert(files[i].size >= 0);
    }
}

/// Assembles the ingested files into the collection and the total of
/// their sizes, preserving the ingestion order name for name.
pub fn assemble_collection(files: &Vec<IngestedFile>) -> (r: (u64, Collection))
    requires
        total_size(files@) <= u64::MAX,
    ensures
        r.0 == total_size(files@),
        r.1@.len() == files@.len(),
        forall|i: int|
            0 <= i < files@.len() ==> #[trigger] r.1@[i] == (files@[i].name@, files@[i].hash@),
{
    let ghost fs = files@;
    let mut c = Collection::new();
    let mut sum: u64 = 0;
    let mut i: usize = 0;
    while i < files.len()
        invariant
            i <= fs.len(),
            files@ == fs,
            total_size(fs) <= u64::MAX,
            sum == total_size(fs.take(i as int)),
            c@.len() == i,
            forall|j: int| 0 <= j < i ==> #[trigger] c@[j] == (fs[j].name@, fs[j].hash@),
        decreases fs.len() - i,
    {
        proof {
            lemma_total_size_take_step(fs, i as int);
            lemma_total_size_take_le(fs, i as int + 1);
            lemma_total_size_nonneg(fs.take(i as int));
        }
        let f = &files[i];
        let name = f.name.clone();
        let hash = f.hash.duplicate();
        sum = sum + f.size;
        c.push_entry(name, hash);
        i += 1;
    }
    proof {
        assert(fs.take(fs.len() as int) =~= fs);
    }
    (sum, c)
}

/// Tracks the keep-alive hand-off of the import. Each ingested file
/// holds a protection token so the store cannot reclaim its bytes; only
/// once the assembled collection is durably persisted — the collection's
/// own token then being the protector — may the per-file tokens be
/// released, as an explicit, ordered step.
pub struct ProtectionLedger {
    file_tokens: usize,
    collection_token: bool,
    persisted: bool,
}

impl ProtectionLedger {
    pub closed spec fn file_tokens(&self) -> nat {
        self.file_tokens as nat
    }

    pub closed spec fn holds_collection_token(&self) -> bool {
        self.collection_token
    }

    pub closed spec fn is_persisted(&self) -> bool {
        self.persisted
    }

    pub fn new() -> (r: ProtectionLedger)
        ensures
            r.file_tokens() == 0,
            !r.holds_collection_token(),
            !r.is_persisted(),
    {
        ProtectionLedger { file_tokens: 0, collection_token: false, persisted: false }
    }

    /// One more file was ingested under a protection token.
    pub fn file_ingested(&mut self)
        requires
            old(self).file_tokens() < usize::MAX,
        ensures
            final(self).file_tokens() == old(self).file_tokens() + 1,
            final(self).holds_collection_token() == old(self).holds_collection_token(),
            final(self).is_persisted() == old(self).is_persisted(),
    {
        self.file_tokens = self.file_tokens + 1;
    }

    /// The collection was durably persisted and its own token obtained.
    pub fn collection_persisted(&mut self)
        ensures
            final(self).is_persisted(),
            final(self).holds_collection_token(),
            final(self).file_tokens() == old(self).file_tokens(),
    {
        self.persisted = true;
        self.collection_token = true;
    }

    /// Releases the per-file tokens. This demands that the collection is
    /// already persisted: releasing earlier could let the store reclaim
    /// bytes the collection still references.
    pub fn release_file_tokens(&mut self)
        requires
            old(self).is_persisted(),
        ensures
            final(self).file_tokens() == 0,
            final(self).holds_collection_token() == old(self).holds_collection_token(),
            final(self).is_persisted(),
    {
        self.file_tokens = 0;
    }

    /// Releases the collection's token when the serving session ends,
    /// exposing the collection to the store's own reclamation.
    pub fn release_collection_token(&mut self)
        ensures
            !final(self).holds_collection_token(),
            final(self).file_tokens() == old(self).file_tokens(),
            final(self).is_persisted() == old(self).is_persisted(),
    {
        self.collection_token = false;
    }
}

} // verus!
