use rand::Rng;
use vstd::prelude::*;
use vstd::string::StringExecFns;

use crate::collection::HashId;
use crate::encode::{hex_encode, hex_of};
use crate::errors::ShareError;

verus! {

/// What a locator's root identity refers to.
#[derive(Clone, Copy, Debug, PartialEq, Eq, Structural)]
pub enum ContentKind {
    /// A single raw blob.
    Blob,
    /// A collection of named blobs.
    Collection,
}

/// A portable locator: the transport address a peer should dial, the
/// root content identity to fetch, and the marker saying that the
/// identity refers to a collection rather than a raw blob. Immutable
/// once minted.
pub struct Ticket {
    pub addr: String,
    pub root: HashId,
    pub kind: ContentKind,
}

/// One step of ticket minting.
pub enum MintStep {
    /// The transport has not resolved its address yet: suspend for the
    /// configured backoff and poll again.
    Suspend { wait_ms: u64 },
    /// The locator, minted once the address was known.
    Minted(Ticket),
}

/// Waits for the transport to resolve its own reachable address, then
/// binds that address to the collection's root identity. The poll
/// backoff is explicit configuration; no deadline is enforced at this
/// layer, so a caller needing one must race the polling against its own
/// timer.
pub struct TicketMinter {
    poll_ms: u64,
}

pub const DEFAULT_POLL_MS: u64 = 100;

impl TicketMinter {
    pub closed spec fn poll_ms(&self) -> u64 {
        self.poll_ms
    }

    pub fn new(poll_ms: u64) -> (r: TicketMinter)
        ensures
            r.poll_ms() == poll_ms,
    {
        TicketMinter { poll_ms }
    }

    /// A minter with the default short backoff.
    pub fn new_default() -> (r: TicketMinter)
        ensures
            r.poll_ms() == DEFAULT_POLL_MS,
    {
        TicketMinter { poll_ms: DEFAULT_POLL_MS }
    }

    /// One poll: with no address yet, suspend; once the transport
    /// reports one, mint the locator, which carries exactly the root
    /// identity and marks it as a collection.
    pub fn step(&self, root: &HashId, resolved: Option<String>) -> (r: MintStep)
        ensures
            resolved is None ==> (r matches MintStep::Suspend { wait_ms } && wait_ms
                == self.poll_ms()),
            resolved matches Some(a) ==> (r matches MintStep::Minted(t) && t.addr@ == a@ && t.root@
                == root@ && t.kind is Collection),
    {
        match resolved {
            None => MintStep::Suspend { wait_ms: self.poll_ms },
            Some(addr) => MintStep::Minted(
                Ticket { addr, root: root.duplicate(), kind: ContentKind::Collection },
            ),
        }
    }
}

/// Relies on rand: sixteen bytes drawn from the thread-local generator.
/// Nothing is promised of their values.
#[verifier::external_body]
pub(crate) fn random_suffix() -> (r: Vec<u8>)
    ensures
        r@.len() == 16,
{
    let bytes: [u8; 16] = rand::thread_rng().gen();
    bytes.to_vec()
}

/// Composes the ephemeral working-directory name: the parent of the
/// source path, then `.sendme-provide-` followed by the hex form of the
/// sixteen suffix bytes.
pub fn work_dir_name(parent: &str, suffix: &Vec<u8>) -> (r: String)
    requires
        suffix@.len() == 16,
    ensures
        r@ == parent@ + "/.sendme-provide-"@ + hex_of(suffix@),
        r@.len() == parent@.len() + 17 + 32,
{
    let mut out = String::from_str(parent);
    out.append("/.sendme-provide-");
    let digits = hex_encode(suffix);
    out.append(digits.as_str());
    proof {
        reveal_strlit("/.sendme-provide-");
        lemma_hex_len(suffix@);
        assert(out@ =~= parent@ + "/.sendme-provide-"@ + hex_of(suffix@));
    }
    out
}

proof fn lemma_hex_len(data: Seq<u8>)
    ensures
        hex_of(data).len() == 2 * data.len(),
    decreases data.len(),
{
    if data.len() > 0 {
        lemma_hex_len(data.drop_first());
    }
}

/// A fresh working-directory name under the given parent, from sixteen
/// random suffix bytes.
pub fn fresh_work_dir_name(parent: &str) -> (r: String)
    ensures
        exists|suffix: Seq<u8>|
            suffix.len() == 16 && r@ == parent@ + "/.sendme-provide-"@ + hex_of(suffix),
        r@.len() == parent@.len() + 17 + 32,
{
    let suffix = random_suffix();
    work_dir_name(parent, &suffix)
}

/// The phases of one sharing session, in the order they are passed
/// through.
#[derive(Clone, Copy, Debug, PartialEq, Eq, Structural)]
pub enum SessionPhase {
    Created,
    DirectoryAllocated,
    Importing,
    Ready,
    Serving,
    Draining,
    Closed,
}

/// What the accept loop should do after one accept call returned.
#[derive(Clone, Copy, Debug, PartialEq, Eq, Structural)]
pub enum AcceptAction {
    /// Hand the incoming connection to the connection handler and keep
    /// accepting.
    HandleConnection,
    /// No further connections will ever arrive: stop the loop and drain.
    StopAccepting,
}

/// One sharing session: it owns the ephemeral working directory and the
/// accept loop, holds the collection's protection token from the end of
/// the import until the loop exits, and only then releases it.
pub struct ProviderSession {
    parent_dir: String,
    phase: SessionPhase,
    work_dir: String,
    root: Option<HashId>,
    collection_protected: bool,
}

impl ProviderSession {
    pub closed spec fn phase(&self) -> SessionPhase {
        self.phase
    }

    pub closed spec fn parent_name(&self) -> Seq<char> {
        self.parent_dir@
    }

    pub closed spec fn work_dir_view(&self) -> Seq<char> {
        self.work_dir@
    }

    pub closed spec fn has_root(&self) -> bool {
        self.root is Some
    }

    pub closed spec fn root_bytes(&self) -> Seq<u8> {
        match self.root {
            Some(h) => h@,
            None => Seq::<u8>::empty(),
        }
    }

    pub closed spec fn holds_collection_token(&self) -> bool {
        self.collection_protected
    }

    /// The session invariant: the collection's token is held exactly
    /// from the end of a successful import until the session closes,
    /// and a root identity is known throughout that span.
    pub open spec fn wf(&self) -> bool {
        &&& (self.phase() is Ready || self.phase() is Serving || self.phase() is Draining)
            ==> self.has_root() && self.holds_collection_token()
        &&& (self.phase() is Closed) ==> !self.holds_collection_token()
        &&& (self.phase() is Created || self.phase() is DirectoryAllocated || self.phase()
            is Importing) ==> !self.holds_collection_token()
    }

    pub fn new(parent_dir: String) -> (r: ProviderSession)
        ensures
            r.wf(),
            r.phase() is Created,
            r.parent_name() == parent_dir@,
            !r.holds_collection_token(),
            !r.has_root(),
    {
        ProviderSession {
            parent_dir,
            phase: SessionPhase::Created,
            work_dir: String::new(),
            root: None,
            collection_protected: false,
        }
    }

    /// The phase the session is in now.
    pub fn phase_now(&self) -> (r: SessionPhase)
        ensures
            r == self.phase(),
    {
        self.phase
    }

    /// The working-directory name this session would use for the given
    /// suffix bytes.
    pub fn propose_work_dir(&self, suffix: &Vec<u8>) -> (r: String)
        requires
            suffix@.len() == 16,
        ensures
            r@ == self.parent_name() + "/.sendme-provide-"@ + hex_of(suffix@),
    {
        work_dir_name(self.parent_dir.as_str(), suffix)
    }

    /// Claims the working directory. Distinct sessions must never share
    /// one, so a directory that already exists is a collision: the
    /// session reports `CollisionError` and stays in `Created`, and the
    /// caller decides whether to retry with a fresh suffix or give up.
    pub fn allocate(&mut self, dir: String, already_exists: bool) -> (r: Result<(), ShareError>)
        requires
            old(self).wf(),
            old(self).phase() is Created,
        ensures
            final(self).wf(),
            final(self).parent_name() == old(self).parent_name(),
            already_exists ==> r == Err::<(), ShareError>(ShareError::CollisionError)
                && final(self).phase() is Created && !final(self).holds_collection_token(),
            !already_exists ==> r is Ok && final(self).phase() is DirectoryAllocated
                && final(self).work_dir_view() == dir@,
            final(self).has_root() == old(self).has_root(),
            final(self).holds_collection_token() == old(self).holds_collection_token(),
    {
        if already_exists {
            return Err(ShareError::CollisionError);
        }
        self.work_dir = dir;
        self.phase = SessionPhase::DirectoryAllocated;
        Ok(())
    }

    /// Starts the import against the requested source path; a source
    /// that does not exist fails the session with `NotFound`.
    pub fn begin_import(&mut self, source_exists: bool) -> (r: Result<(), ShareError>)
        requires
            old(self).wf(),
            old(self).phase() is DirectoryAllocated,
        ensures
            final(self).wf(),
            final(self).parent_name() == old(self).parent_name(),
            final(self).work_dir_view() == old(self).work_dir_view(),
            source_exists ==> r is Ok && final(self).phase() is Importing,
            !source_exists ==> r == Err::<(), ShareError>(ShareError::NotFound)
                && final(self).phase() is Closed,
            !final(self).holds_collection_token(),
    {
        if !source_exists {
            self.phase = SessionPhase::Closed;
            return Err(ShareError::NotFound);
        }
        self.phase = SessionPhase::Importing;
        Ok(())
    }

    /// Records a successful import: the collection is persisted under
    /// the given root identity and its protection token is now held by
    /// the session.
    pub fn finish_import(&mut self, root: HashId)
        requires
            old(self).wf(),
            old(self).phase() is Importing,
        ensures
            final(self).wf(),
            final(self).phase() is Ready,
            final(self).parent_name() == old(self).parent_name(),
            final(self).work_dir_view() == old(self).work_dir_view(),
            final(self).has_root(),
            final(self).root_bytes() == root@,
            final(self).holds_collection_token(),
    {
        self.root = Some(root);
        self.collection_protected = true;
        self.phase = SessionPhase::Ready;
    }

    /// Records a failed import: the session is over and holds nothing.
    pub fn fail_import(&mut self)
        requires
            old(self).wf(),
            old(self).phase() is Importing,
        ensures
            final(self).wf(),
            final(self).phase() is Closed,
            final(self).parent_name() == old(self).parent_name(),
            final(self).work_dir_view() == old(self).work_dir_view(),
            !final(self).holds_collection_token(),
    {
        self.phase = SessionPhase::Closed;
    }

    /// The session's collection root, once an import finished.
    pub fn root(&self) -> (r: &Option<HashId>)
        ensures
            (r is Some) == self.has_root(),
            r matches Some(h) ==> h@ == self.root_bytes(),
    {
        &self.root
    }

    /// Enters the accept loop.
    pub fn begin_serving(&mut self)
        requires
            old(self).wf(),
            old(self).phase() is Ready,
        ensures
            final(self).wf(),
            final(self).phase() is Serving,
            final(self).parent_name() == old(self).parent_name(),
            final(self).work_dir_view() == old(self).work_dir_view(),
            final(self).root_bytes() == old(self).root_bytes(),
            final(self).has_root(),
            final(self).holds_collection_token(),
    {
        self.phase = SessionPhase::Serving;
    }

    /// One accept call returned. An incoming connection is handed to
    /// the connection handler and the loop keeps accepting; once the
    /// transport says no further connections will arrive, the session
    /// drains.
    pub fn on_accept(&mut self, incoming: bool) -> (r: AcceptAction)
        requires
            old(self).wf(),
            old(self).phase() is Serving,
        ensures
            final(self).wf(),
            incoming ==> r == AcceptAction::HandleConnection && *final(self) == *old(self),
            !incoming ==> r == AcceptAction::StopAccepting && final(self).phase() is Draining,
            final(self).parent_name() == old(self).parent_name(),
            final(self).work_dir_view() == old(self).work_dir_view(),
            final(self).root_bytes() == old(self).root_bytes(),
            final(self).holds_collection_token(),
    {
        if incoming {
            AcceptAction::HandleConnection
        } else {
            self.phase = SessionPhase::Draining;
            AcceptAction::StopAccepting
        }
    }

    /// A connection handler finished, well or badly. Handler failures
    /// are isolated per connection: the session is unchanged either way
    /// and the loop keeps accepting.
    pub fn on_connection_result(&mut self, ok: bool)
        requires
            old(self).wf(),
            old(self).phase() is Serving,
        ensures
            *final(self) == *old(self),
    {
        let _ = ok;
    }

    /// Ends the session: the collection's protection token is released,
    /// and the returned working-directory name is to be removed
    /// best-effort by the caller.
    pub fn close(&mut self) -> (dir: String)
        requires
            old(self).wf(),
            old(self).phase() is Draining,
        ensures
            final(self).wf(),
            final(self).phase() is Closed,
            !final(self).holds_collection_token(),
            dir@ == old(self).work_dir_view(),
            final(self).work_dir_view() == old(self).work_dir_view(),
    {
        self.collection_protected = false;
        self.phase = SessionPhase::Closed;
        self.work_dir.clone()
    }
}

} // verus!
