//! The session registry and the four operations' decision logic.
//!
//! A session bundles one child process with the sending half of its
//! outbound queue and the guarded receiving half of its inbound queue.
//! The registry owns every live session, keyed by identifier.  The
//! asynchronous shell around the library performs the spawning and the
//! waiting; every decision — which identifier is issued, when each
//! error is returned, what enters and leaves the table — is made here.

use crate::errors::StdioError;
use crate::ids::fresh_token;
use crate::ids::lemma_identifiers_pairwise_distinct;
use crate::ids::render_session_id;
use crate::ids::spec_session_id;
use crate::pipes::channel_pair;
use crate::pipes::clone_sender;
use crate::pipes::clone_shared_receiver;
use crate::pipes::kill_child;
use crate::pipes::share_receiver;
use crate::pipes::try_poll;
use crate::pipes::Polled;
use crate::pipes::SharedReceiver;
use tokio::process::Child;
use tokio::process::ChildStderr;
use tokio::process::ChildStdin;
use tokio::process::ChildStdout;
use tokio::sync::mpsc::Receiver;
use tokio::sync::mpsc::Sender;
use vstd::prelude::*;

verus! {

/// Capacity of a session's outbound queue (caller towards child).
pub const OUTBOUND_CAPACITY: usize = 64;

/// Capacity of a session's inbound queue (child towards caller).
pub const INBOUND_CAPACITY: usize = 256;

/// How many seconds `send` waits for a response line before it fails.
pub const RESPONSE_TIMEOUT_SECS: u64 = 60;

/// A freshly spawned child with its three piped standard streams, as
/// handed in by the unverified spawning shell.  A missing stream is how
/// the shell reports that a handle could not be obtained after spawn.
pub struct PipedChild {
    pub child: Child,
    pub stdin: Option<ChildStdin>,
    pub stdout: Option<ChildStdout>,
    pub stderr: Option<ChildStderr>,
}

/// What the three per-session background tasks are built from: the
/// writer task owns the child's input stream and the receiving half of
/// the outbound queue; the reader task owns the output stream and the
/// sending half of the inbound queue; the diagnostic task owns the
/// error stream.
pub struct TaskEndpoints {
    pub stdin: ChildStdin,
    pub outbound_rx: Receiver<String>,
    pub stdout: ChildStdout,
    pub inbound_tx: Sender<String>,
    pub stderr: ChildStderr,
}

/// What one `send` call needs from the registry: a clone of the
/// session's outbound sender and a handle to its guarded inbound
/// receiver.  Handing out clones keeps the registry's lock short; the
/// wait happens outside it.
pub struct SendHandles {
    pub outbound_tx: Sender<String>,
    pub inbound_rx: SharedReceiver,
}

/// One live session: the identifier, the owned child process, the
/// outbound queue's sender and the shared, guarded inbound receiver.
pub struct StdioSession {
    pub id: String,
    pub child: Child,
    pub outbound_tx: Sender<String>,
    pub inbound_rx: SharedReceiver,
    /// The serial number the identifier was rendered from.
    pub serial: Ghost<u64>,
}

/// The registry of live sessions.  Identifiers are rendered from a
/// strictly increasing serial counter, so no identifier is ever issued
/// twice, and the identifiers of registered sessions are pairwise
/// distinct.
pub struct Registry {
    next_serial: u64,
    entries: Vec<StdioSession>,
    /// Every identifier ever issued, as the token recorded under its
    /// serial number; registered or stopped, none is issued again.
    issued: Ghost<Map<u64, Seq<char>>>,
}

/// Outcome of the wait on the inbound queue that ends a `send`: the
/// shell reports which of the three things happened first, and
/// `classify_wait` turns it into the operation's result.
pub enum WaitOutcome {
    /// A line arrived within the response window.
    Line(String),
    /// The inbound queue closed before any line arrived: the child exited.
    Closed,
    /// The response window elapsed with the queue still open.
    TimedOut,
}

impl Registry {
    /// The serial the next identifier will be rendered from.
    pub closed spec fn next(self) -> u64 {
        self.next_serial
    }

    /// Every identifier ever issued: token by serial.
    pub closed spec fn issued(self) -> Map<u64, Seq<char>> {
        self.issued@
    }

    /// The registered sessions themselves, in insertion order — the
    /// registry's full abstract state, identifier and handles alike.
    pub closed spec fn sessions(self) -> Seq<StdioSession> {
        self.entries@
    }

    /// The identifiers of the registered sessions, in insertion order.
    pub closed spec fn id_seq(self) -> Seq<Seq<char>> {
        self.entries@.map_values(|s: StdioSession| s.id@)
    }

    /// Whether a session with this identifier is registered.
    pub closed spec fn contains_id(self, id: Seq<char>) -> bool {
        exists|i: int| 0 <= i < self.entries@.len() && self.entries@[i].id@ == id
    }

    /// Well-formedness: every issued serial is below the counter, every
    /// registered session carries the identifier rendered from its
    /// recorded serial and token, and serials increase along the table.
    pub closed spec fn wf(self) -> bool {
        &&& forall|s: u64| self.issued@.dom().contains(s) ==> s < self.next_serial
        &&& forall|i: int|
            0 <= i < self.entries@.len() ==> {
                &&& self.issued@.dom().contains(#[trigger] self.entries@[i].serial@)
                &&& self.entries@[i].id@ == spec_session_id(
                    self.entries@[i].serial@ as nat,
                    self.issued@[self.entries@[i].serial@],
                )
            }
        &&& forall|i: int, j: int|
            0 <= i < j < self.entries@.len() ==> #[trigger] self.entries@[i].serial@
                < #[trigger] self.entries@[j].serial@
    }

    /// The serial counter has room for another identifier.
    pub closed spec fn can_issue(self) -> bool {
        self.next_serial < u64::MAX
    }

    /// An empty registry.
    pub fn new() -> (r: Registry)
        ensures
            r.wf(),
            r.id_seq() == Seq::<Seq<char>>::empty(),
            r.issued() == Map::<u64, Seq<char>>::empty(),
            r.next() == 0,
    {
        let r = Registry {
            next_serial: 0,
            entries: Vec::new(),
            issued: Ghost(Map::empty()),
        };
        proof {
            assert(r.id_seq() =~= Seq::<Seq<char>>::empty());
        }
        r
    }

    /// Whether `start` may issue another identifier; false only after
    /// the serial counter is exhausted.
    pub fn can_start(&self) -> (r: bool)
        ensures
            r == self.can_issue(),
    {
        self.next_serial < u64::MAX
    }

    /// The index of the first registered session with this identifier.
    fn find_index(&self, session_id: &String) -> (r: Option<usize>)
        ensures
            match r {
                Some(i) => {
                    &&& i < self.entries@.len()
                    &&& self.entries@[i as int].id@ == session_id@
                    &&& forall|j: int| 0 <= j < i ==> self.entries@[j].id@ != session_id@
                },
                None => !self.contains_id(session_id@),
            },
    {
        let n = self.entries.len();
        let mut i: usize = 0;
        while i < n
            invariant
                i <= n,
                n == self.entries@.len(),
                forall|j: int| 0 <= j < i ==> self.entries@[j].id@ != session_id@,
            decreases n - i,
        {
            if self.entries[i].id == *session_id {
                return Some(i);
            }
            i = i + 1;
        }
        None
    }

    /// `start`: complete the launch the shell began.  On a spawn
    /// failure or a missing stream handle nothing is registered and the
    /// matching error comes back; otherwise a fresh identifier — one
    /// never issued before — is registered and returned together with
    /// the endpoints the three background tasks are built from.
    pub fn start(&mut self, spawned: Option<PipedChild>) -> (r: Result<
        (String, TaskEndpoints),
        StdioError,
    >)
        requires
            old(self).wf(),
            old(self).can_issue(),
        ensures
            final (self).wf(),
            r is Ok <==> (spawned matches Some(p) && p.stdin is Some && p.stdout is Some
                && p.stderr is Some),
            match r {
                Result::Err(e) => {
                    &&& *final (self) == *old(self)
                    &&& (spawned is None ==> e == StdioError::SpawnError)
                    &&& (spawned is Some ==> e == StdioError::PipeAcquisitionError)
                },
                Result::Ok(pair) => {
                    &&& pair.0@ == spec_session_id(
                        old(self).next() as nat,
                        final (self).issued()[old(self).next()],
                    )
                    &&& forall|s: u64|
                        old(self).issued().dom().contains(s) ==> spec_session_id(
                            s as nat,
                            old(self).issued()[s],
                        ) != pair.0@
                    &&& !old(self).contains_id(pair.0@)
                    &&& final (self).contains_id(pair.0@)
                    &&& final (self).id_seq() == old(self).id_seq().push(pair.0@)
                    &&& final (self).sessions().len() == old(self).sessions().len() + 1
                    &&& final (self).sessions().drop_last() == old(self).sessions()
                    &&& final (self).sessions().last().id@ == pair.0@
                    &&& final (self).next() == old(self).next() + 1
                    &&& old(self).issued().submap_of(final (self).issued())
                    &&& final (self).issued().dom() == old(self).issued().dom().insert(
                        old(self).next(),
                    )
                },
            },
    {
        match spawned {
            None => Err(StdioError::SpawnError),
            Some(piped) => {
                let PipedChild { child, stdin, stdout, stderr } = piped;
                if stdin.is_none() || stdout.is_none() || stderr.is_none() {
                    return Err(StdioError::PipeAcquisitionError);
                }
                let stdin = stdin.unwrap();
                let stdout = stdout.unwrap();
                let stderr = stderr.unwrap();
                let token = fresh_token();
                let id = render_session_id(self.next_serial, &token);
                proof {
                    crate::pipes::lemma_capacity_fits_permit_ceiling(OUTBOUND_CAPACITY);
                    crate::pipes::lemma_capacity_fits_permit_ceiling(INBOUND_CAPACITY);
                }
                let (outbound_tx, outbound_rx) = channel_pair(OUTBOUND_CAPACITY);
                let (inbound_tx, inbound_rx) = channel_pair(INBOUND_CAPACITY);
                let shared_rx = share_receiver(inbound_rx);
                let ghost serial = self.next_serial;
                let session = StdioSession {
                    id: id.clone(),
                    child,
                    outbound_tx,
                    inbound_rx: shared_rx,
                    serial: Ghost(serial),
                };
                proof {
                    assert forall|s: u64| old(self).issued@.dom().contains(s) implies spec_session_id(
                        s as nat,
                        old(self).issued@[s],
                    ) != id@ by {
                        lemma_identifiers_pairwise_distinct(
                            s as nat,
                            old(self).issued@[s],
                            serial as nat,
                            token@,
                        );
                    }
                    assert forall|i: int|
                        0 <= i < old(self).entries@.len() implies old(self).entries@[i].id@
                        != id@ by {
                        let e = old(self).entries@[i];
                        assert(old(self).issued@.dom().contains(e.serial@));
                        assert(spec_session_id(e.serial@ as nat, old(self).issued@[e.serial@])
                            != id@);
                    }
                }
                self.entries.push(session);
                self.next_serial = self.next_serial + 1;
                proof {
                    self.issued@ = self.issued@.insert(serial, token@);
                }
                proof {
                    assert(self.id_seq() =~= old(self).id_seq().push(id@));
                    assert(self.sessions().drop_last() =~= old(self).sessions());
                    assert(self.issued@.dom() =~= old(self).issued@.dom().insert(serial));
                    assert(self.contains_id(id@)) by {
                        assert(self.entries@[self.entries@.len() - 1].id@ == id@);
                    }
                    assert forall|i: int| 0 <= i < self.entries@.len() implies {
                        &&& self.issued@.dom().contains(#[trigger] self.entries@[i].serial@)
                        &&& self.entries@[i].id@ == spec_session_id(
                            self.entries@[i].serial@ as nat,
                            self.issued@[self.entries@[i].serial@],
                        )
                    } by {
                        if i < self.entries@.len() - 1 {
                            assert(self.entries@[i] == old(self).entries@[i]);
                        }
                    }
                }
                Ok((id, TaskEndpoints { stdin, outbound_rx, stdout, inbound_tx, stderr }))
            },
        }
    }

    /// `send`, first step: look the session up and hand out the queue
    /// handles its wait needs.  Fails with session-not-found exactly
    /// when the identifier is not registered; on success the inbound
    /// handle is that session's own guarded receiver.  The registry
    /// itself is untouched, so a failed or timed-out send leaves every
    /// session in place.
    pub fn send_begin(&self, session_id: &String) -> (r: Result<SendHandles, StdioError>)
        ensures
            r is Ok <==> self.contains_id(session_id@),
            r is Err ==> r == Err::<SendHandles, StdioError>(StdioError::SessionNotFound),
            r matches Ok(h) ==> exists|k: int|
                0 <= k < self.sessions().len() && (#[trigger] self.sessions()[k]).id@
                    == session_id@ && h.inbound_rx == self.sessions()[k].inbound_rx,
    {
        match self.find_index(session_id) {
            None => Err(StdioError::SessionNotFound),
            Some(i) => {
                let entry = &self.entries[i];
                let handles = SendHandles {
                    outbound_tx: clone_sender(&entry.outbound_tx),
                    inbound_rx: clone_shared_receiver(&entry.inbound_rx),
                };
                proof {
                    assert((self.sessions()[i as int]).id@ == session_id@);
                    assert(handles.inbound_rx == self.sessions()[i as int].inbound_rx);
                }
                Ok(handles)
            },
        }
    }

    /// `stop`: remove the session and force its child to exit.  Absent
    /// identifiers are a no-op, so stopping twice is harmless.  The
    /// stopped identifier is no longer registered afterwards — a later
    /// `send` or `list` no longer sees it — and every other session is
    /// untouched.
    pub fn stop(&mut self, session_id: &String)
        requires
            old(self).wf(),
        ensures
            final (self).wf(),
            !final (self).contains_id(session_id@),
            forall|other: Seq<char>|
                other != session_id@ ==> (final (self).contains_id(other) <==> old(
                    self,
                ).contains_id(other)),
            final (self).next() == old(self).next(),
            final (self).issued() == old(self).issued(),
            !old(self).contains_id(session_id@) ==> *final (self) == *old(self),
            old(self).contains_id(session_id@) ==> final (self).id_seq() == old(
                self,
            ).id_seq().remove_value(session_id@),
            old(self).contains_id(session_id@) ==> exists|k: int|
                0 <= k < old(self).sessions().len() && (#[trigger] old(self).sessions()[k]).id@
                    == session_id@ && final (self).sessions() == old(self).sessions().remove(k),
    {
        proof {
            lemma_wf_entry_ids_distinct(*old(self));
        }
        match self.find_index(session_id) {
            None => (),
            Some(i) => {
                let ghost pre = self.entries@;
                let ghost old_ids = old(self).id_seq();
                let mut session = self.entries.remove(i);
                kill_child(&mut session.child);
                proof {
                    pre.remove_ensures(i as int);
                    assert(old(self).entries@ == pre);
                    assert((old(self).sessions()[i as int]).id@ == session_id@);
                    assert(self.sessions() == old(self).sessions().remove(i as int));
                    assert(old_ids[i as int] == session_id@);
                    assert(old_ids.contains(session_id@));
                    old_ids.index_of_first_ensures(session_id@);
                    let k = old_ids.index_of_first(session_id@)->Some_0;
                    assert forall|j: int| 0 <= j < i implies old_ids[j] != session_id@ by {
                        assert(old_ids[j] == pre[j].id@);
                    }
                    assert(k == i);
                    assert(self.id_seq() =~= old_ids.remove(i as int)) by {
                        old_ids.remove_ensures(i as int);
                        assert forall|j: int|
                            0 <= j < self.id_seq().len() implies self.id_seq()[j]
                            == old_ids.remove(i as int)[j] by {
                            assert(self.id_seq()[j] == self.entries@[j].id@);
                            if j < i {
                                assert(self.entries@[j] == pre[j]);
                                assert(old_ids[j] == pre[j].id@);
                            } else {
                                assert(self.entries@[j] == pre[j + 1]);
                                assert(old_ids[j + 1] == pre[j + 1].id@);
                            }
                        }
                    }
                    assert(old_ids.remove_value(session_id@) == old_ids.remove(i as int));
                    assert forall|other: Seq<char>|
                        other != session_id@ implies (self.contains_id(other) <==> old(
                        self,
                    ).contains_id(other)) by {
                        if self.contains_id(other) {
                            let j = choose|j: int|
                                0 <= j < self.entries@.len() && self.entries@[j].id@ == other;
                            if j < i {
                                assert(old(self).entries@[j].id@ == other);
                            } else {
                                assert(old(self).entries@[j + 1].id@ == other);
                            }
                        }
                        if old(self).contains_id(other) {
                            let j = choose|j: int|
                                0 <= j < pre.len() && pre[j].id@ == other;
                            if j < i {
                                assert(self.entries@[j].id@ == other);
                            } else {
                                assert(j != i);
                                assert(self.entries@[j - 1].id@ == other);
                            }
                        }
                    }
                    assert(!self.contains_id(session_id@)) by {
                        if self.contains_id(session_id@) {
                            let j = choose|j: int|
                                0 <= j < self.entries@.len() && self.entries@[j].id@
                                    == session_id@;
                            assert(old(self).entries@ == pre);
                            if j < i {
                                assert(self.entries@[j] == pre[j]);
                                assert(old(self).entries@[j].id@ == old(
                                    self,
                                ).entries@[i as int].id@);
                            } else {
                                assert(self.entries@[j] == pre[j + 1]);
                                assert(old(self).entries@[i as int].id@ == old(
                                    self,
                                ).entries@[j + 1].id@);
                            }
                        }
                    }
                }
            },
        }
    }

    /// `list`: the identifiers of the registered sessions, in
    /// insertion order — a point-in-time snapshot.
    pub fn list(&self) -> (r: Vec<String>)
        ensures
            r.deep_view() == self.id_seq(),
    {
        let n = self.entries.len();
        let mut out: Vec<String> = Vec::new();
        let mut i: usize = 0;
        while i < n
            invariant
                i <= n,
                n == self.entries@.len(),
                out@.len() == i,
                forall|j: int| 0 <= j < i ==> #[trigger] out@[j]@ == self.entries@[j].id@,
            decreases n - i,
        {
            out.push(self.entries[i].id.clone());
            i = i + 1;
        }
        proof {
            assert(out.deep_view() =~= self.id_seq()) by {
                assert forall|j: int| 0 <= j < n implies out.deep_view()[j] == self.id_seq()[j] by {
                    assert(out@[j]@ == self.entries@[j].id@);
                }
            }
        }
        out
    }

    /// Whether this identifier is currently registered.
    pub fn contains(&self, session_id: &String) -> (r: bool)
        ensures
            r == self.contains_id(session_id@),
    {
        match self.find_index(session_id) {
            Some(_) => true,
            None => false,
        }
    }
}

/// In a well-formed registry the registered identifiers are pairwise
/// distinct: each is rendered from its own serial.
proof fn lemma_wf_entry_ids_distinct(r: Registry)
    requires
        r.wf(),
    ensures
        forall|i: int, j: int|
            0 <= i < j < r.entries@.len() ==> r.entries@[i].id@ != r.entries@[j].id@,
{
    assert forall|i: int, j: int|
        0 <= i < j < r.entries@.len() implies r.entries@[i].id@ != r.entries@[j].id@ by {
        let ei = r.entries@[i];
        let ej = r.entries@[j];
        lemma_identifiers_pairwise_distinct(
            ei.serial@ as nat,
            r.issued@[ei.serial@],
            ej.serial@ as nat,
            r.issued@[ej.serial@],
        );
    }
}

/// `send`, middle step: the shell reports whether the outbound queue
/// accepted the message; refusal means the writer task is gone and the
/// send fails with send-failure.
pub fn classify_enqueue(accepted: bool) -> (r: Result<(), StdioError>)
    ensures
        accepted <==> r is Ok,
        !accepted ==> r == Err::<(), StdioError>(StdioError::SendFailure),
{
    if accepted {
        Ok(())
    } else {
        Err(StdioError::SendFailure)
    }
}

/// `send`, last step: turn what the wait on the inbound queue observed
/// into the operation's result.  The first line received is the
/// response; a closed queue is process-closed; an elapsed window with
/// the queue still open is response-timeout.
pub fn classify_wait(outcome: WaitOutcome) -> (r: Result<String, StdioError>)
    ensures
        match outcome {
            WaitOutcome::Line(line) => r == Ok::<String, StdioError>(line),
            WaitOutcome::Closed => r == Err::<String, StdioError>(StdioError::ProcessClosed),
            WaitOutcome::TimedOut => r == Err::<String, StdioError>(StdioError::ResponseTimeout),
        },
{
    match outcome {
        WaitOutcome::Line(line) => Ok(line),
        WaitOutcome::Closed => Err(StdioError::ProcessClosed),
        WaitOutcome::TimedOut => Err(StdioError::ResponseTimeout),
    }
}

/// `send`, before the message goes out: drain and discard the lines
/// already buffered on the inbound queue — startup banners, or the
/// answer to an earlier, timed-out request — so that none of them is
/// mistaken for the response to the message about to be sent.  The
/// polls are capped at the queue's capacity, the most it can buffer at
/// once, so a child that keeps writing cannot hold the drain forever.
pub fn drain_stale(inbound: &mut Receiver<String>) -> (drained: usize)
    ensures
        drained <= INBOUND_CAPACITY,
{
    let mut n: usize = 0;
    while n < INBOUND_CAPACITY
        invariant
            n <= INBOUND_CAPACITY,
        decreases INBOUND_CAPACITY - n,
    {
        match try_poll(inbound) {
            Polled::Line(_) => {
                n = n + 1;
            },
            Polled::Empty => {
                return n;
            },
            Polled::Closed => {
                return n;
            },
        }
    }
    n
}

/// Law: an identifier the registry never issued is not registered, so
/// `send` on it — or on any string that is not an identifier at all —
/// is refused with session-not-found.
pub proof fn lemma_unissued_identifier_not_registered(r: Registry, id: Seq<char>)
    requires
        r.wf(),
        forall|s: u64|
            r.issued().dom().contains(s) ==> spec_session_id(s as nat, r.issued()[s]) != id,
    ensures
        !r.contains_id(id),
{
    assert forall|i: int| 0 <= i < r.entries@.len() implies r.entries@[i].id@ != id by {
        let e = r.entries@[i];
        assert(r.issued().dom().contains(e.serial@));
        assert(spec_session_id(e.serial@ as nat, r.issued()[e.serial@]) != id);
        assert(e.id@ == spec_session_id(e.serial@ as nat, r.issued@[e.serial@]));
    }
}

/// Law: in a well-formed registry the registered identifiers are
/// pairwise distinct, so `list` reports each live session once, with
/// no duplicates.
pub proof fn lemma_listed_identifiers_distinct(r: Registry)
    requires
        r.wf(),
    ensures
        forall|i: int, j: int| 0 <= i < j < r.id_seq().len() ==> r.id_seq()[i] != r.id_seq()[j],
{
    lemma_wf_entry_ids_distinct(r);
    assert forall|i: int, j: int|
        0 <= i < j < r.id_seq().len() implies r.id_seq()[i] != r.id_seq()[j] by {
        assert(r.id_seq()[i] == r.entries@[i].id@);
        assert(r.id_seq()[j] == r.entries@[j].id@);
    }
}

/// Law: what `list` reports is exactly what is registered — an
/// identifier appears among the listed ones precisely when a session
/// with it is in the registry.  In particular a stopped identifier,
/// no longer registered, no longer appears in the listing.
pub proof fn lemma_list_matches_registry(r: Registry, id: Seq<char>)
    ensures
        r.contains_id(id) <==> r.id_seq().contains(id),
{
    if r.contains_id(id) {
        let i = choose|i: int| 0 <= i < r.entries@.len() && r.entries@[i].id@ == id;
        assert(r.id_seq()[i] == id);
    }
    if r.id_seq().contains(id) {
        let i = choose|i: int| 0 <= i < r.id_seq().len() && r.id_seq()[i] == id;
        assert(r.entries@[i].id@ == id);
    }
}

/// Law: identifiers a registry has issued are pairwise distinct across
/// its whole history — stopped sessions included, since stopping never
/// shrinks the issued record.
pub proof fn lemma_issued_identifiers_distinct(r: Registry, s1: u64, s2: u64)
    requires
        r.issued().dom().contains(s1),
        r.issued().dom().contains(s2),
        s1 != s2,
    ensures
        spec_session_id(s1 as nat, r.issued()[s1]) != spec_session_id(
            s2 as nat,
            r.issued()[s2],
        ),
{
    lemma_identifiers_pairwise_distinct(s1 as nat, r.issued()[s1], s2 as nat, r.issued()[s2]);
}

} // verus!
