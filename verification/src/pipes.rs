//! Trusted boundary around the pipes and queues of a session.
//!
//! Each session owns one child process and two bounded queues: an
//! outbound queue feeding the writer task and an inbound queue fed by
//! the reader task.  The queue and process types come from tokio and
//! are opaque here; the declarations and wrappers below are what the
//! rest of the library is allowed to assume about them.  What a queue
//! holds at any instant depends on the concurrently running tasks, so
//! the wrappers promise only what is true of every outcome.

use std::sync::Arc;
use tokio::process::Child;
use tokio::process::ChildStderr;
use tokio::process::ChildStdin;
use tokio::process::ChildStdout;
use tokio::sync::mpsc::Receiver;
use tokio::sync::mpsc::Sender;
use tokio::sync::Mutex;
use vstd::prelude::*;

verus! {

#[verifier::external_type_specification]
#[verifier::external_body]
pub struct ExChild(Child);

#[verifier::external_type_specification]
#[verifier::external_body]
pub struct ExChildStdin(ChildStdin);

#[verifier::external_type_specification]
#[verifier::external_body]
pub struct ExChildStdout(ChildStdout);

#[verifier::external_type_specification]
#[verifier::external_body]
pub struct ExChildStderr(ChildStderr);

#[verifier::external_type_specification]
#[verifier::external_body]
#[verifier::reject_recursive_types(T)]
pub struct ExSender<T>(Sender<T>);

#[verifier::external_type_specification]
#[verifier::external_body]
#[verifier::reject_recursive_types(T)]
pub struct ExReceiver<T>(Receiver<T>);

#[verifier::external_type_specification]
#[verifier::external_body]
#[verifier::reject_recursive_types(T)]
pub struct ExTokioMutex<T: ?Sized>(Mutex<T>);

/// A session's inbound queue receiver behind its exclusive-access
/// guard, shareable with the one `send` call that drains it.
pub type SharedReceiver = Arc<Mutex<Receiver<String>>>;

/// Any modest queue capacity sits under the channel's permit ceiling.
pub(crate) proof fn lemma_capacity_fits_permit_ceiling(capacity: usize)
    requires
        capacity <= 0x1000_0000,
    ensures
        capacity <= usize::MAX >> 3,
{
    vstd::bits::lemma_usize_shr_is_div(usize::MAX, 3);
    vstd::arithmetic::power2::lemma2_to64();
    assert(usize::MAX >> 3 == usize::MAX as nat / vstd::arithmetic::power2::pow2(3));
    assert(usize::MAX >= 0xFFFF_FFFFusize);
}

/// One poll of the inbound queue, without waiting.
pub enum Polled {
    /// A buffered line was available and has been taken.
    Line(String),
    /// Nothing is buffered right now, but the sender half still lives.
    Empty,
    /// The sender half is gone: the reader task has exited.
    Closed,
}

/// Relies on `tokio::sync::mpsc::channel`: creates a bounded queue of
/// the given capacity and returns its two halves.  It panics on a zero
/// capacity and on a capacity above the permit ceiling of its internal
/// semaphore, `usize::MAX >> 3`; the precondition rules both out.
#[verifier::external_body]
pub(crate) fn channel_pair(capacity: usize) -> (Sender<String>, Receiver<String>)
    requires
        1 <= capacity <= usize::MAX >> 3,
{
    tokio::sync::mpsc::channel(capacity)
}

/// Relies on `tokio::sync::mpsc::Sender::clone`: the sending half of a
/// queue is cloneable, and a clone feeds the same queue.
#[verifier::external_body]
pub(crate) fn clone_sender(tx: &Sender<String>) -> Sender<String> {
    tx.clone()
}

/// Relies on `tokio::sync::Mutex::new` and `std::sync::Arc::new`: puts
/// the receiving half of the inbound queue behind its exclusive-access
/// guard and makes the guard shareable.
#[verifier::external_body]
pub(crate) fn share_receiver(rx: Receiver<String>) -> SharedReceiver {
    Arc::new(Mutex::new(rx))
}

/// Relies on `std::sync::Arc::clone`: a clone is another handle to the
/// same guarded receiver.
#[verifier::external_body]
pub(crate) fn clone_shared_receiver(rx: &SharedReceiver) -> (r: SharedReceiver)
    ensures
        r == *rx,
{
    Arc::clone(rx)
}

/// Relies on `tokio::sync::mpsc::Receiver::try_recv`: takes one
/// buffered value without waiting, or reports the queue empty or its
/// sender half gone.  Which of the three comes back depends on the
/// concurrently running reader task, so nothing more is promised.
#[verifier::external_body]
pub(crate) fn try_poll(rx: &mut Receiver<String>) -> Polled {
    match rx.try_recv() {
        Ok(line) => Polled::Line(line),
        Err(tokio::sync::mpsc::error::TryRecvError::Empty) => Polled::Empty,
        Err(tokio::sync::mpsc::error::TryRecvError::Disconnected) => Polled::Closed,
    }
}

/// Relies on `tokio::process::Child::start_kill`: forces the child to
/// exit without waiting for it.  A failure to signal — the child is
/// already gone — is discarded, as stop is idempotent.
#[verifier::external_body]
pub(crate) fn kill_child(child: &mut Child) {
    let _ = child.start_kill();
}

} // verus!
