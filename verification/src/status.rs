//! Progress events and the send-handle model.
//!
//! Each transfer session reports its progress through exactly one of these
//! closed event sets, delivered in the order produced.

use vstd::prelude::*;

verus! {

/// Progress of a send session, as consumed by the presentation layer.
#[derive(Debug, Clone)]
pub enum SendStatus {
    Connecting,
    Importing { total_files: usize, done_files: usize, total_size: u64, done_size: u64 },
    ReadyToSend { ticket: String },
    Done,
    Error(String),
}

/// Progress of a receive session.
#[derive(Debug, Clone)]
pub enum ReceiveStatus {
    Connecting,
    Connected { total_files: u64, total_size: u64 },
    Downloading { downloaded: u64, total: u64 },
    Exporting { total_files: u64, done_files: u64 },
    Done,
    Error(String),
}

/// One step of an ordered teardown of a send session.
#[derive(Debug, Clone, Copy, PartialEq, Eq)]
pub enum CleanupStep {
    /// Tell the background listener or server to stop accepting work.
    SignalShutdown,
    /// Release the public tunnel resource.
    CloseTunnel,
    /// Remove the staging directory.
    RemoveDir,
}

/// What one outbound transfer owns, reduced to what the teardown decisions
/// need: the staging directory's name and which background resources exist.
///
/// The runtime resources themselves (a shutdown channel, a tunnel) live with
/// the caller; this model decides what must be released, and in what order.
pub struct SendHandle {
    /// Name of the temporary staging directory backing the transfer.
    pub data_dir: String,
    /// A background listener or server is running and can be signalled.
    pub has_shutdown: bool,
    /// A public tunnel is forwarding to the local server.
    pub has_tunnel: bool,
}

impl SendHandle {
    /// A handle over the given staging directory and resources.
    pub fn new(data_dir: String, has_shutdown: bool, has_tunnel: bool) -> (h: SendHandle)
        ensures
            h.data_dir@ == data_dir@,
            h.has_shutdown == has_shutdown,
            h.has_tunnel == has_tunnel,
    {
        SendHandle { data_dir, has_shutdown, has_tunnel }
    }

    /// The ordered teardown: signal the listener first, then release the
    /// tunnel, and remove the staging directory last, so no step can pull a
    /// directory out from under a still-running server. Every resource the
    /// handle owns appears exactly once, whether or not the session ever
    /// became ready to share.
    pub fn cleanup_steps(&self) -> (steps: Vec<CleanupStep>)
        ensures
            steps@ == (if self.has_shutdown {
                seq![CleanupStep::SignalShutdown]
            } else {
                Seq::<CleanupStep>::empty()
            }) + (if self.has_tunnel {
                seq![CleanupStep::CloseTunnel]
            } else {
                Seq::<CleanupStep>::empty()
            }) + seq![CleanupStep::RemoveDir],
    {
        let mut steps: Vec<CleanupStep> = Vec::new();
        if self.has_shutdown {
            steps.push(CleanupStep::SignalShutdown);
        }
        if self.has_tunnel {
            steps.push(CleanupStep::CloseTunnel);
        }
        steps.push(CleanupStep::RemoveDir);
        proof {
            assert(steps@ =~= (if self.has_shutdown {
                seq![CleanupStep::SignalShutdown]
            } else {
                Seq::<CleanupStep>::empty()
            }) + (if self.has_tunnel {
                seq![CleanupStep::CloseTunnel]
            } else {
                Seq::<CleanupStep>::empty()
            }) + seq![CleanupStep::RemoveDir]);
        }
        steps
    }
}

} // verus!
