//! Decisions of a receive session: parsing the ticket, naming the session
//! directory, totalling what the metadata pass reports, and emitting the
//! progress events in order.
//!
//! Connecting, fetching and disk writes stay with the caller; a ticket that
//! does not parse fails here, before any directory or network state exists.

use crate::hexstr::{hex_encode, hex_seq};
use crate::nums::{saturating_sum_from, sum_sat};
use crate::status::ReceiveStatus;
use vstd::prelude::*;
use vstd::string::*;

verus! {

/// Why a receive session failed before any network activity.
#[derive(Debug, Clone)]
pub enum ReceiveError {
    /// The ticket string did not parse.
    InvalidTicket,
}

/// Whether a ticket string parses; a function of the string alone.
pub uninterp spec fn ticket_parse_ok(s: Seq<char>) -> bool;

/// The content identifier a ticket carries; a function of the string alone.
pub uninterp spec fn ticket_hash(s: Seq<char>) -> Seq<u8>;

/// Relies on iroh_blobs::ticket::BlobTicket::from_str, a deterministic
/// parse of the string, and on BlobTicket::hash, the 32-byte content
/// identifier the ticket carries.
#[verifier::external_body]
fn parse_ticket_hash(s: &str) -> (r: Option<Vec<u8>>)
    ensures
        r is Some <==> ticket_parse_ok(s@),
        r matches Some(b) ==> b@ == ticket_hash(s@) && b@.len() == 32,
{
    match <iroh_blobs::ticket::BlobTicket as std::str::FromStr>::from_str(s) {
        Ok(t) => Some(t.hash().as_bytes().to_vec()),
        Err(_) => None,
    }
}

/// Checks the ticket before anything else: an unparsable ticket fails with
/// no directory chosen, so nothing is ever created for it; a good one fixes
/// the session directory, named after the ticket's content identifier so
/// repeated attempts with the same ticket reuse partial progress.
pub fn receive_preflight(ticket: &str) -> (r: Result<String, ReceiveError>)
    ensures
        r is Ok <==> ticket_parse_ok(ticket@),
        r matches Ok(dir) ==> dir@ == ".p2p-client-recv-"@ + hex_seq(ticket_hash(ticket@)),
        r is Err ==> r matches Err(ReceiveError::InvalidTicket),
{
    match parse_ticket_hash(ticket) {
        Some(bytes) => {
            let mut dir = String::from_str(".p2p-client-recv-");
            let hexed = hex_encode(&bytes);
            dir.append(hexed.as_str());
            Ok(dir)
        },
        None => Err(ReceiveError::InvalidTicket),
    }
}

/// Totals of the metadata pass: all bytes to fetch, the payload bytes
/// excluding the manifest blob listed first, and the payload file count.
pub fn receive_totals(sizes: &Vec<u64>) -> (r: (u64, u64, u64))
    ensures
        r.0 == sum_sat(sizes@, 0),
        r.1 == sum_sat(sizes@, 1),
        r.2 == if sizes@.len() == 0 {
            0
        } else {
            sizes@.len() - 1
        },
{
    let total = saturating_sum_from(sizes, 0);
    let payload = saturating_sum_from(sizes, 1);
    let files: u64 = if sizes.len() == 0 {
        0
    } else {
        (sizes.len() - 1) as u64
    };
    (total, payload, files)
}

/// Where a receive session stands in its event order.
#[derive(Debug, Clone, Copy, PartialEq, Eq)]
pub enum ReceivePhase {
    /// Nothing announced yet.
    Fresh,
    /// The session is connecting to the sender.
    Connecting,
    /// Metadata arrived; sizes are known.
    Connected,
    /// Content bytes are streaming in.
    Downloading,
    /// Entries are being written to disk.
    Exporting,
    /// A terminal event went out; nothing may follow it.
    Ended,
}

/// Emits a receive session's events in the only order the state machine
/// allows: `Connecting`, then `Connected` once sizes are known, then
/// `Downloading` updates, then `Exporting` updates, then one terminal
/// event. Content already fully local may skip straight from `Connecting`
/// to `Exporting`.
pub struct ReceiveReporter {
    /// The phase the last emitted event established.
    pub phase: ReceivePhase,
}

impl ReceiveReporter {
    /// A reporter for a session that has not announced anything.
    pub fn new() -> (r: ReceiveReporter)
        ensures
            r.phase == ReceivePhase::Fresh,
    {
        ReceiveReporter { phase: ReceivePhase::Fresh }
    }

    /// The opening event.
    pub fn begin(&mut self) -> (st: ReceiveStatus)
        requires
            old(self).phase == ReceivePhase::Fresh,
        ensures
            final(self).phase == ReceivePhase::Connecting,
            st == ReceiveStatus::Connecting,
    {
        self.phase = ReceivePhase::Connecting;
        ReceiveStatus::Connecting
    }

    /// Metadata arrived: the payload's file count and byte total, excluding
    /// the manifest blob itself.
    pub fn connected(&mut self, total_files: u64, total_size: u64) -> (st: ReceiveStatus)
        requires
            old(self).phase == ReceivePhase::Connecting,
        ensures
            final(self).phase == ReceivePhase::Connected,
            st == (ReceiveStatus::Connected { total_files, total_size }),
    {
        self.phase = ReceivePhase::Connected;
        ReceiveStatus::Connected { total_files, total_size }
    }

    /// A transfer progress tick: bytes already local plus the transport's
    /// cumulative offset, clamped rather than overflowing.
    pub fn downloading(&mut self, local_bytes: u64, offset: u64, total: u64) -> (st: ReceiveStatus)
        requires
            old(self).phase == ReceivePhase::Connected || old(self).phase
                == ReceivePhase::Downloading,
        ensures
            final(self).phase == ReceivePhase::Downloading,
            st == (ReceiveStatus::Downloading {
                downloaded: (if local_bytes + offset > u64::MAX {
                    u64::MAX as int
                } else {
                    local_bytes + offset
                }) as u64,
                total,
            }),
    {
        self.phase = ReceivePhase::Downloading;
        ReceiveStatus::Downloading { downloaded: local_bytes.saturating_add(offset), total }
    }

    /// An export progress event, forwarded verbatim from the exporter.
    pub fn exporting(&mut self, st_in: ReceiveStatus) -> (st: ReceiveStatus)
        requires
            old(self).phase != ReceivePhase::Fresh,
            old(self).phase != ReceivePhase::Ended,
            st_in is Exporting,
        ensures
            final(self).phase == ReceivePhase::Exporting,
            st == st_in,
    {
        self.phase = ReceivePhase::Exporting;
        st_in
    }

    /// Everything is on disk; the single terminal success event.
    pub fn finish(&mut self) -> (st: ReceiveStatus)
        requires
            old(self).phase != ReceivePhase::Fresh,
            old(self).phase != ReceivePhase::Ended,
        ensures
            final(self).phase == ReceivePhase::Ended,
            st == ReceiveStatus::Done,
    {
        self.phase = ReceivePhase::Ended;
        ReceiveStatus::Done
    }

    /// The session failed; the single terminal error event, after which
    /// nothing more can be emitted.
    pub fn fail(&mut self, message: String) -> (st: ReceiveStatus)
        requires
            old(self).phase != ReceivePhase::Ended,
        ensures
            final(self).phase == ReceivePhase::Ended,
            st == (ReceiveStatus::Error(message)),
    {
        self.phase = ReceivePhase::Ended;
        ReceiveStatus::Error(message)
    }
}

} // verus!
