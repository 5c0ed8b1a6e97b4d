//! Decisions of an outbound transfer session.
//!
//! Two variants share one state-machine shape, `Connecting` then
//! `Importing` then `ReadyToSend` then a terminal event: a ticket-based
//! session over a peer listener, and a web-link session over a local HTTP
//! server. Networking stays with the caller; the staging names, the
//! single-file rule, the download endpoint's answers and the event order
//! are decided here.

use crate::collection::{Collection, CollectionEntry, ContentId};
use crate::hexstr::{hex_encode, hex_seq};
use crate::import::ImportTracker;
use crate::status::SendStatus;
use vstd::prelude::*;
use vstd::string::*;

verus! {

/// Why a send session refused to start.
#[derive(Debug, Clone)]
pub enum SendError {
    /// The web link variant serves exactly one file, never a directory.
    NotSingleFile,
}

/// The staging directory name for a ticket-based send: a fixed prefix plus
/// a random suffix in hex, so concurrent sessions cannot collide.
pub fn p2p_staging_dir_name(suffix: &Vec<u8>) -> (r: String)
    ensures
        r@ == "p2p-client-p2p-"@ + hex_seq(suffix@),
{
    let mut s = String::from_str("p2p-client-p2p-");
    let hexed = hex_encode(suffix);
    s.append(hexed.as_str());
    s
}

/// The staging directory name for a web-link send.
pub fn http_staging_dir_name(suffix: &Vec<u8>) -> (r: String)
    ensures
        r@ == "p2p-client-http-"@ + hex_seq(suffix@),
{
    let mut s = String::from_str("p2p-client-http-");
    let hexed = hex_encode(suffix);
    s.append(hexed.as_str());
    s
}

/// The web link variant serves exactly one file: anything else is refused
/// before any network setup happens.
pub fn single_entry(c: &Collection) -> (r: Result<&CollectionEntry, SendError>)
    ensures
        r is Ok <==> c@.len() == 1,
        r matches Ok(e) ==> *e == c@[0],
        r is Err ==> r matches Err(SendError::NotSingleFile),
{
    if c.len() == 1 {
        Ok(c.entry(0))
    } else {
        Err(SendError::NotSingleFile)
    }
}

/// The public link under which the staged blob is served.
pub fn download_url(base: &str, id: &ContentId) -> (r: String)
    ensures
        r@ == base@ + "/download/"@ + hex_seq(id.bytes@),
{
    let mut s = String::from_str(base);
    s.append("/download/");
    let hexed = hex_encode(&id.bytes);
    s.append(hexed.as_str());
    s
}

/// The attachment header value under which the single file is served.
pub fn content_disposition(file_name: &str) -> (r: String)
    ensures
        r@ == "attachment; filename=\""@ + file_name@ + "\""@,
{
    let mut s = String::from_str("attachment; filename=\"");
    s.append(file_name);
    s.append("\"");
    s
}

/// The identifier inside a `/download/{id}` request path, when the path has
/// that shape.
pub fn download_request_id(path: &str) -> (r: Option<String>)
    ensures
        r is Some <==> (path@.len() >= "/download/"@.len() && path@.subrange(
            0,
            "/download/"@.len() as int,
        ) == "/download/"@),
        r matches Some(id) ==> id@ == path@.subrange("/download/"@.len() as int, path@.len() as int),
{
    let prefix = "/download/";
    let m = prefix.unicode_len();
    let n = path.unicode_len();
    if n < m {
        return None;
    }
    let mut k: usize = 0;
    while k < m
        invariant
            m == prefix@.len(),
            n == path@.len(),
            m <= n,
            k <= m,
            forall|j: int| 0 <= j < k ==> path@[j] == prefix@[j],
            prefix@ == "/download/"@,
        decreases m - k,
    {
        if path.get_char(k) != prefix.get_char(k) {
            proof {
                assert(path@.subrange(0, m as int)[k as int] != prefix@[k as int]);
            }
            return None;
        }
        k += 1;
    }
    proof {
        assert(path@.subrange(0, m as int) =~= prefix@);
    }
    Some(String::from_str(path.substring_char(m, n)))
}

/// The index of the first space in `s`, or `s.len()` if there is none.
pub open spec fn first_space(s: Seq<char>) -> int
    decreases s.len(),
{
    if s.len() == 0 {
        0
    } else if s[0] == ' ' {
        0
    } else {
        1 + first_space(s.drop_first())
    }
}

proof fn lemma_first_space_at(s: Seq<char>, m: int)
    requires
        0 <= m <= s.len(),
        forall|k: int| 0 <= k < m ==> s[k] != ' ',
        m < s.len() ==> s[m] == ' ',
    ensures
        first_space(s) == m,
    decreases s.len(),
{
    if s.len() > 0 && m > 0 {
        assert forall|k: int| 0 <= k < m - 1 implies s.drop_first()[k] != ' ' by {
            assert(s.drop_first()[k] == s[k + 1]);
        }
        lemma_first_space_at(s.drop_first(), m - 1);
    }
}

/// The request path of an HTTP GET request line: the token between the
/// method and the protocol version.
pub fn http_request_path(line: &str) -> (r: Option<String>)
    ensures
        r is Some <==> (line@.len() >= "GET "@.len() && line@.subrange(
            0,
            "GET "@.len() as int,
        ) == "GET "@),
        r matches Some(p) ==> p@ == line@.subrange(
            "GET "@.len() as int,
            "GET "@.len() + first_space(line@.subrange("GET "@.len() as int, line@.len() as int)),
        ),
{
    let method = "GET ";
    let m = method.unicode_len();
    let n = line.unicode_len();
    if n < m {
        return None;
    }
    let mut k: usize = 0;
    while k < m
        invariant
            m == method@.len(),
            n == line@.len(),
            m <= n,
            k <= m,
            forall|j: int| 0 <= j < k ==> line@[j] == method@[j],
            method@ == "GET "@,
        decreases m - k,
    {
        if line.get_char(k) != method.get_char(k) {
            proof {
                assert(line@.subrange(0, m as int)[k as int] != method@[k as int]);
            }
            return None;
        }
        k += 1;
    }
    proof {
        assert(line@.subrange(0, m as int) =~= method@);
    }
    let mut j: usize = m;
    while j < n && line.get_char(j) != ' '
        invariant
            m <= j <= n,
            n == line@.len(),
            forall|i: int| m <= i < j ==> line@[i] != ' ',
        decreases n - j,
    {
        j += 1;
    }
    proof {
        let tail = line@.subrange(m as int, n as int);
        assert forall|i: int| 0 <= i < j - m implies tail[i] != ' ' by {
            assert(tail[i] == line@[i + m]);
        }
        if j < n {
            assert(tail[j - m] == ' ');
        }
        lemma_first_space_at(tail, j - m);
    }
    Some(String::from_str(line.substring_char(m, j)))
}

/// A lowercase hex digit.
pub open spec fn is_lower_hex_char(c: char) -> bool {
    (48 <= c as u32 && c as u32 <= 57) || (97 <= c as u32 && c as u32 <= 102)
}

/// The well-formed identifier strings: exactly the lowercase hex form every
/// published link carries.
pub open spec fn valid_content_id_str(s: Seq<char>) -> bool {
    s.len() == 64 && forall|i: int| 0 <= i < s.len() ==> is_lower_hex_char(#[trigger] s[i])
}

/// How the download endpoint answers a request.
#[derive(Debug, Clone, Copy, PartialEq, Eq)]
pub enum DownloadDecision {
    /// The identifier is malformed; nothing is streamed.
    BadRequest,
    /// A well-formed identifier that is not the staged content.
    NotFound,
    /// The staged blob is streamed as an attachment.
    Serve,
}

/// Answers a download request: reject a malformed identifier first, then
/// one that names anything but the staged content, and serve otherwise.
pub fn handle_download_request(id_str: &str, staged: &ContentId) -> (d: DownloadDecision)
    ensures
        d == (if !valid_content_id_str(id_str@) {
            DownloadDecision::BadRequest
        } else if id_str@ != hex_seq(staged.bytes@) {
            DownloadDecision::NotFound
        } else {
            DownloadDecision::Serve
        }),
{
    let n = id_str.unicode_len();
    if n != 64 {
        return DownloadDecision::BadRequest;
    }
    let mut i: usize = 0;
    while i < n
        invariant
            n == id_str@.len(),
            i <= n,
            forall|j: int| 0 <= j < i ==> is_lower_hex_char(#[trigger] id_str@[j]),
        decreases n - i,
    {
        let u = id_str.get_char(i) as u32;
        if !((48 <= u && u <= 57) || (97 <= u && u <= 102)) {
            return DownloadDecision::BadRequest;
        }
        i += 1;
    }
    let expected = hex_encode(&staged.bytes);
    let given = String::from_str(id_str);
    if given == expected {
        DownloadDecision::Serve
    } else {
        DownloadDecision::NotFound
    }
}

/// Where a send session stands in its event order.
#[derive(Debug, Clone, Copy, PartialEq, Eq)]
pub enum SendPhase {
    /// Nothing announced yet.
    Fresh,
    /// The session is setting up endpoint or store.
    Connecting,
    /// Files are being staged.
    Importing,
    /// The ticket or link is out; the session serves until cancelled.
    Ready,
    /// A terminal event went out; nothing may follow it.
    Ended,
}

/// Emits a send session's events in the only order the state machine
/// allows: `Connecting`, then `Importing` updates, then `ReadyToSend`, then
/// one terminal event — and nothing after an error.
pub struct SendReporter {
    /// The phase the last emitted event established.
    pub phase: SendPhase,
}

impl SendReporter {
    /// A reporter for a session that has not announced anything.
    pub fn new() -> (r: SendReporter)
        ensures
            r.phase == SendPhase::Fresh,
    {
        SendReporter { phase: SendPhase::Fresh }
    }

    /// The opening event.
    pub fn begin(&mut self) -> (st: SendStatus)
        requires
            old(self).phase == SendPhase::Fresh,
        ensures
            final(self).phase == SendPhase::Connecting,
            st == SendStatus::Connecting,
    {
        self.phase = SendPhase::Connecting;
        SendStatus::Connecting
    }

    /// A staging progress event, emitted before each file.
    pub fn importing(&mut self, tracker: &ImportTracker) -> (st: SendStatus)
        requires
            old(self).phase == SendPhase::Connecting || old(self).phase == SendPhase::Importing,
        ensures
            final(self).phase == SendPhase::Importing,
            st == (SendStatus::Importing {
                total_files: tracker.total_files,
                done_files: tracker.done_files,
                total_size: tracker.total_size,
                done_size: tracker.done_size,
            }),
    {
        self.phase = SendPhase::Importing;
        tracker.importing_status()
    }

    /// The shareable ticket or link is out.
    pub fn ready(&mut self, ticket: String) -> (st: SendStatus)
        requires
            old(self).phase == SendPhase::Connecting || old(self).phase == SendPhase::Importing,
        ensures
            final(self).phase == SendPhase::Ready,
            st == (SendStatus::ReadyToSend { ticket }),
    {
        self.phase = SendPhase::Ready;
        SendStatus::ReadyToSend { ticket }
    }

    /// The session was cancelled after being ready; the single terminal
    /// success event.
    pub fn finish(&mut self) -> (st: SendStatus)
        requires
            old(self).phase == SendPhase::Ready,
        ensures
            final(self).phase == SendPhase::Ended,
            st == SendStatus::Done,
    {
        self.phase = SendPhase::Ended;
        SendStatus::Done
    }

    /// The session failed; the single terminal error event, after which
    /// nothing more can be emitted.
    pub fn fail(&mut self, message: String) -> (st: SendStatus)
        requires
            old(self).phase != SendPhase::Ended,
        ensures
            final(self).phase == SendPhase::Ended,
            st == (SendStatus::Error(message)),
    {
        self.phase = SendPhase::Ended;
        SendStatus::Error(message)
    }
}

} // verus!
