//! The connection session: the per-connection state machine.
//!
//! A session accepts control messages — upload announcements, job
//! submissions inline or by upload reference, heartbeats, close — and
//! decides for each one the replies that go to the caller, the commands the
//! surrounding task runner must carry out, and its own next state.  While
//! it is `Connected` it accepts jobs; once `Closing` it refuses new
//! submissions and lets running jobs finish on their own.  Submitting a job
//! never blocks the session: a submission only mints an id and hands back a
//! start command, whatever other jobs are doing.

use crate::ids;
use crate::naming;
use vstd::prelude::*;

verus! {

/// Milliseconds between two heartbeat probes.
pub const HEARTBEAT_INTERVAL_MS: u64 = 5000;

/// Milliseconds of silence after which the connection is considered dead.
pub const CLIENT_TIMEOUT_MS: u64 = 10000;

/// A byte allowed in a client-supplied file name: an ASCII letter or
/// digit, a dot, a hyphen or an underscore.
pub open spec fn is_name_byte(b: u8) -> bool {
    (48 <= b <= 57) || (65 <= b <= 90) || (97 <= b <= 122) || b == 46 || b == 45 || b == 95
}

/// The file-name filter as a predicate value.
pub open spec fn name_pred() -> spec_fn(u8) -> bool {
    |b: u8| is_name_byte(b)
}

/// A client file name with every disallowed byte dropped.  Client-visible
/// replies carry names as announced; this filter guards only the storage
/// name under which uploaded bytes are kept on disk.
pub open spec fn spec_sanitized(s: Seq<u8>) -> Seq<u8> {
    s.filter(name_pred())
}

/// Whether `b` may stay in a file name.
pub fn byte_allowed(b: u8) -> (r: bool)
    ensures
        r == is_name_byte(b),
{
    (48 <= b && b <= 57) || (65 <= b && b <= 90) || (97 <= b && b <= 122) || b == 46 || b == 45
        || b == 95
}

/// Drop every byte of `v` that may not stay in a file name.
pub fn sanitize_filename(v: &Vec<u8>) -> (r: Vec<u8>)
    ensures
        r@ == spec_sanitized(v@),
{
    let n = v.len();
    let mut r: Vec<u8> = Vec::new();
    let mut i: usize = 0;
    proof {
        assert(v@.subrange(0, 0) =~= Seq::<u8>::empty());
        reveal_with_fuel(Seq::filter, 2);
        assert(r@ =~= v@.subrange(0, 0).filter(name_pred()));
    }
    while i < n
        invariant
            0 <= i <= n,
            n == v@.len(),
            r@ == v@.subrange(0, i as int).filter(name_pred()),
        decreases n - i,
    {
        let b = v[i];
        proof {
            let pre = v@.subrange(0, i as int);
            let one = seq![v@[i as int]];
            assert(v@.subrange(0, i + 1) =~= pre + one);
            Seq::<u8>::filter_distributes_over_add(pre, one, name_pred());
            reveal_with_fuel(Seq::filter, 2);
            assert(one.drop_last() =~= Seq::<u8>::empty());
            if is_name_byte(v@[i as int]) {
                assert(one.filter(name_pred()) =~= seq![v@[i as int]]);
            } else {
                assert(one.filter(name_pred()) =~= Seq::<u8>::empty());
            }
        }
        if byte_allowed(b) {
            r.push(b);
            proof {
                assert(r@ =~= v@.subrange(0, i + 1).filter(name_pred()));
            }
        } else {
            proof {
                assert(r@ =~= v@.subrange(0, i + 1).filter(name_pred()));
            }
        }
        i = i + 1;
    }
    proof {
        assert(v@.subrange(0, n as int) =~= v@);
    }
    r
}

/// An announced upload that has not yet been consumed by a job.
pub struct UploadHandle {
    /// The id handed back to the caller when the upload was announced.
    pub file_id: Vec<u8>,
    /// The client file name exactly as announced.
    pub filename: Vec<u8>,
}

/// Whether the session still accepts work.
#[derive(Clone, Copy, Debug, PartialEq, Eq, Structural)]
pub enum SessionPhase {
    /// Steady state: control messages and new jobs are accepted.
    Connected,
    /// Draining: no new jobs; running jobs finish on their own.
    Closing,
}

/// One inbound control message, already parsed off the wire.
pub enum ClientMessage {
    /// A transport heartbeat probe.
    Ping,
    /// A transport heartbeat answer.
    Pong,
    /// Intent to upload a file under `filename`.
    AnnounceUpload { filename: Vec<u8> },
    /// Start a job over inline `text`.
    SubmitTextJob { text: Vec<u8> },
    /// Start a job over the earlier upload `file_id`.
    SubmitFileJob { file_id: Vec<u8>, filename: Vec<u8> },
    /// A frame that did not parse; `detail` says why.
    Malformed { detail: Vec<u8> },
    /// The caller closes the connection.
    Close,
}

/// One reply the session sends back over the wire.
pub enum ServerMessage {
    /// An upload may proceed under `file_id`.
    UploadReady { file_id: Vec<u8>, filename: Vec<u8> },
    /// A job was started.
    JobAccepted { job_id: Vec<u8>, file_id: Option<Vec<u8>>, filename: Option<Vec<u8>> },
    /// A recoverable failure; the connection stays open.
    ErrorReport { job_id: Option<Vec<u8>>, file_id: Option<Vec<u8>>, message: Vec<u8> },
}

/// Where a job's source text comes from.
pub enum JobSource {
    /// The text came inline with the submission.
    InlineText { text: Vec<u8> },
    /// The text sits in the uploaded file stored under `storage`;
    /// `filename` is the name as announced.
    UploadedFile { storage: Vec<u8>, filename: Vec<u8> },
}

/// One order to the task runner around the session.
pub enum SessionCommand {
    /// Spawn a job orchestrator as an independent task.
    StartJob { job_id: Vec<u8>, source: JobSource },
    /// Tear the connection down.
    CloseConnection,
}

/// Index of the first pending upload with the id `fid`, or the length of
/// `s` if there is none.
pub open spec fn handle_index(s: Seq<UploadHandle>, fid: Seq<u8>) -> int
    decreases s.len(),
{
    if s.len() == 0 {
        0
    } else if s[0].file_id@ == fid {
        0
    } else {
        1 + handle_index(s.subrange(1, s.len() as int), fid)
    }
}

/// `handle_index` names the first match: nothing before it matches, and
/// either it is at the end or it sits on a match.
pub proof fn lemma_handle_index(s: Seq<UploadHandle>, fid: Seq<u8>)
    ensures
        0 <= handle_index(s, fid) <= s.len(),
        forall|j: int| 0 <= j < handle_index(s, fid) ==> (#[trigger] s[j]).file_id@ != fid,
        handle_index(s, fid) < s.len() ==> s[handle_index(s, fid)].file_id@ == fid,
    decreases s.len(),
{
    if s.len() > 0 && s[0].file_id@ != fid {
        let t = s.subrange(1, s.len() as int);
        lemma_handle_index(t, fid);
        assert forall|j: int| 0 <= j < handle_index(s, fid) implies (#[trigger] s[j]).file_id@
            != fid by {
            if j > 0 {
                assert(t[j - 1].file_id@ != fid);
            }
        }
    }
}

/// The per-connection state machine.
pub struct Session {
    /// The session's opaque id.
    pub id: Vec<u8>,
    /// Whether new jobs are still accepted.
    pub phase: SessionPhase,
    /// When the last liveness signal arrived, in milliseconds.
    pub last_heartbeat: u64,
    /// The announced, not yet consumed uploads, oldest first.
    pub uploads: Vec<UploadHandle>,
}

impl Session {
    /// Every pending upload carries a well-shaped id.
    pub open spec fn wf(self) -> bool {
        &&& ids::spec_id_wf(self.id@)
        &&& forall|k: int|
            0 <= k < self.uploads@.len() ==> ids::spec_id_wf(
                (#[trigger] self.uploads@[k]).file_id@,
            )
    }

    /// Open a session at time `now_ms`, with a fresh id and no uploads.
    pub fn new(now_ms: u64) -> (s: Session)
        ensures
            s.wf(),
            s.phase is Connected,
            s.uploads@.len() == 0,
            s.last_heartbeat == now_ms,
    {
        Session {
            id: ids::fresh_id(),
            phase: SessionPhase::Connected,
            last_heartbeat: now_ms,
            uploads: Vec::new(),
        }
    }

    /// The greeting sent when the connection opens.
    pub fn greeting(&self) -> (v: Vec<u8>)
        ensures
            v@ == naming::ascii_view("Connected with session ID: "@) + self.id@,
    {
        proof {
            reveal_strlit("Connected with session ID: ");
        }
        let mut v = naming::ascii_bytes("Connected with session ID: ");
        let mut i = naming::copy_bytes(&self.id);
        v.append(&mut i);
        v
    }

    /// Whether the caller has been silent for longer than the timeout at
    /// time `now_ms`.
    pub fn heartbeat_expired(&self, now_ms: u64) -> (r: bool)
        ensures
            r == (now_ms - self.last_heartbeat > CLIENT_TIMEOUT_MS),
    {
        if now_ms < self.last_heartbeat {
            false
        } else {
            now_ms - self.last_heartbeat > CLIENT_TIMEOUT_MS
        }
    }

    /// Index of the pending upload with the id `fid`, or the number of
    /// pending uploads if there is none.
    fn find_upload(&self, fid: &Vec<u8>) -> (i: usize)
        ensures
            i == handle_index(self.uploads@, fid@),
    {
        let n = self.uploads.len();
        let mut i: usize = 0;
        while i < n && !naming::bytes_eq(&self.uploads[i].file_id, fid)
            invariant
                0 <= i <= n,
                n == self.uploads@.len(),
                forall|j: int| 0 <= j < i ==> (#[trigger] self.uploads@[j]).file_id@ != fid@,
            decreases n - i,
        {
            i = i + 1;
        }
        proof {
            lemma_handle_index(self.uploads@, fid@);
            let hi = handle_index(self.uploads@, fid@);
            if hi < i {
                assert(self.uploads@[hi].file_id@ != fid@);
                assert(false);
            }
            if hi > i {
                assert(i < n);
                assert(self.uploads@[i as int].file_id@ != fid@);
                assert(false);
            }
        }
        i
    }

    /// Handle one inbound message at time `now_ms`: refresh the liveness
    /// clock, and decide the replies and the commands it calls for.
    ///
    /// A heartbeat only refreshes the clock.  An upload announcement mints
    /// a handle and acknowledges it, echoing the file name exactly as
    /// announced.  A submission, while the session is
    /// `Connected`, always starts exactly one new job — the session holds
    /// no job state, so running jobs never block it — and is refused with
    /// an error once the session is `Closing`.  A file submission must
    /// name a known, unconsumed upload, which it consumes; the storage
    /// name it reads from is the upload id joined with the sanitized file
    /// name, while the replies echo the announced name.  A malformed
    /// frame draws an error reply and leaves the connection open.  A close
    /// turns the session to `Closing`.
    pub fn handle_message(&mut self, now_ms: u64, msg: ClientMessage) -> (out: (
        Vec<ServerMessage>,
        Vec<SessionCommand>,
    ))
        requires
            old(self).wf(),
        ensures
            final(self).wf(),
            final(self).id@ == old(self).id@,
            final(self).last_heartbeat == now_ms,
            !(msg is Close) ==> final(self).phase == old(self).phase,
            msg is Close ==> (final(self).phase is Closing && final(self).uploads@ == old(self).uploads@ && out.0@.len() == 0 && out.1@.len() == 1 && out.1@[0]
                is CloseConnection),
            (msg is Ping || msg is Pong) ==> (final(self).uploads@ == old(self).uploads@
                && out.0@.len() == 0 && out.1@.len() == 0),
            msg matches ClientMessage::Malformed { detail } ==> (final(self).uploads@ == old(self).uploads@ && out.1@.len() == 0 && out.0@.len() == 1 && (out.0@[0]
                matches ServerMessage::ErrorReport { job_id, file_id, message } && job_id is None
                && file_id is None && message@ == detail@)),
            msg matches ClientMessage::AnnounceUpload { filename } ==> (out.1@.len() == 0
                && out.0@.len() == 1 && (out.0@[0] matches ServerMessage::UploadReady {
                file_id,
                filename: ready_name,
            } && ids::spec_id_wf(file_id@) && ready_name@ == filename@ && final(self).uploads@.len() == old(self).uploads@.len() + 1 && final(self).uploads@.subrange(
                0,
                old(self).uploads@.len() as int,
            ) == old(self).uploads@ && final(self).uploads@.last().file_id@ == file_id@ && final(self).uploads@.last().filename@ == filename@)),
            msg matches ClientMessage::SubmitTextJob { text } ==> ((old(self).phase is Closing
                ==> (final(self).uploads@ == old(self).uploads@ && out.1@.len() == 0
                && out.0@.len() == 1 && (out.0@[0] matches ServerMessage::ErrorReport {
                job_id,
                file_id,
                message,
            } && job_id is None && file_id is None && message@ == naming::ascii_view(
                "Connection is closing; no new jobs are accepted."@,
            )))) && (old(self).phase is Connected ==> (final(self).uploads@ == old(self).uploads@
                && out.0@.len() == 1 && out.1@.len() == 1 && (out.0@[0]
                matches ServerMessage::JobAccepted { job_id, file_id, filename }
                && ids::spec_id_wf(job_id@) && file_id is None && filename is None && (out.1@[0]
                matches SessionCommand::StartJob { job_id: started, source } && started@
                == job_id@ && (source matches JobSource::InlineText { text: started_text }
                && started_text@ == text@)))))),
            msg matches ClientMessage::SubmitFileJob { file_id, filename } ==> ((old(self).phase
                is Closing ==> (final(self).uploads@ == old(self).uploads@ && out.1@.len() == 0
                && out.0@.len() == 1 && (out.0@[0] matches ServerMessage::ErrorReport {
                job_id,
                file_id: refused_id,
                message,
            } && job_id is None && refused_id is None && message@ == naming::ascii_view(
                "Connection is closing; no new jobs are accepted."@,
            )))) && ((old(self).phase is Connected && handle_index(old(self).uploads@, file_id@)
                == old(self).uploads@.len()) ==> (final(self).uploads@ == old(self).uploads@
                && out.1@.len() == 0 && out.0@.len() == 1 && (out.0@[0]
                matches ServerMessage::ErrorReport { job_id, file_id: missing_id, message }
                && job_id is None && (missing_id matches Some(m) && m@ == file_id@) && message@
                == naming::ascii_view("Unknown or already consumed upload reference."@)))) && ((
            old(self).phase is Connected && handle_index(old(self).uploads@, file_id@) < old(
                self,
            ).uploads@.len()) ==> (final(self).uploads@ == old(self).uploads@.remove(
                handle_index(old(self).uploads@, file_id@),
            ) && out.0@.len() == 1 && out.1@.len() == 1 && (out.0@[0]
                matches ServerMessage::JobAccepted { job_id, file_id: echo_id, filename: used }
                && ids::spec_id_wf(job_id@) && (echo_id matches Some(e) && e@ == file_id@) && (
            used matches Some(u) && u@ == old(self).uploads@[handle_index(
                old(self).uploads@,
                file_id@,
            )].filename@) && (out.1@[0] matches SessionCommand::StartJob {
                job_id: started,
                source,
            } && started@ == job_id@ && (source matches JobSource::UploadedFile {
                storage,
                filename: stored_name,
            } && storage@ == naming::spec_storage_name(
                file_id@,
                spec_sanitized(old(self).uploads@[handle_index(old(self).uploads@, file_id@)].filename@),
            ) && stored_name@ == old(self).uploads@[handle_index(
                old(self).uploads@,
                file_id@,
            )].filename@)))))),
    {
        self.last_heartbeat = now_ms;
        let mut replies: Vec<ServerMessage> = Vec::new();
        let mut cmds: Vec<SessionCommand> = Vec::new();
        match msg {
            ClientMessage::Ping => {},
            ClientMessage::Pong => {},
            ClientMessage::Close => {
                self.phase = SessionPhase::Closing;
                cmds.push(SessionCommand::CloseConnection);
            },
            ClientMessage::Malformed { detail } => {
                replies.push(
                    ServerMessage::ErrorReport {
                        job_id: None,
                        file_id: None,
                        message: detail,
                    },
                );
            },
            ClientMessage::AnnounceUpload { filename } => {
                let fid = ids::fresh_id();
                let fid_echo = naming::copy_bytes(&fid);
                let name_echo = naming::copy_bytes(&filename);
                let ghost uploads0 = self.uploads@;
                self.uploads.push(UploadHandle { file_id: fid, filename });
                proof {
                    assert(self.uploads@.subrange(0, uploads0.len() as int) =~= uploads0);
                }
                replies.push(
                    ServerMessage::UploadReady { file_id: fid_echo, filename: name_echo },
                );
            },
            ClientMessage::SubmitTextJob { text } => {
                match self.phase {
                    SessionPhase::Closing => {
                        proof {
                            reveal_strlit("Connection is closing; no new jobs are accepted.");
                        }
                        let message = naming::ascii_bytes(
                            "Connection is closing; no new jobs are accepted.",
                        );
                        replies.push(
                            ServerMessage::ErrorReport { job_id: None, file_id: None, message },
                        );
                    },
                    SessionPhase::Connected => {
                        let job_id = ids::fresh_id();
                        let job_id_echo = naming::copy_bytes(&job_id);
                        replies.push(
                            ServerMessage::JobAccepted {
                                job_id: job_id_echo,
                                file_id: None,
                                filename: None,
                            },
                        );
                        cmds.push(
                            SessionCommand::StartJob {
                                job_id,
                                source: JobSource::InlineText { text },
                            },
                        );
                    },
                }
            },
            ClientMessage::SubmitFileJob { file_id, filename: _ } => {
                match self.phase {
                    SessionPhase::Closing => {
                        proof {
                            reveal_strlit("Connection is closing; no new jobs are accepted.");
                        }
                        let message = naming::ascii_bytes(
                            "Connection is closing; no new jobs are accepted.",
                        );
                        replies.push(
                            ServerMessage::ErrorReport { job_id: None, file_id: None, message },
                        );
                    },
                    SessionPhase::Connected => {
                        let i = self.find_upload(&file_id);
                        if i == self.uploads.len() {
                            proof {
                                reveal_strlit("Unknown or already consumed upload reference.");
                            }
                            let message = naming::ascii_bytes(
                                "Unknown or already consumed upload reference.",
                            );
                            replies.push(
                                ServerMessage::ErrorReport {
                                    job_id: None,
                                    file_id: Some(file_id),
                                    message,
                                },
                            );
                        } else {
                            proof {
                                lemma_handle_index(self.uploads@, file_id@);
                            }
                            let ghost uploads0 = self.uploads@;
                            let handle = self.uploads.remove(i);
                            proof {
                                assert forall|k: int|
                                    0 <= k < self.uploads@.len() implies ids::spec_id_wf(
                                    (#[trigger] self.uploads@[k]).file_id@,
                                ) by {
                                    if k < i {
                                        assert(self.uploads@[k] == uploads0[k]);
                                    } else {
                                        assert(self.uploads@[k] == uploads0[k + 1]);
                                    }
                                }
                            }
                            let clean = sanitize_filename(&handle.filename);
                            let storage = naming::storage_name(&file_id, &clean);
                            let job_id = ids::fresh_id();
                            let job_id_echo = naming::copy_bytes(&job_id);
                            let used_name = naming::copy_bytes(&handle.filename);
                            replies.push(
                                ServerMessage::JobAccepted {
                                    job_id: job_id_echo,
                                    file_id: Some(file_id),
                                    filename: Some(used_name),
                                },
                            );
                            cmds.push(
                                SessionCommand::StartJob {
                                    job_id,
                                    source: JobSource::UploadedFile {
                                        storage,
                                        filename: handle.filename,
                                    },
                                },
                            );
                        }
                    },
                }
            },
        }
        (replies, cmds)
    }
}

} // verus!
