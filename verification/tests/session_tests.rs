use tts_pipeline::session::{
    sanitize_filename, ClientMessage, JobSource, ServerMessage, Session, SessionCommand,
    SessionPhase, CLIENT_TIMEOUT_MS,
};

fn assert_id_shape(id: &[u8]) {
    assert_eq!(id.len(), 36);
    assert!(id
        .iter()
        .all(|b| *b == b'-' || b.is_ascii_digit() || (b'a'..=b'f').contains(b)));
}

#[test]
fn session_id_and_greeting() {
    let s = Session::new(0);
    assert_id_shape(&s.id);
    let mut expected = b"Connected with session ID: ".to_vec();
    expected.extend_from_slice(&s.id);
    assert_eq!(s.greeting(), expected);
}

#[test]
fn sanitize_drops_disallowed_bytes() {
    assert_eq!(
        sanitize_filename(&b"../../etc pass wd!.txt".to_vec()),
        b"....etcpasswd.txt".to_vec()
    );
    assert_eq!(sanitize_filename(&b"a_b-c.9".to_vec()), b"a_b-c.9".to_vec());
}

#[test]
fn announce_upload_mints_a_handle() {
    let mut s = Session::new(0);
    let (replies, cmds) = s.handle_message(
        1,
        ClientMessage::AnnounceUpload { filename: b"my file!.txt".to_vec() },
    );
    assert!(cmds.is_empty());
    assert_eq!(replies.len(), 1);
    match &replies[0] {
        ServerMessage::UploadReady { file_id, filename } => {
            assert_id_shape(file_id);
            // The acknowledgement echoes the name exactly as announced.
            assert_eq!(*filename, b"my file!.txt".to_vec());
        }
        _ => panic!("expected an upload acknowledgement"),
    }
    assert_eq!(s.uploads.len(), 1);
    assert_eq!(s.last_heartbeat, 1);
}

#[test]
fn file_job_consumes_its_upload() {
    let mut s = Session::new(0);
    let (replies, _) = s.handle_message(
        1,
        ClientMessage::AnnounceUpload { filename: b"my story!.txt".to_vec() },
    );
    let file_id = match &replies[0] {
        ServerMessage::UploadReady { file_id, .. } => file_id.clone(),
        _ => panic!("expected an upload acknowledgement"),
    };
    let (replies, cmds) = s.handle_message(
        2,
        ClientMessage::SubmitFileJob {
            file_id: file_id.clone(),
            filename: b"my story!.txt".to_vec(),
        },
    );
    assert_eq!(replies.len(), 1);
    assert_eq!(cmds.len(), 1);
    let job_id = match &replies[0] {
        ServerMessage::JobAccepted { job_id, file_id: echo, filename } => {
            assert_eq!(echo.as_ref(), Some(&file_id));
            // The reply echoes the announced name, not the storage name.
            assert_eq!(filename.as_ref(), Some(&b"my story!.txt".to_vec()));
            job_id.clone()
        }
        _ => panic!("expected the job to be accepted"),
    };
    assert_id_shape(&job_id);
    match &cmds[0] {
        SessionCommand::StartJob { job_id: started, source } => {
            assert_eq!(*started, job_id);
            match source {
                JobSource::UploadedFile { storage, filename } => {
                    // Only the on-disk storage name is sanitized.
                    let mut expected = file_id.clone();
                    expected.push(b'-');
                    expected.extend_from_slice(b"mystory.txt");
                    assert_eq!(*storage, expected);
                    assert_eq!(*filename, b"my story!.txt".to_vec());
                }
                _ => panic!("expected a file-backed job"),
            }
        }
        _ => panic!("expected a start command"),
    }
    // The handle is consumed: the same reference is refused now.
    assert!(s.uploads.is_empty());
    let (replies, cmds) = s.handle_message(
        3,
        ClientMessage::SubmitFileJob { file_id: file_id.clone(), filename: b"my story!.txt".to_vec() },
    );
    assert!(cmds.is_empty());
    match &replies[0] {
        ServerMessage::ErrorReport { job_id, file_id: missing, message } => {
            assert!(job_id.is_none());
            assert_eq!(missing.as_ref(), Some(&file_id));
            assert_eq!(
                *message,
                b"Unknown or already consumed upload reference.".to_vec()
            );
        }
        _ => panic!("expected an error report"),
    }
}

#[test]
fn unknown_upload_reference_is_refused() {
    let mut s = Session::new(0);
    let (replies, cmds) = s.handle_message(
        1,
        ClientMessage::SubmitFileJob {
            file_id: b"nope".to_vec(),
            filename: b"x.txt".to_vec(),
        },
    );
    assert!(cmds.is_empty());
    assert_eq!(replies.len(), 1);
    assert!(matches!(&replies[0], ServerMessage::ErrorReport { .. }));
}

#[test]
fn text_job_is_accepted_and_started() {
    let mut s = Session::new(0);
    let (replies, cmds) = s.handle_message(
        5,
        ClientMessage::SubmitTextJob { text: b"Hello.".to_vec() },
    );
    assert_eq!(replies.len(), 1);
    assert_eq!(cmds.len(), 1);
    let job_id = match &replies[0] {
        ServerMessage::JobAccepted { job_id, file_id, filename } => {
            assert!(file_id.is_none());
            assert!(filename.is_none());
            job_id.clone()
        }
        _ => panic!("expected the job to be accepted"),
    };
    match &cmds[0] {
        SessionCommand::StartJob { job_id: started, source } => {
            assert_eq!(*started, job_id);
            match source {
                JobSource::InlineText { text } => assert_eq!(*text, b"Hello.".to_vec()),
                _ => panic!("expected inline text"),
            }
        }
        _ => panic!("expected a start command"),
    }
}

#[test]
fn background_job_does_not_block_a_second_submission() {
    let mut s = Session::new(0);
    let (replies1, cmds1) =
        s.handle_message(1, ClientMessage::SubmitTextJob { text: b"first".to_vec() });
    // The first job is running in the background; the session accepts and
    // acknowledges an unrelated second job at once.
    let (replies2, cmds2) =
        s.handle_message(2, ClientMessage::SubmitTextJob { text: b"second".to_vec() });
    assert_eq!(s.phase, SessionPhase::Connected);
    let id1 = match &replies1[0] {
        ServerMessage::JobAccepted { job_id, .. } => job_id.clone(),
        _ => panic!("expected the first job to be accepted"),
    };
    let id2 = match &replies2[0] {
        ServerMessage::JobAccepted { job_id, .. } => job_id.clone(),
        _ => panic!("expected the second job to be accepted"),
    };
    assert_ne!(id1, id2);
    assert_eq!(cmds1.len(), 1);
    assert_eq!(cmds2.len(), 1);
}

#[test]
fn malformed_message_keeps_the_connection_open() {
    let mut s = Session::new(0);
    let (replies, cmds) = s.handle_message(
        1,
        ClientMessage::Malformed { detail: b"not valid JSON".to_vec() },
    );
    assert!(cmds.is_empty());
    match &replies[0] {
        ServerMessage::ErrorReport { job_id, file_id, message } => {
            assert!(job_id.is_none());
            assert!(file_id.is_none());
            assert_eq!(*message, b"not valid JSON".to_vec());
        }
        _ => panic!("expected an error report"),
    }
    assert_eq!(s.phase, SessionPhase::Connected);
    // The session still takes work afterwards.
    let (_, cmds) = s.handle_message(2, ClientMessage::SubmitTextJob { text: b"x".to_vec() });
    assert_eq!(cmds.len(), 1);
}

#[test]
fn closing_session_refuses_new_jobs() {
    let mut s = Session::new(0);
    let (replies, cmds) = s.handle_message(1, ClientMessage::Close);
    assert!(replies.is_empty());
    assert!(matches!(cmds[0], SessionCommand::CloseConnection));
    assert_eq!(s.phase, SessionPhase::Closing);
    let (replies, cmds) =
        s.handle_message(2, ClientMessage::SubmitTextJob { text: b"late".to_vec() });
    assert!(cmds.is_empty());
    match &replies[0] {
        ServerMessage::ErrorReport { message, .. } => {
            assert_eq!(
                *message,
                b"Connection is closing; no new jobs are accepted.".to_vec()
            );
        }
        _ => panic!("expected a refusal"),
    }
}

#[test]
fn heartbeat_timeout_boundaries() {
    let mut s = Session::new(1000);
    assert!(!s.heartbeat_expired(1000 + CLIENT_TIMEOUT_MS));
    assert!(s.heartbeat_expired(1000 + CLIENT_TIMEOUT_MS + 1));
    assert!(!s.heartbeat_expired(500));
    let _ = s.handle_message(20000, ClientMessage::Ping);
    assert!(!s.heartbeat_expired(20000 + CLIENT_TIMEOUT_MS));
}
