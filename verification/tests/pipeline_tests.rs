use std::collections::HashMap;
use tts_pipeline::pipeline::{
    FsEffect, JobAction, JobEvent, JobPipeline, JobStatus, Outcome,
};

/// A stub of the job's private directory.
struct StubFs {
    dir: bool,
    files: HashMap<Vec<u8>, Vec<u8>>,
}

impl StubFs {
    fn new() -> StubFs {
        StubFs { dir: false, files: HashMap::new() }
    }
}

/// The fragment bytes the stub synthesis tool writes for a chunk text:
/// the text in brackets, so order can be decoded from the artifact.
fn stub_fragment(text: &[u8]) -> Vec<u8> {
    let mut v = b"[".to_vec();
    v.extend_from_slice(text);
    v.push(b']');
    v
}

fn parse_manifest(manifest: &[u8]) -> Vec<Vec<u8>> {
    let mut names = Vec::new();
    for line in manifest.split(|b| *b == b'\n') {
        if line.is_empty() {
            continue;
        }
        assert!(line.starts_with(b"file '"));
        assert!(line.ends_with(b"'"));
        names.push(line[6..line.len() - 1].to_vec());
    }
    names
}

/// What the driver observed while running a job against the stub tools.
struct RunLog {
    synth_calls: Vec<(usize, Vec<u8>)>,
    concat_manifests: Vec<Vec<u8>>,
}

/// Drive a job to a terminal state against stub tools, mirroring every
/// recorded effect into the stub directory.  `fail_at` forces the
/// synthesis of that chunk index to fail; `concat_fails` forces the
/// concatenation to fail.
fn run_job(
    job: &mut JobPipeline,
    text: &[u8],
    fail_at: Option<usize>,
    concat_fails: bool,
    fs: &mut StubFs,
) -> RunLog {
    let mut log = RunLog { synth_calls: Vec::new(), concat_manifests: Vec::new() };
    let mut seen_effects = 0;
    job.start(text);
    loop {
        let action = match job.next_action() {
            Some(a) => a,
            None => break,
        };
        match action {
            JobAction::CreateDir => {
                job.step(Outcome::Success);
            }
            JobAction::Synthesize { index, fragment, args } => {
                assert_eq!(args.len(), 4);
                assert_eq!(args[0], b"-w".to_vec());
                assert_eq!(args[1], fragment);
                assert_eq!(args[2], b"--".to_vec());
                log.synth_calls.push((index, fragment.clone()));
                if fail_at == Some(index) {
                    job.step(Outcome::Failure { message: b"synthesis tool exited with 1".to_vec() });
                } else {
                    fs.files.insert(fragment, stub_fragment(&args[3]));
                    job.step(Outcome::Success);
                }
            }
            JobAction::Concatenate { list, manifest, args } => {
                log.concat_manifests.push(manifest.clone());
                if concat_fails {
                    job.step(Outcome::Failure { message: b"concatenation tool exited with 1".to_vec() });
                } else {
                    fs.files.insert(list.clone(), manifest.clone());
                    let mut merged = Vec::new();
                    for name in parse_manifest(&manifest) {
                        merged.extend_from_slice(fs.files.get(&name).expect("fragment missing"));
                    }
                    let artifact = args.last().unwrap().clone();
                    fs.files.insert(artifact, merged);
                    fs.files.remove(&list);
                    job.step(Outcome::Success);
                }
            }
        }
        while seen_effects < job.effects.len() {
            match job.effects[seen_effects] {
                FsEffect::DirCreated => {
                    fs.dir = true;
                }
                FsEffect::DirRemoved => {
                    fs.dir = false;
                    fs.files.clear();
                }
                FsEffect::FragmentRemoved { index } => {
                    let name = tts_pipeline::naming::fragment_name((index + 1) as u64);
                    fs.files.remove(&name);
                }
                // The stub concatenation handler writes and removes the
                // list file itself.
                FsEffect::FragmentWritten { .. }
                | FsEffect::ArtifactWritten
                | FsEffect::ListWritten
                | FsEffect::ListRemoved => {}
            }
            seen_effects += 1;
        }
    }
    log
}

fn permilles(job: &JobPipeline) -> Vec<u32> {
    job.events
        .iter()
        .filter_map(|e| match e {
            JobEvent::Progress { permille, .. } => Some(*permille),
            _ => None,
        })
        .collect()
}

fn error_messages(job: &JobPipeline) -> Vec<Vec<u8>> {
    job.events
        .iter()
        .filter_map(|e| match e {
            JobEvent::Error { message } => Some(message.clone()),
            _ => None,
        })
        .collect()
}

#[test]
fn empty_input_fails_before_any_external_call() {
    let mut fs = StubFs::new();
    let mut job = JobPipeline::new(b"job-0".to_vec(), None);
    let log = run_job(&mut job, b"  \n\t\n", None, false, &mut fs);
    assert_eq!(job.status, JobStatus::Failed);
    assert!(job.effects.is_empty());
    assert!(log.synth_calls.is_empty());
    assert!(log.concat_manifests.is_empty());
    assert!(!fs.dir);
    assert!(fs.files.is_empty());
    assert_eq!(
        error_messages(&job),
        vec![b"No text content found to convert.".to_vec()]
    );
    assert!(job.next_action().is_none());
}

#[test]
fn successful_job_emits_ordered_progress() {
    let mut fs = StubFs::new();
    let mut job = JobPipeline::new(b"job-1".to_vec(), None);
    run_job(&mut job, b"a\nb\nc\n", None, false, &mut fs);
    assert_eq!(job.status, JobStatus::Complete);
    let ps = permilles(&job);
    assert_eq!(ps, vec![300, 600, 900, 950, 1000]);
    for w in ps.windows(2) {
        assert!(w[0] <= w[1]);
    }
    assert!(ps.iter().all(|p| *p <= 1000));
    assert_eq!(ps.iter().filter(|p| **p == 1000).count(), 1);
    assert_eq!(*ps.last().unwrap(), 1000);
}

#[test]
fn complete_job_retains_only_the_artifact() {
    let mut fs = StubFs::new();
    let mut job = JobPipeline::new(b"job-2".to_vec(), Some(&b"story".to_vec()));
    run_job(&mut job, b"a\nb\n", None, false, &mut fs);
    assert_eq!(job.status, JobStatus::Complete);
    assert!(fs.dir);
    assert_eq!(fs.files.len(), 1);
    assert!(fs.files.contains_key(&b"story.wav".to_vec()));
}

#[test]
fn mid_sequence_failure_aborts_without_concatenation() {
    let mut fs = StubFs::new();
    let mut job = JobPipeline::new(b"job-3".to_vec(), None);
    let log = run_job(&mut job, b"a\nb\nc\n", Some(1), false, &mut fs);
    assert_eq!(job.status, JobStatus::Failed);
    // The failing chunk was the last one attempted and nothing was merged.
    assert_eq!(log.synth_calls.len(), 2);
    assert!(log.concat_manifests.is_empty());
    // The job directory is gone, fragments and all; no artifact exists.
    assert!(!fs.dir);
    assert!(fs.files.is_empty());
    assert_eq!(job.effects.last(), Some(&FsEffect::DirRemoved));
    assert_eq!(
        error_messages(&job),
        vec![b"synthesis tool exited with 1".to_vec()]
    );
    assert_eq!(permilles(&job), vec![300]);
    assert!(job.next_action().is_none());
}

#[test]
fn directory_failure_fails_the_job() {
    let mut job = JobPipeline::new(b"job-4".to_vec(), None);
    job.start(b"a\n");
    assert!(matches!(job.next_action(), Some(JobAction::CreateDir)));
    job.step(Outcome::Failure { message: b"cannot create directory".to_vec() });
    assert_eq!(job.status, JobStatus::Failed);
    assert!(job.effects.is_empty());
    assert_eq!(error_messages(&job), vec![b"cannot create directory".to_vec()]);
}

#[test]
fn concatenation_failure_removes_the_directory() {
    let mut fs = StubFs::new();
    let mut job = JobPipeline::new(b"job-5".to_vec(), None);
    run_job(&mut job, b"a\nb\n", None, true, &mut fs);
    assert_eq!(job.status, JobStatus::Failed);
    assert!(!fs.dir);
    assert!(fs.files.is_empty());
    assert_eq!(job.effects.last(), Some(&FsEffect::DirRemoved));
    assert_eq!(
        error_messages(&job),
        vec![b"concatenation tool exited with 1".to_vec()]
    );
}

#[test]
fn end_to_end_hello_world() {
    let mut fs = StubFs::new();
    let mut job = JobPipeline::new(b"job-6".to_vec(), Some(&b"greeting".to_vec()));
    let log = run_job(&mut job, b"Hello.\n\nWorld.\n", None, false, &mut fs);
    assert_eq!(job.status, JobStatus::Complete);
    assert_eq!(job.chunks, vec![b"Hello.".to_vec(), b"World.".to_vec()]);
    // Two synthesis calls, in chunk order.
    assert_eq!(
        log.synth_calls,
        vec![(0, b"chunk_1.wav".to_vec()), (1, b"chunk_2.wav".to_vec())]
    );
    // One concatenation call, with a two-entry manifest in index order.
    assert_eq!(
        log.concat_manifests,
        vec![b"file 'chunk_1.wav'\nfile 'chunk_2.wav'\n".to_vec()]
    );
    // One completion event, naming the artifact after the requested name.
    let completes: Vec<(Vec<u8>, Vec<u8>)> = job
        .events
        .iter()
        .filter_map(|e| match e {
            JobEvent::Complete { artifact, locator } => {
                Some((artifact.clone(), locator.clone()))
            }
            _ => None,
        })
        .collect();
    assert_eq!(
        completes,
        vec![(
            b"greeting.wav".to_vec(),
            b"/download/audio/job-6/greeting.wav".to_vec()
        )]
    );
}

#[test]
fn stub_round_trip_recovers_chunk_order() {
    let mut fs = StubFs::new();
    let mut job = JobPipeline::new(b"job-7".to_vec(), Some(&b"merged".to_vec()));
    run_job(&mut job, b"Hello.\n\nWorld.\n", None, false, &mut fs);
    assert_eq!(job.status, JobStatus::Complete);
    let artifact = fs.files.get(&b"merged.wav".to_vec()).expect("artifact missing");
    // The merged artifact is exactly the fragments in index order, so its
    // length is the sum of the fragment lengths.
    let expected_fragments: Vec<Vec<u8>> =
        job.chunks.iter().map(|c| stub_fragment(c)).collect();
    let total: usize = expected_fragments.iter().map(|f| f.len()).sum();
    assert_eq!(artifact.len(), total);
    assert_eq!(*artifact, expected_fragments.concat());
    // Decoding the markers recovers the original chunk order.
    let decoded: Vec<Vec<u8>> = artifact
        .split(|b| *b == b'[')
        .filter(|p| !p.is_empty())
        .map(|p| p.strip_suffix(b"]").unwrap().to_vec())
        .collect();
    assert_eq!(decoded, job.chunks);
}

#[test]
fn fresh_job_waits_for_its_text() {
    let job = JobPipeline::new(b"job-9".to_vec(), None);
    assert_eq!(job.status, JobStatus::Created);
    assert!(job.next_action().is_none());
    assert!(job.events.is_empty());
    assert!(job.effects.is_empty());
    assert_eq!(job.artifact, b"output_job-9.wav".to_vec());
}

#[test]
fn single_chunk_job_progress() {
    let mut fs = StubFs::new();
    let mut job = JobPipeline::new(b"job-10".to_vec(), None);
    let log = run_job(&mut job, b"only line", None, false, &mut fs);
    assert_eq!(job.status, JobStatus::Complete);
    assert_eq!(permilles(&job), vec![900, 950, 1000]);
    assert_eq!(log.concat_manifests, vec![b"file 'chunk_1.wav'\n".to_vec()]);
}

#[test]
fn status_is_terminal_once_failed() {
    let mut job = JobPipeline::new(b"job-8".to_vec(), None);
    job.start(b"\n");
    assert_eq!(job.status, JobStatus::Failed);
    assert!(job.next_action().is_none());
}
