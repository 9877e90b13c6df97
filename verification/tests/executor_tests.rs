use kernel_fuzz::coverage::KcovMapObserver;
use kernel_fuzz::executor::{classify_signal, corpus_action, upgrade_for_stderr, CorpusAction,
    Outcome, QemuSnapshotExecutor};
use kernel_fuzz::framing::{encode_frame, ReadEvent, RecvOutcome, recv_frame};

#[test]
fn clean_run_issues_savevm_then_loadvm() {
    let mut executor = QemuSnapshotExecutor::new("start".to_string(), "HT-KF", 5000);
    let mut observer = KcovMapObserver::new("kcov", 8);

    // The guest announces readiness with a non-empty frame.
    let readiness = recv_frame(vec![ReadEvent::Data(encode_frame(&vec![0x01u8]))]);
    match readiness {
        RecvOutcome::Frame(frame) => assert_eq!(frame, vec![0x01u8]),
        _ => panic!("expected the readiness frame"),
    }
    let savevm = executor.on_guest_ready();
    assert_eq!(savevm.as_str(), "savevm start\n");

    executor.begin_iteration();
    // The guest wrote word 7 at map index 3, then sent its completion frame.
    let mut region = vec![0u64; 8];
    region[3] = 7;
    let signal = Some(b"done\n".to_vec());
    let (outcome, loadvm) = executor.finish_iteration(&signal, &Vec::new());
    let novelties = observer.post_exec(&region);

    assert_eq!(outcome, Outcome::Clean);
    assert_eq!(novelties, vec![3usize]);
    assert_eq!(loadvm.as_str(), "loadvm start\n");
    assert_eq!(executor.saves(), 1);
    assert_eq!(executor.loads(), 1);
}

#[test]
fn kasan_banner_in_completion_frame_is_a_crash() {
    let mut executor = QemuSnapshotExecutor::new("start".to_string(), "HT-KF", 5000);
    executor.on_guest_ready();
    executor.begin_iteration();
    let signal = Some(b"... BUG: KASAN: slab-out-of-bounds ...".to_vec());
    let (outcome, loadvm) = executor.finish_iteration(&signal, &Vec::new());
    assert_eq!(outcome, Outcome::Crash);
    assert_eq!(loadvm.as_str(), "loadvm start\n");
}

#[test]
fn kfence_banner_is_a_crash_too() {
    let signal = Some(b"BUG: KFENCE: out-of-bounds read".to_vec());
    assert_eq!(classify_signal(&signal), Outcome::Crash);
}

#[test]
fn stderr_line_with_kasan_upgrades_the_outcome() {
    let mut executor = QemuSnapshotExecutor::new("start".to_string(), "HT-KF", 5000);
    executor.on_guest_ready();
    executor.begin_iteration();
    let signal = Some(b"ok".to_vec());
    let stderr_lines = vec![b"[   12.3] BUG: KASAN: use-after-free".to_vec()];
    let (outcome, _) = executor.finish_iteration(&signal, &stderr_lines);
    assert_eq!(outcome, Outcome::Crash);
}

#[test]
fn harmless_stderr_leaves_the_outcome_alone() {
    let lines = vec![b"booting".to_vec(), b"clean".to_vec()];
    assert_eq!(upgrade_for_stderr(Outcome::Clean, &lines), Outcome::Clean);
    assert_eq!(upgrade_for_stderr(Outcome::Timeout, &lines), Outcome::Timeout);
}

#[test]
fn timeout_still_post_processes_and_restores() {
    let mut executor = QemuSnapshotExecutor::new("start".to_string(), "HT-KF", 5000);
    let mut observer = KcovMapObserver::new("kcov", 4);
    executor.on_guest_ready();
    executor.begin_iteration();
    // No completion signal arrived within the deadline.
    let mut region = vec![0u64; 4];
    region[0] = 2;
    let (outcome, loadvm) = executor.finish_iteration(&None, &Vec::new());
    let novelties = observer.post_exec(&region);
    assert_eq!(outcome, Outcome::Timeout);
    assert_eq!(novelties, vec![0usize]);
    assert_eq!(loadvm.as_str(), "loadvm start\n");
    assert_eq!(executor.loads(), 1);
}

#[test]
fn n_iterations_issue_n_loadvm_and_one_savevm() {
    let mut executor = QemuSnapshotExecutor::new("start".to_string(), "HT-KF", 5000);
    executor.on_guest_ready();
    for i in 0..5u64 {
        executor.begin_iteration();
        let (_, loadvm) = executor.finish_iteration(&Some(b"done".to_vec()), &Vec::new());
        assert_eq!(loadvm.as_str(), "loadvm start\n");
        assert_eq!(executor.loads(), i + 1);
        assert_eq!(executor.saves(), 1);
    }
    assert_eq!(executor.executions(), 5);
    assert_eq!(executor.saves(), 1);
    assert_eq!(executor.loads(), 5);
}

#[test]
fn classification_of_plain_and_missing_signals() {
    assert_eq!(classify_signal(&None), Outcome::Timeout);
    assert_eq!(classify_signal(&Some(b"Restore me!".to_vec())), Outcome::Clean);
    assert_eq!(classify_signal(&Some(Vec::new())), Outcome::Clean);
}

#[test]
fn admission_takes_only_coverage_advancing_clean_runs() {
    // A crash is an objective whether or not it advanced coverage.
    assert_eq!(corpus_action(Outcome::Crash, true), CorpusAction::RecordObjective);
    assert_eq!(corpus_action(Outcome::Crash, false), CorpusAction::RecordObjective);
    // A clean run joins the corpus only with novelty.
    assert_eq!(corpus_action(Outcome::Clean, true), CorpusAction::AddToCorpus);
    assert_eq!(corpus_action(Outcome::Clean, false), CorpusAction::Discard);
    // A timeout is never admitted.
    assert_eq!(corpus_action(Outcome::Timeout, true), CorpusAction::Discard);
    assert_eq!(corpus_action(Outcome::Timeout, false), CorpusAction::Discard);
}
