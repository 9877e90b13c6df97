//! The snapshot executor's per-iteration state machine.
//!
//! One executor drives one emulator instance: the first guest frame makes
//! it take the snapshot, and every iteration afterwards is send-input,
//! await-signal-or-timeout, classify, post-process coverage, restore the
//! snapshot. The I/O sits with the caller; this module decides what each
//! exchange amounts to and which monitor command to issue, and accounts for
//! every `savevm` and `loadvm` issued.

use crate::monitor::{loadvm_command, savevm_command, spec_loadvm_line, spec_savevm_line};
use crate::text::{contains_bytes, spec_contains_bytes};
use vstd::prelude::*;

verus! {

/// The sanitizer banner of the kernel address sanitizer.
pub open spec fn spec_kasan_banner() -> Seq<u8> {
    seq!['K' as u8, 'A' as u8, 'S' as u8, 'A' as u8, 'N' as u8]
}

/// The sanitizer banner of the kernel fence checker.
pub open spec fn spec_kfence_banner() -> Seq<u8> {
    seq!['K' as u8, 'F' as u8, 'E' as u8, 'N' as u8, 'C' as u8, 'E' as u8]
}

fn kasan_banner() -> (v: Vec<u8>)
    ensures
        v@ == spec_kasan_banner(),
{
    let mut v: Vec<u8> = Vec::new();
    v.push('K' as u8);
    v.push('A' as u8);
    v.push('S' as u8);
    v.push('A' as u8);
    v.push('N' as u8);
    proof {
        assert(v@ =~= spec_kasan_banner());
    }
    v
}

fn kfence_banner() -> (v: Vec<u8>)
    ensures
        v@ == spec_kfence_banner(),
{
    let mut v: Vec<u8> = Vec::new();
    v.push('K' as u8);
    v.push('F' as u8);
    v.push('E' as u8);
    v.push('N' as u8);
    v.push('C' as u8);
    v.push('E' as u8);
    proof {
        assert(v@ =~= spec_kfence_banner());
    }
    v
}

/// How one execution of an input came out.
#[derive(PartialEq, Eq, Structural, Clone, Copy, Debug)]
pub enum Outcome {
    /// No signal of failure.
    Clean,
    /// A sanitizer banner was observed on either channel.
    Crash,
    /// No completion signal arrived within the configured deadline.
    Timeout,
}

/// A completion frame signals a crash when it carries either sanitizer
/// banner.
pub open spec fn spec_signal_is_crash(payload: Seq<u8>) -> bool {
    spec_contains_bytes(payload, spec_kasan_banner()) || spec_contains_bytes(
        payload,
        spec_kfence_banner(),
    )
}

/// What the guest's completion signal amounts to: no signal within the
/// deadline is a timeout, a payload carrying a sanitizer banner is a crash,
/// anything else is a clean run.
pub open spec fn spec_classify_signal(signal: Option<Seq<u8>>) -> Outcome {
    match signal {
        Option::None => Outcome::Timeout,
        Option::Some(payload) => if spec_signal_is_crash(payload) {
            Outcome::Crash
        } else {
            Outcome::Clean
        },
    }
}

/// Classify the guest's completion signal.
pub fn classify_signal(signal: &Option<Vec<u8>>) -> (outcome: Outcome)
    ensures
        outcome == spec_classify_signal(match signal {
            Option::Some(p) => Option::Some(p@),
            Option::None => Option::None,
        }),
{
    match signal {
        Option::None => Outcome::Timeout,
        Option::Some(payload) => {
            let kasan = kasan_banner();
            let kfence = kfence_banner();
            if contains_bytes(payload.as_slice(), kasan.as_slice()) || contains_bytes(
                payload.as_slice(),
                kfence.as_slice(),
            ) {
                Outcome::Crash
            } else {
                Outcome::Clean
            }
        },
    }
}

/// Any stderr line carrying the address-sanitizer banner upgrades the
/// outcome to a crash.
pub open spec fn spec_stderr_upgrades(lines: Seq<Seq<u8>>) -> bool {
    exists|i: int| 0 <= i < lines.len() && spec_contains_bytes(lines[i], spec_kasan_banner())
}

/// Upgrade an outcome after draining the emulator's stderr: a line carrying
/// the address-sanitizer banner makes the outcome a crash, anything else
/// leaves it alone.
pub fn upgrade_for_stderr(outcome: Outcome, lines: &Vec<Vec<u8>>) -> (upgraded: Outcome)
    ensures
        upgraded == if spec_stderr_upgrades(lines@.map_values(|l: Vec<u8>| l@)) {
            Outcome::Crash
        } else {
            outcome
        },
{
    let ghost views = lines@.map_values(|l: Vec<u8>| l@);
    let kasan = kasan_banner();
    let n = lines.len();
    let mut i: usize = 0;
    while i < n
        invariant
            i <= n,
            n == lines@.len(),
            views == lines@.map_values(|l: Vec<u8>| l@),
            kasan@ == spec_kasan_banner(),
            forall|k: int| 0 <= k < i ==> !spec_contains_bytes(views[k], spec_kasan_banner()),
        decreases n - i,
    {
        if contains_bytes(lines[i].as_slice(), kasan.as_slice()) {
            proof {
                assert(views[i as int] == lines@[i as int]@);
            }
            return Outcome::Crash;
        }
        i = i + 1;
    }
    outcome
}

/// Where an instance stands in its lifecycle.
#[derive(PartialEq, Eq, Structural, Clone, Copy, Debug)]
pub enum ExecPhase {
    /// Before the first guest handshake.
    Fresh,
    /// A saved state exists under the snapshot tag.
    Snapped,
    /// One iteration is in flight.
    Running,
    /// Construction or a fatal I/O error occurred.
    Dead,
}

/// The executor's abstract state: its phase and how many snapshot commands
/// it has issued.
pub struct ExecutorModel {
    pub phase: ExecPhase,
    pub saves: int,
    pub loads: int,
}

/// The abstract effect of `n` completed iterations: each one restores the
/// snapshot exactly once and saves nothing.
pub open spec fn spec_iterate(m: ExecutorModel, n: nat) -> ExecutorModel
    decreases n,
{
    if n == 0 {
        m
    } else {
        let prev = spec_iterate(m, (n - 1) as nat);
        ExecutorModel { phase: ExecPhase::Snapped, saves: prev.saves, loads: prev.loads + 1 }
    }
}

/// After `n` iterations the executor has issued exactly `n` more `loadvm`
/// and not one more `savevm`.
pub proof fn lemma_counts_after_iterations(m: ExecutorModel, n: nat)
    ensures
        spec_iterate(m, n).saves == m.saves,
        spec_iterate(m, n).loads == m.loads + n,
    decreases n,
{
    if n > 0 {
        lemma_counts_after_iterations(m, (n - 1) as nat);
    }
}


/// What the feedback pipeline does with one executed input: admitted to
/// the corpus, recorded as an objective, or neither.
#[derive(PartialEq, Eq, Structural, Clone, Copy, Debug)]
pub enum CorpusAction {
    /// Coverage-advancing and non-failing: the corpus takes it.
    AddToCorpus,
    /// A crash: the objectives take it.
    RecordObjective,
    /// Nothing new, or a timeout: dropped.
    Discard,
}

/// The admission rule: a crash is an objective; a clean run that advanced
/// coverage joins the corpus; everything else — a clean run without
/// novelty, or a timeout — is dropped.
pub open spec fn spec_corpus_action(outcome: Outcome, any_novelty: bool) -> CorpusAction {
    match outcome {
        Outcome::Crash => CorpusAction::RecordObjective,
        Outcome::Clean => if any_novelty {
            CorpusAction::AddToCorpus
        } else {
            CorpusAction::Discard
        },
        Outcome::Timeout => CorpusAction::Discard,
    }
}

/// Decide what the feedback pipeline does with one executed input, from
/// its outcome and whether its coverage scan reported any novelty.
pub fn corpus_action(outcome: Outcome, any_novelty: bool) -> (action: CorpusAction)
    ensures
        action == spec_corpus_action(outcome, any_novelty),
{
    match outcome {
        Outcome::Crash => CorpusAction::RecordObjective,
        Outcome::Clean => if any_novelty {
            CorpusAction::AddToCorpus
        } else {
            CorpusAction::Discard
        },
        Outcome::Timeout => CorpusAction::Discard,
    }
}

/// The timeout law: when no completion signal arrives within the deadline
/// and the drained stderr carries no sanitizer line, the iteration's
/// outcome is a timeout, and the iteration is still accounted in full —
/// the snapshot is restored exactly once, nothing is saved, and the
/// executor stands at the snapshot again. (The coverage scan is
/// independent of the outcome: `post_exec` takes whatever the guest wrote
/// and has no precondition on how the run ended.)
pub proof fn lemma_timeout_still_restores(m: ExecutorModel, stderr_lines: Seq<Seq<u8>>)
    requires
        !spec_stderr_upgrades(stderr_lines),
    ensures
        (if spec_stderr_upgrades(stderr_lines) {
            Outcome::Crash
        } else {
            spec_classify_signal(Option::None)
        }) == Outcome::Timeout,
        spec_iterate(m, 1).loads == m.loads + 1,
        spec_iterate(m, 1).saves == m.saves,
        spec_iterate(m, 1).phase == ExecPhase::Snapped,
{
    lemma_counts_after_iterations(m, 1);
}

/// Drives one emulator instance through snapshot and restore, counting
/// every monitor command it asks the caller to issue.
pub struct QemuSnapshotExecutor {
    name: String,
    snapshot_tag: String,
    timeout_millis: u64,
    phase: ExecPhase,
    saves: u64,
    loads: u64,
    executions: u64,
}

impl QemuSnapshotExecutor {
    /// The executor's abstract state.
    pub closed spec fn model(&self) -> ExecutorModel {
        ExecutorModel { phase: self.phase, saves: self.saves as int, loads: self.loads as int }
    }

    pub closed spec fn spec_name(&self) -> Seq<char> {
        self.name@
    }

    pub closed spec fn spec_tag(&self) -> Seq<char> {
        self.snapshot_tag@
    }

    pub closed spec fn spec_timeout_millis(&self) -> u64 {
        self.timeout_millis
    }

    pub closed spec fn spec_executions(&self) -> int {
        self.executions as int
    }

    /// A fresh executor: no snapshot taken, nothing issued yet.
    pub fn new(snapshot_tag: String, name: &str, timeout_millis: u64) -> (e: Self)
        ensures
            e.model() == (ExecutorModel { phase: ExecPhase::Fresh, saves: 0int, loads: 0int }),
            e.spec_tag() == snapshot_tag@,
            e.spec_name() == name@,
            e.spec_timeout_millis() == timeout_millis,
            e.spec_executions() == 0,
    {
        QemuSnapshotExecutor {
            name: name.to_owned(),
            snapshot_tag,
            timeout_millis,
            phase: ExecPhase::Fresh,
            saves: 0,
            loads: 0,
            executions: 0,
        }
    }

    /// Where the executor stands in its lifecycle.
    pub fn phase(&self) -> (r: ExecPhase)
        ensures
            r == self.model().phase,
    {
        self.phase
    }

    /// The executor's name, for the outer engine.
    pub fn name(&self) -> (r: &String)
        ensures
            r@ == self.spec_name(),
    {
        &self.name
    }

    /// The per-iteration deadline on the guest's completion signal, in
    /// milliseconds.
    pub fn timeout_millis(&self) -> (r: u64)
        ensures
            r == self.spec_timeout_millis(),
    {
        self.timeout_millis
    }

    /// How many `savevm` commands this executor has asked for.
    pub fn saves(&self) -> (r: u64)
        ensures
            r as int == self.model().saves,
    {
        self.saves
    }

    /// How many `loadvm` commands this executor has asked for.
    pub fn loads(&self) -> (r: u64)
        ensures
            r as int == self.model().loads,
    {
        self.loads
    }

    /// How many iterations have completed.
    pub fn executions(&self) -> (r: u64)
        ensures
            r as int == self.spec_executions(),
    {
        self.executions
    }

    /// The guest announced readiness: take the snapshot. Returns the one
    /// `savevm` line the caller must issue on the monitor.
    pub fn on_guest_ready(&mut self) -> (cmd: String)
        requires
            old(self).model().phase == ExecPhase::Fresh,
            old(self).model().saves < u64::MAX,
        ensures
            cmd@ == spec_savevm_line(old(self).spec_tag()),
            final(self).model() == (ExecutorModel {
                phase: ExecPhase::Snapped,
                saves: old(self).model().saves + 1,
                loads: old(self).model().loads,
            }),
            final(self).spec_tag() == old(self).spec_tag(),
            final(self).spec_name() == old(self).spec_name(),
            final(self).spec_timeout_millis() == old(self).spec_timeout_millis(),
            final(self).spec_executions() == old(self).spec_executions(),
    {
        self.phase = ExecPhase::Snapped;
        self.saves = self.saves + 1;
        savevm_command(self.snapshot_tag.as_str())
    }

    /// An input is about to be sent on the guest channel: one iteration is
    /// now in flight.
    pub fn begin_iteration(&mut self)
        requires
            old(self).model().phase == ExecPhase::Snapped,
        ensures
            final(self).model() == (ExecutorModel {
                phase: ExecPhase::Running,
                saves: old(self).model().saves,
                loads: old(self).model().loads,
            }),
            final(self).spec_tag() == old(self).spec_tag(),
            final(self).spec_name() == old(self).spec_name(),
            final(self).spec_timeout_millis() == old(self).spec_timeout_millis(),
            final(self).spec_executions() == old(self).spec_executions(),
    {
        self.phase = ExecPhase::Running;
    }

    /// The iteration's completion signal (or its absence) and the drained
    /// stderr lines are in: classify the outcome and return it with the one
    /// `loadvm` line the caller must issue on the monitor, whatever the
    /// outcome was.
    pub fn finish_iteration(&mut self, signal: &Option<Vec<u8>>, stderr_lines: &Vec<Vec<u8>>) -> (r:
        (Outcome, String))
        requires
            old(self).model().phase == ExecPhase::Running,
            old(self).model().loads < u64::MAX,
            old(self).spec_executions() < u64::MAX,
        ensures
            r.0 == if spec_stderr_upgrades(stderr_lines@.map_values(|l: Vec<u8>| l@)) {
                Outcome::Crash
            } else {
                spec_classify_signal(match signal {
                    Option::Some(p) => Option::Some(p@),
                    Option::None => Option::None,
                })
            },
            r.1@ == spec_loadvm_line(old(self).spec_tag()),
            final(self).model() == spec_iterate(
                ExecutorModel {
                    phase: ExecPhase::Snapped,
                    saves: old(self).model().saves,
                    loads: old(self).model().loads,
                },
                1,
            ),
            final(self).spec_tag() == old(self).spec_tag(),
            final(self).spec_name() == old(self).spec_name(),
            final(self).spec_timeout_millis() == old(self).spec_timeout_millis(),
            final(self).spec_executions() == old(self).spec_executions() + 1,
    {
        proof {
            let m0 = ExecutorModel {
                phase: ExecPhase::Snapped,
                saves: old(self).model().saves,
                loads: old(self).model().loads,
            };
            assert(spec_iterate(m0, 0) == m0);
        }
        let outcome = classify_signal(signal);
        let outcome = upgrade_for_stderr(outcome, stderr_lines);
        self.executions = self.executions + 1;
        self.loads = self.loads + 1;
        self.phase = ExecPhase::Snapped;
        (outcome, loadvm_command(self.snapshot_tag.as_str()))
    }

    /// A fatal transport or monitor fault: the instance is dead.
    pub fn mark_dead(&mut self)
        ensures
            final(self).model() == (ExecutorModel {
                phase: ExecPhase::Dead,
                saves: old(self).model().saves,
                loads: old(self).model().loads,
            }),
            final(self).spec_tag() == old(self).spec_tag(),
            final(self).spec_name() == old(self).spec_name(),
            final(self).spec_timeout_millis() == old(self).spec_timeout_millis(),
            final(self).spec_executions() == old(self).spec_executions(),
    {
        self.phase = ExecPhase::Dead;
    }
}

} // verus!
