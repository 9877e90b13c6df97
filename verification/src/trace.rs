//! Scanner for the PC-trace shape of the coverage map, and symbol
//! resolution for trace-only runs.
//!
//! The guest writes a stack-bounded frame trace from the high end of the
//! map downward: `0xDEADBEEF` marks a frame entry, `0xBEEFDEAD` a frame
//! exit, and non-sentinel, non-zero words between balanced sentinels are
//! program counters. The scanner walks from the high end toward the low
//! end keeping a frame depth; if the depth would drop below zero the pass
//! is abandoned and restarted with the starting depth raised by one, which
//! tolerates traces whose outermost frame exit was never recorded.

use crate::text::{spec_decimal, spec_hex, u64_to_decimal, u64_to_hex};
use vstd::prelude::*;

verus! {

/// Sentinel marking a frame entry.
pub const FRAME_ENTRY: u64 = 0xdeadbeef;

/// Sentinel marking a frame exit.
pub const FRAME_EXIT: u64 = 0xbeefdead;

/// Outcome of one scanning pass.
pub enum SpecPass {
    /// The frame depth dropped below zero.
    Unbalanced,
    /// The pass completed; these are the PCs, in high-to-low order.
    Pcs(Seq<u64>),
}

/// One scanning pass over `words`, from the high end toward the low end,
/// having already visited `p` words, at frame depth `depth`.
pub open spec fn spec_pass(words: Seq<u64>, depth: int, p: int) -> SpecPass
    decreases words.len() - p,
{
    if p < 0 || p >= words.len() {
        SpecPass::Pcs(Seq::empty())
    } else {
        let w = words[words.len() - 1 - p];
        if w == FRAME_ENTRY {
            spec_pass(words, depth + 1, p + 1)
        } else if w == FRAME_EXIT {
            if depth <= 0 {
                SpecPass::Unbalanced
            } else {
                spec_pass(words, depth - 1, p + 1)
            }
        } else if depth > 0 && w != 0 {
            match spec_pass(words, depth, p + 1) {
                SpecPass::Unbalanced => SpecPass::Unbalanced,
                SpecPass::Pcs(rest) => SpecPass::Pcs(seq![w] + rest),
            }
        } else {
            spec_pass(words, depth, p + 1)
        }
    }
}

/// Number of frame-exit sentinels among the words not yet visited after
/// `p` steps.
pub open spec fn spec_exits_from(words: Seq<u64>, p: int) -> int
    decreases words.len() - p,
{
    if p < 0 || p >= words.len() {
        0
    } else {
        spec_exits_from(words, p + 1) + if words[words.len() - 1 - p] == FRAME_EXIT {
            1int
        } else {
            0int
        }
    }
}

/// A pass can only come out unbalanced if its starting depth is smaller
/// than the number of frame-exit sentinels it has yet to visit.
proof fn lemma_unbalanced_needs_exits(words: Seq<u64>, depth: int, p: int)
    requires
        0 <= p <= words.len(),
        spec_pass(words, depth, p) is Unbalanced,
    ensures
        depth < spec_exits_from(words, p),
    decreases words.len() - p,
{
    if p < words.len() {
        let w = words[words.len() - 1 - p];
        if w == FRAME_ENTRY {
            lemma_unbalanced_needs_exits(words, depth + 1, p + 1);
        } else if w == FRAME_EXIT {
            if depth > 0 {
                lemma_unbalanced_needs_exits(words, depth - 1, p + 1);
            } else {
                lemma_exits_nonneg(words, p + 1);
            }
        } else {
            lemma_unbalanced_needs_exits(words, depth, p + 1);
        }
    }
}

proof fn lemma_exits_nonneg(words: Seq<u64>, p: int)
    ensures
        spec_exits_from(words, p) >= 0,
    decreases words.len() - p,
{
    if 0 <= p < words.len() {
        lemma_exits_nonneg(words, p + 1);
    }
}

proof fn lemma_exits_bounded(words: Seq<u64>, p: int)
    requires
        0 <= p <= words.len(),
    ensures
        spec_exits_from(words, p) <= words.len() - p,
    decreases words.len() - p,
{
    if p < words.len() {
        lemma_exits_bounded(words, p + 1);
    }
}

/// Scan the PC-trace shape of the map.
///
/// Returns the emitted PCs in high-to-low order together with the starting
/// depth that made the pass balance: the least depth whose pass completes,
/// every smaller one having come out unbalanced.
pub fn scan_pc_trace(words: &Vec<u64>) -> (r: (Vec<u64>, usize))
    requires
        words@.len() < usize::MAX / 2,
    ensures
        spec_pass(words@, r.1 as int, 0) == SpecPass::Pcs(r.0@),
        forall|s: int| 0 <= s < r.1 ==> spec_pass(words@, s, 0) is Unbalanced,
{
    let mut start: usize = 0;
    loop
        invariant
            start <= words@.len(),
            words@.len() < usize::MAX / 2,
            forall|s: int| 0 <= s < start ==> spec_pass(words@, s, 0) is Unbalanced,
        decreases words@.len() - start,
    {
        match scan_pass(words, start) {
            Some(pcs) => {
                return (pcs, start);
            },
            None => {
                proof {
                    lemma_unbalanced_needs_exits(words@, start as int, 0);
                    lemma_exits_bounded(words@, 0);
                }
                start = start + 1;
            },
        }
    }
}

/// One pass at a fixed starting depth; `None` if it comes out unbalanced.
fn scan_pass(words: &Vec<u64>, start: usize) -> (r: Option<Vec<u64>>)
    requires
        start <= words@.len(),
        words@.len() < usize::MAX / 2,
    ensures
        match r {
            Some(pcs) => spec_pass(words@, start as int, 0) == SpecPass::Pcs(pcs@),
            None => spec_pass(words@, start as int, 0) is Unbalanced,
        },
{
    let n = words.len();
    let mut depth: usize = start;
    let mut pcs: Vec<u64> = Vec::new();
    let mut p: usize = 0;
    while p < n
        invariant
            p <= n,
            n == words@.len(),
            n < usize::MAX / 2,
            start <= n,
            depth <= start + p,
            spec_pass(words@, start as int, 0) == (match spec_pass(
                words@,
                depth as int,
                p as int,
            ) {
                SpecPass::Unbalanced => SpecPass::Unbalanced,
                SpecPass::Pcs(rest) => SpecPass::Pcs(pcs@ + rest),
            }),
        decreases n - p,
    {
        let w = words[n - 1 - p];
        if w == FRAME_ENTRY {
            depth = depth + 1;
        } else if w == FRAME_EXIT {
            if depth == 0 {
                return None;
            }
            depth = depth - 1;
        } else if depth > 0 && w != 0 {
            let ghost before = pcs@;
            pcs.push(w);
            proof {
                let next = spec_pass(words@, depth as int, p + 1);
                if next is Pcs {
                    assert(before + (seq![w] + next->Pcs_0) =~= pcs@ + next->Pcs_0);
                }
            }
        }
        p = p + 1;
    }
    proof {
        assert(pcs@ + Seq::<u64>::empty() =~= pcs@);
    }
    Some(pcs)
}

/// One entry of the symbols table: a program counter and the source
/// position it resolves to.
pub struct SymbolEntry {
    pub pc: u64,
    pub file: String,
    pub function_name: String,
    pub line: u64,
}

/// A lookup from PC to `(file, function, line)`, used in trace-only mode.
pub struct Symbols {
    pub entries: Vec<SymbolEntry>,
}

impl Symbols {
    /// The index of the first entry for `pc`, if any.
    pub open spec fn spec_find(&self, pc: u64, n: int) -> Option<int>
        decreases n,
    {
        if n <= 0 {
            None
        } else {
            match self.spec_find(pc, n - 1) {
                Some(i) => Some(i),
                None => if self.entries@[n - 1].pc == pc {
                    Some(n - 1)
                } else {
                    None
                },
            }
        }
    }

    /// Resolve one PC to the first entry that carries it.
    pub fn resolve(&self, pc: u64) -> (r: Option<&SymbolEntry>)
        ensures
            match r {
                Some(entry) => {
                    &&& self.spec_find(pc, self.entries@.len() as int) matches Some(i)
                    &&& *entry == self.entries@[self.spec_find(
                        pc,
                        self.entries@.len() as int,
                    )->Some_0]
                },
                None => self.spec_find(pc, self.entries@.len() as int) is None,
            },
    {
        let n = self.entries.len();
        let mut i: usize = 0;
        while i < n
            invariant
                i <= n,
                n == self.entries@.len(),
                self.spec_find(pc, i as int) is None,
            decreases n - i,
        {
            if self.entries[i].pc == pc {
                proof {
                    lemma_find_step(self, pc, i as int);
                    lemma_find_extend(self, pc, i + 1, n as int);
                }
                return Some(&self.entries[i]);
            }
            i = i + 1;
        }
        None
    }
}

/// Extending an unsuccessful search by one matching entry finds it.
proof fn lemma_find_step(symbols: &Symbols, pc: u64, i: int)
    requires
        0 <= i < symbols.entries@.len(),
        symbols.spec_find(pc, i) is None,
        symbols.entries@[i].pc == pc,
    ensures
        symbols.spec_find(pc, i + 1) == Some(i),
{
}

/// A successful search stays successful as the bound grows.
proof fn lemma_find_extend(symbols: &Symbols, pc: u64, a: int, b: int)
    requires
        0 <= a <= b,
        symbols.spec_find(pc, a) is Some,
    ensures
        symbols.spec_find(pc, b) == symbols.spec_find(pc, a),
    decreases b - a,
{
    if a < b {
        lemma_find_extend(symbols, pc, a, b - 1);
    }
}


/// The rendering of one symbols entry: `file:function:line`.
pub open spec fn spec_symbol_line(e: SymbolEntry) -> Seq<char> {
    e.file@ + ":"@ + e.function_name@ + ":"@ + spec_decimal(e.line as int)
}

/// The rendered lines for the PCs from position `i` on: one line per PC
/// that the symbols resolve, in trace order.
pub open spec fn spec_symbolised_from(symbols: &Symbols, pcs: Seq<u64>, i: int) -> Seq<Seq<char>>
    decreases pcs.len() - i,
{
    if i < 0 || i >= pcs.len() {
        Seq::empty()
    } else {
        match symbols.spec_find(pcs[i], symbols.entries@.len() as int) {
            Option::Some(e) => seq![spec_symbol_line(symbols.entries@[e])] + spec_symbolised_from(
                symbols,
                pcs,
                i + 1,
            ),
            Option::None => spec_symbolised_from(symbols, pcs, i + 1),
        }
    }
}

/// Render a scanned PC trace through the symbols: one `file:function:line`
/// line per PC the symbols resolve, in trace order; PCs the symbols do not
/// know are passed over.
pub fn symbolised_lines(symbols: &Symbols, pcs: &Vec<u64>) -> (lines: Vec<String>)
    ensures
        lines@.len() == spec_symbolised_from(symbols, pcs@, 0).len(),
        forall|k: int|
            0 <= k < lines@.len() ==> lines@[k]@ == spec_symbolised_from(symbols, pcs@, 0)[k],
{
    proof {
        reveal_strlit(":");
    }
    let ghost whole = spec_symbolised_from(symbols, pcs@, 0);
    let n = pcs.len();
    let mut lines: Vec<String> = Vec::new();
    let mut i: usize = 0;
    while i < n
        invariant
            i <= n,
            n == pcs@.len(),
            whole == spec_symbolised_from(symbols, pcs@, 0),
            lines@.len() + spec_symbolised_from(symbols, pcs@, i as int).len() == whole.len(),
            forall|k: int| 0 <= k < lines@.len() ==> lines@[k]@ == whole[k],
            forall|k: int|
                0 <= k < spec_symbolised_from(symbols, pcs@, i as int).len() ==> whole[
                    lines@.len() + k
                ] == spec_symbolised_from(symbols, pcs@, i as int)[k],
        decreases n - i,
    {
        match symbols.resolve(pcs[i]) {
            Option::Some(entry) => {
                let mut line = entry.file.clone();
                line.append(":");
                line.append(entry.function_name.as_str());
                line.append(":");
                let number = u64_to_decimal(entry.line);
                line.append(number.as_str());
                proof {
                    assert(line@ =~= spec_symbol_line(*entry));
                    let tail = spec_symbolised_from(symbols, pcs@, i as int);
                    let tail1 = spec_symbolised_from(symbols, pcs@, i + 1);
                    assert(tail == seq![spec_symbol_line(*entry)] + tail1);
                    assert(tail[0] == spec_symbol_line(*entry));
                    assert(forall|k: int|
                        0 <= k < tail1.len() ==> tail[k + 1] == #[trigger] tail1[k]);
                }
                lines.push(line);
            },
            Option::None => {
                proof {
                    assert(spec_symbolised_from(symbols, pcs@, i as int)
                        == spec_symbolised_from(symbols, pcs@, i + 1));
                }
            },
        }
        i = i + 1;
    }
    lines
}


/// The dump line for one raw PC: `0x` and its hexadecimal rendering.
pub fn pc_line(pc: u64) -> (line: String)
    ensures
        line@ == "0x"@ + spec_hex(pc as int),
{
    let mut line = "0x".to_owned();
    let digits = u64_to_hex(pc);
    line.append(digits.as_str());
    line
}

} // verus!
