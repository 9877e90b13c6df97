use kernel_fuzz::trace::{scan_pc_trace, symbolised_lines, SymbolEntry, Symbols, FRAME_ENTRY,
    FRAME_EXIT};

/// Lay out a trace as the guest writes it: chronologically from the high
/// end of the map downward.
fn written_high_to_low(words_in_write_order: &[u64], map_len: usize) -> Vec<u64> {
    let mut map = vec![0u64; map_len];
    for (i, w) in words_in_write_order.iter().enumerate() {
        map[map_len - 1 - i] = *w;
    }
    map
}

#[test]
fn balanced_trace_emits_pcs_in_write_order() {
    let map = written_high_to_low(&[FRAME_ENTRY, 0x1000, 0x1004, FRAME_EXIT], 16);
    let (pcs, start) = scan_pc_trace(&map);
    assert_eq!(pcs, vec![0x1000u64, 0x1004]);
    assert_eq!(start, 0);
}

#[test]
fn pcs_outside_frames_are_ignored() {
    let map = written_high_to_low(
        &[0xAAAA, FRAME_ENTRY, 0x2000, FRAME_EXIT, 0xBBBB],
        8,
    );
    let (pcs, start) = scan_pc_trace(&map);
    assert_eq!(pcs, vec![0x2000u64]);
    assert_eq!(start, 0);
}

#[test]
fn nested_frames_emit_all_enclosed_pcs() {
    let map = written_high_to_low(
        &[FRAME_ENTRY, 0x10, FRAME_ENTRY, 0x20, FRAME_EXIT, 0x30, FRAME_EXIT],
        12,
    );
    let (pcs, start) = scan_pc_trace(&map);
    assert_eq!(pcs, vec![0x10u64, 0x20, 0x30]);
    assert_eq!(start, 0);
}

#[test]
fn unbalanced_trace_retries_with_raised_depth() {
    let map = written_high_to_low(
        &[FRAME_ENTRY, 0x1000, 0x1004, FRAME_EXIT, FRAME_EXIT],
        10,
    );
    let (pcs, start) = scan_pc_trace(&map);
    assert_eq!(start, 1);
    assert_eq!(pcs, vec![0x1000u64, 0x1004]);
}

#[test]
fn symbolised_trace_renders_file_function_line() {
    let map = written_high_to_low(
        &[0xDEADBEEF, 0x1000, 0x1004, 0xBEEFDEAD],
        32,
    );
    let (pcs, _) = scan_pc_trace(&map);
    let symbols = Symbols {
        entries: vec![
            SymbolEntry {
                pc: 0x1000,
                file: "a.c".to_string(),
                function_name: "f".to_string(),
                line: 10,
            },
            SymbolEntry {
                pc: 0x1004,
                file: "a.c".to_string(),
                function_name: "f".to_string(),
                line: 11,
            },
        ],
    };
    let lines = symbolised_lines(&symbols, &pcs);
    assert_eq!(lines, vec!["a.c:f:10".to_string(), "a.c:f:11".to_string()]);
}

#[test]
fn unknown_pcs_are_passed_over_when_symbolising() {
    let symbols = Symbols {
        entries: vec![SymbolEntry {
            pc: 0x40,
            file: "b.c".to_string(),
            function_name: "g".to_string(),
            line: 7,
        }],
    };
    let pcs = vec![0x30u64, 0x40, 0x50];
    let lines = symbolised_lines(&symbols, &pcs);
    assert_eq!(lines, vec!["b.c:g:7".to_string()]);
}
