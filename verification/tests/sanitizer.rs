use herd::soloterm::sanitizer::sanitize_output as solo_sanitize;
use herd::terminal::sanitizer::sanitize_output;

// ── Behaviour shared by both sanitizers ──

#[test]
fn sanitizer_test_pass_through_plain_text() {
    let input = b"Hello, world!";
    assert_eq!(sanitize_output(input), input.to_vec());
    assert_eq!(solo_sanitize(input), input.to_vec());
}

#[test]
fn sanitizer_test_allow_sgr_colors() {
    let input = b"\x1b[31mRed text\x1b[0m";
    assert_eq!(sanitize_output(input), input.to_vec());
    assert_eq!(solo_sanitize(input), input.to_vec());
}

#[test]
fn sanitizer_test_allow_cursor_movement() {
    let input = b"\x1b[H\x1b[2J";
    assert_eq!(sanitize_output(input), input.to_vec());
    assert_eq!(solo_sanitize(input), input.to_vec());
}

#[test]
fn sanitizer_test_block_osc52_clipboard() {
    let input = b"\x1b]52;c;SGVsbG8=\x07";
    assert!(sanitize_output(input).is_empty(), "OSC 52 should be blocked");
    assert!(solo_sanitize(input).is_empty(), "OSC 52 should be blocked");
}

#[test]
fn sanitizer_test_block_osc52_with_st_terminator() {
    let input = b"\x1b]52;c;SGVsbG8=\x1b\\";
    assert!(sanitize_output(input).is_empty(), "OSC 52 with ST should be blocked");
    assert!(solo_sanitize(input).is_empty(), "OSC 52 with ST should be blocked");
}

#[test]
fn sanitizer_test_allow_title_change() {
    let input = b"\x1b]0;My Terminal\x07";
    assert_eq!(sanitize_output(input), input.to_vec());
    assert_eq!(solo_sanitize(input), input.to_vec());
}

#[test]
fn sanitizer_test_mixed_safe_and_dangerous() {
    let input = b"\x1b[32mOK\x1b]52;c;eA==\x07 done\x1b[0m";
    let expected = b"\x1b[32mOK done\x1b[0m";
    assert_eq!(sanitize_output(input), expected.to_vec());
    assert_eq!(solo_sanitize(input), expected.to_vec());
}

#[test]
fn sanitizer_test_block_osc7_directory() {
    let input = b"\x1b]7;file:///home/user\x07";
    assert!(sanitize_output(input).is_empty());
    assert!(solo_sanitize(input).is_empty());
}

#[test]
fn sanitizer_test_allow_hyperlinks() {
    let input = b"\x1b]8;;https://example.com\x07Link\x1b]8;;\x07";
    assert_eq!(sanitize_output(input), input.to_vec());
    assert_eq!(solo_sanitize(input), input.to_vec());
}

// ── 8-bit C1 codes ──

#[test]
fn test_block_8bit_osc_clipboard() {
    let input = b"\x9d52;c;SGVsbG8=\x9c";
    assert!(sanitize_output(input).is_empty(), "8-bit OSC 52 should be blocked");
}

#[test]
fn test_block_8bit_csi() {
    let input = b"\x9b31m";
    assert!(sanitize_output(input).is_empty(), "8-bit CSI should be blocked");
}

// ── DCS / PM / APC ──

#[test]
fn test_block_dcs_sequence() {
    let input = b"\x1bPsome payload\x1b\\after";
    assert_eq!(sanitize_output(input), b"after");
}

#[test]
fn test_block_apc_sequence() {
    let input = b"\x1b_kitty graphics\x1b\\visible";
    assert_eq!(sanitize_output(input), b"visible");
}

#[test]
fn test_block_pm_sequence() {
    let input = b"\x1b^private\x1b\\ok";
    assert_eq!(sanitize_output(input), b"ok");
}

// ── CSI allowlist ──

#[test]
fn test_block_csi_dsr() {
    let input = b"\x1b[6n";
    assert!(sanitize_output(input).is_empty(), "CSI DSR should be blocked");
}

#[test]
fn test_block_csi_window_manipulation() {
    let input = b"\x1b[14t";
    assert!(sanitize_output(input).is_empty(), "CSI window manipulation should be blocked");
}

#[test]
fn test_allow_csi_erase_line() {
    let input = b"\x1b[2K";
    assert_eq!(sanitize_output(input), input.to_vec());
}

#[test]
fn test_allow_csi_scroll() {
    let input = b"\x1b[3S";
    assert_eq!(sanitize_output(input), input.to_vec());
}

// ── Incomplete sequences ──

#[test]
fn test_strip_lone_esc_at_end() {
    let input = b"hello\x1b";
    assert_eq!(sanitize_output(input), b"hello", "Lone ESC at end should be stripped");
}

#[test]
fn test_block_unknown_two_byte_escape() {
    let input = b"\x1b#visible";
    assert_eq!(sanitize_output(input), b"visible");
}

// ── Laws on concrete values ──

#[test]
fn sanitizing_twice_changes_nothing_more() {
    let inputs: [&[u8]; 5] = [
        b"\x1b[32mOK\x1b]52;c;eA==\x07 done\x1b[0m",
        b"\x1bPsome payload\x1b\\after\x9b31m",
        b"plain \x1b]0;title\x07 text",
        b"hello\x1b",
        b"\x1b#\x1b[6n\x1b[2Kend",
    ];
    for input in inputs {
        let once = sanitize_output(input);
        assert_eq!(sanitize_output(&once), once);
    }
}

#[test]
fn sanitizing_only_deletes_bytes() {
    let input = b"a\x1b]52;c;eA==\x07b\x1b[6nc\x1b_x\x1b\\d";
    let out = sanitize_output(input);
    assert_eq!(out, b"abcd");
    let solo = solo_sanitize(b"a\x1b]52;c;eA==\x07b\x1b[6nc\x1b[1md");
    // the SoloTerm sanitizer removes the clipboard OSC and the status report
    assert_eq!(solo, b"abc\x1b[1md");
}

#[test]
fn osc_numbers_are_compared_without_wrapping() {
    // 2^32 and 2^32 + 8 are not on the allow list, whatever their low bits
    assert!(sanitize_output(b"\x1b]4294967296;x\x07").is_empty());
    assert!(sanitize_output(b"\x1b]4294967304;x\x07").is_empty());
    assert!(solo_sanitize(b"\x1b]4294967304;x\x07").is_empty());
    assert!(sanitize_output(b"\x1b]4294967348;c;x\x07").is_empty());
    // a long run of leading zeros still reads as the title command
    let input = b"\x1b]0000000000000000000008;id=1;u\x07";
    assert_eq!(sanitize_output(input), input.to_vec());
}

#[test]
fn unterminated_osc_loses_only_its_escape_byte() {
    assert_eq!(sanitize_output(b"before\x1b]52;c;abc"), b"before]52;c;abc");
    assert_eq!(solo_sanitize(b"before\x1b]52;c;abc"), b"before]52;c;abc");
}

#[test]
fn osc_body_is_cut_at_a_c1_byte() {
    // the title is refused at the C1 byte, the lone CSI byte is dropped,
    // and the bell that followed is plain text
    assert_eq!(sanitize_output(b"\x1b]0;\x9b\x07"), b"\x07");
}

#[test]
fn osc_body_is_cut_at_a_nested_escape() {
    let input = b"\x1b]0;\x1b]52;c;eA==\x07";
    assert!(sanitize_output(input).is_empty());
    assert!(solo_sanitize(input).is_empty());
}

#[test]
fn solo_blocks_device_status_reports() {
    assert!(solo_sanitize(b"\x1b[6n").is_empty());
    assert!(solo_sanitize(b"\x1b[5n").is_empty());
    assert_eq!(solo_sanitize(b"\x1b[2J"), b"\x1b[2J");
}

#[test]
fn solo_drops_a_doubled_escape_byte() {
    assert!(solo_sanitize(b"\x1b\x1b]52;c;x\x07").is_empty());
    assert_eq!(solo_sanitize(b"a\x1b\x1b[1mb"), b"a\x1b[1mb");
}

#[test]
fn c1_csi_runs_to_its_final_byte() {
    assert_eq!(sanitize_output(b"x\x9b1;2Hy"), b"xy");
    // a lone C1 introducer is dropped by itself
    assert_eq!(sanitize_output(b"x\x90"), b"x");
}

#[test]
fn solo_output_never_holds_a_clipboard_write() {
    let inputs: [&[u8]; 4] = [
        b"\x1b[1\x1b]52;c;eA==\x07",
        b"\x1b\x1b]52;c;eA==\x07",
        b"\x1b]0;\x1b]52;c;eA==\x07",
        b"\x1bx\x1b]52;c;eA==\x1b\\",
    ];
    for input in inputs {
        let out = solo_sanitize(input);
        assert!(!out.windows(5).any(|w| w == b"\x1b]52;"), "{:?}", out);
    }
}
