//! Escape-sequence sanitizer for untrusted terminal output.
//!
//! Blocks dangerous sequences while keeping safe formatting:
//! - keeps SGR (colours, bold, italic, ...), cursor movement and erase sequences;
//! - drops OSC 52 (clipboard write), OSC 7 (working directory) and unknown OSC numbers;
//! - drops DCS, PM and APC strings (arbitrary payloads);
//! - drops the 8-bit C1 control codes 0x90, 0x9B, 0x9D, 0x9E, 0x9F together with
//!   the sequence they introduce;
//! - drops CSI sequences whose final byte is not on the allowlist (device status
//!   reports, window manipulation, ...).
//!
//! The input is cut into tokens: a plain byte, an 8-bit C1 sequence, or a 7-bit
//! escape sequence.  Every token is either kept verbatim or dropped as a whole.
use vstd::prelude::*;

use crate::seqs::{is_subsequence, lemma_subsequence_common_prefix, lemma_subsequence_prepend};

verus! {

/// What happens to a recognised escape sequence.
pub enum EscapeAction {
    Allow,
    Block,
}

/// The byte that starts a 7-bit escape sequence.
pub const ESC: u8 = 0x1b;

pub open spec fn is_c1_code_spec(b: u8) -> bool {
    b == 0x90 || b == 0x9b || b == 0x9d || b == 0x9e || b == 0x9f
}

/// Final bytes of a control sequence: `@` to `~`.
pub open spec fn is_final_byte(b: u8) -> bool {
    0x40 <= b && b <= 0x7e
}

/// Parameter and intermediate bytes of a control sequence: space to `?`.
pub open spec fn is_param_byte(b: u8) -> bool {
    0x20 <= b && b <= 0x3f
}

pub open spec fn is_digit_byte(b: u8) -> bool {
    0x30 <= b && b <= 0x39
}

pub open spec fn final_pred() -> spec_fn(u8) -> bool {
    |b: u8| is_final_byte(b)
}

/// The 8-bit string terminator 0x9C.
pub open spec fn st8_pred() -> spec_fn(u8) -> bool {
    |b: u8| b == 0x9c
}

/// First position at or after `i` whose byte satisfies `p`.
pub open spec fn find_byte(s: Seq<u8>, i: int, p: spec_fn(u8) -> bool) -> Option<int>
    decreases s.len() - i,
{
    if i < 0 || i >= s.len() {
        None
    } else if p(s[i]) {
        Some(i)
    } else {
        find_byte(s, i + 1, p)
    }
}

/// Length of the 8-bit C1 sequence that starts `d`: an 8-bit CSI runs to its
/// final byte, the string introducers (DCS, OSC, PM, APC) run to the 8-bit
/// string terminator; without one only the introducer itself is consumed.
pub open spec fn c1_len(d: Seq<u8>) -> int {
    let found = if d[0] == 0x9b {
        find_byte(d, 1, final_pred())
    } else {
        find_byte(d, 1, st8_pred())
    };
    match found {
        Some(j) => j + 1,
        None => 1,
    }
}

/// Scans the body of a CSI sequence from position `i`: the position of its final
/// byte, or `None` when the body is cut short by the end of the data, by an ESC
/// or 8-bit C1 byte, or by a later byte that is neither a parameter nor a final
/// byte.
pub open spec fn csi_end(d: Seq<u8>, i: int) -> Option<int>
    decreases d.len() - i,
{
    if i < 0 || i >= d.len() {
        None
    } else if is_final_byte(d[i]) {
        Some(i)
    } else if (i > 0 && !is_param_byte(d[i])) || d[i] == ESC || is_c1_code_spec(d[i]) {
        None
    } else {
        csi_end(d, i + 1)
    }
}

/// CSI final bytes that are let through: SGR, cursor movement, erase, scroll,
/// insert/delete, scrolling region, set/reset mode and absolute positioning.
pub open spec fn is_safe_csi_final_spec(b: u8) -> bool {
    b == 0x6d  // m
    || (0x41 <= b && b <= 0x48)  // A B C D E F G H
    || b == 0x4a || b == 0x4b  // J K
    || b == 0x53 || b == 0x54  // S T
    || b == 0x4c || b == 0x4d || b == 0x50 || b == 0x58 || b == 0x40  // L M P X @
    || b == 0x72  // r
    || b == 0x68 || b == 0x6c  // h l
    || b == 0x64 || b == 0x66  // d f

}

pub open spec fn action_of(allow: bool) -> EscapeAction {
    if allow {
        EscapeAction::Allow
    } else {
        EscapeAction::Block
    }
}

/// Classification of a CSI body `d` (the bytes after `ESC [`).
pub open spec fn classify_csi_spec(d: Seq<u8>) -> Option<(EscapeAction, int)> {
    match csi_end(d, 0) {
        Some(j) => Some((action_of(is_safe_csi_final_spec(d[j])), j + 1)),
        None => None,
    }
}

/// Scans an OSC body from position `i` for its terminator, BEL or `ESC \`:
/// the length of the content and the number of bytes consumed.  An ESC that
/// does not start the terminator, or an 8-bit C1 byte, interrupts the body:
/// then the content ends there and nothing more is consumed (the two numbers
/// are equal), so that the interrupting byte starts the next token.
pub open spec fn osc_end(d: Seq<u8>, i: int) -> Option<(int, int)>
    decreases d.len() - i,
{
    if i < 0 || i >= d.len() {
        None
    } else if d[i] == 0x07 {
        Some((i, i + 1))
    } else if d[i] == ESC && i + 1 < d.len() && d[i + 1] == 0x5c {
        Some((i, i + 2))
    } else if d[i] == ESC || is_c1_code_spec(d[i]) {
        Some((i, i))
    } else {
        osc_end(d, i + 1)
    }
}

/// Decimal value of the run of ASCII digits that starts at `i`, continuing from `acc`.
pub open spec fn leading_number(c: Seq<u8>, i: int, acc: nat) -> nat
    decreases c.len() - i,
{
    if 0 <= i < c.len() && is_digit_byte(c[i]) {
        leading_number(c, i + 1, acc * 10 + (c[i] - 0x30) as nat)
    } else {
        acc
    }
}

/// The OSC number of some content: its leading decimal number, however many
/// digits it has.
pub open spec fn osc_number(c: Seq<u8>) -> nat {
    leading_number(c, 0, 0)
}

/// OSC numbers that are let through: window title (0-2), palette (4), hyperlinks (8),
/// colour queries (10-19), colour resets (104, 112).
pub open spec fn is_safe_osc_number(n: nat) -> bool {
    n <= 2 || n == 4 || n == 8 || (10 <= n && n <= 19) || n == 104 || n == 112
}

pub open spec fn classify_osc_content_spec(c: Seq<u8>) -> EscapeAction {
    action_of(is_safe_osc_number(osc_number(c)))
}

pub open spec fn classify_osc_spec(d: Seq<u8>) -> Option<(EscapeAction, int)> {
    match osc_end(d, 0) {
        Some((content, consumed)) => if content == consumed {
            Some((EscapeAction::Block, consumed))
        } else {
            Some((classify_osc_content_spec(d.take(content)), consumed))
        },
        None => None,
    }
}

/// Bytes up to and including the next string terminator (`ESC \` or 0x9C),
/// or all of them when there is none.
pub open spec fn st_end(d: Seq<u8>, i: int) -> int
    decreases d.len() - i,
{
    if i < 0 || i >= d.len() {
        d.len() as int
    } else if d[i] == ESC && i + 1 < d.len() && d[i + 1] == 0x5c {
        i + 2
    } else if d[i] == 0x9c {
        i + 1
    } else {
        st_end(d, i + 1)
    }
}

/// Second bytes of the two-byte escapes that are let through.
pub open spec fn is_safe_two_byte(b: u8) -> bool {
    b == 0x28 || b == 0x29 || b == 0x2a || b == 0x2b  // ( ) * +
    || b == 0x37 || b == 0x38 || b == 0x3d || b == 0x3e  // 7 8 = >
    || b == 0x63  // c
    || b == 0x44 || b == 0x45 || b == 0x48 || b == 0x4d || b == 0x4e || b == 0x4f || b
        == 0x5a  // D E H M N O Z

}

pub open spec fn shift(r: Option<(EscapeAction, int)>, k: int) -> Option<(EscapeAction, int)> {
    match r {
        Some((a, n)) => Some((a, n + k)),
        None => None,
    }
}

/// Classification of a 7-bit escape sequence `d` (with `d[0] == ESC`): the action
/// and the length of the sequence, or `None` when the data ends before the
/// sequence does.
pub open spec fn classify_escape_spec(d: Seq<u8>) -> Option<(EscapeAction, int)> {
    if d.len() < 2 {
        None
    } else if d[1] == 0x5b {
        // ESC [
        shift(classify_csi_spec(d.skip(2)), 2)
    } else if d[1] == 0x5d {
        // ESC ]
        shift(classify_osc_spec(d.skip(2)), 2)
    } else if d[1] == 0x50 || d[1] == 0x5e || d[1] == 0x5f {
        // DCS (ESC P), PM (ESC ^), APC (ESC _)
        Some((EscapeAction::Block, st_end(d.skip(2), 0) + 2))
    } else if is_safe_two_byte(d[1]) {
        Some((EscapeAction::Allow, 2))
    } else {
        Some((EscapeAction::Block, 2))
    }
}

/// The first token of non-empty input `s`: whether it is kept, and its length.
pub open spec fn token(s: Seq<u8>) -> (bool, int) {
    if is_c1_code_spec(s[0]) {
        (false, c1_len(s))
    } else if s[0] == ESC {
        match classify_escape_spec(s) {
            Some((a, n)) => (a == EscapeAction::Allow, n),
            None => (false, 1),
        }
    } else {
        (true, 1)
    }
}

/// The sanitized form of `s`: the kept tokens, in order.
pub open spec fn sanitize_spec(s: Seq<u8>) -> Seq<u8>
    decreases s.len(),
{
    if s.len() == 0 {
        Seq::empty()
    } else {
        let (keep, n) = token(s);
        proof {
            lemma_token_bounds(s);
        }
        (if keep {
            s.take(n)
        } else {
            Seq::empty()
        }) + sanitize_spec(s.skip(n))
    }
}

// ---------------------------------------------------------------------------
// Bounds of the scanners
// ---------------------------------------------------------------------------

pub proof fn lemma_find_byte_bounds(s: Seq<u8>, i: int, p: spec_fn(u8) -> bool)
    requires
        0 <= i,
    ensures
        find_byte(s, i, p) matches Some(j) ==> i <= j < s.len() && p(s[j]),
    decreases s.len() - i,
{
    if i < s.len() && !p(s[i]) {
        lemma_find_byte_bounds(s, i + 1, p);
    }
}

pub proof fn lemma_csi_end_bounds(d: Seq<u8>, i: int)
    requires
        0 <= i,
    ensures
        csi_end(d, i) matches Some(j) ==> i <= j < d.len() && is_final_byte(d[j]),
    decreases d.len() - i,
{
    if i < d.len() && !is_final_byte(d[i]) && !((i > 0 && !is_param_byte(d[i])) || d[i] == ESC
        || is_c1_code_spec(d[i])) {
        lemma_csi_end_bounds(d, i + 1);
    }
}

pub proof fn lemma_osc_end_bounds(d: Seq<u8>, i: int)
    requires
        0 <= i,
    ensures
        osc_end(d, i) matches Some((c, n)) ==> i <= c && c <= n && n <= d.len(),
    decreases d.len() - i,
{
    if i < d.len() && d[i] != 0x07 && !(d[i] == ESC && i + 1 < d.len() && d[i + 1] == 0x5c) && !(
    d[i] == ESC || is_c1_code_spec(d[i])) {
        lemma_osc_end_bounds(d, i + 1);
    }
}

pub proof fn lemma_st_end_bounds(d: Seq<u8>, i: int)
    requires
        0 <= i <= d.len(),
    ensures
        i <= st_end(d, i) <= d.len(),
    decreases d.len() - i,
{
    if i < d.len() && !(d[i] == ESC && i + 1 < d.len() && d[i + 1] == 0x5c) && d[i] != 0x9c {
        lemma_st_end_bounds(d, i + 1);
    }
}

pub proof fn lemma_classify_escape_bounds(d: Seq<u8>)
    ensures
        classify_escape_spec(d) matches Some((_, n)) ==> 2 <= n <= d.len(),
{
    if d.len() >= 2 {
        lemma_csi_end_bounds(d.skip(2), 0);
        lemma_osc_end_bounds(d.skip(2), 0);
        lemma_st_end_bounds(d.skip(2), 0);
    }
}

pub proof fn lemma_token_bounds(s: Seq<u8>)
    requires
        s.len() > 0,
    ensures
        1 <= token(s).1 <= s.len(),
{
    lemma_find_byte_bounds(s, 1, final_pred());
    lemma_find_byte_bounds(s, 1, st8_pred());
    lemma_classify_escape_bounds(s);
}

// ---------------------------------------------------------------------------
// Executable sanitizer
// ---------------------------------------------------------------------------

pub open spec fn lift(r: Option<(EscapeAction, usize)>) -> Option<(EscapeAction, int)> {
    match r {
        Some((a, n)) => Some((a, n as int)),
        None => None,
    }
}

/// Sanitize terminal output by removing dangerous escape sequences.
///
/// Strips lone ESC bytes that don't form a recognized safe sequence,
/// and blocks all 8-bit C1 control codes.
pub fn sanitize_output(input: &[u8]) -> (output: Vec<u8>)
    ensures
        output@ == sanitize_spec(input@),
{
    let mut output: Vec<u8> = Vec::with_capacity(input.len());
    let mut i: usize = 0;
    let len = input.len();
    assert(input@.skip(0) == input@);
    while i < len
        invariant
            len == input@.len(),
            i <= len,
            output@ + sanitize_spec(input@.skip(i as int)) == sanitize_spec(input@),
        decreases len - i,
    {
        let rest = &input[i..len];
        assert(rest@ == input@.skip(i as int));
        let ghost s = rest@;
        let byte = input[i];
        proof {
            lemma_token_bounds(s);
            assert(s.skip(token(s).1) == input@.skip(i + token(s).1));
        }
        if is_c1_code(byte) {
            let advance = consume_c1_sequence(rest);
            i = i + advance;
        } else if byte == ESC {
            match classify_escape(rest) {
                Some((action, advance)) => {
                    match action {
                        EscapeAction::Allow => {
                            let ghost before = output@;
                            output.extend_from_slice(&input[i..i + advance]);
                            assert(output@ == before + s.take(advance as int));
                        },
                        EscapeAction::Block => {},
                    }
                    i = i + advance;
                },
                None => {
                    // Incomplete escape at end of input: strip it.
                    i = i + 1;
                },
            }
        } else {
            output.push(byte);
            assert(s.take(1) == seq![byte]);
            i = i + 1;
        }
    }
    assert(input@.skip(len as int) == Seq::<u8>::empty());
    output
}

/// Check if a byte is an 8-bit C1 control code.
fn is_c1_code(byte: u8) -> (r: bool)
    ensures
        r == is_c1_code_spec(byte),
{
    byte == 0x90 || byte == 0x9b || byte == 0x9d || byte == 0x9e || byte == 0x9f
}

/// Consume an 8-bit C1 sequence. These use ST (0x9C) as terminator.
/// Returns number of bytes to skip.
fn consume_c1_sequence(data: &[u8]) -> (n: usize)
    requires
        data@.len() >= 1,
    ensures
        n == c1_len(data@),
{
    let csi = data[0] == 0x9b;
    let ghost p = if csi {
        final_pred()
    } else {
        st8_pred()
    };
    let mut i: usize = 1;
    while i < data.len()
        invariant
            1 <= i <= data@.len(),
            csi == (data@[0] == 0x9b),
            p == (if csi {
                final_pred()
            } else {
                st8_pred()
            }),
            find_byte(data@, 1, p) == find_byte(data@, i as int, p),
        decreases data@.len() - i,
    {
        let byte = data[i];
        let hit = if csi {
            0x40 <= byte && byte <= 0x7e
        } else {
            byte == 0x9c
        };
        if hit {
            return i + 1;
        }
        i = i + 1;
    }
    1
}

/// Classify a 7-bit escape sequence starting at `data[0] == ESC`.
fn classify_escape(data: &[u8]) -> (r: Option<(EscapeAction, usize)>)
    ensures
        lift(r) == classify_escape_spec(data@),
{
    let len = data.len();
    if len < 2 {
        return None;
    }
    let rest = &data[2..len];
    assert(rest@ == data@.skip(2));
    let second = data[1];
    if second == 0x5b {
        // CSI: ESC [
        match classify_csi(rest) {
            Some((action, adv)) => Some((action, adv + 2)),
            None => None,
        }
    } else if second == 0x5d {
        // OSC: ESC ]
        match classify_osc(rest) {
            Some((action, adv)) => Some((action, adv + 2)),
            None => None,
        }
    } else if second == 0x50 || second == 0x5e || second == 0x5f {
        // DCS (ESC P), PM (ESC ^), APC (ESC _): block, consume until ST
        let advance = consume_until_st(rest);
        Some((EscapeAction::Block, advance + 2))
    } else if second == 0x28 || second == 0x29 || second == 0x2a || second == 0x2b || second
        == 0x37 || second == 0x38 || second == 0x3d || second == 0x3e || second == 0x63 || second
        == 0x44 || second == 0x45 || second == 0x48 || second == 0x4d || second == 0x4e || second
        == 0x4f || second == 0x5a {
        // Simple safe two-byte escapes
        Some((EscapeAction::Allow, 2))
    } else {
        // Unknown: block to be safe
        Some((EscapeAction::Block, 2))
    }
}

/// Safe CSI final bytes: allowlisted terminal operations.
fn is_safe_csi_final(byte: u8) -> (r: bool)
    ensures
        r == is_safe_csi_final_spec(byte),
{
    byte == 0x6d || (0x41 <= byte && byte <= 0x48) || byte == 0x4a || byte == 0x4b || byte
        == 0x53 || byte == 0x54 || byte == 0x4c || byte == 0x4d || byte == 0x50 || byte == 0x58
        || byte == 0x40 || byte == 0x72 || byte == 0x68 || byte == 0x6c || byte == 0x64 || byte
        == 0x66
}

/// Classify a CSI sequence (after `ESC [`).
///
/// Blocks `n` (DSR), `t` (window manipulation), and other risky finals.
fn classify_csi(data: &[u8]) -> (r: Option<(EscapeAction, usize)>)
    ensures
        lift(r) == classify_csi_spec(data@),
        r matches Some((_, n)) ==> n <= data@.len(),
{
    let mut i: usize = 0;
    while i < data.len()
        invariant
            i <= data@.len(),
            csi_end(data@, 0) == csi_end(data@, i as int),
        decreases data@.len() - i,
    {
        let byte = data[i];
        if 0x40 <= byte && byte <= 0x7e {
            let action = if is_safe_csi_final(byte) {
                EscapeAction::Allow
            } else {
                EscapeAction::Block
            };
            return Some((action, i + 1));
        }
        // Parameter and intermediate bytes (0x20-0x3F) continue the sequence;
        // an ESC or C1 byte never belongs to it
        if (!(0x20 <= byte && byte <= 0x3f) && i > 0) || byte == ESC || is_c1_code(byte) {
            return None;
        }
        i = i + 1;
    }
    None
}

/// Classify an OSC sequence (after `ESC ]`).
pub(crate) fn classify_osc(data: &[u8]) -> (r: Option<(EscapeAction, usize)>)
    ensures
        lift(r) == classify_osc_spec(data@),
        r matches Some((_, n)) ==> n <= data@.len(),
{
    let len = data.len();
    let mut i: usize = 0;
    while i < len
        invariant
            len == data@.len(),
            i <= len,
            osc_end(data@, 0) == osc_end(data@, i as int),
        decreases len - i,
    {
        let byte = data[i];
        if byte == 0x07 {
            let content = &data[0..i];
            assert(content@ == data@.take(i as int));
            let action = classify_osc_content(content);
            return Some((action, i + 1));
        }
        if byte == ESC && i + 1 < len && data[i + 1] == 0x5c {
            let content = &data[0..i];
            assert(content@ == data@.take(i as int));
            let action = classify_osc_content(content);
            return Some((action, i + 2));
        }
        if byte == ESC || is_c1_code(byte) {
            // the body is interrupted: refuse it up to here
            return Some((EscapeAction::Block, i));
        }
        i = i + 1;
    }
    None
}

fn classify_osc_content(content: &[u8]) -> (a: EscapeAction)
    ensures
        a == classify_osc_content_spec(content@),
{
    // numbers past OSC_NUMBER_CAP are never on the allowlist, so the scanner
    // stops counting there
    let mut num: u32 = 0;
    let mut i: usize = 0;
    while i < content.len() && 0x30 <= content[i] && content[i] <= 0x39
        invariant
            i <= content@.len(),
            num <= OSC_NUMBER_CAP,
            num < OSC_NUMBER_CAP ==> leading_number(content@, 0, 0) == leading_number(
                content@,
                i as int,
                num as nat,
            ),
            num == OSC_NUMBER_CAP ==> leading_number(content@, 0, 0) >= OSC_NUMBER_CAP,
        decreases content@.len() - i,
    {
        let digit = content[i] - 0x30;
        if num < OSC_NUMBER_CAP {
            let next = num * 10 + digit as u32;
            if next >= OSC_NUMBER_CAP {
                proof {
                    lemma_leading_number_grows(content@, i + 1, next as nat);
                }
                num = OSC_NUMBER_CAP;
            } else {
                num = next;
            }
        }
        i = i + 1;
    }
    proof {
        if num == OSC_NUMBER_CAP {
            assert(!is_safe_osc_number(leading_number(content@, 0, 0)));
        }
    }
    if num <= 2 || num == 4 || num == 8 || (10 <= num && num <= 19) || num == 104 || num == 112 {
        EscapeAction::Allow
    } else {
        EscapeAction::Block
    }
}

/// A bound past every allowed OSC number.
const OSC_NUMBER_CAP: u32 = 1000;

/// The leading number never falls below what was accumulated.
proof fn lemma_leading_number_grows(c: Seq<u8>, i: int, acc: nat)
    ensures
        leading_number(c, i, acc) >= acc,
    decreases c.len() - i,
{
    if 0 <= i < c.len() && is_digit_byte(c[i]) {
        lemma_leading_number_grows(c, i + 1, acc * 10 + (c[i] - 0x30) as nat);
    }
}

/// Consume bytes until String Terminator (ST = ESC \ or 0x9C), or to the end of data.
fn consume_until_st(data: &[u8]) -> (n: usize)
    ensures
        n == st_end(data@, 0),
        n <= data@.len(),
{
    let len = data.len();
    let mut i: usize = 0;
    while i < len
        invariant
            len == data@.len(),
            i <= len,
            st_end(data@, 0) == st_end(data@, i as int),
        decreases len - i,
    {
        let byte = data[i];
        // ST as ESC backslash
        if byte == ESC && i + 1 < len && data[i + 1] == 0x5c {
            return i + 2;
        }
        // ST as 8-bit code
        if byte == 0x9c {
            return i + 1;
        }
        i = i + 1;
    }
    len
}


// ---------------------------------------------------------------------------
// Laws
// ---------------------------------------------------------------------------

/// Input without ESC bytes and without 8-bit C1 codes.
pub open spec fn is_plain_text(s: Seq<u8>) -> bool {
    forall|k: int| 0 <= k < s.len() ==> s[k] != ESC && !is_c1_code_spec(#[trigger] s[k])
}

/// Plain text passes through the sanitizer unchanged.
pub proof fn law_plain_text_unchanged(s: Seq<u8>)
    requires
        is_plain_text(s),
    ensures
        sanitize_spec(s) == s,
    decreases s.len(),
{
    if s.len() > 0 {
        assert(s[0] != ESC && !is_c1_code_spec(s[0]));
        assert(is_plain_text(s.skip(1))) by {
            assert forall|k: int| 0 <= k < s.skip(1).len() implies s.skip(1)[k] != ESC
                && !is_c1_code_spec(#[trigger] s.skip(1)[k]) by {
                assert(s.skip(1)[k] == s[k + 1]);
            }
        }
        law_plain_text_unchanged(s.skip(1));
        assert(s == s.take(1) + s.skip(1));
    }
}

/// The sanitizer never adds or reorders bytes: its output is obtained from its
/// input by deleting bytes.
pub proof fn law_sanitize_only_deletes(s: Seq<u8>)
    ensures
        is_subsequence(sanitize_spec(s), s),
    decreases s.len(),
{
    if s.len() > 0 {
        lemma_token_bounds(s);
        let (keep, n) = token(s);
        let rest = s.skip(n);
        law_sanitize_only_deletes(rest);
        assert(s == s.take(n) + rest);
        if keep {
            lemma_subsequence_common_prefix(s.take(n), sanitize_spec(rest), rest);
        } else {
            assert(sanitize_spec(s) == sanitize_spec(rest));
            lemma_subsequence_prepend(sanitize_spec(rest), s.take(n), rest);
        }
    }
}

proof fn lemma_csi_end_prefix(x: Seq<u8>, y: Seq<u8>, i: int, j: int)
    requires
        0 <= i,
        csi_end(x, i) == Some(j),
        j < y.len(),
        forall|k: int| 0 <= k <= j ==> y[k] == x[k],
    ensures
        csi_end(y, i) == Some(j),
    decreases x.len() - i,
{
    lemma_csi_end_bounds(x, i);
    if i < j {
        assert(y[i] == x[i]);
        lemma_csi_end_prefix(x, y, i + 1, j);
    } else {
        assert(y[j] == x[j]);
    }
}

proof fn lemma_osc_end_prefix(x: Seq<u8>, y: Seq<u8>, i: int, c: int, m: int)
    requires
        0 <= i,
        osc_end(x, i) == Some((c, m)),
        c < m,
        m <= x.len(),
        m <= y.len(),
        forall|k: int| 0 <= k < m ==> y[k] == x[k],
    ensures
        osc_end(y, i) == Some((c, m)),
    decreases x.len() - i,
{
    lemma_osc_end_bounds(x, i);
    if i < c {
        assert(y[i] == x[i]);
        assert(y[i + 1] == x[i + 1]);
        assert(x[i] != 0x07);
        assert(!(x[i] == ESC && i + 1 < x.len() && x[i + 1] == 0x5c));
        assert(!(x[i] == ESC || is_c1_code_spec(x[i])));
        assert(osc_end(y, i) == osc_end(y, i + 1));
        lemma_osc_end_prefix(x, y, i + 1, c, m);
    } else {
        assert(i == c);
        lemma_osc_end_bounds(x, i + 1);
        assert(y[i] == x[i]);
        if x[i] == 0x07 {
            assert(m == c + 1);
        } else {
            assert(x[i] == ESC && i + 1 < x.len() && x[i + 1] == 0x5c);
            assert(m == c + 2);
            assert(y[i + 1] == x[i + 1]);
        }
    }
}

/// A kept token is recognised again, with the same length, whatever follows it.
proof fn lemma_kept_token_stable(s: Seq<u8>, r: Seq<u8>)
    requires
        s.len() > 0,
        token(s).0,
    ensures
        token(s.take(token(s).1) + r) == token(s),
{
    lemma_token_bounds(s);
    let n = token(s).1;
    let u = s.take(n) + r;
    assert(u[0] == s[0]);
    if s[0] == ESC && !is_c1_code_spec(s[0]) {
        lemma_classify_escape_bounds(s);
        assert(u[1] == s[1]);
        let x = s.skip(2);
        let y = u.skip(2);
        if s[1] == 0x5b {
            let j = csi_end(x, 0)->0;
            lemma_csi_end_bounds(x, 0);
            assert forall|k: int| 0 <= k <= j implies y[k] == x[k] by {
                assert(y[k] == u[k + 2]);
            }
            lemma_csi_end_prefix(x, y, 0, j);
        } else if s[1] == 0x5d {
            let (c, m) = osc_end(x, 0)->0;
            lemma_osc_end_bounds(x, 0);
            assert(m <= x.len());
            assert(c != m);
            assert forall|k: int| 0 <= k < m implies y[k] == x[k] by {
                assert(y[k] == u[k + 2]);
            }
            lemma_osc_end_prefix(x, y, 0, c, m);
            assert(y.take(c) == x.take(c));
        }
    }
}

/// Sanitizing is idempotent: sanitized output is left as it is by a second pass.
pub proof fn law_sanitize_idempotent(s: Seq<u8>)
    ensures
        sanitize_spec(sanitize_spec(s)) == sanitize_spec(s),
    decreases s.len(),
{
    if s.len() > 0 {
        lemma_token_bounds(s);
        let (keep, n) = token(s);
        let rest = s.skip(n);
        law_sanitize_idempotent(rest);
        if keep {
            let t = s.take(n);
            let out = t + sanitize_spec(rest);
            assert(sanitize_spec(s) == out);
            lemma_kept_token_stable(s, sanitize_spec(rest));
            assert(out.take(n) == t);
            assert(out.skip(n) == sanitize_spec(rest));
            assert(out.len() > 0);
        } else {
            assert(sanitize_spec(s) == sanitize_spec(rest));
        }
    }
}

// ---------------------------------------------------------------------------
// What the sanitizer promises of particular sequences
// ---------------------------------------------------------------------------

/// The OSC scanner runs over bytes that cannot end an OSC up to a BEL.
proof fn lemma_osc_end_at_bel(d: Seq<u8>, i: int, j: int)
    requires
        0 <= i <= j < d.len(),
        d[j] == 0x07,
        forall|k: int| i <= k < j ==> d[k] != 0x07 && d[k] != ESC && !is_c1_code_spec(d[k]),
    ensures
        osc_end(d, i) == Some((j, j + 1)),
    decreases j - i,
{
    if i < j {
        lemma_osc_end_at_bel(d, i + 1, j);
    }
}

/// The string scanner runs over bytes that cannot end a string up to `ESC \`.
proof fn lemma_st_end_at_st(d: Seq<u8>, i: int, j: int)
    requires
        0 <= i <= j,
        j + 1 < d.len(),
        d[j] == ESC,
        d[j + 1] == 0x5c,
        forall|k: int| i <= k < j ==> d[k] != ESC && d[k] != 0x9c,
    ensures
        st_end(d, i) == j + 2,
    decreases j - i,
{
    if i < j {
        lemma_st_end_at_st(d, i + 1, j);
    }
}

/// The CSI scanner runs over parameter bytes up to a final byte.
pub proof fn lemma_csi_end_at_final(d: Seq<u8>, i: int, j: int)
    requires
        0 <= i <= j < d.len(),
        is_final_byte(d[j]),
        forall|k: int| i <= k < j ==> is_param_byte(d[k]),
    ensures
        csi_end(d, i) == Some(j),
    decreases j - i,
{
    if i < j {
        assert(is_param_byte(d[i]) && !is_final_byte(d[i]));
        lemma_csi_end_at_final(d, i + 1, j);
    }
}

/// Sanitizing a blocked token followed by `rest` is sanitizing `rest`; a kept
/// token is followed by the sanitized rest.
proof fn lemma_sanitize_first_token(s: Seq<u8>, n: int, rest: Seq<u8>)
    requires
        s.len() > 0,
        token(s).1 == n,
        s.skip(n) == rest,
    ensures
        !token(s).0 ==> sanitize_spec(s) == sanitize_spec(rest),
        token(s).0 ==> sanitize_spec(s) == s.take(n) + sanitize_spec(rest),
{
    lemma_token_bounds(s);
    if !token(s).0 {
        assert(Seq::<u8>::empty() + sanitize_spec(rest) == sanitize_spec(rest));
    }
}

/// An OSC sequence with the given number bytes, `;`, a payload and BEL.
pub open spec fn osc_sequence(number: Seq<u8>, payload: Seq<u8>) -> Seq<u8> {
    seq![ESC, 0x5du8] + number + seq![0x3bu8] + payload + seq![0x07u8]
}

/// A payload that cannot end or interrupt an OSC sequence early.
pub open spec fn osc_payload(p: Seq<u8>) -> bool {
    forall|k: int| 0 <= k < p.len() ==> p[k] != 0x07 && p[k] != ESC && !is_c1_code_spec(p[k])
}

/// An OSC sequence whose number bytes are the decimal form of `value` (one or
/// two digits), with a payload that cannot end it early, is classified by
/// `value` and runs to its BEL.
pub proof fn lemma_osc_sequence_classified(number: Seq<u8>, payload: Seq<u8>, rest: Seq<u8>, value: nat)
    requires
        osc_payload(payload),
        1 <= number.len() <= 2,
        forall|k: int| 0 <= k < number.len() ==> is_digit_byte(#[trigger] number[k]),
        value == (if number.len() == 1 {
            (number[0] - 0x30) as nat
        } else {
            ((number[0] - 0x30) * 10 + (number[1] - 0x30)) as nat
        }),
    ensures
        classify_osc_spec((osc_sequence(number, payload) + rest).skip(2)) == Some(
            (action_of(is_safe_osc_number(value)), number.len() + payload.len() + 2int),
        ),
        (osc_sequence(number, payload) + rest).skip(number.len() + payload.len() + 4int) == rest,
{
    let s = osc_sequence(number, payload) + rest;
    let d = s.skip(2);
    let m = number.len() as int;
    let j = m + 1 + payload.len();
    assert forall|k: int| 0 <= k < j implies d[k] != 0x07 && d[k] != ESC && !is_c1_code_spec(d[k]) by {
        if k < m {
            assert(d[k] == number[k]);
        } else if k == m {
            assert(d[k] == 0x3b);
        } else {
            assert(d[k] == payload[k - m - 1]);
        }
    }
    assert(d[j] == 0x07);
    lemma_osc_end_at_bel(d, 0, j);
    let c = d.take(j);
    assert(c[m] == 0x3b);
    if m == 1 {
        assert(leading_number(c, 1, (c[0] - 0x30) as nat) == (c[0] - 0x30) as nat);
    } else {
        assert(leading_number(c, 2, ((c[0] - 0x30) * 10 + (c[1] - 0x30)) as nat) == value);
        assert(leading_number(c, 1, (c[0] - 0x30) as nat) == value);
    }
    assert(value < 0x1_0000_0000);
    assert(osc_number(c) == value);
    assert(s.skip(j + 3) =~= rest);
}

proof fn lemma_osc_blocked(number: Seq<u8>, payload: Seq<u8>, rest: Seq<u8>, value: nat)
    requires
        osc_payload(payload),
        1 <= number.len() <= 2,
        forall|k: int| 0 <= k < number.len() ==> is_digit_byte(#[trigger] number[k]),
        value == (if number.len() == 1 {
            (number[0] - 0x30) as nat
        } else {
            ((number[0] - 0x30) * 10 + (number[1] - 0x30)) as nat
        }),
        !is_safe_osc_number(value),
    ensures
        sanitize_spec(osc_sequence(number, payload) + rest) == sanitize_spec(rest),
{
    let s = osc_sequence(number, payload) + rest;
    let n = number.len() + payload.len() + 4int;
    lemma_osc_sequence_classified(number, payload, rest, value);
    assert(token(s) == (false, n));
    lemma_sanitize_first_token(s, n, rest);
}

/// A clipboard write (OSC 52) is removed entirely, whatever its payload, and
/// what follows it is sanitized as if it were not there.
pub proof fn law_clipboard_write_removed(payload: Seq<u8>, rest: Seq<u8>)
    requires
        osc_payload(payload),
    ensures
        sanitize_spec(osc_sequence(seq![0x35u8, 0x32u8], payload) + rest) == sanitize_spec(rest),
{
    lemma_osc_blocked(seq![0x35u8, 0x32u8], payload, rest, 52);
}

/// A working-directory report (OSC 7) is removed entirely, and what follows
/// it is sanitized as if it were not there.
pub proof fn law_directory_report_removed(payload: Seq<u8>, rest: Seq<u8>)
    requires
        osc_payload(payload),
    ensures
        sanitize_spec(osc_sequence(seq![0x37u8], payload) + rest) == sanitize_spec(rest),
{
    lemma_osc_blocked(seq![0x37u8], payload, rest, 7);
}

/// An OSC sequence whose number is on the allowlist (a window title, a
/// hyperlink, a colour query, ...) is kept as it is, whatever its payload.
pub proof fn law_allowed_osc_kept(number: Seq<u8>, payload: Seq<u8>, rest: Seq<u8>, value: nat)
    requires
        osc_payload(payload),
        1 <= number.len() <= 2,
        forall|k: int| 0 <= k < number.len() ==> is_digit_byte(#[trigger] number[k]),
        value == (if number.len() == 1 {
            (number[0] - 0x30) as nat
        } else {
            ((number[0] - 0x30) * 10 + (number[1] - 0x30)) as nat
        }),
        is_safe_osc_number(value),
    ensures
        sanitize_spec(osc_sequence(number, payload) + rest) == osc_sequence(number, payload)
            + sanitize_spec(rest),
{
    let s = osc_sequence(number, payload) + rest;
    let n = number.len() + payload.len() + 4int;
    lemma_osc_sequence_classified(number, payload, rest, value);
    assert(token(s) == (true, n));
    lemma_sanitize_first_token(s, n, rest);
    assert(s.take(n) =~= osc_sequence(number, payload));
}

/// A DCS, PM or APC string (`ESC P`, `ESC ^`, `ESC _`) ended by `ESC \` is
/// removed entirely, and what follows it is sanitized as if it were not there.
pub proof fn law_string_sequences_removed(introducer: u8, payload: Seq<u8>, rest: Seq<u8>)
    requires
        introducer == 0x50 || introducer == 0x5e || introducer == 0x5f,
        forall|k: int| 0 <= k < payload.len() ==> payload[k] != ESC && payload[k] != 0x9c,
    ensures
        sanitize_spec(seq![ESC, introducer] + payload + seq![ESC, 0x5cu8] + rest) == sanitize_spec(rest),
{
    let s = seq![ESC, introducer] + payload + seq![ESC, 0x5cu8] + rest;
    let d = s.skip(2);
    let j = payload.len() as int;
    assert forall|k: int| 0 <= k < j implies d[k] != ESC && d[k] != 0x9c by {
        assert(d[k] == payload[k]);
    }
    lemma_st_end_at_st(d, 0, j);
    assert(token(s) == (false, j + 4));
    assert(s.skip(j + 4) =~= rest);
    lemma_sanitize_first_token(s, j + 4, rest);
}

/// A colour or style sequence (SGR, `ESC [ parameters m`) is kept as it is.
pub proof fn law_sgr_kept(params: Seq<u8>, rest: Seq<u8>)
    requires
        forall|k: int| 0 <= k < params.len() ==> is_param_byte(#[trigger] params[k]),
    ensures
        sanitize_spec(seq![ESC, 0x5bu8] + params + seq![0x6du8] + rest) == seq![ESC, 0x5bu8] + params
            + seq![0x6du8] + sanitize_spec(rest),
{
    let seqn = seq![ESC, 0x5bu8] + params + seq![0x6du8];
    let s = seqn + rest;
    let d = s.skip(2);
    let j = params.len() as int;
    assert forall|k: int| 0 <= k < j implies is_param_byte(d[k]) by {
        assert(d[k] == params[k]);
    }
    assert(d[j] == 0x6d);
    lemma_csi_end_at_final(d, 0, j);
    assert(token(s) == (true, j + 3));
    assert(s.skip(j + 3) =~= rest);
    assert(s.take(j + 3) =~= seqn);
    lemma_sanitize_first_token(s, j + 3, rest);
}

/// The CSI final bytes the sanitizer documents as safe: `m` (SGR), `A`-`H`
/// (cursor movement), `J` `K` (erase), `S` `T` (scroll), `L` `M` `P` `X` `@`
/// (insert/delete), `r` (scrolling region), `h` `l` (set/reset mode), `d` `f`
/// (absolute positioning).
pub open spec fn documented_safe_final(b: u8) -> bool {
    b == 'm' as u8 || b == 'A' as u8 || b == 'B' as u8 || b == 'C' as u8 || b == 'D' as u8 || b
        == 'E' as u8 || b == 'F' as u8 || b == 'G' as u8 || b == 'H' as u8 || b == 'J' as u8 || b
        == 'K' as u8 || b == 'S' as u8 || b == 'T' as u8 || b == 'L' as u8 || b == 'M' as u8 || b
        == 'P' as u8 || b == 'X' as u8 || b == '@' as u8 || b == 'r' as u8 || b == 'h' as u8 || b
        == 'l' as u8 || b == 'd' as u8 || b == 'f' as u8
}

/// A control sequence `ESC [ parameters final` with a documented safe final
/// (a colour, a cursor move such as hiding the cursor with `?25l`, an erase,
/// ...) is kept as it is, and what follows it is sanitized on its own.
pub proof fn law_safe_csi_kept(params: Seq<u8>, final_byte: u8, rest: Seq<u8>)
    requires
        forall|k: int| 0 <= k < params.len() ==> 0x20 <= #[trigger] params[k] <= 0x3f,
        documented_safe_final(final_byte),
    ensures
        sanitize_spec(seq![ESC, '[' as u8] + params + seq![final_byte] + rest) == seq![ESC, '[' as u8]
            + params + seq![final_byte] + sanitize_spec(rest),
{
    let seqn = seq![ESC, 0x5bu8] + params + seq![final_byte];
    let s = seqn + rest;
    let d = s.skip(2);
    let j = params.len() as int;
    assert forall|k: int| 0 <= k < j implies is_param_byte(d[k]) by {
        assert(d[k] == params[k]);
    }
    assert(d[j] == final_byte);
    lemma_csi_end_at_final(d, 0, j);
    assert(token(s) == (true, j + 3));
    assert(s.skip(j + 3) =~= rest);
    assert(s.take(j + 3) =~= seqn);
    lemma_sanitize_first_token(s, j + 3, rest);
}

/// A status report request (`ESC [ parameters n`) or a window manipulation
/// (`ESC [ parameters t`) is removed entirely, and what follows it is
/// sanitized as if it were not there.
pub proof fn law_report_and_window_csi_removed(params: Seq<u8>, final_byte: u8, rest: Seq<u8>)
    requires
        forall|k: int| 0 <= k < params.len() ==> 0x20 <= #[trigger] params[k] <= 0x3f,
        final_byte == 'n' as u8 || final_byte == 't' as u8,
    ensures
        sanitize_spec(seq![ESC, '[' as u8] + params + seq![final_byte] + rest) == sanitize_spec(rest),
{
    let seqn = seq![ESC, 0x5bu8] + params + seq![final_byte];
    let s = seqn + rest;
    let d = s.skip(2);
    let j = params.len() as int;
    assert forall|k: int| 0 <= k < j implies is_param_byte(d[k]) by {
        assert(d[k] == params[k]);
    }
    assert(d[j] == final_byte);
    lemma_csi_end_at_final(d, 0, j);
    assert(token(s) == (false, j + 3));
    assert(s.skip(j + 3) =~= rest);
    lemma_sanitize_first_token(s, j + 3, rest);
}

/// The byte scanner runs over bytes that do not satisfy `p` up to one that does.
proof fn lemma_find_byte_at(d: Seq<u8>, i: int, j: int, p: spec_fn(u8) -> bool)
    requires
        0 <= i <= j < d.len(),
        p(d[j]),
        forall|k: int| i <= k < j ==> !p(#[trigger] d[k]),
    ensures
        find_byte(d, i, p) == Some(j),
    decreases j - i,
{
    if i < j {
        lemma_find_byte_at(d, i + 1, j, p);
    }
}

/// An 8-bit CSI sequence (0x9B, parameters, final byte) is removed entirely,
/// whatever its final byte, and what follows it is sanitized as if it were not
/// there.
pub proof fn law_c1_csi_removed(params: Seq<u8>, final_byte: u8, rest: Seq<u8>)
    requires
        forall|k: int| 0 <= k < params.len() ==> !is_final_byte(#[trigger] params[k]),
        is_final_byte(final_byte),
    ensures
        sanitize_spec(seq![0x9bu8] + params + seq![final_byte] + rest) == sanitize_spec(rest),
{
    let s = seq![0x9bu8] + params + seq![final_byte] + rest;
    let j = params.len() as int + 1;
    assert forall|k: int| 1 <= k < j implies !final_pred()(#[trigger] s[k]) by {
        assert(s[k] == params[k - 1]);
    }
    assert(final_pred()(s[j]));
    lemma_find_byte_at(s, 1, j, final_pred());
    assert(token(s) == (false, j + 1));
    assert(s.skip(j + 1) =~= rest);
    lemma_sanitize_first_token(s, j + 1, rest);
}

/// An 8-bit DCS, OSC, PM or APC string (0x90, 0x9D, 0x9E, 0x9F) ended by the
/// 8-bit string terminator is removed entirely, and what follows it is
/// sanitized as if it were not there.
pub proof fn law_c1_string_removed(introducer: u8, payload: Seq<u8>, rest: Seq<u8>)
    requires
        introducer == 0x90 || introducer == 0x9d || introducer == 0x9e || introducer == 0x9f,
        forall|k: int| 0 <= k < payload.len() ==> #[trigger] payload[k] != 0x9c,
    ensures
        sanitize_spec(seq![introducer] + payload + seq![0x9cu8] + rest) == sanitize_spec(rest),
{
    let s = seq![introducer] + payload + seq![0x9cu8] + rest;
    let j = payload.len() as int + 1;
    assert forall|k: int| 1 <= k < j implies !st8_pred()(#[trigger] s[k]) by {
        assert(s[k] == payload[k - 1]);
    }
    assert(st8_pred()(s[j]));
    lemma_find_byte_at(s, 1, j, st8_pred());
    assert(token(s) == (false, j + 1));
    assert(s.skip(j + 1) =~= rest);
    lemma_sanitize_first_token(s, j + 1, rest);
}

// ---------------------------------------------------------------------------
// What never reaches the terminal
// ---------------------------------------------------------------------------

/// The bytes of a CSI body before its final byte are neither ESC nor C1 bytes.
pub proof fn lemma_csi_end_clean(d: Seq<u8>, i: int)
    requires
        0 <= i,
    ensures
        csi_end(d, i) matches Some(j) ==> forall|k: int|
            i <= k < j ==> d[k] != ESC && !is_c1_code_spec(#[trigger] d[k]),
    decreases d.len() - i,
{
    if 0 <= i < d.len() && !is_final_byte(d[i]) && !((i > 0 && !is_param_byte(d[i])) || d[i] == ESC
        || is_c1_code_spec(d[i])) {
        lemma_csi_end_clean(d, i + 1);
    }
}

/// The content of an OSC body is free of ESC and C1 bytes; a terminated body
/// ends with BEL or `ESC \`.
pub proof fn lemma_osc_end_clean(d: Seq<u8>, i: int)
    requires
        0 <= i,
    ensures
        osc_end(d, i) matches Some((c, m)) ==> (forall|k: int|
            i <= k < c ==> d[k] != ESC && !is_c1_code_spec(#[trigger] d[k])) && (c < m ==> ((m == c
            + 1 && d[c] == 0x07) || (m == c + 2 && d[c] == ESC && d[c + 1] == 0x5c))),
    decreases d.len() - i,
{
    if 0 <= i < d.len() && d[i] != 0x07 && !(d[i] == ESC && i + 1 < d.len() && d[i + 1] == 0x5c)
        && !(d[i] == ESC || is_c1_code_spec(d[i])) {
        lemma_osc_end_clean(d, i + 1);
    }
}

/// A kept token holds no C1 byte; an ESC in it starts it or starts its
/// closing `ESC \`; and a kept token that starts `ESC ]` is not followed, in
/// its own bytes, by `52;`.
proof fn lemma_kept_token_clean(s: Seq<u8>)
    requires
        s.len() > 0,
        token(s).0,
    ensures
        forall|k: int| 0 <= k < token(s).1 ==> !is_c1_code_spec(#[trigger] s[k]),
        forall|k: int|
            0 < k < token(s).1 && #[trigger] s[k] == ESC ==> k + 1 < token(s).1 && s[k + 1] == 0x5c,
        s[0] == ESC ==> token(s).1 >= 2,
        s[0] == ESC && s[1] == 0x5d ==> exists|p: int|
            2 <= p <= 4 && p < token(s).1 && #[trigger] s[p] != clipboard_byte(p),
{
    lemma_token_bounds(s);
    let n = token(s).1;
    if s[0] == ESC {
        lemma_classify_escape_bounds(s);
        let d = s.skip(2);
        if s[1] == 0x5b {
            lemma_csi_end_clean(d, 0);
            lemma_csi_end_bounds(d, 0);
            let j = csi_end(d, 0)->0;
            assert forall|k: int| 0 <= k < n implies !is_c1_code_spec(#[trigger] s[k]) by {
                if k >= 2 {
                    assert(s[k] == d[k - 2]);
                }
            }
            assert forall|k: int| 0 < k < n && #[trigger] s[k] == ESC implies k + 1 < n && s[k + 1]
                == 0x5c by {
                assert(k >= 2);
                assert(s[k] == d[k - 2]);
            }
        } else if s[1] == 0x5d {
            lemma_osc_end_clean(d, 0);
            lemma_osc_end_bounds(d, 0);
            let (c, m) = osc_end(d, 0)->0;
            assert(c < m);
            assert forall|k: int| 0 <= k < n implies !is_c1_code_spec(#[trigger] s[k]) by {
                if k >= 2 {
                    assert(s[k] == d[k - 2]);
                }
            }
            assert forall|k: int| 0 < k < n && #[trigger] s[k] == ESC implies k + 1 < n && s[k + 1]
                == 0x5c by {
                assert(k >= 2);
                assert(s[k] == d[k - 2]);
                assert(k - 2 >= c);
                assert(s[k + 1] == d[k - 1]);
            }
            if c >= 3 {
                let ct = d.take(c);
                if s[2] == 0x35 && s[3] == 0x32 && s[4] == 0x3b {
                    assert(ct[0] == 0x35 && ct[1] == 0x32 && ct[2] == 0x3b);
                    assert(leading_number(ct, 2, 52) == 52);
                    assert(leading_number(ct, 1, 5) == 52);
                    assert(osc_number(ct) == 52);
                    assert(false);
                }
                if s[2] != 0x35 {
                    assert(s[2] != clipboard_byte(2));
                } else if s[3] != 0x32 {
                    assert(s[3] != clipboard_byte(3));
                } else {
                    assert(s[4] != clipboard_byte(4));
                }
            } else {
                let p = 2 + c;
                assert(s[p] == d[c]);
                assert(s[p] != clipboard_byte(p));
            }
        } else {
            assert(n == 2);
        }
    }
}

/// The bytes of an OSC 52 introducer `ESC ] 5 2 ;`, by position.
pub open spec fn clipboard_byte(p: int) -> u8 {
    if p == 0 {
        ESC
    } else if p == 1 {
        0x5du8
    } else if p == 2 {
        0x35u8
    } else if p == 3 {
        0x32u8
    } else {
        0x3bu8
    }
}

/// `o` holds an OSC 52 introducer `ESC ] 5 2 ;` at position `k`.
pub open spec fn clipboard_write_at(o: Seq<u8>, k: int) -> bool {
    0 <= k && k + 5 <= o.len() && forall|p: int| 0 <= p < 5 ==> o[k + p] == #[trigger] clipboard_byte(p)
}

/// No 8-bit C1 control code ever reaches the terminal.
pub proof fn law_no_c1_code_in_output(s: Seq<u8>)
    ensures
        forall|k: int|
            0 <= k < sanitize_spec(s).len() ==> !is_c1_code_spec(#[trigger] sanitize_spec(s)[k]),
    decreases s.len(),
{
    if s.len() > 0 {
        lemma_token_bounds(s);
        let (keep, n) = token(s);
        let rest = s.skip(n);
        law_no_c1_code_in_output(rest);
        if keep {
            lemma_kept_token_clean(s);
            let o = sanitize_spec(s);
            assert(o == s.take(n) + sanitize_spec(rest));
            assert forall|k: int| 0 <= k < o.len() implies !is_c1_code_spec(#[trigger] o[k]) by {
                if k < n {
                    assert(o[k] == s[k]);
                } else {
                    assert(o[k] == sanitize_spec(rest)[k - n]);
                }
            }
        }
    }
}

/// An OSC sequence `s` (`ESC ]` and a body) that is let through, of `m`
/// bytes: an ESC in it after the first byte starts its closing `ESC \`, and it
/// does not start as a clipboard write.
pub proof fn lemma_allowed_osc_shape(s: Seq<u8>, m: int)
    requires
        s.len() >= 2,
        s[0] == ESC,
        s[1] == 0x5d,
        classify_osc_spec(s.skip(2)) == Some((EscapeAction::Allow, m - 2)),
    ensures
        3 <= m <= s.len(),
        forall|k: int| 0 < k < m && #[trigger] s[k] == ESC ==> k + 1 < m && s[k + 1] == 0x5c,
        exists|p: int| 2 <= p <= 4 && p < m && #[trigger] s[p] != clipboard_byte(p),
{
    let d = s.skip(2);
    lemma_osc_end_clean(d, 0);
    lemma_osc_end_bounds(d, 0);
    let (c, mm) = osc_end(d, 0)->0;
    assert(mm == m - 2);
    assert(c < mm);
    assert forall|k: int| 0 < k < m && #[trigger] s[k] == ESC implies k + 1 < m && s[k + 1] == 0x5c by {
        assert(k >= 2);
        assert(s[k] == d[k - 2]);
        assert(k - 2 >= c);
        assert(s[k + 1] == d[k - 1]);
    }
    if c >= 3 {
        let ct = d.take(c);
        if s[2] == 0x35 && s[3] == 0x32 && s[4] == 0x3b {
            assert(ct[0] == 0x35 && ct[1] == 0x32 && ct[2] == 0x3b);
            assert(leading_number(ct, 2, 52) == 52);
            assert(leading_number(ct, 1, 5) == 52);
            assert(osc_number(ct) == 52);
            assert(false);
        }
        if s[2] != 0x35 {
            assert(s[2] != clipboard_byte(2));
        } else if s[3] != 0x32 {
            assert(s[3] != clipboard_byte(3));
        } else {
            assert(s[4] != clipboard_byte(4));
        }
    } else {
        let p = 2 + c;
        assert(s[p] == d[c]);
        assert(s[p] != clipboard_byte(p));
    }
}

pub proof fn lemma_clipboard_bytes(o: Seq<u8>, k: int)
    requires
        clipboard_write_at(o, k),
    ensures
        0 <= k && k + 5 <= o.len(),
        o[k] == ESC,
        o[k + 1] == 0x5d,
        o[k + 2] == 0x35,
        o[k + 3] == 0x32,
        o[k + 4] == 0x3b,
{
    assert(o[k + 0] == clipboard_byte(0));
    assert(o[k + 1] == clipboard_byte(1));
    assert(o[k + 2] == clipboard_byte(2));
    assert(o[k + 3] == clipboard_byte(3));
    assert(o[k + 4] == clipboard_byte(4));
}

/// A kept token followed by text without a clipboard write holds none.
proof fn lemma_kept_token_then_clean(s: Seq<u8>, r: Seq<u8>, k: int)
    requires
        s.len() > 0,
        token(s).0,
        1 <= token(s).1 <= s.len(),
        forall|q: int| !clipboard_write_at(r, q),
    ensures
        !clipboard_write_at(s.take(token(s).1) + r, k),
{
    let n = token(s).1;
    let o = s.take(n) + r;
    lemma_kept_token_clean(s);
    if clipboard_write_at(o, k) {
        lemma_clipboard_bytes(o, k);
        if k >= n {
            assert forall|p: int| 0 <= p < 5 implies r[k - n + p] == #[trigger] clipboard_byte(p) by {
                assert(o[k + p] == r[k - n + p]);
                assert(o[k + p] == clipboard_byte(p));
            }
            assert(clipboard_write_at(r, k - n));
        } else if k > 0 {
            assert(o[k] == s[k]);
            assert(s[k] == ESC);
            assert(k + 1 < n && s[k + 1] == 0x5c);
            assert(o[k + 1] == s[k + 1]);
        } else {
            assert(o[0] == s[0]);
            assert(s[0] == ESC);
            assert(n >= 2);
            assert(o[1] == s[1]);
            assert(s[1] == 0x5d);
            let p = choose|p: int| 2 <= p <= 4 && p < n && #[trigger] s[p] != clipboard_byte(p);
            assert(o[p] == s[p]);
            assert(o[0 + p] == clipboard_byte(p));
        }
    }
}

/// No OSC 52 clipboard write, `ESC ] 5 2 ;`, ever reaches the terminal.
pub proof fn law_no_clipboard_write_in_output(s: Seq<u8>)
    ensures
        forall|k: int| !clipboard_write_at(sanitize_spec(s), k),
    decreases s.len(),
{
    if s.len() > 0 {
        lemma_token_bounds(s);
        let (keep, n) = token(s);
        let rest = s.skip(n);
        law_no_clipboard_write_in_output(rest);
        let r = sanitize_spec(rest);
        if keep {
            assert(sanitize_spec(s) == s.take(n) + r);
            assert forall|k: int| !clipboard_write_at(sanitize_spec(s), k) by {
                lemma_kept_token_then_clean(s, r, k);
            }
        } else {
            assert(sanitize_spec(s) == Seq::<u8>::empty() + r);
            assert(Seq::<u8>::empty() + r == r);
        }
    } else {
        assert forall|k: int| !clipboard_write_at(sanitize_spec(s), k) by {
            assert(sanitize_spec(s).len() == 0);
        }
    }
}

} // verus!
