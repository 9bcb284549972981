//! Permissive escape-sequence sanitizer.
//!
//! Removed are OSC 52 (clipboard manipulation), OSC 7 (working directory
//! reporting), unknown OSC numbers and OSC bodies interrupted by an escape,
//! device status reports (`ESC [ ... n`), an ESC directly followed by another
//! ESC, and the ESC of an unterminated OSC sequence.  Other CSI sequences,
//! two-byte escapes and incomplete sequences pass through.
use vstd::prelude::*;

use crate::seqs::{is_subsequence, lemma_subsequence_common_prefix, lemma_subsequence_prepend};
use crate::terminal::sanitizer::{
    classify_osc, classify_osc_spec, clipboard_byte, clipboard_write_at, csi_end, is_digit_byte,
    is_param_byte, is_safe_osc_number, lemma_allowed_osc_shape, lemma_clipboard_bytes,
    lemma_csi_end_at_final, lemma_csi_end_bounds, lemma_csi_end_clean, lemma_osc_end_bounds,
    lemma_osc_sequence_classified, lift, osc_payload, osc_sequence, shift, EscapeAction, ESC,
};

verus! {

/// The final byte of a device status report (`ESC [ ... n`).
pub const DSR_FINAL: u8 = 0x6e;

/// Classification of a CSI body: every complete CSI sequence is allowed but a
/// device status report.
pub open spec fn classify_csi_spec(d: Seq<u8>) -> Option<(EscapeAction, int)> {
    match csi_end(d, 0) {
        Some(j) => Some(
            (
                if d[j] == DSR_FINAL {
                    EscapeAction::Block
                } else {
                    EscapeAction::Allow
                },
                j + 1,
            ),
        ),
        None => None,
    }
}

/// Classification of an escape sequence `d` (with `d[0] == ESC`).  An ESC
/// followed by another ESC is dropped on its own, so that it cannot hide the
/// sequence the second one starts.
pub open spec fn classify_escape_spec(d: Seq<u8>) -> Option<(EscapeAction, int)> {
    if d.len() < 2 {
        None
    } else if d[1] == ESC {
        Some((EscapeAction::Block, 1))
    } else if d[1] == 0x5b {
        shift(classify_csi_spec(d.skip(2)), 2)
    } else if d[1] == 0x5d {
        shift(classify_osc_spec(d.skip(2)), 2)
    } else {
        Some((EscapeAction::Allow, 2))
    }
}

/// The first token of non-empty input `s`: whether it is kept, and its length.
/// An escape that does not complete is kept as a single byte, except the start
/// of an OSC sequence, whose ESC is dropped.
pub open spec fn token(s: Seq<u8>) -> (bool, int) {
    if s[0] == ESC {
        match classify_escape_spec(s) {
            Some((a, n)) => (a == EscapeAction::Allow, n),
            None => (!(s.len() >= 2 && s[1] == 0x5d), 1),
        }
    } else {
        (true, 1)
    }
}

pub proof fn lemma_token_bounds(s: Seq<u8>)
    requires
        s.len() > 0,
    ensures
        1 <= token(s).1 <= s.len(),
{
    if s.len() >= 2 {
        lemma_csi_end_bounds(s.skip(2), 0);
        lemma_osc_end_bounds(s.skip(2), 0);
    }
}

/// The sanitized form of `s`: the kept tokens, in order.
pub open spec fn sanitize_spec(s: Seq<u8>) -> Seq<u8>
    decreases s.len(),
{
    if s.len() == 0 {
        Seq::empty()
    } else {
        let (keep, n) = token(s);
        proof {
            lemma_token_bounds(s);
        }
        (if keep {
            s.take(n)
        } else {
            Seq::empty()
        }) + sanitize_spec(s.skip(n))
    }
}

/// Sanitize terminal output by removing dangerous escape sequences
pub fn sanitize_output(input: &[u8]) -> (output: Vec<u8>)
    ensures
        output@ == sanitize_spec(input@),
{
    let mut output: Vec<u8> = Vec::with_capacity(input.len());
    let mut i: usize = 0;
    let len = input.len();
    assert(input@.skip(0) == input@);
    while i < len
        invariant
            len == input@.len(),
            i <= len,
            output@ + sanitize_spec(input@.skip(i as int)) == sanitize_spec(input@),
        decreases len - i,
    {
        let rest = &input[i..len];
        assert(rest@ == input@.skip(i as int));
        let ghost s = rest@;
        proof {
            lemma_token_bounds(s);
            assert(s.skip(token(s).1) == input@.skip(i + token(s).1));
        }
        if input[i] == ESC {
            // Start of escape sequence
            match classify_escape(rest) {
                Some((action, advance)) => {
                    match action {
                        EscapeAction::Allow => {
                            let ghost before = output@;
                            output.extend_from_slice(&input[i..i + advance]);
                            assert(output@ == before + s.take(advance as int));
                        },
                        EscapeAction::Block => {
                            // Skip the sequence entirely
                        },
                    }
                    i = i + advance;
                },
                None => {
                    // Incomplete: pass through the single ESC, unless it
                    // starts an OSC sequence
                    if !(i + 1 < len && input[i + 1] == 0x5d) {
                        output.push(input[i]);
                        assert(s.take(1) == seq![input@[i as int]]);
                    }
                    i = i + 1;
                },
            }
        } else {
            output.push(input[i]);
            assert(s.take(1) == seq![input@[i as int]]);
            i = i + 1;
        }
    }
    assert(input@.skip(len as int) == Seq::<u8>::empty());
    output
}

/// Classify an escape sequence starting at `data[0] == ESC`.
/// Returns (action, bytes_consumed) or None if incomplete
fn classify_escape(data: &[u8]) -> (r: Option<(EscapeAction, usize)>)
    ensures
        lift(r) == classify_escape_spec(data@),
{
    let len = data.len();
    if len < 2 {
        return None;
    }
    if data[1] == ESC {
        return Some((EscapeAction::Block, 1));
    }
    let rest = &data[2..len];
    assert(rest@ == data@.skip(2));
    if data[1] == 0x5b {
        // CSI sequences: ESC [
        match classify_csi(rest) {
            Some((action, adv)) => Some((action, adv + 2)),
            None => None,
        }
    } else if data[1] == 0x5d {
        // OSC sequences: ESC ]
        match classify_osc(rest) {
            Some((action, adv)) => Some((action, adv + 2)),
            None => None,
        }
    } else {
        // Two-byte escapes
        Some((EscapeAction::Allow, 2))
    }
}

/// Classify a CSI sequence (after ESC [)
fn classify_csi(data: &[u8]) -> (r: Option<(EscapeAction, usize)>)
    ensures
        lift(r) == classify_csi_spec(data@),
        r matches Some((_, n)) ==> n <= data@.len(),
{
    // Find the terminating byte (0x40-0x7E)
    let mut i: usize = 0;
    while i < data.len()
        invariant
            i <= data@.len(),
            csi_end(data@, 0) == csi_end(data@, i as int),
        decreases data@.len() - i,
    {
        let byte = data[i];
        if 0x40 <= byte && byte <= 0x7e {
            // CSI sequences are generally safe (cursor movement, colors,
            // erase), but a device status report is blocked
            let action = if byte == DSR_FINAL {
                EscapeAction::Block
            } else {
                EscapeAction::Allow
            };
            return Some((action, i + 1));
        }
        // Parameter and intermediate bytes continue the sequence; an ESC or
        // C1 byte never belongs to it
        if (!(0x20 <= byte && byte <= 0x3f) && i > 0) || byte == ESC || byte == 0x90 || byte
            == 0x9b || byte == 0x9d || byte == 0x9e || byte == 0x9f {
            return None;
        }
        i = i + 1;
    }
    None  // Incomplete

}

// ---------------------------------------------------------------------------
// Laws
// ---------------------------------------------------------------------------

/// `s` holds a device status report at `k`: `ESC [`, parameters and `n`.
pub open spec fn status_report_at(s: Seq<u8>, k: int) -> bool {
    &&& 0 <= k && k + 1 < s.len()
    &&& s[k] == ESC && s[k + 1] == 0x5b
    &&& csi_end(s.skip(k + 2), 0) matches Some(j) && s.skip(k + 2)[j] == DSR_FINAL
}

/// `s` holds at `k` an OSC sequence that is not let through: an unlisted
/// number (such as 52 or 7), a body interrupted by an escape, or no end.
pub open spec fn blocked_osc_at(s: Seq<u8>, k: int) -> bool {
    &&& 0 <= k && k + 1 < s.len()
    &&& s[k] == ESC && s[k + 1] == 0x5d
    &&& !(classify_osc_spec(s.skip(k + 2)) matches Some((a, _)) && a == EscapeAction::Allow)
}

/// `s` holds a doubled ESC at `k`.
pub open spec fn doubled_escape_at(s: Seq<u8>, k: int) -> bool {
    0 <= k && k + 1 < s.len() && s[k] == ESC && s[k + 1] == ESC
}

/// `s` holds none of the sequences this sanitizer removes.
pub open spec fn has_no_listed_sequence(s: Seq<u8>) -> bool {
    forall|k: int| !status_report_at(s, k) && !blocked_osc_at(s, k) && !doubled_escape_at(s, k)
}

/// Output without device status reports, blocked OSC sequences and doubled
/// escapes passes through unchanged: this sanitizer removes nothing else.
pub proof fn law_only_listed_sequences_removed(s: Seq<u8>)
    requires
        has_no_listed_sequence(s),
    ensures
        sanitize_spec(s) == s,
    decreases s.len(),
{
    if s.len() > 0 {
        lemma_token_bounds(s);
        let (keep, n) = token(s);
        if s[0] == ESC && s.len() >= 2 {
            assert(!status_report_at(s, 0) && !blocked_osc_at(s, 0) && !doubled_escape_at(s, 0));
            if s[1] == 0x5b {
                let d = s.skip(2);
                lemma_csi_end_bounds(d, 0);
            }
        }
        assert(keep);
        let rest = s.skip(n);
        assert(has_no_listed_sequence(rest)) by {
            assert forall|k: int|
                !status_report_at(rest, k) && !blocked_osc_at(rest, k) && !doubled_escape_at(
                    rest,
                    k,
                ) by {
                assert(!status_report_at(s, k + n) && !blocked_osc_at(s, k + n) && !doubled_escape_at(
                    s,
                    k + n,
                ));
                if 0 <= k && k + 1 < rest.len() {
                    assert(rest[k] == s[k + n]);
                    assert(rest[k + 1] == s[k + n + 1]);
                    assert(rest.skip(k + 2) =~= s.skip(k + n + 2));
                }
            }
        }
        law_only_listed_sequences_removed(rest);
        assert(s == s.take(n) + rest);
    }
}

/// A colour or style sequence (SGR, `ESC [ parameters m`) is kept as it is.
pub proof fn law_sgr_kept(params: Seq<u8>, rest: Seq<u8>)
    requires
        forall|k: int| 0 <= k < params.len() ==> is_param_byte(#[trigger] params[k]),
    ensures
        sanitize_spec(seq![ESC, 0x5bu8] + params + seq![0x6du8] + rest) == seq![ESC, 0x5bu8] + params
            + seq![0x6du8] + sanitize_spec(rest),
{
    let seqn = seq![ESC, 0x5bu8] + params + seq![0x6du8];
    let s = seqn + rest;
    let d = s.skip(2);
    let j = params.len() as int;
    assert forall|k: int| 0 <= k < j implies is_param_byte(d[k]) by {
        assert(d[k] == params[k]);
    }
    assert(d[j] == 0x6d);
    lemma_csi_end_at_final(d, 0, j);
    assert(token(s) == (true, j + 3));
    lemma_token_bounds(s);
    assert(s.skip(j + 3) =~= rest);
    assert(s.take(j + 3) =~= seqn);
}

/// An OSC sequence whose number is on the allowlist (a window title, a
/// hyperlink, a colour query, ...) is kept as it is, whatever its payload.
pub proof fn law_allowed_osc_kept(number: Seq<u8>, payload: Seq<u8>, rest: Seq<u8>, value: nat)
    requires
        osc_payload(payload),
        1 <= number.len() <= 2,
        forall|k: int| 0 <= k < number.len() ==> is_digit_byte(#[trigger] number[k]),
        value == (if number.len() == 1 {
            (number[0] - 0x30) as nat
        } else {
            ((number[0] - 0x30) * 10 + (number[1] - 0x30)) as nat
        }),
        is_safe_osc_number(value),
    ensures
        sanitize_spec(osc_sequence(number, payload) + rest) == osc_sequence(number, payload)
            + sanitize_spec(rest),
{
    let s = osc_sequence(number, payload) + rest;
    let n = number.len() + payload.len() + 4int;
    lemma_osc_sequence_classified(number, payload, rest, value);
    assert(token(s) == (true, n));
    lemma_token_bounds(s);
    assert(s.take(n) =~= osc_sequence(number, payload));
}

/// The sanitizer never adds or reorders bytes: its output is obtained from its
/// input by deleting bytes.
pub proof fn law_sanitize_only_deletes(s: Seq<u8>)
    ensures
        is_subsequence(sanitize_spec(s), s),
    decreases s.len(),
{
    if s.len() > 0 {
        lemma_token_bounds(s);
        let (keep, n) = token(s);
        let rest = s.skip(n);
        law_sanitize_only_deletes(rest);
        assert(s == s.take(n) + rest);
        if keep {
            lemma_subsequence_common_prefix(s.take(n), sanitize_spec(rest), rest);
        } else {
            assert(sanitize_spec(s) == sanitize_spec(rest));
            lemma_subsequence_prepend(sanitize_spec(rest), s.take(n), rest);
        }
    }
}

/// A clipboard write (OSC 52) is removed entirely, whatever its payload, and
/// what follows it is sanitized as if it were not there.
pub proof fn law_clipboard_write_removed(payload: Seq<u8>, rest: Seq<u8>)
    requires
        osc_payload(payload),
    ensures
        sanitize_spec(osc_sequence(seq![0x35u8, 0x32u8], payload) + rest) == sanitize_spec(rest),
{
    let number = seq![0x35u8, 0x32u8];
    let s = osc_sequence(number, payload) + rest;
    let n = payload.len() + 6int;
    lemma_osc_sequence_classified(number, payload, rest, 52);
    assert(token(s) == (false, n));
    lemma_token_bounds(s);
    assert(Seq::<u8>::empty() + sanitize_spec(rest) == sanitize_spec(rest));
}

/// A working-directory report (OSC 7) is removed entirely, and what follows
/// it is sanitized as if it were not there.
pub proof fn law_directory_report_removed(payload: Seq<u8>, rest: Seq<u8>)
    requires
        osc_payload(payload),
    ensures
        sanitize_spec(osc_sequence(seq![0x37u8], payload) + rest) == sanitize_spec(rest),
{
    let number = seq![0x37u8];
    let s = osc_sequence(number, payload) + rest;
    let n = payload.len() + 5int;
    lemma_osc_sequence_classified(number, payload, rest, 7);
    assert(token(s) == (false, n));
    lemma_token_bounds(s);
    assert(Seq::<u8>::empty() + sanitize_spec(rest) == sanitize_spec(rest));
}

/// A kept token: an ESC in it after the first byte starts a closing
/// `ESC \`; a kept lone ESC is the last byte or is followed by a byte that is
/// neither ESC nor `]`; and a longer escape that starts `ESC ]` does not start
/// as a clipboard write.
proof fn lemma_kept_token_shape(s: Seq<u8>)
    requires
        s.len() > 0,
        token(s).0,
    ensures
        forall|k: int|
            0 < k < token(s).1 && #[trigger] s[k] == ESC ==> k + 1 < token(s).1 && s[k + 1] == 0x5c,
        s[0] == ESC && token(s).1 == 1 ==> s.len() == 1 || (s[1] != ESC && s[1] != 0x5d),
        s[0] == ESC && token(s).1 >= 2 && s[1] == 0x5d ==> exists|p: int|
            2 <= p <= 4 && p < token(s).1 && #[trigger] s[p] != clipboard_byte(p),
{
    lemma_token_bounds(s);
    let n = token(s).1;
    if s[0] == ESC && s.len() >= 2 && s[1] != ESC {
        let d = s.skip(2);
        if s[1] == 0x5b {
            lemma_csi_end_clean(d, 0);
            lemma_csi_end_bounds(d, 0);
            assert forall|k: int| 0 < k < n && #[trigger] s[k] == ESC implies k + 1 < n && s[k + 1]
                == 0x5c by {
                assert(k >= 2);
                assert(s[k] == d[k - 2]);
            }
        } else if s[1] == 0x5d {
            lemma_osc_end_bounds(d, 0);
            if n >= 2 {
                lemma_allowed_osc_shape(s, n);
            }
        }
    }
}

/// The first byte of `s`, when it is not an ESC, is the first byte of its
/// sanitized form.
proof fn lemma_plain_first_byte(s: Seq<u8>)
    requires
        s.len() > 0,
        s[0] != ESC,
    ensures
        sanitize_spec(s).len() > 0,
        sanitize_spec(s)[0] == s[0],
{
    lemma_token_bounds(s);
    assert(token(s) == (true, 1int));
    assert(sanitize_spec(s) == s.take(1) + sanitize_spec(s.skip(1)));
}

/// No OSC 52 clipboard write, `ESC ] 5 2 ;`, ever reaches the terminal.
#[verifier::spinoff_prover]
pub proof fn law_no_clipboard_write_in_output(s: Seq<u8>)
    ensures
        forall|k: int| !clipboard_write_at(sanitize_spec(s), k),
    decreases s.len(),
{
    if s.len() > 0 {
        lemma_token_bounds(s);
        let (keep, n) = token(s);
        let rest = s.skip(n);
        law_no_clipboard_write_in_output(rest);
        let r = sanitize_spec(rest);
        if keep {
            lemma_kept_token_shape(s);
            let o = s.take(n) + r;
            assert(sanitize_spec(s) == o);
            assert forall|k: int| !clipboard_write_at(o, k) by {
                if clipboard_write_at(o, k) {
                    lemma_clipboard_bytes(o, k);
                    if k >= n {
                        assert forall|p: int| 0 <= p < 5 implies r[k - n + p] == #[trigger] clipboard_byte(
                            p,
                        ) by {
                            assert(o[k + p] == r[k - n + p]);
                            assert(o[k + p] == clipboard_byte(p));
                        }
                        assert(clipboard_write_at(r, k - n));
                    } else if k > 0 {
                        assert(o[k] == s[k]);
                        assert(o[k + 1] == s[k + 1]);
                    } else {
                        assert(o[0] == s[0]);
                        if n == 1 {
                            if s.len() == 1 {
                                assert(rest.len() == 0);
                                assert(r.len() == 0);
                            } else {
                                assert(rest[0] == s[1]);
                                lemma_plain_first_byte(rest);
                                assert(o[1] == r[0]);
                            }
                        } else {
                            assert(o[1] == s[1]);
                            let p = choose|p: int| 2 <= p <= 4 && p < n && #[trigger] s[p] != clipboard_byte(p);
                            assert(o[p] == s[p]);
                            assert(o[0 + p] == clipboard_byte(p));
                        }
                    }
                }
            }
        } else {
            assert(sanitize_spec(s) == Seq::<u8>::empty() + r);
            assert(Seq::<u8>::empty() + r == r);
        }
    } else {
        assert forall|k: int| !clipboard_write_at(sanitize_spec(s), k) by {
            assert(sanitize_spec(s).len() == 0);
        }
    }
}

} // verus!
