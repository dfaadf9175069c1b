//! `io`: raw input into a pane, and the pane log read back out.
use vstd::prelude::*;
use vstd::utf8::encode_utf8;
use crate::base64::{encode, spec_encode};
use crate::shell::{quote, spec_quote};
use crate::text::{decimal, decimal_string};
use super::shared::{preamble, spec_preamble, FLOCK_PREFLIGHT, RESOLVE_FUNC, TMUX_PREFLIGHT};

verus! {

/// What `send` injects: raw text, raw text followed by Enter, or one key name.
#[derive(Clone, Copy, PartialEq, Eq, Structural)]
pub enum SendKind {
    Data,
    DataEnter,
    Key,
}

/// The page size a read asks for: `0` means the default of 256 KiB.
pub open spec fn spec_page_limit(max_bytes: usize) -> nat {
    if max_bytes == 0 {
        262144
    } else {
        max_bytes as nat
    }
}

fn page_limit(max_bytes: usize) -> (r: u64)
    ensures
        r as nat == spec_page_limit(max_bytes),
{
    if max_bytes == 0 {
        262144
    } else {
        max_bytes as u64
    }
}

/// The program [`send`] builds.
pub open spec fn spec_send(name_or_id: &str, kind: SendKind, payload: &str) -> Seq<char> {
    (spec_preamble())
    + (RESOLVE_FUNC@)
    + "RHOST_RESOLVE "@
    + (spec_quote(name_or_id@))
    + " || { echo RHOST_ERR=nosession; exit 0; }\n"@
    + (TMUX_PREFLIGHT@)
    + (FLOCK_PREFLIGHT@)
    + "DIR=\"$RHOST_DIR\"; TMUX=\"$RHOST_TMUX\"; LOCK=\"$DIR/lock\"\nexec 9>\"$LOCK\" || { echo RHOST_ERR=nosession; exit 0; }\nflock -n 9 || { echo RHOST_ERR=locked; exit 0; }\ntmux has-session -t \"$TMUX\" 2>/dev/null || { echo RHOST_ERR=nosession; exit 0; }\nBUF=rhost_send_$$\ncleanup() { tmux delete-buffer -b \"$BUF\" 2>/dev/null; }\ntrap cleanup EXIT; trap 'exit 1' HUP INT TERM\nTTY=$(tmux display-message -p -t \"$TMUX:0.0\" '#{pane_tty}' 2>/dev/null)\n[ -n \"$TTY\" ] || { echo RHOST_ERR=notty; exit 0; }\nstty -echo < \"$TTY\" 2>/dev/null || { echo RHOST_ERR=notty; exit 0; }\n"@
    + (if kind == SendKind::Key {
        "tmux send-keys -t \"$TMUX:0.0\" "@
        + (spec_quote(payload@))
        + " || { echo RHOST_ERR=inputuncertain; exit 0; }\n"@
    } else {
        "printf '%s' '"@
        + (spec_encode(encode_utf8(payload@)))
        + "' | base64 -d | tmux load-buffer -b \"$BUF\" - || { echo RHOST_ERR=inputfailed; exit 0; }\ntmux paste-buffer -b \"$BUF\" -t \"$TMUX:0.0\" 2>/dev/null || { echo RHOST_ERR=inputuncertain; exit 0; }\ntmux delete-buffer -b \"$BUF\" 2>/dev/null\n"@
        + (if kind == SendKind::DataEnter {
            "tmux send-keys -t \"$TMUX:0.0\" Enter || { echo RHOST_ERR=inputuncertain; exit 0; }\n"@
        } else {
            Seq::<char>::empty()
        })
    })
    + "echo RHOST_OK=sent\n"@
}

/// Injects raw input into the pane. No completion boundary is expected: this is
/// the path for REPLs, debuggers and control keys. Success is reported only after
/// every tmux step that delivers the input succeeded; a step that may have
/// delivered part of it reports `inputuncertain`.
pub fn send(name_or_id: &str, kind: SendKind, payload: &str) -> (r: String)
    ensures
        r@ == spec_send(name_or_id, kind, payload),
{
    let mut out = String::new();
    let p = preamble();
    out.append(p.as_str());
    out.append(RESOLVE_FUNC);
    out.append("RHOST_RESOLVE ");
    let q = quote(name_or_id);
    out.append(q.as_str());
    out.append(" || { echo RHOST_ERR=nosession; exit 0; }\n");
    out.append(TMUX_PREFLIGHT);
    out.append(FLOCK_PREFLIGHT);
    out.append("DIR=\"$RHOST_DIR\"; TMUX=\"$RHOST_TMUX\"; LOCK=\"$DIR/lock\"\nexec 9>\"$LOCK\" || { echo RHOST_ERR=nosession; exit 0; }\nflock -n 9 || { echo RHOST_ERR=locked; exit 0; }\ntmux has-session -t \"$TMUX\" 2>/dev/null || { echo RHOST_ERR=nosession; exit 0; }\nBUF=rhost_send_$$\ncleanup() { tmux delete-buffer -b \"$BUF\" 2>/dev/null; }\ntrap cleanup EXIT; trap 'exit 1' HUP INT TERM\nTTY=$(tmux display-message -p -t \"$TMUX:0.0\" '#{pane_tty}' 2>/dev/null)\n[ -n \"$TTY\" ] || { echo RHOST_ERR=notty; exit 0; }\nstty -echo < \"$TTY\" 2>/dev/null || { echo RHOST_ERR=notty; exit 0; }\n");
    if matches!(kind, SendKind::Key) {
        out.append("tmux send-keys -t \"$TMUX:0.0\" ");
        let q = quote(payload);
        out.append(q.as_str());
        out.append(" || { echo RHOST_ERR=inputuncertain; exit 0; }\n");
    } else {
        out.append("printf '%s' '");
        let b = encode(payload.as_bytes());
        out.append(b.as_str());
        out.append("' | base64 -d | tmux load-buffer -b \"$BUF\" - || { echo RHOST_ERR=inputfailed; exit 0; }\ntmux paste-buffer -b \"$BUF\" -t \"$TMUX:0.0\" 2>/dev/null || { echo RHOST_ERR=inputuncertain; exit 0; }\ntmux delete-buffer -b \"$BUF\" 2>/dev/null\n");
        if matches!(kind, SendKind::DataEnter) {
            out.append("tmux send-keys -t \"$TMUX:0.0\" Enter || { echo RHOST_ERR=inputuncertain; exit 0; }\n");
        }
    }
    out.append("echo RHOST_OK=sent\n");
    proof {
        assert(out@ =~= spec_send(name_or_id, kind, payload));
    }
    out
}

/// The program [`read`] builds.
pub open spec fn spec_read(name_or_id: &str, since: u64, max_bytes: usize) -> Seq<char> {
    (spec_preamble())
    + (RESOLVE_FUNC@)
    + "RHOST_RESOLVE "@
    + (spec_quote(name_or_id@))
    + " || { echo RHOST_ERR=nosession; exit 0; }\necho \"RHOST_ID=$RHOST_ID\"\nDIR=\"$RHOST_DIR\"; LOG=\"$DIR/pty.log\"\nLOG=$(printf '%s' \"$LOG\" | sed 's#/$##')\nsize=$(wc -c < \"$LOG\" 2>/dev/null || echo 0)\nsince="@
    + (decimal(since as nat))
    + "\n[ \"$since\" -gt \"$size\" ] && since=$size\ninc=$(tail -c +$((since+1)) \"$LOG\" 2>/dev/null | head -c "@
    + (decimal(spec_page_limit(max_bytes)))
    + " | wc -c)\necho \"RHOST_FROM=$since\"\necho \"RHOST_NEXT=$((since + inc))\"\necho \"RHOST_SIZE=$size\"\ntail -c +$((since+1)) \"$LOG\" 2>/dev/null | head -c \"$inc\" | base64 -w0\necho\n"@
}

/// Returns the raw pane log from byte offset `since`, base64-encoded, with
/// explicit cursors so a caller can poll incrementally.
pub fn read(name_or_id: &str, since: u64, max_bytes: usize) -> (r: String)
    ensures
        r@ == spec_read(name_or_id, since, max_bytes),
{
    let mut out = String::new();
    let p = preamble();
    out.append(p.as_str());
    out.append(RESOLVE_FUNC);
    out.append("RHOST_RESOLVE ");
    let q = quote(name_or_id);
    out.append(q.as_str());
    out.append(" || { echo RHOST_ERR=nosession; exit 0; }\necho \"RHOST_ID=$RHOST_ID\"\nDIR=\"$RHOST_DIR\"; LOG=\"$DIR/pty.log\"\nLOG=$(printf '%s' \"$LOG\" | sed 's#/$##')\nsize=$(wc -c < \"$LOG\" 2>/dev/null || echo 0)\nsince=");
    let d = decimal_string(since);
    out.append(d.as_str());
    out.append("\n[ \"$since\" -gt \"$size\" ] && since=$size\ninc=$(tail -c +$((since+1)) \"$LOG\" 2>/dev/null | head -c ");
    let d = decimal_string(page_limit(max_bytes));
    out.append(d.as_str());
    out.append(" | wc -c)\necho \"RHOST_FROM=$since\"\necho \"RHOST_NEXT=$((since + inc))\"\necho \"RHOST_SIZE=$size\"\ntail -c +$((since+1)) \"$LOG\" 2>/dev/null | head -c \"$inc\" | base64 -w0\necho\n");
    proof {
        assert(out@ =~= spec_read(name_or_id, since, max_bytes));
    }
    out
}

} // verus!
