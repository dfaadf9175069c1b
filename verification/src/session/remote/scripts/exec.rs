//! `exec`: one command, one completion boundary.
use vstd::prelude::*;
use vstd::utf8::encode_utf8;
use crate::base64::{encode, spec_encode};
use crate::session::DEFAULT_SHELL;
use crate::shell::{quote, spec_quote};
use crate::text::{decimal, decimal_string};
use super::shared::{preamble, spec_preamble, FLOCK_PREFLIGHT, MARKER_SCAN_FUNC, RESOLVE_FUNC, SHELL_OF_FUNC, TMUX_PREFLIGHT};

verus! {

/// A helper's own deadline in whole seconds, never less than one.
pub open spec fn spec_whole_seconds(timeout_secs: u64) -> nat {
    if timeout_secs < 1 {
        1
    } else {
        timeout_secs as nat
    }
}

pub(crate) fn whole_seconds(timeout_secs: u64) -> (r: u64)
    ensures
        r as nat == spec_whole_seconds(timeout_secs),
{
    if timeout_secs < 1 {
        1
    } else {
        timeout_secs
    }
}

/// The text [`exec_payload`] builds.
pub open spec fn spec_exec_payload(command: &str, token: &str) -> Seq<char> {
    "{\n"@
    + (command@)
    + "\ncommand printf '\\033]133;R;"@
    + (token@)
    + ";%d\\007' \"$?\"\n}"@
}

/// The compound command pasted into the pane: the caller's command, then a
/// marker that carries the invocation token and the command's exit status.
pub(crate) fn exec_payload(command: &str, token: &str) -> (r: String)
    ensures
        r@ == spec_exec_payload(command, token),
{
    let mut out = String::new();
    out.append("{\n");
    out.append(command);
    out.append("\ncommand printf '\\033]133;R;");
    out.append(token);
    out.append(";%d\\007' \"$?\"\n}");
    proof {
        assert(out@ =~= spec_exec_payload(command, token));
    }
    out
}

/// The program [`exec`] builds.
pub open spec fn spec_exec(name_or_id: &str, command: &str, timeout_secs: u64, token: &str) -> Seq<char> {
    (spec_preamble())
    + (RESOLVE_FUNC@)
    + "RHOST_RESOLVE "@
    + (spec_quote(name_or_id@))
    + " || { echo RHOST_ERR=nosession; exit 0; }\necho \"RHOST_ID=$RHOST_ID\"\n"@
    + (TMUX_PREFLIGHT@)
    + (FLOCK_PREFLIGHT@)
    + "DIR=\"$RHOST_DIR\"; LOG=\"$DIR/pty.log\"; LOCK=\"$DIR/lock\"; TMUX=\"$RHOST_TMUX\"\nLOG=$(printf '%s' \"$LOG\" | sed 's#/$##')\nexec 9>\"$LOCK\" || { echo RHOST_ERR=nosession; exit 0; }\nflock -n 9 || { echo RHOST_ERR=locked; exit 0; }\ntmux has-session -t \"$TMUX\" 2>/dev/null || { echo RHOST_ERR=nosession; exit 0; }\nBUF=rhost_cmd_$$\ncleanup() { tmux delete-buffer -b \"$BUF\" 2>/dev/null; }\ntrap cleanup EXIT; trap 'exit 1' HUP INT TERM\n"@
    + (SHELL_OF_FUNC@)
    + "want=$(RHOST_SHELL_OF \"$DIR/meta.json\" 2>/dev/null)\n[ -n \"$want\" ] || want="@
    + (spec_quote(DEFAULT_SHELL@))
    + "\nfg=$(tmux display-message -p -t \"$TMUX:0.0\" '#{pane_current_command}' 2>/dev/null)\nif [ -z \"$fg\" ]; then echo RHOST_ERR=unknownfg; exit 0; fi\nif [ \"$fg\" != \"$want\" ]; then echo \"RHOST_FG=$fg\"; echo RHOST_ERR=busy; exit 0; fi\n"@
    + (MARKER_SCAN_FUNC@)
    + "pre=$(wc -c < \"$LOG\" 2>/dev/null || echo 0)\nTTY=$(tmux display-message -p -t \"$TMUX:0.0\" '#{pane_tty}' 2>/dev/null)\n[ -n \"$TTY\" ] || { echo RHOST_ERR=notty; exit 0; }\nstty -echo < \"$TTY\" 2>/dev/null || { echo RHOST_ERR=notty; exit 0; }\ndpat=$(printf '\\033]133;D;'); dlen=${#dpat}\ntmux send-keys -t \"$TMUX:0.0\" Enter\nfloor=$((pre + 1)); scan=$floor; i=0; while [ \"$i\" -lt 50 ]; do rh_window && break; sleep 0.1; i=$((i+1)); done\n[ \"$i\" -lt 50 ] || { echo RHOST_ERR=notready; exit 0; }\nfg=$(tmux display-message -p -t \"$TMUX:0.0\" '#{pane_current_command}' 2>/dev/null)\nif [ -z \"$fg\" ]; then echo RHOST_ERR=unknownfg; exit 0; fi\nif [ \"$fg\" != \"$want\" ]; then echo \"RHOST_FG=$fg\"; echo RHOST_ERR=busy; exit 0; fi\nstart=$(wc -c < \"$LOG\" 2>/dev/null || echo 0)\ncmd=$(printf '%s' '"@
    + (spec_encode(encode_utf8(spec_exec_payload(command, token))))
    + "' | base64 -d)\nprintf '%s\\n' \"$cmd\" | tmux load-buffer -b \"$BUF\" - \\; paste-buffer -d -b \"$BUF\" -t \"$TMUX:0.0\" 2>/dev/null || { echo RHOST_ERR=inputfailed; exit 0; }\nrpat=$(printf '\\033]133;R;"@
    + (token@)
    + ";'); dpat=$rpat; dlen=${#dpat}\nSECONDS=0; found=0; died=0; floor=$((start + 1)); scan=$floor; while [ \"$SECONDS\" -lt "@
    + (decimal(spec_whole_seconds(timeout_secs)))
    + " ]; do rh_window && { found=1; break; }; if ! tmux has-session -t \"$TMUX\" 2>/dev/null; then died=1; break; fi; if [ \"$SECONDS\" -ge 5 ]; then sleep 1; elif [ \"$SECONDS\" -ge 1 ]; then sleep 0.5; else sleep 0.1; fi; done\nif [ \"$died\" = 1 ]; then echo RHOST_ERR=sessiondied; exit 0; fi\nif [ \"$found\" != 1 ]; then\n  tmux send-keys -t \"$TMUX:0.0\" C-c 2>/dev/null\n  recovered=0; dpat=$(printf '\\033]133;D;'); dlen=${#dpat}; floor=$((scan + 1)); scan=$floor; i=0\n  while [ \"$i\" -lt 50 ]; do rh_window && { recovered=1; break; }; sleep 0.1; i=$((i+1)); done\n  fg=$(tmux display-message -p -t \"$TMUX:0.0\" '#{pane_current_command}' 2>/dev/null)\n  [ \"$fg\" = \"$want\" ] || recovered=0\n  echo \"RHOST_RECOVERED=$recovered\"\n  echo RHOST_ERR=timeout\n  exit 0\nfi\ndline=$(tail -c +$((start+1)) \"$LOG\" | grep -aboF \"$rpat\" | head -1)\ndoff=${dline%%:*}\nabs=$((start + doff))\nseg=$(tail -c +$((abs+1)) \"$LOG\" | head -c $((dlen + 8)))\ntmp=${seg#\"$rpat\"}\ncode=${tmp%%[!0-9]*}\nbel=$(printf '\\007'); after=${tmp#\"$code\"}\ncase \"$code\" in ''|*[!0-9]*) echo RHOST_ERR=protocol; exit 0;; esac\n[ \"$code\" -le 255 ] 2>/dev/null || { echo RHOST_ERR=protocol; exit 0; }\n[ \"${after#\"$bel\"}\" != \"$after\" ] || { echo RHOST_ERR=protocol; exit 0; }\necho \"RHOST_TOKEN="@
    + (token@)
    + "\"\necho \"RHOST_EXIT=$code\"\nprintf 'RHOST_OUTPUT='\ntail -c +$((start+1)) \"$LOG\" | head -c $((abs - start)) | base64 -w0\nprintf '\\n'\n"@
}

/// Runs one command in an existing session.
///
/// The result is accepted only when the pane emits a marker carrying this
/// invocation's token and a valid shell exit status. Writers are serialised with a
/// non-blocking `flock`: another writer holding it is reported immediately rather
/// than queued behind it. On its own timeout (`timeout_secs`, at least one second)
/// the helper interrupts the command and reports whether the shell came back to a
/// prompt.
pub fn exec(name_or_id: &str, command: &str, timeout_secs: u64, token: &str) -> (r: String)
    ensures
        r@ == spec_exec(name_or_id, command, timeout_secs, token),
{
    let mut out = String::new();
    let p = preamble();
    out.append(p.as_str());
    out.append(RESOLVE_FUNC);
    out.append("RHOST_RESOLVE ");
    let q = quote(name_or_id);
    out.append(q.as_str());
    out.append(" || { echo RHOST_ERR=nosession; exit 0; }\necho \"RHOST_ID=$RHOST_ID\"\n");
    out.append(TMUX_PREFLIGHT);
    out.append(FLOCK_PREFLIGHT);
    out.append("DIR=\"$RHOST_DIR\"; LOG=\"$DIR/pty.log\"; LOCK=\"$DIR/lock\"; TMUX=\"$RHOST_TMUX\"\nLOG=$(printf '%s' \"$LOG\" | sed 's#/$##')\nexec 9>\"$LOCK\" || { echo RHOST_ERR=nosession; exit 0; }\nflock -n 9 || { echo RHOST_ERR=locked; exit 0; }\ntmux has-session -t \"$TMUX\" 2>/dev/null || { echo RHOST_ERR=nosession; exit 0; }\nBUF=rhost_cmd_$$\ncleanup() { tmux delete-buffer -b \"$BUF\" 2>/dev/null; }\ntrap cleanup EXIT; trap 'exit 1' HUP INT TERM\n");
    out.append(SHELL_OF_FUNC);
    out.append("want=$(RHOST_SHELL_OF \"$DIR/meta.json\" 2>/dev/null)\n[ -n \"$want\" ] || want=");
    let q = quote(DEFAULT_SHELL);
    out.append(q.as_str());
    out.append("\nfg=$(tmux display-message -p -t \"$TMUX:0.0\" '#{pane_current_command}' 2>/dev/null)\nif [ -z \"$fg\" ]; then echo RHOST_ERR=unknownfg; exit 0; fi\nif [ \"$fg\" != \"$want\" ]; then echo \"RHOST_FG=$fg\"; echo RHOST_ERR=busy; exit 0; fi\n");
    out.append(MARKER_SCAN_FUNC);
    out.append("pre=$(wc -c < \"$LOG\" 2>/dev/null || echo 0)\nTTY=$(tmux display-message -p -t \"$TMUX:0.0\" '#{pane_tty}' 2>/dev/null)\n[ -n \"$TTY\" ] || { echo RHOST_ERR=notty; exit 0; }\nstty -echo < \"$TTY\" 2>/dev/null || { echo RHOST_ERR=notty; exit 0; }\ndpat=$(printf '\\033]133;D;'); dlen=${#dpat}\ntmux send-keys -t \"$TMUX:0.0\" Enter\nfloor=$((pre + 1)); scan=$floor; i=0; while [ \"$i\" -lt 50 ]; do rh_window && break; sleep 0.1; i=$((i+1)); done\n[ \"$i\" -lt 50 ] || { echo RHOST_ERR=notready; exit 0; }\nfg=$(tmux display-message -p -t \"$TMUX:0.0\" '#{pane_current_command}' 2>/dev/null)\nif [ -z \"$fg\" ]; then echo RHOST_ERR=unknownfg; exit 0; fi\nif [ \"$fg\" != \"$want\" ]; then echo \"RHOST_FG=$fg\"; echo RHOST_ERR=busy; exit 0; fi\nstart=$(wc -c < \"$LOG\" 2>/dev/null || echo 0)\ncmd=$(printf '%s' '");
    let payload = exec_payload(command, token);
    let b = encode(payload.as_str().as_bytes());
    out.append(b.as_str());
    out.append("' | base64 -d)\nprintf '%s\\n' \"$cmd\" | tmux load-buffer -b \"$BUF\" - \\; paste-buffer -d -b \"$BUF\" -t \"$TMUX:0.0\" 2>/dev/null || { echo RHOST_ERR=inputfailed; exit 0; }\nrpat=$(printf '\\033]133;R;");
    out.append(token);
    out.append(";'); dpat=$rpat; dlen=${#dpat}\nSECONDS=0; found=0; died=0; floor=$((start + 1)); scan=$floor; while [ \"$SECONDS\" -lt ");
    let d = decimal_string(whole_seconds(timeout_secs));
    out.append(d.as_str());
    out.append(" ]; do rh_window && { found=1; break; }; if ! tmux has-session -t \"$TMUX\" 2>/dev/null; then died=1; break; fi; if [ \"$SECONDS\" -ge 5 ]; then sleep 1; elif [ \"$SECONDS\" -ge 1 ]; then sleep 0.5; else sleep 0.1; fi; done\nif [ \"$died\" = 1 ]; then echo RHOST_ERR=sessiondied; exit 0; fi\nif [ \"$found\" != 1 ]; then\n  tmux send-keys -t \"$TMUX:0.0\" C-c 2>/dev/null\n  recovered=0; dpat=$(printf '\\033]133;D;'); dlen=${#dpat}; floor=$((scan + 1)); scan=$floor; i=0\n  while [ \"$i\" -lt 50 ]; do rh_window && { recovered=1; break; }; sleep 0.1; i=$((i+1)); done\n  fg=$(tmux display-message -p -t \"$TMUX:0.0\" '#{pane_current_command}' 2>/dev/null)\n  [ \"$fg\" = \"$want\" ] || recovered=0\n  echo \"RHOST_RECOVERED=$recovered\"\n  echo RHOST_ERR=timeout\n  exit 0\nfi\ndline=$(tail -c +$((start+1)) \"$LOG\" | grep -aboF \"$rpat\" | head -1)\ndoff=${dline%%:*}\nabs=$((start + doff))\nseg=$(tail -c +$((abs+1)) \"$LOG\" | head -c $((dlen + 8)))\ntmp=${seg#\"$rpat\"}\ncode=${tmp%%[!0-9]*}\nbel=$(printf '\\007'); after=${tmp#\"$code\"}\ncase \"$code\" in ''|*[!0-9]*) echo RHOST_ERR=protocol; exit 0;; esac\n[ \"$code\" -le 255 ] 2>/dev/null || { echo RHOST_ERR=protocol; exit 0; }\n[ \"${after#\"$bel\"}\" != \"$after\" ] || { echo RHOST_ERR=protocol; exit 0; }\necho \"RHOST_TOKEN=");
    out.append(token);
    out.append("\"\necho \"RHOST_EXIT=$code\"\nprintf 'RHOST_OUTPUT='\ntail -c +$((start+1)) \"$LOG\" | head -c $((abs - start)) | base64 -w0\nprintf '\\n'\n");
    proof {
        assert(out@ =~= spec_exec(name_or_id, command, timeout_secs, token));
    }
    out
}

} // verus!
