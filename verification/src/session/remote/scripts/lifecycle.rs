//! `lifecycle`: list the sessions that exist, recover one from a runaway
//! program, and close one.
use vstd::prelude::*;
use crate::session::DEFAULT_SHELL;
use crate::shell::{quote, spec_quote};
use crate::text::{decimal, decimal_string};
use super::exec::{spec_whole_seconds, whole_seconds};
use super::shared::{preamble, spec_preamble, FLOCK_PREFLIGHT, MARKER_SCAN_FUNC, RESOLVE_FUNC, SHELL_OF_FUNC, TMUX_PREFLIGHT};

verus! {

/// The program [`list`] builds.
pub open spec fn spec_list() -> Seq<char> {
    (spec_preamble())
    + (TMUX_PREFLIGHT@)
    + "[ -d \"$BASE/sessions\" ] || exit 0\nfor d in \"$BASE\"/sessions/*/; do\n  [ -f \"$d/meta.json\" ] || continue\n  id=$(basename \"$d\")\n  tmuxname=$(sed -n 's/.*\"tmux_session\"[[:space:]]*:[[:space:]]*\"\\([^\"]*\\)\".*/\\1/p' \"$d/meta.json\")\n  alive=no\n  if [ -n \"$tmuxname\" ] && tmux has-session -t \"$tmuxname\" 2>/dev/null; then alive=yes; fi\n  meta=$(base64 -w0 < \"$d/meta.json\")\n  printf 'RHOST_META\\t%s\\t%s\\t%s\\n' \"$id\" \"$alive\" \"$meta\"\ndone\n"@
}

/// Prints one `RHOST_META` line per session: its id, the liveness of its tmux
/// session, and the base64 of its `meta.json`.
pub fn list() -> (r: String)
    ensures
        r@ == spec_list(),
{
    let mut out = String::new();
    let p = preamble();
    out.append(p.as_str());
    out.append(TMUX_PREFLIGHT);
    out.append("[ -d \"$BASE/sessions\" ] || exit 0\nfor d in \"$BASE\"/sessions/*/; do\n  [ -f \"$d/meta.json\" ] || continue\n  id=$(basename \"$d\")\n  tmuxname=$(sed -n 's/.*\"tmux_session\"[[:space:]]*:[[:space:]]*\"\\([^\"]*\\)\".*/\\1/p' \"$d/meta.json\")\n  alive=no\n  if [ -n \"$tmuxname\" ] && tmux has-session -t \"$tmuxname\" 2>/dev/null; then alive=yes; fi\n  meta=$(base64 -w0 < \"$d/meta.json\")\n  printf 'RHOST_META\\t%s\\t%s\\t%s\\n' \"$id\" \"$alive\" \"$meta\"\ndone\n");
    proof {
        assert(out@ =~= spec_list());
    }
    out
}

/// The program [`recover`] builds.
pub open spec fn spec_recover(name_or_id: &str, timeout_secs: u64) -> Seq<char> {
    (spec_preamble())
    + (RESOLVE_FUNC@)
    + "RHOST_RESOLVE "@
    + (spec_quote(name_or_id@))
    + " || { echo RHOST_ERR=nosession; exit 0; }\necho \"RHOST_ID=$RHOST_ID\"\n"@
    + (TMUX_PREFLIGHT@)
    + (FLOCK_PREFLIGHT@)
    + "DIR=\"$RHOST_DIR\"; LOG=\"${RHOST_DIR%/}/pty.log\"; LOCK=\"$DIR/lock\"; TMUX=\"$RHOST_TMUX\"\nexec 9>\"$LOCK\" || { echo RHOST_ERR=nosession; exit 0; }\nflock -n 9 || { echo RHOST_ERR=locked; exit 0; }\ntmux has-session -t \"$TMUX\" 2>/dev/null || { echo RHOST_ERR=nosession; exit 0; }\n"@
    + (SHELL_OF_FUNC@)
    + "want=$(RHOST_SHELL_OF \"$DIR/meta.json\" 2>/dev/null); [ -n \"$want\" ] || want="@
    + (spec_quote(DEFAULT_SHELL@))
    + "\nTTY=$(tmux display-message -p -t \"$TMUX:0.0\" '#{pane_tty}' 2>/dev/null)\n[ -n \"$TTY\" ] || { echo RHOST_ERR=notty; exit 0; }\nstty -echo < \"$TTY\" 2>/dev/null || { echo RHOST_ERR=notty; exit 0; }\n"@
    + (MARKER_SCAN_FUNC@)
    + "start=$(wc -c < \"$LOG\" 2>/dev/null || echo 0); dpat=$(printf '\\033]133;D;'); dlen=${#dpat}\ntmux send-keys -t \"$TMUX:0.0\" C-c 2>/dev/null\nSECONDS=0; ready=0; floor=$((start + 1)); scan=$floor; while [ \"$SECONDS\" -lt "@
    + (decimal(spec_whole_seconds(timeout_secs)))
    + " ]; do\n  tmux has-session -t \"$TMUX\" 2>/dev/null || { echo RHOST_ERR=sessiondied; exit 0; }\n  fg=$(tmux display-message -p -t \"$TMUX:0.0\" '#{pane_current_command}' 2>/dev/null)\n  if [ \"$fg\" = \"$want\" ] && rh_window; then ready=1; break; fi\n  sleep 0.1\ndone\nfg=$(tmux display-message -p -t \"$TMUX:0.0\" '#{pane_current_command}' 2>/dev/null)\nif [ -z \"$fg\" ]; then echo RHOST_ERR=unknownfg; exit 0; fi\nif [ \"$fg\" != \"$want\" ]; then echo \"RHOST_FG=$fg\"; echo RHOST_ERR=busy; exit 0; fi\n[ \"$ready\" = 1 ] || { echo RHOST_ERR=notready; exit 0; }\necho RHOST_OK=recovered\n"@
}

/// Interrupts the pane under the same writer lock as exec and send, then proves
/// both that the managed shell owns the foreground and that its prompt emitted a
/// fresh marker. A REPL that catches Ctrl-C stays busy and is reported as such.
pub fn recover(name_or_id: &str, timeout_secs: u64) -> (r: String)
    ensures
        r@ == spec_recover(name_or_id, timeout_secs),
{
    let mut out = String::new();
    let p = preamble();
    out.append(p.as_str());
    out.append(RESOLVE_FUNC);
    out.append("RHOST_RESOLVE ");
    let q = quote(name_or_id);
    out.append(q.as_str());
    out.append(" || { echo RHOST_ERR=nosession; exit 0; }\necho \"RHOST_ID=$RHOST_ID\"\n");
    out.append(TMUX_PREFLIGHT);
    out.append(FLOCK_PREFLIGHT);
    out.append("DIR=\"$RHOST_DIR\"; LOG=\"${RHOST_DIR%/}/pty.log\"; LOCK=\"$DIR/lock\"; TMUX=\"$RHOST_TMUX\"\nexec 9>\"$LOCK\" || { echo RHOST_ERR=nosession; exit 0; }\nflock -n 9 || { echo RHOST_ERR=locked; exit 0; }\ntmux has-session -t \"$TMUX\" 2>/dev/null || { echo RHOST_ERR=nosession; exit 0; }\n");
    out.append(SHELL_OF_FUNC);
    out.append("want=$(RHOST_SHELL_OF \"$DIR/meta.json\" 2>/dev/null); [ -n \"$want\" ] || want=");
    let q = quote(DEFAULT_SHELL);
    out.append(q.as_str());
    out.append("\nTTY=$(tmux display-message -p -t \"$TMUX:0.0\" '#{pane_tty}' 2>/dev/null)\n[ -n \"$TTY\" ] || { echo RHOST_ERR=notty; exit 0; }\nstty -echo < \"$TTY\" 2>/dev/null || { echo RHOST_ERR=notty; exit 0; }\n");
    out.append(MARKER_SCAN_FUNC);
    out.append("start=$(wc -c < \"$LOG\" 2>/dev/null || echo 0); dpat=$(printf '\\033]133;D;'); dlen=${#dpat}\ntmux send-keys -t \"$TMUX:0.0\" C-c 2>/dev/null\nSECONDS=0; ready=0; floor=$((start + 1)); scan=$floor; while [ \"$SECONDS\" -lt ");
    let d = decimal_string(whole_seconds(timeout_secs));
    out.append(d.as_str());
    out.append(" ]; do\n  tmux has-session -t \"$TMUX\" 2>/dev/null || { echo RHOST_ERR=sessiondied; exit 0; }\n  fg=$(tmux display-message -p -t \"$TMUX:0.0\" '#{pane_current_command}' 2>/dev/null)\n  if [ \"$fg\" = \"$want\" ] && rh_window; then ready=1; break; fi\n  sleep 0.1\ndone\nfg=$(tmux display-message -p -t \"$TMUX:0.0\" '#{pane_current_command}' 2>/dev/null)\nif [ -z \"$fg\" ]; then echo RHOST_ERR=unknownfg; exit 0; fi\nif [ \"$fg\" != \"$want\" ]; then echo \"RHOST_FG=$fg\"; echo RHOST_ERR=busy; exit 0; fi\n[ \"$ready\" = 1 ] || { echo RHOST_ERR=notready; exit 0; }\necho RHOST_OK=recovered\n");
    proof {
        assert(out@ =~= spec_recover(name_or_id, timeout_secs));
    }
    out
}

/// The program [`close`] builds.
pub open spec fn spec_close(name_or_id: &str) -> Seq<char> {
    (spec_preamble())
    + (RESOLVE_FUNC@)
    + "RHOST_RESOLVE "@
    + (spec_quote(name_or_id@))
    + " || { echo RHOST_ERR=nosession; exit 0; }\n"@
    + (TMUX_PREFLIGHT@)
    + (FLOCK_PREFLIGHT@)
    + "DIR=\"$RHOST_DIR\"; LOCK=\"$DIR/lock\"\nexec 9>\"$LOCK\" || { echo RHOST_ERR=nosession; exit 0; }\nflock -n 9 || { echo RHOST_ERR=locked; exit 0; }\ntmux kill-session -t \"$RHOST_TMUX\" 2>/dev/null\nif tmux has-session -t \"$RHOST_TMUX\" 2>/dev/null; then echo RHOST_ERR=closefailed; exit 0; fi\nrm -rf \"$RHOST_DIR\"\n[ -e \"$RHOST_DIR\" ] && { echo RHOST_ERR=closefailed; exit 0; }\necho RHOST_OK=closed\n"@
}

/// Kills the tmux session and removes its state directory, under the session's
/// writer lock. `RHOST_OK=closed` is printed only once the tmux session is gone and
/// the directory no longer exists; otherwise the answer is `closefailed`.
pub fn close(name_or_id: &str) -> (r: String)
    ensures
        r@ == spec_close(name_or_id),
{
    let mut out = String::new();
    let p = preamble();
    out.append(p.as_str());
    out.append(RESOLVE_FUNC);
    out.append("RHOST_RESOLVE ");
    let q = quote(name_or_id);
    out.append(q.as_str());
    out.append(" || { echo RHOST_ERR=nosession; exit 0; }\n");
    out.append(TMUX_PREFLIGHT);
    out.append(FLOCK_PREFLIGHT);
    out.append("DIR=\"$RHOST_DIR\"; LOCK=\"$DIR/lock\"\nexec 9>\"$LOCK\" || { echo RHOST_ERR=nosession; exit 0; }\nflock -n 9 || { echo RHOST_ERR=locked; exit 0; }\ntmux kill-session -t \"$RHOST_TMUX\" 2>/dev/null\nif tmux has-session -t \"$RHOST_TMUX\" 2>/dev/null; then echo RHOST_ERR=closefailed; exit 0; fi\nrm -rf \"$RHOST_DIR\"\n[ -e \"$RHOST_DIR\" ] && { echo RHOST_ERR=closefailed; exit 0; }\necho RHOST_OK=closed\n");
    proof {
        assert(out@ =~= spec_close(name_or_id));
    }
    out
}

} // verus!
