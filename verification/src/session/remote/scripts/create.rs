//! `create`: one tmux session, its metadata, and the pane integration.
//!
//! The integration is injected over the pane's stdin and never written to disk;
//! the readiness file it creates is what says every earlier line has run.
use vstd::prelude::*;
use vstd::utf8::encode_utf8;
use crate::base64::{encode, spec_encode};
use crate::session::Meta;
use crate::shell::{path_quote, quote, spec_path_quote, spec_quote};
use crate::text::chars_of;
use crate::transport::protocol::DEFAULT_REMOTE_STATE_DIR;
use super::shared::{preamble, spec_preamble, FLOCK_PREFLIGHT, NAME_OF_FUNC, TMUX_PREFLIGHT};

verus! {

/// Whether a requested directory is exactly `~`, the account's home.
fn is_home(cwd: &str) -> (r: bool)
    ensures
        r == (cwd@ == "~"@),
{
    proof {
        reveal_strlit("~");
    }
    let v = chars_of(cwd);
    let r = v.len() == 1 && v[0] == '~';
    if r {
        assert(cwd@ =~= "~"@);
    }
    r
}

/// The integration [`integration_script`] builds.
pub open spec fn spec_integration_script(id: Seq<char>) -> Seq<char> {
    "__rh_done() { printf '\\033]133;D;%d\\007' \"$?\"; }\n__rh_exec() { printf '\\033]133;C\\007'; }\ntrap '__rh_exec' DEBUG\nPROMPT_COMMAND=__rh_done\nPS1='' ; PS2=''\nstty -echo 2>/dev/null\nbind 'set enable-bracketed-paste off' 2>/dev/null\n: > \"${RHOST_REMOTE_STATE:-"@
    + (DEFAULT_REMOTE_STATE_DIR@)
    + "}/sessions/"@
    + (id)
    + "/ready\"\n"@
}

/// Configures the pane's interactive bash. It is injected over the pane's stdin
/// and never written to disk. The final `: > ready` creates a readiness file, so
/// when it appears every earlier line has run (including `stty -echo`) and the
/// session is safe to use.
pub fn integration_script(id: &str) -> (r: String)
    ensures
        r@ == spec_integration_script(id@),
{
    let mut out = String::new();
    out.append("__rh_done() { printf '\\033]133;D;%d\\007' \"$?\"; }\n__rh_exec() { printf '\\033]133;C\\007'; }\ntrap '__rh_exec' DEBUG\nPROMPT_COMMAND=__rh_done\nPS1='' ; PS2=''\nstty -echo 2>/dev/null\nbind 'set enable-bracketed-paste off' 2>/dev/null\n: > \"${RHOST_REMOTE_STATE:-");
    out.append(DEFAULT_REMOTE_STATE_DIR);
    out.append("}/sessions/");
    out.append(id);
    out.append("/ready\"\n");
    proof {
        assert(out@ =~= spec_integration_script(id@));
    }
    out
}

/// The program [`create`] builds.
pub open spec fn spec_create(meta: &Meta, pane_shell_command: &str, meta_json: &str) -> Seq<char> {
    (spec_preamble())
    + (TMUX_PREFLIGHT@)
    + (FLOCK_PREFLIGHT@)
    + (NAME_OF_FUNC@)
    + (if meta.initial_cwd@.len() != 0 {
        (if meta.initial_cwd@ == "~"@ {
            "CWD=\"$HOME\"\n"@
        } else {
            "CWD="@
            + (spec_path_quote(meta.initial_cwd@))
            + "\n"@
        })
        + "CWD=$(cd -- \"$CWD\" 2>/dev/null && printf '%s' \"$PWD\") || { echo RHOST_ERR=invalidcwd; exit 0; }\n[ -n \"$CWD\" ] || { echo RHOST_ERR=invalidcwd; exit 0; }\necho \"RHOST_CWD=$CWD\"\nRESOLVED_CWD=$CWD\n"@
    } else {
        Seq::<char>::empty()
    })
    + "mkdir -p \"$BASE/sessions\" && chmod 700 \"$BASE/sessions\" 2>/dev/null || { echo RHOST_ERR=newfailed; exit 0; }\nexec 8> \"$BASE/sessions/.create.lock\"\nflock -w 30 8 || { echo RHOST_ERR=locked; exit 0; }\nRHOST_TMUX() { tmux \"$@\" 8>&-; }\nfor d in \"$BASE\"/sessions/*/; do\n  [ -f \"$d/meta.json\" ] || continue\n  [ \"$(RHOST_NAME_OF \"$d/meta.json\")\" = "@
    + (spec_quote(meta.name@))
    + " ] && { echo RHOST_ERR=nameinuse; exit 0; }\ndone\nDIR=\"$BASE/sessions/"@
    + (meta.id@)
    + "\"\nLOG=\"$DIR/pty.log\"\nmkdir -p \"$DIR\" && chmod 700 \"$DIR\" 2>/dev/null || { rm -rf \"$DIR\"; echo RHOST_ERR=newfailed; exit 0; }\nrm -f \"$DIR/ready\" \"$LOG\"\ncreated=notyet; INTBUF=rhost_int_$$\ncleanup() { RHOST_TMUX delete-buffer -b \"$INTBUF\" 2>/dev/null; if [ \"$created\" = yes ]; then RHOST_TMUX kill-session -t "@
    + (spec_quote(meta.tmux_session@))
    + " 2>/dev/null; rm -rf \"$DIR\"; fi; }\ntrap cleanup EXIT\ntrap 'exit 1' HUP INT TERM\nRHOST_TMUX kill-session -t "@
    + (spec_quote(meta.tmux_session@))
    + " 2>/dev/null\nRHOST_TMUX new-session -d -s "@
    + (spec_quote(meta.tmux_session@))
    + " -x 220 -y 50 "@
    + (if meta.initial_cwd@.len() != 0 {
        "-c \"$CWD\" "@
    } else {
        Seq::<char>::empty()
    })
    + (spec_quote(pane_shell_command@))
    + " || { echo RHOST_ERR=newfailed; exit 0; }\ncreated=yes\nRHOST_TMUX set-option -t "@
    + (spec_quote(meta.tmux_session@))
    + " history-limit 50000\nprintf -v QPIPE 'cat >> %q' \"$LOG\"\nRHOST_TMUX pipe-pane -t "@
    + (spec_quote(meta.tmux_session@ + ":0.0"@))
    + " -o \"$QPIPE\"\ni=0; while [ \"$i\" -lt 200 ]; do c=$(RHOST_TMUX display-message -p -t "@
    + (spec_quote(meta.tmux_session@ + ":0.0"@))
    + " '#{pane_current_command}' 2>/dev/null); [ \"$c\" = bash ] && break; sleep 0.1; i=$((i+1)); done\nprintf '%s' '"@
    + (spec_encode(encode_utf8(spec_integration_script(meta.id@))))
    + "' | base64 -d | RHOST_TMUX load-buffer -b \"$INTBUF\" -\nRHOST_TMUX paste-buffer -b \"$INTBUF\" -t "@
    + (spec_quote(meta.tmux_session@ + ":0.0"@))
    + " 2>/dev/null\nRHOST_TMUX delete-buffer -b \"$INTBUF\" 2>/dev/null\nRHOST_TMUX send-keys -t "@
    + (spec_quote(meta.tmux_session@ + ":0.0"@))
    + " Enter\ni=0; while [ \"$i\" -lt 100 ]; do [ -f \"$DIR/ready\" ] && break; sleep 0.1; i=$((i+1)); done\nif [ ! -f \"$DIR/ready\" ]; then RHOST_TMUX kill-session -t "@
    + (spec_quote(meta.tmux_session@))
    + " 2>/dev/null; rm -rf \"$DIR\"; echo RHOST_ERR=notready; exit 0; fi\nrm -f \"$DIR/ready\"\n: > \"$LOG\"\n"@
    + (if meta.initial_cwd@.len() != 0 {
        "printf '%s' \"$RESOLVED_CWD\" > \"$DIR/cwd\" || { echo RHOST_ERR=newfailed; exit 0; }\nchmod 600 \"$DIR/cwd\" 2>/dev/null || { echo RHOST_ERR=newfailed; exit 0; }\n"@
    } else {
        Seq::<char>::empty()
    })
    + "printf '%s' '"@
    + (spec_encode(encode_utf8(meta_json@)))
    + "' | base64 -d > \"$DIR/meta.json\" || { echo RHOST_ERR=newfailed; exit 0; }\nchmod 600 \"$DIR/meta.json\" 2>/dev/null || { echo RHOST_ERR=newfailed; exit 0; }\ncreated=no\ntrap - EXIT HUP INT TERM\necho \"RHOST_CREATED="@
    + (meta.id@)
    + "\"\necho RHOST_OK=created\n"@
}

/// Creates a session and blocks until its shell is ready.
///
/// `meta_json` is the session's `meta.json` document, serialised by the caller: it
/// is written to the remote record verbatim. Creation evidence (`RHOST_CREATED`) is
/// printed only after the cleanup trap is disarmed.
#[verifier::rlimit(60)]
pub fn create(meta: &Meta, pane_shell_command: &str, meta_json: &str) -> (r: String)
    ensures
        r@ == spec_create(meta, pane_shell_command, meta_json),
{
    let tmux = quote(meta.tmux_session.as_str());
    let mut pane_name = meta.tmux_session.clone();
    pane_name.append(":0.0");
    let pane = quote(pane_name.as_str());
    let mut out = String::new();
    let p = preamble();
    out.append(p.as_str());
    out.append(TMUX_PREFLIGHT);
    out.append(FLOCK_PREFLIGHT);
    out.append(NAME_OF_FUNC);
    if !meta.initial_cwd.as_str().is_empty() {
        if is_home(meta.initial_cwd.as_str()) {
            out.append("CWD=\"$HOME\"\n");
        } else {
            out.append("CWD=");
            let q = path_quote(meta.initial_cwd.as_str());
            out.append(q.as_str());
            out.append("\n");
        }
        out.append("CWD=$(cd -- \"$CWD\" 2>/dev/null && printf '%s' \"$PWD\") || { echo RHOST_ERR=invalidcwd; exit 0; }\n[ -n \"$CWD\" ] || { echo RHOST_ERR=invalidcwd; exit 0; }\necho \"RHOST_CWD=$CWD\"\nRESOLVED_CWD=$CWD\n");
    }
    out.append("mkdir -p \"$BASE/sessions\" && chmod 700 \"$BASE/sessions\" 2>/dev/null || { echo RHOST_ERR=newfailed; exit 0; }\nexec 8> \"$BASE/sessions/.create.lock\"\nflock -w 30 8 || { echo RHOST_ERR=locked; exit 0; }\nRHOST_TMUX() { tmux \"$@\" 8>&-; }\nfor d in \"$BASE\"/sessions/*/; do\n  [ -f \"$d/meta.json\" ] || continue\n  [ \"$(RHOST_NAME_OF \"$d/meta.json\")\" = ");
    let q = quote(meta.name.as_str());
    out.append(q.as_str());
    out.append(" ] && { echo RHOST_ERR=nameinuse; exit 0; }\ndone\nDIR=\"$BASE/sessions/");
    out.append(meta.id.as_str());
    out.append("\"\nLOG=\"$DIR/pty.log\"\nmkdir -p \"$DIR\" && chmod 700 \"$DIR\" 2>/dev/null || { rm -rf \"$DIR\"; echo RHOST_ERR=newfailed; exit 0; }\nrm -f \"$DIR/ready\" \"$LOG\"\ncreated=notyet; INTBUF=rhost_int_$$\ncleanup() { RHOST_TMUX delete-buffer -b \"$INTBUF\" 2>/dev/null; if [ \"$created\" = yes ]; then RHOST_TMUX kill-session -t ");
    out.append(tmux.as_str());
    out.append(" 2>/dev/null; rm -rf \"$DIR\"; fi; }\ntrap cleanup EXIT\ntrap 'exit 1' HUP INT TERM\nRHOST_TMUX kill-session -t ");
    out.append(tmux.as_str());
    out.append(" 2>/dev/null\nRHOST_TMUX new-session -d -s ");
    out.append(tmux.as_str());
    out.append(" -x 220 -y 50 ");
    if !meta.initial_cwd.as_str().is_empty() {
        out.append("-c \"$CWD\" ");
    }
    let q = quote(pane_shell_command);
    out.append(q.as_str());
    out.append(" || { echo RHOST_ERR=newfailed; exit 0; }\ncreated=yes\nRHOST_TMUX set-option -t ");
    out.append(tmux.as_str());
    out.append(" history-limit 50000\nprintf -v QPIPE 'cat >> %q' \"$LOG\"\nRHOST_TMUX pipe-pane -t ");
    out.append(pane.as_str());
    out.append(" -o \"$QPIPE\"\ni=0; while [ \"$i\" -lt 200 ]; do c=$(RHOST_TMUX display-message -p -t ");
    out.append(pane.as_str());
    out.append(" '#{pane_current_command}' 2>/dev/null); [ \"$c\" = bash ] && break; sleep 0.1; i=$((i+1)); done\nprintf '%s' '");
    let integration = integration_script(meta.id.as_str());
    let b = encode(integration.as_str().as_bytes());
    out.append(b.as_str());
    out.append("' | base64 -d | RHOST_TMUX load-buffer -b \"$INTBUF\" -\nRHOST_TMUX paste-buffer -b \"$INTBUF\" -t ");
    out.append(pane.as_str());
    out.append(" 2>/dev/null\nRHOST_TMUX delete-buffer -b \"$INTBUF\" 2>/dev/null\nRHOST_TMUX send-keys -t ");
    out.append(pane.as_str());
    out.append(" Enter\ni=0; while [ \"$i\" -lt 100 ]; do [ -f \"$DIR/ready\" ] && break; sleep 0.1; i=$((i+1)); done\nif [ ! -f \"$DIR/ready\" ]; then RHOST_TMUX kill-session -t ");
    out.append(tmux.as_str());
    out.append(" 2>/dev/null; rm -rf \"$DIR\"; echo RHOST_ERR=notready; exit 0; fi\nrm -f \"$DIR/ready\"\n: > \"$LOG\"\n");
    if !meta.initial_cwd.as_str().is_empty() {
        out.append("printf '%s' \"$RESOLVED_CWD\" > \"$DIR/cwd\" || { echo RHOST_ERR=newfailed; exit 0; }\nchmod 600 \"$DIR/cwd\" 2>/dev/null || { echo RHOST_ERR=newfailed; exit 0; }\n");
    }
    out.append("printf '%s' '");
    let b = encode(meta_json.as_bytes());
    out.append(b.as_str());
    out.append("' | base64 -d > \"$DIR/meta.json\" || { echo RHOST_ERR=newfailed; exit 0; }\nchmod 600 \"$DIR/meta.json\" 2>/dev/null || { echo RHOST_ERR=newfailed; exit 0; }\ncreated=no\ntrap - EXIT HUP INT TERM\necho \"RHOST_CREATED=");
    out.append(meta.id.as_str());
    out.append("\"\necho RHOST_OK=created\n");
    proof {
        assert(out@ =~= spec_create(meta, pane_shell_command, meta_json));
    }
    out
}

} // verus!
