//! What the upload session does with the results it receives.
use vstd::prelude::*;
use vstd::string::{StrSliceExecFns, StringExecFns};
use crate::common::{WorkerMessage, WorkerType};
use crate::logfile::LogFile;
use crate::uploaded::{opt_chars, UploadedLogs};

verus! {

/// The keybind that shows or hides the main window.
pub const TOGGLE_KEYBIND: &'static str = "KB_WVW_INSIGHTS_TOGGLE";

/// Relies on anyhow's `Display` for `Error`: the error's message.
#[verifier::external_body]
fn error_text(e: &anyhow::Error) -> (r: String) {
    e.to_string()
}

/// Whether the main window shows after the keybind `id` fires: the toggle
/// keybind flips it when pressed, not when released; any other leaves it.
pub fn handle_toggle_keybind(id: &str, is_release: bool, shown: bool) -> (r: bool)
    ensures
        r == if id@ == TOGGLE_KEYBIND@ && !is_release {
            !shown
        } else {
            shown
        },
{
    if crate::text::str_eq(id, TOGGLE_KEYBIND) && !is_release {
        !shown
    } else {
        shown
    }
}

/// Applies the result of one upload to the log list: the log at the message's
/// index takes the returned status and counts as uploaded, or takes a
/// `Failed: ` status; an index past the end changes nothing.
pub fn update_logs(logs: &mut Vec<LogFile>, msg: WorkerMessage)
    ensures
        final(logs)@.len() == old(logs)@.len(),
        forall|j: int| 0 <= j < old(logs)@.len() && j != msg.index ==> final(logs)@[j] == old(logs)@[j],
        msg.index < old(logs)@.len() ==> ({
            let before = old(logs)@[msg.index as int];
            let after = final(logs)@[msg.index as int];
            &&& after.path == before.path
            &&& after.filename == before.filename
            &&& after.size == before.size
            &&& after.modified == before.modified
            &&& after.selected == before.selected
            &&& after.map_type == before.map_type
            &&& after.recorder == before.recorder
            &&& after.commander == before.commander
            &&& match msg.payload {
                WorkerType::UploadResult(Ok(status)) => after.status == status && after.uploaded,
                WorkerType::UploadResult(Err(_)) => after.uploaded == before.uploaded
                    && after.status@.len() >= 8 && after.status@.subrange(0, 8) == "Failed: "@,
            }
        }),
{
    let index = msg.index;
    if index >= logs.len() {
        return;
    }
    let mut entry = logs.remove(index);
    match msg.payload {
        WorkerType::UploadResult(Ok(status)) => {
            entry.status = status;
            entry.uploaded = true;
        },
        WorkerType::UploadResult(Err(e)) => {
            let mut s = String::from_str("Failed: ");
            let t = error_text(&e);
            s.append(t.as_str());
            proof {
                reveal_strlit("Failed: ");
            }
            assert(s@.subrange(0, 8) =~= "Failed: "@);
            entry.status = s;
        },
    }
    logs.insert(index, entry);
}

/// The names that marking adds: those of logs selected and uploaded, in
/// order, each once and only if not recorded yet.
pub open spec fn marked(names: Seq<Seq<char>>, logs: Seq<LogFile>) -> Seq<Seq<char>>
    decreases logs.len(),
{
    if logs.len() == 0 {
        names
    } else {
        let prev = marked(names, logs.drop_last());
        let l = logs.last();
        if l.selected && l.uploaded && !prev.contains(l.filename@) {
            prev.push(l.filename@)
        } else {
            prev
        }
    }
}

/// Records the file names of the selected logs that were uploaded; returns how
/// many were not recorded before.
pub fn mark_uploaded_logs(logs: &Vec<LogFile>, uploaded: &mut UploadedLogs) -> (r: usize)
    requires
        old(uploaded).wf(),
    ensures
        final(uploaded).wf(),
        final(uploaded)@ == marked(old(uploaded)@, logs@),
        r == final(uploaded)@.len() - old(uploaded)@.len(),
{
    let n = logs.len();
    let mut i: usize = 0;
    let mut added: usize = 0;
    while i < n
        invariant
            n == logs@.len(),
            i <= n,
            uploaded.wf(),
            uploaded@ == marked(old(uploaded)@, logs@.subrange(0, i as int)),
            added == uploaded@.len() - old(uploaded)@.len(),
            added <= i,
        decreases n - i,
    {
        let ghost sub = logs@.subrange(0, i + 1);
        assert(sub.drop_last() =~= logs@.subrange(0, i as int));
        if logs[i].selected && logs[i].uploaded {
            if !uploaded.is_uploaded(logs[i].filename.as_str()) {
                uploaded.add_log(logs[i].filename.clone());
                added = added + 1;
            }
        }
        i = i + 1;
    }
    assert(logs@.subrange(0, n as int) =~= logs@);
    added
}


/// `after` is `before` with only its selection, upload mark and status changed.
pub open spec fn same_file(before: LogFile, after: LogFile) -> bool {
    &&& after.path == before.path
    &&& after.filename == before.filename
    &&& after.size == before.size
    &&& after.modified == before.modified
    &&& after.map_type == before.map_type
    &&& after.recorder == before.recorder
    &&& after.commander == before.commander
}

/// A fresh start: unselected, not uploaded, `Ready`.
pub open spec fn is_reset(before: LogFile, after: LogFile) -> bool {
    same_file(before, after) && !after.selected && !after.uploaded && after.status@ == "Ready"@
}

/// Puts every log of the list back to a fresh start, for a new upload.
pub fn reset_upload_state(logs: &mut Vec<LogFile>)
    ensures
        final(logs)@.len() == old(logs)@.len(),
        forall|j: int| 0 <= j < old(logs)@.len() ==> is_reset(old(logs)@[j], #[trigger] final(logs)@[j]),
{
    let n = logs.len();
    let mut i: usize = 0;
    while i < n
        invariant
            n == logs@.len() == old(logs)@.len(),
            i <= n,
            forall|j: int| 0 <= j < i ==> is_reset(old(logs)@[j], #[trigger] logs@[j]),
            forall|j: int| i <= j < n ==> #[trigger] logs@[j] == old(logs)@[j],
        decreases n - i,
    {
        let mut entry = logs.remove(i);
        entry.selected = false;
        entry.uploaded = false;
        entry.status = String::from_str("Ready");
        logs.insert(i, entry);
        i = i + 1;
    }
}

/// Whether a status tells of a failure: it starts with `Failed`.
pub open spec fn is_failure(status: Seq<char>) -> bool {
    status.len() >= 6 && status.subrange(0, 6) == "Failed"@
}

/// What ending the session does to one log: an uploaded log whose status is
/// no failure goes back to `Ready` and counts as not uploaded; others stay.
pub open spec fn after_session(before: LogFile, after: LogFile) -> bool {
    if before.uploaded && !is_failure(before.status@) {
        same_file(before, after) && after.selected == before.selected && !after.uploaded && after.status@
            == "Ready"@
    } else {
        after == before
    }
}

/// Ends the session on the log list.
pub fn clear_session(logs: &mut Vec<LogFile>)
    ensures
        final(logs)@.len() == old(logs)@.len(),
        forall|j: int| 0 <= j < old(logs)@.len() ==> after_session(old(logs)@[j], #[trigger] final(logs)@[j]),
{
    let n = logs.len();
    let mut i: usize = 0;
    while i < n
        invariant
            n == logs@.len() == old(logs)@.len(),
            i <= n,
            forall|j: int| 0 <= j < i ==> after_session(old(logs)@[j], #[trigger] logs@[j]),
            forall|j: int| i <= j < n ==> #[trigger] logs@[j] == old(logs)@[j],
        decreases n - i,
    {
        let failed = logs[i].status.unicode_len() >= 6 && crate::text::str_eq(
            logs[i].status.as_str().substring_char(0, 6),
            "Failed",
        );
        if logs[i].uploaded && !failed {
            let mut entry = logs.remove(i);
            entry.uploaded = false;
            entry.status = String::from_str("Ready");
            logs.insert(i, entry);
        }
        i = i + 1;
    }
}

/// The outcome of a session request from the server's answer: the session id
/// and ownership token when it succeeded and holds both, else the error text.
pub open spec fn session_outcome(
    success: bool,
    session_id: Option<Seq<char>>,
    ownership_token: Option<Seq<char>>,
    message: Option<Seq<char>>,
) -> Result<(Seq<char>, Seq<char>), Seq<char>> {
    if success {
        match (session_id, ownership_token) {
            (Some(s), Some(o)) => Ok((s, o)),
            (None, _) => Err("No session_id in response"@),
            (Some(_), None) => Err("No ownership_token in response"@),
        }
    } else {
        Err("Session creation failed: "@ + match message {
            Some(m) => m,
            None => Seq::<char>::empty(),
        })
    }
}

/// Decides what a session request returns from the server's answer.
pub fn session_from_response(
    success: bool,
    session_id: Option<String>,
    ownership_token: Option<String>,
    message: Option<String>,
) -> (r: Result<(String, String), String>)
    ensures
        match r {
            Ok((s, o)) => session_outcome(success, opt_chars(session_id), opt_chars(ownership_token), opt_chars(message))
                == Ok::<(Seq<char>, Seq<char>), Seq<char>>((s@, o@)),
            Err(e) => session_outcome(success, opt_chars(session_id), opt_chars(ownership_token), opt_chars(message))
                == Err::<(Seq<char>, Seq<char>), Seq<char>>(e@),
        },
{
    if success {
        match (session_id, ownership_token) {
            (Some(s), Some(o)) => Ok((s, o)),
            (None, _) => Err(String::from_str("No session_id in response")),
            (Some(_), None) => Err(String::from_str("No ownership_token in response")),
        }
    } else {
        let mut e = String::from_str("Session creation failed: ");
        match message {
            Some(m) => {
                e.append(m.as_str());
            },
            None => {
                assert(e@ =~= "Session creation failed: "@ + Seq::<char>::empty());
            },
        }
        Err(e)
    }
}

} // verus!
