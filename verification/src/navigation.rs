//! The interface's modes and what each key press does in them.
use vstd::prelude::*;
use crate::history::{
    filter_by_tags, holds, no_duplicates, same_list, same_popup, same_tags, unchanged, CallHistoryState,
};
use crate::call::call_views;
use crate::call::CallAnalysis;
use crate::text::{decimal, lowercase, u64_to_string};

verus! {

/// The screen the interface shows.
pub enum Mode {
    Live,
    /// The analysis of one stored call.
    Analysis { file: String },
    Agent,
    /// The call history, and the mode to go back to.
    History { return_to: Box<Mode> },
}

/// The label of a mode in the status bar.
pub open spec fn mode_name(m: Mode) -> Seq<char> {
    match m {
        Mode::Live => "LIVE"@,
        Mode::Analysis { .. } => "ANALYSIS"@,
        Mode::Agent => "AGENT"@,
        Mode::History { .. } => "HISTORY"@,
    }
}

/// The label of a mode in the status bar.
pub fn mode_label(m: &Mode) -> (s: &'static str)
    ensures
        s@ == mode_name(*m),
{
    match m {
        Mode::Live => "LIVE",
        Mode::Analysis { .. } => "ANALYSIS",
        Mode::Agent => "AGENT",
        Mode::History { .. } => "HISTORY",
    }
}

/// The status line shown when the interface opens in a mode.
pub open spec fn opening_status(m: Mode) -> Seq<char> {
    match m {
        Mode::Live => "Live mode — press 'r' to start recording"@,
        Mode::Analysis { file } => "Analysis mode — "@ + file@,
        Mode::Agent => "Agent mode — type a question"@,
        Mode::History { .. } => "Call history"@,
    }
}

/// The status line shown when the interface opens in a mode.
pub fn opening_status_of(m: &Mode) -> (s: String)
    ensures
        s@ == opening_status(*m),
{
    match m {
        Mode::Live => String::from_str("Live mode — press 'r' to start recording"),
        Mode::Analysis { file } => {
            let mut s = String::from_str("Analysis mode — ");
            s.append(file.as_str());
            s
        },
        Mode::Agent => String::from_str("Agent mode — type a question"),
        Mode::History { .. } => String::from_str("Call history"),
    }
}

/// A key press, as the interface distinguishes them.
#[derive(Clone, Copy, Debug, PartialEq, Eq, Structural)]
pub enum Key {
    Char(char),
    Enter,
    Esc,
    Up,
    Down,
    /// Control and C together.
    CtrlC,
    Other,
}

/// Where a key press goes.
#[derive(Clone, Copy, Debug, PartialEq, Eq, Structural)]
pub enum KeyRoute {
    /// Stop any capture and quit.
    StopAndQuit,
    /// Close the help overlay; the key does nothing else.
    DismissHelp,
    /// Open the help overlay.
    ShowHelp,
    /// Leave the history for the mode it was opened from.
    LeaveHistory,
    /// Quit.
    Quit,
    /// Nothing happens.
    Ignore,
    /// The live mode's own keys.
    Live,
    /// The analysis mode's own keys.
    Analysis,
    /// The agent mode's own keys.
    Agent,
    /// The history's own keys.
    History,
}

/// Routes a key press: Ctrl-C always quits; while help is shown any key
/// closes it; `?` opens help; Esc leaves the history, or quits when nothing
/// is being recorded; `q` quits live mode when idle and analysis mode
/// always; everything else goes to the mode.
pub open spec fn key_route(m: Mode, show_help: bool, recording: bool, key: Key) -> KeyRoute {
    if key == Key::CtrlC {
        KeyRoute::StopAndQuit
    } else if show_help {
        KeyRoute::DismissHelp
    } else if key == Key::Char('?') {
        KeyRoute::ShowHelp
    } else if key == Key::Esc {
        if m is History {
            KeyRoute::LeaveHistory
        } else if !recording {
            KeyRoute::Quit
        } else {
            KeyRoute::Ignore
        }
    } else {
        match m {
            Mode::Live => if key == Key::Char('q') && !recording { KeyRoute::Quit } else { KeyRoute::Live },
            Mode::Analysis { .. } => if key == Key::Char('q') { KeyRoute::Quit } else { KeyRoute::Analysis },
            Mode::Agent => KeyRoute::Agent,
            Mode::History { .. } => KeyRoute::History,
        }
    }
}

/// Routes a key press.
pub fn route_key(m: &Mode, show_help: bool, recording: bool, key: Key) -> (r: KeyRoute)
    ensures
        r == key_route(*m, show_help, recording, key),
{
    if key == Key::CtrlC {
        KeyRoute::StopAndQuit
    } else if show_help {
        KeyRoute::DismissHelp
    } else if key == Key::Char('?') {
        KeyRoute::ShowHelp
    } else if key == Key::Esc {
        match m {
            Mode::History { .. } => KeyRoute::LeaveHistory,
            _ => if !recording { KeyRoute::Quit } else { KeyRoute::Ignore },
        }
    } else {
        match m {
            Mode::Live => if key == Key::Char('q') && !recording { KeyRoute::Quit } else { KeyRoute::Live },
            Mode::Analysis { .. } => if key == Key::Char('q') { KeyRoute::Quit } else { KeyRoute::Analysis },
            Mode::Agent => KeyRoute::Agent,
            Mode::History { .. } => KeyRoute::History,
        }
    }
}

/// What a key does in live mode.
#[derive(Clone, Copy, Debug, PartialEq, Eq, Structural)]
pub enum LiveCommand {
    OpenHistory,
    StartRecording,
    StopRecording,
    Nothing,
}

/// Live mode's keys: `h` opens the history and `r` starts recording when
/// idle; `s` stops a recording.
pub fn live_key(recording: bool, key: Key) -> (c: LiveCommand)
    ensures
        c == (if key == Key::Char('h') && !recording {
            LiveCommand::OpenHistory
        } else if key == Key::Char('r') && !recording {
            LiveCommand::StartRecording
        } else if key == Key::Char('s') && recording {
            LiveCommand::StopRecording
        } else {
            LiveCommand::Nothing
        }),
{
    if key == Key::Char('h') && !recording {
        LiveCommand::OpenHistory
    } else if key == Key::Char('r') && !recording {
        LiveCommand::StartRecording
    } else if key == Key::Char('s') && recording {
        LiveCommand::StopRecording
    } else {
        LiveCommand::Nothing
    }
}

/// What the interface must do after a key in the history.
pub enum HistoryAction {
    Nothing,
    /// Show a status message.
    Status(String),
    /// Delete the stored call with this id, then report with `finish_delete`.
    Delete(String),
    /// Open the stored call with this id in analysis mode.
    Open(String),
    Quit,
}

/// The status after toggling a tag filter.
pub open spec fn filter_status(active: nat) -> Seq<char> {
    if active > 0 { decimal(active) + " tag filter(s) active"@ } else { "Filters cleared"@ }
}

/// Handles a key in the history: in the tag popup, arrows move, space or
/// Enter toggles the tag under the cursor, `t` or Esc closes; while a
/// deletion awaits confirmation, `y` confirms and any other key cancels;
/// otherwise arrows move, `t` opens the tag popup, `d` asks to delete,
/// Enter opens the selected call and `q` quits.
pub fn handle_history_key(hs: &mut CallHistoryState, key: Key) -> (a: HistoryAction)
    requires
        no_duplicates(old(hs).active_tags@),
    ensures
        no_duplicates(final(hs).active_tags@),
        old(hs).show_tag_filter ==> {
            &&& (key == Key::Up || key == Key::Char('k')) ==> {
                &&& final(hs).tag_cursor == (if old(hs).tag_cursor > 0 {
                    old(hs).tag_cursor - 1
                } else {
                    old(hs).tag_cursor as int
                })
                &&& final(hs).show_tag_filter
                &&& same_list(*old(hs), *final(hs)) && same_tags(*old(hs), *final(hs))
                &&& final(hs).confirm_delete == old(hs).confirm_delete
                &&& a is Nothing
            }
            &&& (key == Key::Down || key == Key::Char('j')) ==> {
                &&& final(hs).tag_cursor == (if old(hs).tag_cursor + 1 < old(hs).available_tags@.len() {
                    old(hs).tag_cursor + 1
                } else {
                    old(hs).tag_cursor as int
                })
                &&& final(hs).show_tag_filter
                &&& same_list(*old(hs), *final(hs)) && same_tags(*old(hs), *final(hs))
                &&& final(hs).confirm_delete == old(hs).confirm_delete
                &&& a is Nothing
            }
            &&& (key == Key::Char(' ') || key == Key::Enter) ==> if old(hs).tag_cursor < old(hs).available_tags@.len() {
                &&& forall|s: Seq<char>| holds(final(hs).active_tags@, s) <==> (if s == lowercase(
                    old(hs).available_tags@[old(hs).tag_cursor as int].theme@,
                ) {
                    !holds(old(hs).active_tags@, s)
                } else {
                    holds(old(hs).active_tags@, s)
                })
                &&& call_views(final(hs).calls@) == filter_by_tags(call_views(old(hs).all_calls@), final(hs).active_tags@)
                &&& final(hs).cursor == if old(hs).cursor >= final(hs).calls.len() {
                    if final(hs).calls.len() == 0 { 0 } else { (final(hs).calls.len() - 1) as usize }
                } else {
                    old(hs).cursor
                }
                &&& final(hs).scroll_offset == 0
                &&& call_views(final(hs).all_calls@) == call_views(old(hs).all_calls@)
                &&& final(hs).available_tags@ == old(hs).available_tags@
                &&& final(hs).analyzed_ids@ == old(hs).analyzed_ids@
                &&& same_popup(*old(hs), *final(hs))
                &&& final(hs).confirm_delete == old(hs).confirm_delete
                &&& a matches HistoryAction::Status(m) && m@ == filter_status(final(hs).active_tags@.len())
            } else {
                unchanged(*old(hs), *final(hs)) && a is Nothing
            }
            &&& (key == Key::Char('t') || key == Key::Esc) ==> {
                &&& !final(hs).show_tag_filter
                &&& final(hs).tag_cursor == old(hs).tag_cursor
                &&& same_list(*old(hs), *final(hs)) && same_tags(*old(hs), *final(hs))
                &&& final(hs).confirm_delete == old(hs).confirm_delete
                &&& a is Nothing
            }
            &&& !(key == Key::Up || key == Key::Char('k') || key == Key::Down || key == Key::Char('j')
                || key == Key::Char(' ') || key == Key::Enter || key == Key::Char('t') || key == Key::Esc)
                ==> unchanged(*old(hs), *final(hs)) && a is Nothing
        },
        !old(hs).show_tag_filter && old(hs).confirm_delete ==> {
            &&& !final(hs).confirm_delete
            &&& same_list(*old(hs), *final(hs)) && same_tags(*old(hs), *final(hs)) && same_popup(*old(hs), *final(hs))
            &&& (key == Key::Char('y') || key == Key::Char('Y')) ==> if old(hs).cursor < old(hs).calls@.len() {
                a matches HistoryAction::Delete(id) && id@ == old(hs).calls@[old(hs).cursor as int].id@
            } else {
                a is Nothing
            }
            &&& !(key == Key::Char('y') || key == Key::Char('Y')) ==> (a matches HistoryAction::Status(m)
                && m@ == "Delete cancelled"@)
        },
        !old(hs).show_tag_filter && !old(hs).confirm_delete ==> {
            &&& (key == Key::Up || key == Key::Char('k')) ==> {
                &&& final(hs).cursor == (if old(hs).cursor > 0 { old(hs).cursor - 1 } else { 0 })
                &&& final(hs).scroll_offset == (if old(hs).cursor > 0 && old(hs).cursor - 1 < old(hs).scroll_offset {
                    (old(hs).cursor - 1) as usize
                } else {
                    old(hs).scroll_offset
                })
                &&& call_views(final(hs).calls@) == call_views(old(hs).calls@)
                &&& call_views(final(hs).all_calls@) == call_views(old(hs).all_calls@)
                &&& same_tags(*old(hs), *final(hs)) && same_popup(*old(hs), *final(hs))
                &&& !final(hs).confirm_delete
                &&& a is Nothing
            }
            &&& (key == Key::Down || key == Key::Char('j')) ==> {
                &&& final(hs).cursor == (if old(hs).calls.len() > 0 && old(hs).cursor < old(hs).calls.len() - 1 {
                    old(hs).cursor + 1
                } else {
                    old(hs).cursor as int
                })
                &&& final(hs).scroll_offset == old(hs).scroll_offset
                &&& call_views(final(hs).calls@) == call_views(old(hs).calls@)
                &&& call_views(final(hs).all_calls@) == call_views(old(hs).all_calls@)
                &&& same_tags(*old(hs), *final(hs)) && same_popup(*old(hs), *final(hs))
                &&& !final(hs).confirm_delete
                &&& a is Nothing
            }
            &&& key == Key::Char('t') ==> {
                &&& final(hs).show_tag_filter == (old(hs).available_tags@.len() > 0)
                &&& final(hs).tag_cursor == (if old(hs).available_tags@.len() > 0 { 0 } else { old(hs).tag_cursor })
                &&& same_list(*old(hs), *final(hs)) && same_tags(*old(hs), *final(hs))
                &&& !final(hs).confirm_delete
                &&& a is Nothing
            }
            &&& key == Key::Char('d') ==> {
                &&& same_list(*old(hs), *final(hs)) && same_tags(*old(hs), *final(hs)) && same_popup(*old(hs), *final(hs))
                &&& if old(hs).calls@.len() > 0 {
                    final(hs).confirm_delete && (a matches HistoryAction::Status(m)
                        && m@ == "Delete this call? Press 'y' to confirm"@)
                } else {
                    !final(hs).confirm_delete && a is Nothing
                }
            }
            &&& key == Key::Enter ==> unchanged(*old(hs), *final(hs)) && if old(hs).cursor < old(hs).calls@.len() {
                a matches HistoryAction::Open(id) && id@ == old(hs).calls@[old(hs).cursor as int].id@
            } else {
                a is Nothing
            }
            &&& key == Key::Char('q') ==> unchanged(*old(hs), *final(hs)) && a is Quit
            &&& !(key == Key::Up || key == Key::Char('k') || key == Key::Down || key == Key::Char('j')
                || key == Key::Char('t') || key == Key::Char('d') || key == Key::Enter || key == Key::Char('q'))
                ==> unchanged(*old(hs), *final(hs)) && a is Nothing
        },
{
    if hs.show_tag_filter {
        if key == Key::Up || key == Key::Char('k') {
            if hs.tag_cursor > 0 {
                hs.tag_cursor = hs.tag_cursor - 1;
            }
            HistoryAction::Nothing
        } else if key == Key::Down || key == Key::Char('j') {
            let n: usize = hs.available_tags.len();
            if hs.tag_cursor < usize::MAX && hs.tag_cursor + 1 < n {
                hs.tag_cursor = hs.tag_cursor + 1;
            }
            HistoryAction::Nothing
        } else if key == Key::Char(' ') || key == Key::Enter {
            if hs.tag_cursor < hs.available_tags.len() {
                let theme = hs.available_tags[hs.tag_cursor].theme.clone();
                hs.toggle_tag(theme.as_str());
                let count = hs.active_tags.len();
                let msg = if count > 0 {
                    let mut m = u64_to_string(count as u64);
                    m.append(" tag filter(s) active");
                    m
                } else {
                    String::from_str("Filters cleared")
                };
                HistoryAction::Status(msg)
            } else {
                HistoryAction::Nothing
            }
        } else if key == Key::Char('t') || key == Key::Esc {
            hs.show_tag_filter = false;
            HistoryAction::Nothing
        } else {
            HistoryAction::Nothing
        }
    } else if hs.confirm_delete {
        if key == Key::Char('y') || key == Key::Char('Y') {
            let action = if hs.cursor < hs.calls.len() {
                HistoryAction::Delete(hs.calls[hs.cursor].id.clone())
            } else {
                HistoryAction::Nothing
            };
            hs.confirm_delete = false;
            action
        } else {
            hs.confirm_delete = false;
            HistoryAction::Status(String::from_str("Delete cancelled"))
        }
    } else {
        if key == Key::Up || key == Key::Char('k') {
            hs.move_up();
            HistoryAction::Nothing
        } else if key == Key::Down || key == Key::Char('j') {
            hs.move_down();
            HistoryAction::Nothing
        } else if key == Key::Char('t') {
            if hs.available_tags.len() > 0 {
                hs.show_tag_filter = true;
                hs.tag_cursor = 0;
            }
            HistoryAction::Nothing
        } else if key == Key::Char('d') {
            if hs.calls.len() > 0 {
                hs.confirm_delete = true;
                HistoryAction::Status(String::from_str("Delete this call? Press 'y' to confirm"))
            } else {
                HistoryAction::Nothing
            }
        } else if key == Key::Enter {
            if hs.cursor < hs.calls.len() {
                HistoryAction::Open(hs.calls[hs.cursor].id.clone())
            } else {
                HistoryAction::Nothing
            }
        } else if key == Key::Char('q') {
            HistoryAction::Quit
        } else {
            HistoryAction::Nothing
        }
    }
}

/// Events from background work: analysis, follow-up drafting, agent answers.
pub enum AppEvent {
    AnalysisReady(CallAnalysis),
    AnalysisError(String),
    FollowUpReady(String),
    FollowUpError(String),
    AgentChunk(String),
    AgentDone,
    AgentError(String),
}

/// How an event shows in the status bar.
pub enum EventNotice {
    /// No change.
    Nothing,
    /// A new status line.
    Status(String),
    /// An error, shown in red for a while.
    Error(String),
}

/// The status-bar notice of a background event.
pub fn app_event_notice(e: &AppEvent) -> (n: EventNotice)
    ensures
        match *e {
            AppEvent::AnalysisReady(_) => n matches EventNotice::Status(s) && s@ == "Analysis complete"@,
            AppEvent::AnalysisError(m) => n matches EventNotice::Error(s) && s@ == "Analysis error: "@ + m@,
            AppEvent::FollowUpReady(_) => n matches EventNotice::Status(s) && s@ == "Follow-up draft ready"@,
            AppEvent::FollowUpError(m) => n matches EventNotice::Error(s) && s@ == "Follow-up error: "@ + m@,
            AppEvent::AgentChunk(_) => n is Nothing,
            AppEvent::AgentDone => n is Nothing,
            AppEvent::AgentError(m) => n matches EventNotice::Error(s) && s@ == "Agent error: "@ + m@,
        },
{
    match e {
        AppEvent::AnalysisReady(_) => EventNotice::Status(String::from_str("Analysis complete")),
        AppEvent::AnalysisError(m) => {
            let mut s = String::from_str("Analysis error: ");
            s.append(m.as_str());
            EventNotice::Error(s)
        },
        AppEvent::FollowUpReady(_) => EventNotice::Status(String::from_str("Follow-up draft ready")),
        AppEvent::FollowUpError(m) => {
            let mut s = String::from_str("Follow-up error: ");
            s.append(m.as_str());
            EventNotice::Error(s)
        },
        AppEvent::AgentChunk(_) => EventNotice::Nothing,
        AppEvent::AgentDone => EventNotice::Nothing,
        AppEvent::AgentError(m) => {
            let mut s = String::from_str("Agent error: ");
            s.append(m.as_str());
            EventNotice::Error(s)
        },
    }
}

/// The status after a recorded call was stored, given how its length reads
/// in whole seconds.
pub fn saved_call_status(transcript_empty: bool, seconds: &str, outcome: Result<(), String>) -> (s: String)
    ensures
        match outcome {
            Ok(()) => s@ == if transcript_empty {
                "Recording stopped (no speech detected)"@
            } else {
                "Call saved ("@ + seconds@ + "s) — switching to Analysis"@
            },
            Err(e) => s@ == "Save error: "@ + e@,
        },
{
    match outcome {
        Ok(()) => {
            if transcript_empty {
                String::from_str("Recording stopped (no speech detected)")
            } else {
                let mut s = String::from_str("Call saved (");
                s.append(seconds);
                s.append("s) — switching to Analysis");
                s
            }
        },
        Err(e) => {
            let mut s = String::from_str("Save error: ");
            s.append(e.as_str());
            s
        },
    }
}

/// Records the outcome of deleting the selected call: on success the call
/// leaves the list and the cursor stays inside it; the status reports the
/// outcome.
pub fn finish_delete(hs: &mut CallHistoryState, id: &str, outcome: Result<(), String>) -> (status: String)
    requires
        old(hs).cursor < old(hs).calls@.len(),
    ensures
        match outcome {
            Ok(()) => {
                &&& final(hs).calls@ == old(hs).calls@.remove(old(hs).cursor as int)
                &&& final(hs).cursor == (if old(hs).cursor > 0 && old(hs).cursor >= final(hs).calls@.len() {
                    final(hs).calls@.len() - 1
                } else {
                    old(hs).cursor as int
                })
                &&& status@ == "Deleted call "@ + id@
            },
            Err(e) => {
                &&& final(hs).calls@ == old(hs).calls@
                &&& final(hs).cursor == old(hs).cursor
                &&& status@ == "Delete failed: "@ + e@
            },
        },
        final(hs).calls@.len() > 0 ==> final(hs).cursor < final(hs).calls@.len(),
        final(hs).active_tags@ == old(hs).active_tags@,
{
    match outcome {
        Ok(()) => {
            let c = hs.cursor;
            hs.calls.remove(c);
            if hs.cursor > 0 && hs.cursor >= hs.calls.len() {
                hs.cursor = if hs.calls.len() == 0 { 0 } else { hs.calls.len() - 1 };
            }
            let mut s = String::from_str("Deleted call ");
            s.append(id);
            s
        },
        Err(e) => {
            let mut s = String::from_str("Delete failed: ");
            s.append(e.as_str());
            s
        },
    }
}

} // verus!
