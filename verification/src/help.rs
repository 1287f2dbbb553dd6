//! The key bindings that the help overlay lists for each mode.
use vstd::prelude::*;
use crate::text::str_eq;

verus! {

/// The bindings of a mode, by its status-bar label: (key, description)
/// pairs, in display order; none for an unknown label.
pub open spec fn bindings(mode: Seq<char>) -> Seq<(Seq<char>, Seq<char>)> {
    if mode == "LIVE"@ {
        seq![
            ("r"@, "Start recording"@),
            ("s"@, "Stop recording"@),
            ("h"@, "Call history"@),
            ("q"@, "Quit"@),
            ("Esc"@, "Quit (when idle)"@),
            ("?"@, "Toggle help"@),
        ]
    } else if mode == "ANALYSIS"@ {
        seq![
            ("f"@, "Generate follow-up email"@),
            ("c"@, "Copy analysis to clipboard"@),
            ("C"@, "Copy follow-up to clipboard"@),
            ("e"@, "Export as markdown to clipboard"@),
            ("h"@, "Call history"@),
            ("↑/↓"@, "Scroll"@),
            ("q"@, "Quit"@),
            ("?"@, "Toggle help"@),
        ]
    } else if mode == "AGENT"@ {
        seq![("Enter"@, "Send message"@), ("Esc"@, "Quit"@), ("?"@, "Toggle help"@)]
    } else if mode == "HISTORY"@ {
        seq![
            ("↑/↓/j/k"@, "Navigate"@),
            ("Enter"@, "Open in Analysis"@),
            ("d"@, "Delete call"@),
            ("t"@, "Filter by tag"@),
            ("Esc"@, "Back"@),
            ("q"@, "Quit"@),
            ("?"@, "Toggle help"@),
        ]
    } else {
        seq![]
    }
}

/// The views of a list of bindings.
pub open spec fn binding_views(v: Seq<(&'static str, &'static str)>) -> Seq<(Seq<char>, Seq<char>)> {
    v.map_values(|b: (&'static str, &'static str)| (b.0@, b.1@))
}

/// The key bindings of a mode, by its status-bar label.
pub fn keys_for_mode(mode: &str) -> (r: Vec<(&'static str, &'static str)>)
    ensures
        binding_views(r@) == bindings(mode@),
{
    let r: Vec<(&'static str, &'static str)> = if str_eq(mode, "LIVE") {
        vec![
            ("r", "Start recording"),
            ("s", "Stop recording"),
            ("h", "Call history"),
            ("q", "Quit"),
            ("Esc", "Quit (when idle)"),
            ("?", "Toggle help"),
        ]
    } else if str_eq(mode, "ANALYSIS") {
        vec![
            ("f", "Generate follow-up email"),
            ("c", "Copy analysis to clipboard"),
            ("C", "Copy follow-up to clipboard"),
            ("e", "Export as markdown to clipboard"),
            ("h", "Call history"),
            ("↑/↓", "Scroll"),
            ("q", "Quit"),
            ("?", "Toggle help"),
        ]
    } else if str_eq(mode, "AGENT") {
        vec![("Enter", "Send message"), ("Esc", "Quit"), ("?", "Toggle help")]
    } else if str_eq(mode, "HISTORY") {
        vec![
            ("↑/↓/j/k", "Navigate"),
            ("Enter", "Open in Analysis"),
            ("d", "Delete call"),
            ("t", "Filter by tag"),
            ("Esc", "Back"),
            ("q", "Quit"),
            ("?", "Toggle help"),
        ]
    } else {
        Vec::new()
    };
    proof {
        assert(binding_views(r@) =~= bindings(mode@));
    }
    r
}

} // verus!
