//! The keyboard shortcuts and commands listed on the cheat sheet.
use vstd::prelude::*;

verus! {

/// A shortcut or command: its section of the cheat sheet, the keys and
/// what it does.
#[derive(Clone, Copy, Debug)]
pub struct Shortcut {
    pub category: &'static str,
    pub key: &'static str,
    pub desc: &'static str,
}

/// A shortcut as its three texts.
pub open spec fn shortcut_v(s: Shortcut) -> (Seq<char>, Seq<char>, Seq<char>) {
    (s.category@, s.key@, s.desc@)
}

/// The cheat sheet, section by section.
pub open spec fn shortcut_table() -> Seq<(Seq<char>, Seq<char>, Seq<char>)> {
    seq![
        ("Editor Keys"@, "/"@, "Command bar"@),
        ("Editor Keys"@, "F1"@, "Cheat sheet"@),
        ("Editor Keys"@, "Esc"@, "Back to editor"@),
        ("Editor Keys"@, "^P"@, "Settings pane"@),
        ("Editor Keys"@, "^E"@, "Export pane"@),
        ("Editor Keys"@, "^H"@, "Scene Navigator"@),
        ("Editor Keys"@, "^L"@, "Ensemble"@),
        ("Editor Keys"@, "Tab"@, "Autocomplete"@),
        ("File Commands"@, "/w"@, "Save"@),
        ("File Commands"@, "/ww"@, "Save As"@),
        ("File Commands"@, "/o [path]"@, "Open file"@),
        ("File Commands"@, "/new"@, "New file"@),
        ("File Commands"@, "/bn / /bp"@, "Next / prev file"@),
        ("File Commands"@, "/q"@, "Close file"@),
        ("File Commands"@, "/q!"@, "Force close"@),
        ("File Commands"@, "/wq"@, "Save & close"@),
        ("File Commands"@, "/ex"@, "Exit app"@),
        ("File Commands"@, "/home"@, "Start screen"@),
        ("Sprint & Tools"@, "/sprint [m]"@, "Start sprint"@),
        ("Sprint & Tools"@, "/cancelsprint"@, "Cancel sprint"@),
        ("Sprint & Tools"@, "/sprintstat"@, "Sprint history"@),
        ("Sprint & Tools"@, "/snap"@, "Snapshots"@),
        ("Sprint & Tools"@, "/xray"@, "Visual analysis"@),
        ("Sprint & Tools"@, "/export"@, "Export pane"@),
        ("Sprint & Tools"@, "/theme [name]"@, "Switch theme"@),
        ("Sprint & Tools"@, "/ic"@, "Index cards"@),
        ("Sprint & Tools"@, "/editor / /ed"@, "Normal editor"@),
        ("Selection"@, "Shift+Arrow"@, "Extend selection"@),
        ("Selection"@, "Shift+Home"@, "Select to start"@),
        ("Selection"@, "Shift+End"@, "Select to end"@),
        ("Selection"@, "^A"@, "Select all"@),
        ("Selection"@, "^C"@, "Copy"@),
        ("Selection"@, "^X"@, "Cut"@),
        ("Selection"@, "^V"@, "Paste"@),
        ("Navigation"@, "/[line]"@, "Jump to line"@),
        ("Navigation"@, "/s[num]"@, "Jump to scene"@),
        ("Navigation"@, "/search [q]"@, "Search text"@),
        ("Navigation"@, "Alt+Up/Dn"@, "Next/Prev match"@),
        ("Navigation"@, "/ud / /rd"@, "Undo / Redo"@),
        ("Navigation"@, "/pos"@, "Cursor position"@),
        ("Navigation"@, "/copy"@, "Copy clipboard"@),
        ("Navigation"@, "/cut"@, "Cut clipboard"@),
        ("Navigation"@, "/paste"@, "Paste clipboard"@),
        ("Navigation"@, "/selectall"@, "Select all text"@),
        ("Movement"@, "^Left/Right"@, "Jump by word"@),
        ("Movement"@, "^Backspace"@, "Delete word \u{2190}"@),
        ("Movement"@, "^Delete"@, "Delete word \u{2192}"@),
        ("Movement"@, "Home / End"@, "Line start/end"@),
        ("Movement"@, "PgUp / PgDn"@, "Scroll page"@),
        ("Movement"@, "^PgUp/PgDn"@, "Switch files"@),
        ("Scene & Production"@, "/renum"@, "Renumber scenes"@),
        ("Scene & Production"@, "/clearnum"@, "Clear numbers"@),
        ("Scene & Production"@, "/injectnum"@, "Number scene"@),
        ("Scene & Production"@, "/locknum"@, "Production lock"@),
        ("Scene & Production"@, "/unlocknum"@, "Unlock numbers"@),
        ("Scene & Production"@, "/addtitle"@, "Title page"@),
        ("Settings (/set)"@, "focus"@, "Zen mode"@),
        ("Settings (/set)"@, "typewriter"@, "Center cursor"@),
        ("Settings (/set)"@, "markup"@, "Show/hide markup"@),
        ("Settings (/set)"@, "pagenums"@, "Page numbers"@),
        ("Settings (/set)"@, "scenenums"@, "Scene numbers"@),
        ("Settings (/set)"@, "contd"@, "Auto (CONT'D)"@),
        ("Settings (/set)"@, "autosave"@, "Auto-save 30s"@),
        ("Settings (/set)"@, "autocomplete"@, "Suggestions"@),
        ("Settings (/set)"@, "autobreaks"@, "Smart breaks"@)
    ]
}

/// Every shortcut and command of the cheat sheet, in the order shown.
#[verifier::rlimit(40)]
pub fn get_all_shortcuts() -> (r: Vec<Shortcut>)
    ensures
        r@.map_values(|s: Shortcut| shortcut_v(s)) == shortcut_table(),
{
    let mut v: Vec<Shortcut> = Vec::new();
    v.push(Shortcut { category: "Editor Keys", key: "/", desc: "Command bar" });
    v.push(Shortcut { category: "Editor Keys", key: "F1", desc: "Cheat sheet" });
    v.push(Shortcut { category: "Editor Keys", key: "Esc", desc: "Back to editor" });
    v.push(Shortcut { category: "Editor Keys", key: "^P", desc: "Settings pane" });
    v.push(Shortcut { category: "Editor Keys", key: "^E", desc: "Export pane" });
    v.push(Shortcut { category: "Editor Keys", key: "^H", desc: "Scene Navigator" });
    v.push(Shortcut { category: "Editor Keys", key: "^L", desc: "Ensemble" });
    v.push(Shortcut { category: "Editor Keys", key: "Tab", desc: "Autocomplete" });
    v.push(Shortcut { category: "File Commands", key: "/w", desc: "Save" });
    v.push(Shortcut { category: "File Commands", key: "/ww", desc: "Save As" });
    v.push(Shortcut { category: "File Commands", key: "/o [path]", desc: "Open file" });
    v.push(Shortcut { category: "File Commands", key: "/new", desc: "New file" });
    v.push(Shortcut { category: "File Commands", key: "/bn / /bp", desc: "Next / prev file" });
    v.push(Shortcut { category: "File Commands", key: "/q", desc: "Close file" });
    v.push(Shortcut { category: "File Commands", key: "/q!", desc: "Force close" });
    v.push(Shortcut { category: "File Commands", key: "/wq", desc: "Save & close" });
    v.push(Shortcut { category: "File Commands", key: "/ex", desc: "Exit app" });
    v.push(Shortcut { category: "File Commands", key: "/home", desc: "Start screen" });
    v.push(Shortcut { category: "Sprint & Tools", key: "/sprint [m]", desc: "Start sprint" });
    v.push(Shortcut { category: "Sprint & Tools", key: "/cancelsprint", desc: "Cancel sprint" });
    v.push(Shortcut { category: "Sprint & Tools", key: "/sprintstat", desc: "Sprint history" });
    v.push(Shortcut { category: "Sprint & Tools", key: "/snap", desc: "Snapshots" });
    v.push(Shortcut { category: "Sprint & Tools", key: "/xray", desc: "Visual analysis" });
    v.push(Shortcut { category: "Sprint & Tools", key: "/export", desc: "Export pane" });
    v.push(Shortcut { category: "Sprint & Tools", key: "/theme [name]", desc: "Switch theme" });
    v.push(Shortcut { category: "Sprint & Tools", key: "/ic", desc: "Index cards" });
    v.push(Shortcut { category: "Sprint & Tools", key: "/editor / /ed", desc: "Normal editor" });
    v.push(Shortcut { category: "Selection", key: "Shift+Arrow", desc: "Extend selection" });
    v.push(Shortcut { category: "Selection", key: "Shift+Home", desc: "Select to start" });
    v.push(Shortcut { category: "Selection", key: "Shift+End", desc: "Select to end" });
    v.push(Shortcut { category: "Selection", key: "^A", desc: "Select all" });
    v.push(Shortcut { category: "Selection", key: "^C", desc: "Copy" });
    v.push(Shortcut { category: "Selection", key: "^X", desc: "Cut" });
    v.push(Shortcut { category: "Selection", key: "^V", desc: "Paste" });
    v.push(Shortcut { category: "Navigation", key: "/[line]", desc: "Jump to line" });
    v.push(Shortcut { category: "Navigation", key: "/s[num]", desc: "Jump to scene" });
    v.push(Shortcut { category: "Navigation", key: "/search [q]", desc: "Search text" });
    v.push(Shortcut { category: "Navigation", key: "Alt+Up/Dn", desc: "Next/Prev match" });
    v.push(Shortcut { category: "Navigation", key: "/ud / /rd", desc: "Undo / Redo" });
    v.push(Shortcut { category: "Navigation", key: "/pos", desc: "Cursor position" });
    v.push(Shortcut { category: "Navigation", key: "/copy", desc: "Copy clipboard" });
    v.push(Shortcut { category: "Navigation", key: "/cut", desc: "Cut clipboard" });
    v.push(Shortcut { category: "Navigation", key: "/paste", desc: "Paste clipboard" });
    v.push(Shortcut { category: "Navigation", key: "/selectall", desc: "Select all text" });
    v.push(Shortcut { category: "Movement", key: "^Left/Right", desc: "Jump by word" });
    v.push(Shortcut { category: "Movement", key: "^Backspace", desc: "Delete word \u{2190}" });
    v.push(Shortcut { category: "Movement", key: "^Delete", desc: "Delete word \u{2192}" });
    v.push(Shortcut { category: "Movement", key: "Home / End", desc: "Line start/end" });
    v.push(Shortcut { category: "Movement", key: "PgUp / PgDn", desc: "Scroll page" });
    v.push(Shortcut { category: "Movement", key: "^PgUp/PgDn", desc: "Switch files" });
    v.push(Shortcut { category: "Scene & Production", key: "/renum", desc: "Renumber scenes" });
    v.push(Shortcut { category: "Scene & Production", key: "/clearnum", desc: "Clear numbers" });
    v.push(Shortcut { category: "Scene & Production", key: "/injectnum", desc: "Number scene" });
    v.push(Shortcut { category: "Scene & Production", key: "/locknum", desc: "Production lock" });
    v.push(Shortcut { category: "Scene & Production", key: "/unlocknum", desc: "Unlock numbers" });
    v.push(Shortcut { category: "Scene & Production", key: "/addtitle", desc: "Title page" });
    v.push(Shortcut { category: "Settings (/set)", key: "focus", desc: "Zen mode" });
    v.push(Shortcut { category: "Settings (/set)", key: "typewriter", desc: "Center cursor" });
    v.push(Shortcut { category: "Settings (/set)", key: "markup", desc: "Show/hide markup" });
    v.push(Shortcut { category: "Settings (/set)", key: "pagenums", desc: "Page numbers" });
    v.push(Shortcut { category: "Settings (/set)", key: "scenenums", desc: "Scene numbers" });
    v.push(Shortcut { category: "Settings (/set)", key: "contd", desc: "Auto (CONT'D)" });
    v.push(Shortcut { category: "Settings (/set)", key: "autosave", desc: "Auto-save 30s" });
    v.push(Shortcut { category: "Settings (/set)", key: "autocomplete", desc: "Suggestions" });
    v.push(Shortcut { category: "Settings (/set)", key: "autobreaks", desc: "Smart breaks" });
    proof {
        assert(v@.map_values(|s: Shortcut| shortcut_v(s)) =~= shortcut_table());
    }
    v
}

} // verus!
