//! The editor state: the script's lines, their types, the cursor, the
//! status line and the undo history.
use vstd::prelude::*;
use crate::chars::{chars_of, string_of};
use crate::classify::{LineType, classify, classify_spec};
use crate::navigation::EnsembleRow;
use crate::snapshots::Snapshot;
use crate::sprint::Sprint;
use std::collections::HashSet;

verus! {

/// The screen the editor shows.
#[derive(Clone, Copy, Debug, PartialEq, Eq, Structural)]
pub enum AppMode {
    Normal,
    Command,
    Snapshots,
    IndexCards,
    SceneTree,
    CharacterNavigator,
    SettingsPane,
}

/// A buffer that is not the one being edited: its script, path, cursor,
/// changed mark and undo history.
pub struct BufferState {
    pub lines: Vec<String>,
    pub file: Option<String>,
    pub cursor_y: usize,
    pub cursor_x: usize,
    pub dirty: bool,
    pub undo_stack: Vec<EditState>,
    pub redo_stack: Vec<EditState>,
}

/// A saved state for undo and redo.
#[derive(Clone, Debug)]
pub struct EditState {
    pub lines: Vec<String>,
    pub cursor_y: usize,
    pub cursor_x: usize,
}

/// One visual row of the laid-out script: characters
/// `char_start..char_end` of line `line_idx`.
#[derive(Clone, Copy, Debug, PartialEq, Eq, Structural)]
pub struct VisualRow {
    pub line_idx: usize,
    pub char_start: usize,
    pub char_end: usize,
}

/// The editor.
pub struct App {
    pub lines: Vec<String>,
    pub types: Vec<LineType>,
    pub cursor_y: usize,
    pub cursor_x: usize,
    /// The visual column that vertical movement tries to keep.
    pub target_visual_x: usize,
    pub dirty: bool,
    pub status_msg: Option<String>,
    pub command_error: bool,
    pub mode: AppMode,
    pub undo_stack: Vec<EditState>,
    pub redo_stack: Vec<EditState>,
    pub layout: Vec<VisualRow>,
    /// The path of the file being edited, if it has one.
    pub file: Option<String>,
    pub selected_card_idx: usize,
    pub is_card_editing: bool,
    pub is_heading_editing: bool,
    pub card_input_buffer: String,
    /// The snapshot selected in the snapshot list, while it is shown.
    pub selected_snapshot: Option<usize>,
    /// Whether keys go through the modal (vi-style) layer.
    pub modal_editing: bool,
    /// In the modal layer: typing inserts text.
    pub vim_mode_insert: bool,
    /// In the modal layer: the operator waiting for its motion (`d`).
    pub vim_pending_key: Option<char>,
    /// The screen to go back to when the command panel closes.
    pub previous_mode: AppMode,
    /// What is typed in the command panel.
    pub command_input: String,
    /// The other end of the selection (line, column), while text is selected.
    pub selection_anchor: Option<(usize, usize)>,
    /// Where the cursor was when a navigator opened, to go back to on Esc.
    pub nav_original_pos: Option<(usize, usize)>,
    /// The row selected in the scene tree.
    pub selected_scene: usize,
    /// The lines of the sections folded in the scene tree.
    pub collapsed_sections: HashSet<usize>,
    /// The rows of the character navigator.
    pub ensemble_items: Vec<EnsembleRow>,
    /// The row selected in the character navigator.
    pub selected_ensemble_idx: usize,
    /// The writing sprint under way, if any.
    pub active_sprint: Option<Sprint>,
    /// The screen flashes (a sprint has just ended).
    pub flash: bool,
    /// The text cut or copied last, which a paste inserts.
    pub clipboard: String,
    /// The snapshots listed for the edited file.
    pub snapshots: Vec<Snapshot>,
    /// The open buffers. The entry of the current one is a place holder:
    /// its state is the editor's own, stored back on a switch.
    pub buffers: Vec<BufferState>,
    /// The buffer being edited.
    pub current_buffer: usize,
    /// More than one buffer has been opened.
    pub has_multiple_buffers: bool,
}

/// The parts of the editor that editing the text leaves alone: the screen,
/// the command panel, the modal layer and the selection.
pub open spec fn same_ui(a: App, b: App) -> bool {
    &&& b.mode == a.mode
    &&& b.previous_mode == a.previous_mode
    &&& b.command_input == a.command_input
    &&& b.command_error == a.command_error
    &&& b.modal_editing == a.modal_editing
    &&& b.vim_mode_insert == a.vim_mode_insert
    &&& b.vim_pending_key == a.vim_pending_key
    &&& b.selection_anchor == a.selection_anchor
}

/// The characters of each string.
pub open spec fn texts(v: Seq<String>) -> Seq<Seq<char>> {
    v.map_values(|s: String| s@)
}

impl BufferState {
    /// An empty buffer: no lines, no path, nothing to undo.
    pub fn blank() -> (r: BufferState)
        ensures
            r.is_blank(),
    {
        BufferState {
            lines: Vec::new(),
            file: None,
            cursor_y: 0,
            cursor_x: 0,
            dirty: false,
            undo_stack: Vec::new(),
            redo_stack: Vec::new(),
        }
    }
}

impl BufferState {
    /// The buffer is empty: no lines, no path, nothing to undo.
    pub open spec fn is_blank(&self) -> bool {
        &&& self.lines@.len() == 0
        &&& self.file is None
        &&& self.cursor_y == 0
        &&& self.cursor_x == 0
        &&& !self.dirty
        &&& self.undo_stack@.len() == 0
        &&& self.redo_stack@.len() == 0
    }
}

impl App {
    /// The script, line by line.
    pub open spec fn text(&self) -> Seq<Seq<char>> {
        texts(self.lines@)
    }

    /// Every line has a type.
    pub open spec fn typed(&self) -> bool {
        self.types@.len() == self.lines@.len()
    }

    /// An editor holding one empty line.
    pub fn new() -> (r: App)
        ensures
            r.text() == seq![Seq::<char>::empty()],
            r.types@ == seq![LineType::Empty],
            r.cursor_y == 0,
            r.cursor_x == 0,
            r.target_visual_x == 0,
            !r.dirty,
            r.status_msg is None,
            r.mode == AppMode::Normal,
            r.undo_stack@.len() == 0,
            r.redo_stack@.len() == 0,
            r.file is None,
            !r.modal_editing,
            !r.vim_mode_insert,
            r.vim_pending_key is None,
            r.command_input@.len() == 0,
            r.selection_anchor is None,
            r.clipboard@.len() == 0,
            r.snapshots@.len() == 0,
            r.buffers@.len() == 1,
            r.current_buffer == 0,
            !r.has_multiple_buffers,
    {
        let mut bufs: Vec<BufferState> = Vec::new();
        bufs.push(BufferState::blank());
        let mut lines: Vec<String> = Vec::new();
        lines.push(String::new());
        let mut types: Vec<LineType> = Vec::new();
        types.push(LineType::Empty);
        let r = App {
            lines,
            types,
            cursor_y: 0,
            cursor_x: 0,
            target_visual_x: 0,
            dirty: false,
            status_msg: None,
            command_error: false,
            mode: AppMode::Normal,
            undo_stack: Vec::new(),
            redo_stack: Vec::new(),
            layout: Vec::new(),
            file: None,
            selected_card_idx: 0,
            is_card_editing: false,
            is_heading_editing: false,
            card_input_buffer: String::new(),
            selected_snapshot: None,
            modal_editing: false,
            vim_mode_insert: false,
            vim_pending_key: None,
            previous_mode: AppMode::Normal,
            command_input: String::new(),
            selection_anchor: None,
            nav_original_pos: None,
            selected_scene: 0,
            collapsed_sections: HashSet::new(),
            ensemble_items: Vec::new(),
            selected_ensemble_idx: 0,
            active_sprint: None,
            flash: false,
            clipboard: String::new(),
            snapshots: Vec::new(),
            buffers: bufs,
            current_buffer: 0,
            has_multiple_buffers: false,
        };
        proof {
            assert(r.text() =~= seq![Seq::<char>::empty()]);
        }
        r
    }

    /// Shows `msg` on the status line.
    pub fn set_status(&mut self, msg: &str)
        ensures
            final(self).status_msg matches Some(m) && m@ == msg@,
            !final(self).command_error,
            final(self).lines == old(self).lines,
            final(self).types == old(self).types,
            final(self).cursor_y == old(self).cursor_y,
            final(self).cursor_x == old(self).cursor_x,
            final(self).dirty == old(self).dirty,
            final(self).mode == old(self).mode,
            final(self).file == old(self).file,
            final(self).selected_snapshot == old(self).selected_snapshot,
            *final(self) == (App { status_msg: final(self).status_msg, command_error: final(self).command_error, ..*old(self) }),
    {
        self.status_msg = Some(string_of(&chars_of(msg)));
        self.command_error = false;
    }

    /// Shows `msg` on the status line as an error.
    pub fn set_error(&mut self, msg: &str)
        ensures
            final(self).status_msg matches Some(m) && m@ == msg@,
            final(self).command_error,
            final(self).lines == old(self).lines,
            final(self).types == old(self).types,
            final(self).cursor_y == old(self).cursor_y,
            final(self).cursor_x == old(self).cursor_x,
            final(self).dirty == old(self).dirty,
            final(self).mode == old(self).mode,
            final(self).file == old(self).file,
            final(self).selected_snapshot == old(self).selected_snapshot,
            *final(self) == (App { status_msg: final(self).status_msg, command_error: final(self).command_error, ..*old(self) }),
    {
        self.status_msg = Some(string_of(&chars_of(msg)));
        self.command_error = true;
    }

    /// The lines as character vectors.
    pub fn line_chars(&self) -> (r: Vec<Vec<char>>)
        ensures
            r@.map_values(|l: Vec<char>| l@) == self.text(),
    {
        let mut r: Vec<Vec<char>> = Vec::new();
        let mut i: usize = 0;
        while i < self.lines.len()
            invariant
                i <= self.lines.len(),
                r@.len() == i,
                forall|k: int| 0 <= k < i ==> #[trigger] r@[k]@ == self.lines@[k]@,
            decreases self.lines.len() - i,
        {
            r.push(chars_of(self.lines[i].as_str()));
            i += 1;
        }
        proof {
            assert(r@.map_values(|l: Vec<char>| l@) =~= self.text());
        }
        r
    }

    /// Classifies every line again.
    pub fn parse_document(&mut self)
        ensures
            final(self).types@ == classify_spec(old(self).text()),
            final(self).typed(),
            final(self).lines == old(self).lines,
            final(self).cursor_y == old(self).cursor_y,
            final(self).cursor_x == old(self).cursor_x,
            final(self).dirty == old(self).dirty,
            final(self).status_msg == old(self).status_msg,
            final(self).mode == old(self).mode,
            final(self).selected_card_idx == old(self).selected_card_idx,
            final(self).undo_stack == old(self).undo_stack,
            final(self).redo_stack == old(self).redo_stack,
            final(self).target_visual_x == old(self).target_visual_x,
            final(self).is_card_editing == old(self).is_card_editing,
            final(self).is_heading_editing == old(self).is_heading_editing,
            final(self).card_input_buffer == old(self).card_input_buffer,
            final(self).file == old(self).file,
            final(self).command_error == old(self).command_error,
            same_ui(*old(self), *final(self)),
            *final(self) == (App { types: final(self).types, ..*old(self) }),
    {
        let ls = self.line_chars();
        self.types = classify(&ls);
    }
}

} // verus!
