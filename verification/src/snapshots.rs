//! Snapshots of the script: what the editor shows and says around the
//! listing and writing of snapshot files, which the caller performs.
use vstd::prelude::*;
use crate::chars::{chars_of, file_name, path_file_name, string_of};
use crate::classify::classify_spec;
use crate::editing::layout_spec;
use crate::buffers::{buffers_ok, live_buffer};
use crate::editor::{texts, App, AppMode, BufferState};
use crate::parse::{chars_v, script_lines, split_lines};
use crate::text::push_all;

verus! {

/// A snapshot of the edited file: where it is stored and when it was
/// taken, as shown in the list.
#[derive(Clone, Debug)]
pub struct Snapshot {
    pub path: String,
    pub display_time: String,
}

impl App {
    /// Opens the snapshot list. `listed` is what listing the snapshots of
    /// the edited file gave; a script without a path has no snapshots, so
    /// it is then not consulted and the list stays.
    pub fn open_snapshots(&mut self, listed: Vec<Snapshot>)
        ensures
            final(self).lines == old(self).lines,
            final(self).types == old(self).types,
            final(self).cursor_y == old(self).cursor_y,
            final(self).cursor_x == old(self).cursor_x,
            final(self).dirty == old(self).dirty,
            old(self).file is None ==> {
                &&& final(self).status_msg matches Some(m) && m@ == "Save the file first to use snapshots."@
                &&& final(self).command_error
                &&& final(self).mode == old(self).mode
                &&& final(self).selected_snapshot == old(self).selected_snapshot
                &&& final(self).snapshots == old(self).snapshots
            },
            old(self).file is Some ==> final(self).snapshots == listed,
            old(self).file is Some && listed@.len() == 0 ==> {
                &&& final(self).status_msg matches Some(m) && m@ == "No snapshots found for this file."@
                &&& !final(self).command_error
                &&& final(self).mode == old(self).mode
                &&& final(self).selected_snapshot == old(self).selected_snapshot
            },
            old(self).file is Some && listed@.len() > 0 ==> {
                &&& final(self).mode == AppMode::Snapshots
                &&& final(self).selected_snapshot == Some(0usize)
                &&& final(self).status_msg == old(self).status_msg
                &&& final(self).command_error == old(self).command_error
            },
            *final(self) == (App { status_msg: final(self).status_msg, command_error: final(self).command_error, mode: final(self).mode, selected_snapshot: final(self).selected_snapshot, snapshots: final(self).snapshots, ..*old(self) }),
    {
        if self.file.is_some() {
            let empty = listed.len() == 0;
            self.snapshots = listed;
            if empty {
                self.set_status("No snapshots found for this file.");
            } else {
                self.mode = AppMode::Snapshots;
                self.selected_snapshot = Some(0);
            }
        } else {
            self.set_error("Save the file first to use snapshots.");
        }
    }

    /// Whether a snapshot is to be written now: only a script with a path
    /// has snapshots.
    pub fn trigger_snapshot(&self) -> (r: bool)
        ensures
            r == self.file is Some,
    {
        self.file.is_some()
    }

    /// Takes the outcome of writing a snapshot: a failure is reported on the
    /// status line with its reason; a success changes nothing here.
    pub fn snapshot_written(&mut self, outcome: Result<(), String>)
        ensures
            final(self).lines == old(self).lines,
            final(self).types == old(self).types,
            final(self).mode == old(self).mode,
            outcome matches Err(e) ==> final(self).status_msg matches Some(m) && m@ == "Snapshot failed: "@ + e@,
            outcome matches Err(_) ==> !final(self).command_error,
            outcome is Ok ==> final(self).status_msg == old(self).status_msg,
            *final(self) == (App { status_msg: final(self).status_msg, command_error: final(self).command_error, ..*old(self) }),
    {
        match outcome {
            Ok(()) => {},
            Err(e) => {
                let mut msg = chars_of("Snapshot failed: ");
                push_all(&mut msg, &chars_of(e.as_str()));
                self.status_msg = Some(string_of(&msg));
                self.command_error = false;
            },
        }
    }

    /// Restores snapshot `index` of the list, whose file held `content`
    /// (or could not be read, for the reason given); the editor returns to
    /// normal mode. In place, the script is remembered for undo and
    /// replaced, and the cursor goes to the start. In a new buffer, the
    /// current buffer is kept in the buffer list and a new, changed buffer
    /// with the snapshot's lines (no path, nothing to undo) is added and
    /// edited. An empty snapshot gives one empty line. An index past the
    /// list changes nothing, and so does a failed read, whose reason comes
    /// back.
    pub fn restore_snapshot(&mut self, index: usize, content: Result<String, String>, in_new_buffer: bool) -> (r:
        Result<(), String>)
        requires
            buffers_ok(*old(self)),
        ensures
            buffers_ok(*final(self)),
            index >= old(self).snapshots@.len() ==> r is Ok && *final(self) == *old(self),
            index < old(self).snapshots@.len() ==> match content {
                Err(e) => r == Err::<(), String>(e) && *final(self) == *old(self),
                Ok(c) => {
                    let text = snapshot_text(c@);
                    let display_time = old(self).snapshots@[index as int].display_time@;
                    &&& r is Ok
                    &&& if in_new_buffer {
                        opened_in_new_buffer(*old(self), *final(self), text, display_time)
                    } else {
                        replaced_in_place(*old(self), *final(self), text, display_time)
                    }
                },
            },
    {
        if index >= self.snapshots.len() {
            return Ok(());
        }
        let c = match content {
            Ok(c) => c,
            Err(e) => {
                return Err(e);
            },
        };
        let display_time = chars_of(self.snapshots[index].display_time.as_str());
        let lines = snapshot_lines(c.as_str());
        if in_new_buffer {
            self.restore_in_new_buffer(lines, &display_time);
        } else {
            self.restore_in_place(lines, &display_time);
        }
        Ok(())
    }

    /// Opens `lines` as a new, changed buffer (see `opened_in_new_buffer`).
    fn restore_in_new_buffer(&mut self, lines: Vec<String>, display_time: &Vec<char>)
        requires
            buffers_ok(*old(self)),
        ensures
            buffers_ok(*final(self)),
            opened_in_new_buffer(*old(self), *final(self), texts(lines@), display_time@),
    {
        let name = match &self.file {
            Some(p) => match file_name(p.as_str()) {
                Some(n) => n,
                None => string_of(&chars_of("unnamed")),
            },
            None => string_of(&chars_of("unnamed")),
        };
        let ghost pre = *self;
        let mut b = BufferState::blank();
        b.lines = lines;
        b.dirty = true;
        self.buffers.push(b);
        let new_idx = self.buffers.len() - 1;
        self.has_multiple_buffers = true;
        self.switch_buffer(new_idx);
        proof {
            assert(self.buffers@ =~= pre.buffers@.update(pre.current_buffer as int, live_buffer(pre)).push(
                self.buffers@.last(),
            ));
        }
        let mut msg = chars_of("Opened snapshot of ");
        push_all(&mut msg, &chars_of(name.as_str()));
        push_all(&mut msg, &chars_of(" from "));
        push_all(&mut msg, display_time);
        push_all(&mut msg, &chars_of(" in a new buffer"));
        self.status_msg = Some(string_of(&msg));
        self.command_error = false;
        self.mode = AppMode::Normal;
    }

    /// Replaces the script by `lines` (see `replaced_in_place`).
    fn restore_in_place(&mut self, lines: Vec<String>, display_time: &Vec<char>)
        requires
            buffers_ok(*old(self)),
        ensures
            buffers_ok(*final(self)),
            replaced_in_place(*old(self), *final(self), texts(lines@), display_time@),
    {
        self.save_state(true);
        self.lines = lines;
        self.cursor_y = 0;
        self.cursor_x = 0;
        self.dirty = true;
        self.parse_document();
        self.update_layout();
        let mut msg = chars_of("Replaced current buffer with snapshot from ");
        push_all(&mut msg, display_time);
        self.status_msg = Some(string_of(&msg));
        self.command_error = false;
        self.mode = AppMode::Normal;
    }
}

/// A snapshot with lines `text`, taken at `display_time`, opened in a new
/// buffer: the editor's buffer goes back to its place in the list, a new
/// changed buffer with the snapshot's lines (no path, nothing to undo) is
/// added and edited, and the editor returns to normal mode.
pub open spec fn opened_in_new_buffer(pre: App, post: App, text: Seq<Seq<char>>, display_time: Seq<char>) -> bool {
    &&& post.buffers@ == pre.buffers@.update(pre.current_buffer as int, live_buffer(pre)).push(post.buffers@.last())
    &&& post.buffers@.last().is_blank()
    &&& post.current_buffer == pre.buffers@.len()
    &&& post.has_multiple_buffers
    &&& post.text() == text
    &&& post.types@ == classify_spec(text)
    &&& post.layout@ == layout_spec(text, post.types@, text.len() as int)
    &&& post.file is None
    &&& post.cursor_y == 0
    &&& post.cursor_x == 0
    &&& post.dirty
    &&& post.undo_stack@.len() == 0
    &&& post.redo_stack@.len() == 0
    &&& post.mode == AppMode::Normal
    &&& !post.command_error
    &&& post.status_msg matches Some(m) && m@ == "Opened snapshot of "@ + buffer_name(pre.file) + " from "@
        + display_time + " in a new buffer"@
    &&& post == (App {
        lines: post.lines,
        types: post.types,
        layout: post.layout,
        file: post.file,
        cursor_y: post.cursor_y,
        cursor_x: post.cursor_x,
        dirty: post.dirty,
        undo_stack: post.undo_stack,
        redo_stack: post.redo_stack,
        buffers: post.buffers,
        current_buffer: post.current_buffer,
        has_multiple_buffers: post.has_multiple_buffers,
        status_msg: post.status_msg,
        command_error: post.command_error,
        mode: post.mode,
        ..pre
    })
}

/// A snapshot with lines `text`, taken at `display_time`, restored in
/// place: the script is remembered for undo and replaced, the cursor goes
/// to the start, and the editor returns to normal mode.
pub open spec fn replaced_in_place(pre: App, post: App, text: Seq<Seq<char>>, display_time: Seq<char>) -> bool {
    &&& saved_then_replaced(pre, post, text)
    &&& post.mode == AppMode::Normal
    &&& !post.command_error
    &&& post.status_msg matches Some(m) && m@ == "Replaced current buffer with snapshot from "@ + display_time
    &&& post == (App {
        lines: post.lines,
        types: post.types,
        layout: post.layout,
        cursor_y: post.cursor_y,
        cursor_x: post.cursor_x,
        dirty: post.dirty,
        undo_stack: post.undo_stack,
        redo_stack: post.redo_stack,
        status_msg: post.status_msg,
        command_error: post.command_error,
        mode: post.mode,
        ..pre
    })
}

/// The lines of a snapshot; an empty one gives one empty line.
pub open spec fn snapshot_text(content: Seq<char>) -> Seq<Seq<char>> {
    if script_lines(content).len() == 0 {
        seq![Seq::<char>::empty()]
    } else {
        script_lines(content)
    }
}

/// The name of the buffer of a script with path `file`: the path's file
/// name, else `unnamed`.
pub open spec fn buffer_name(file: Option<String>) -> Seq<char> {
    match file {
        Some(p) => match path_file_name(p@) {
            Some(n) => n,
            None => "unnamed"@,
        },
        None => "unnamed"@,
    }
}

/// The lines of the snapshot `content` (see `snapshot_text`).
fn snapshot_lines(content: &str) -> (r: Vec<String>)
    ensures
        texts(r@) == snapshot_text(content@),
{
    let v = chars_of(content);
    let ls = split_lines(&v);
    let mut lines: Vec<String> = Vec::new();
    let mut i: usize = 0;
    while i < ls.len()
        invariant
            i <= ls@.len(),
            texts(lines@) == chars_v(ls@).take(i as int),
        decreases ls.len() - i,
    {
        let ghost before = texts(lines@);
        lines.push(string_of(&ls[i]));
        proof {
            assert(texts(lines@) =~= before.push(ls@[i as int]@));
            assert(chars_v(ls@).take(i + 1) =~= chars_v(ls@).take(i as int).push(ls@[i as int]@));
        }
        i += 1;
    }
    proof {
        assert(chars_v(ls@).take(ls@.len() as int) =~= chars_v(ls@));
    }
    if lines.len() == 0 {
        lines.push(String::new());
        proof {
            assert(texts(lines@) =~= seq![Seq::<char>::empty()]);
        }
    }
    lines
}

/// The script was remembered for undo and replaced by `text`, classified
/// and laid out again, with the cursor at its start and marked changed.
pub open spec fn saved_then_replaced(pre: App, post: App, text: Seq<Seq<char>>) -> bool {
    &&& post.text() == text
    &&& post.types@ == classify_spec(text)
    &&& post.layout@ == layout_spec(text, post.types@, text.len() as int)
    &&& post.undo_stack@.len() == pre.undo_stack@.len() + 1
    &&& texts(post.undo_stack@.last().lines@) == pre.text()
    &&& post.undo_stack@.last().cursor_y == pre.cursor_y
    &&& post.undo_stack@.last().cursor_x == pre.cursor_x
    &&& post.redo_stack@.len() == 0
    &&& post.cursor_y == 0
    &&& post.cursor_x == 0
    &&& post.dirty
}

} // verus!
