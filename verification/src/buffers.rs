//! Switching between open buffers: the editor's own state is the current
//! buffer's; the others wait in the buffer list.
use vstd::prelude::*;
use crate::classify::classify_spec;
use crate::editing::layout_spec;
use crate::editor::{App, BufferState};

verus! {

/// The editor's state as a buffer.
pub open spec fn live_buffer(a: App) -> BufferState {
    BufferState {
        lines: a.lines,
        file: a.file,
        cursor_y: a.cursor_y,
        cursor_x: a.cursor_x,
        dirty: a.dirty,
        undo_stack: a.undo_stack,
        redo_stack: a.redo_stack,
    }
}

/// The editor edits buffer `b`: its script, path, cursor, changed mark and
/// undo history, the script classified and laid out.
pub open spec fn edits(a: App, b: BufferState) -> bool {
    &&& live_buffer(a) == b
    &&& a.types@ == classify_spec(a.text())
    &&& a.layout@ == layout_spec(a.text(), a.types@, a.lines@.len() as int)
}

/// The buffer list is consistent: the current buffer is one of them.
pub open spec fn buffers_ok(a: App) -> bool {
    a.current_buffer < a.buffers@.len()
}

/// What `switch_buffer(idx)` does: the editor's state goes back to its
/// place in the list, and buffer `idx` becomes the one edited (its place
/// then holds an empty buffer); the other buffers stay.
pub open spec fn switched(pre: App, post: App, idx: int) -> bool {
    let cur = pre.current_buffer as int;
    let target = if idx == cur { live_buffer(pre) } else { pre.buffers@[idx] };
    &&& post.current_buffer == idx
    &&& post.buffers@.len() == pre.buffers@.len()
    &&& edits(post, target)
    &&& idx != cur ==> post.buffers@[cur] == live_buffer(pre)
    &&& post.buffers@[idx].is_blank()
    &&& forall|i: int| 0 <= i < pre.buffers@.len() && i != cur && i != idx ==> post.buffers@[i] == pre.buffers@[i]
}

impl App {
    /// Makes buffer `idx` the one edited, storing the current one back.
    pub fn switch_buffer(&mut self, idx: usize)
        requires
            buffers_ok(*old(self)),
            idx < old(self).buffers@.len(),
        ensures
            switched(*old(self), *final(self), idx as int),
            buffers_ok(*final(self)),
            *final(self) == (App {
                lines: final(self).lines,
                types: final(self).types,
                layout: final(self).layout,
                file: final(self).file,
                cursor_y: final(self).cursor_y,
                cursor_x: final(self).cursor_x,
                dirty: final(self).dirty,
                undo_stack: final(self).undo_stack,
                redo_stack: final(self).redo_stack,
                buffers: final(self).buffers,
                current_buffer: final(self).current_buffer,
                ..*old(self)
            }),
    {
        let ghost pre = *self;
        let cur = self.current_buffer;
        let mut live = BufferState::blank();
        std::mem::swap(&mut live.lines, &mut self.lines);
        std::mem::swap(&mut live.file, &mut self.file);
        std::mem::swap(&mut live.undo_stack, &mut self.undo_stack);
        std::mem::swap(&mut live.redo_stack, &mut self.redo_stack);
        live.cursor_y = self.cursor_y;
        live.cursor_x = self.cursor_x;
        live.dirty = self.dirty;
        assert(live == live_buffer(pre));
        std::mem::swap(&mut live, &mut self.buffers[cur]);
        let mut target = BufferState::blank();
        std::mem::swap(&mut target, &mut self.buffers[idx]);
        let ghost mid = self.buffers@;
        assert(target == if idx == cur { live_buffer(pre) } else { pre.buffers@[idx as int] });
        self.lines = target.lines;
        self.file = target.file;
        self.cursor_y = target.cursor_y;
        self.cursor_x = target.cursor_x;
        self.dirty = target.dirty;
        self.undo_stack = target.undo_stack;
        self.redo_stack = target.redo_stack;
        self.current_buffer = idx;
        self.parse_document();
        self.update_layout();
    }
}

} // verus!
