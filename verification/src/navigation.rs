//! The keys of the two navigators: the scene tree, which lists the sections
//! and scenes (sections fold), and the character navigator, which lists the
//! characters and the scenes each appears in. Both move the cursor to the
//! line of the row selected; Esc goes back to where the cursor was.
use vstd::prelude::*;
use crate::chars::{chars_of, string_of};
use crate::editor::{App, AppMode};
use crate::keys::{Key, KeyPress};

verus! {

broadcast use vstd::std_specs::hash::group_hash_axioms;

/// A row of the scene tree as it is shown: the line it stands for, and
/// whether it is a section (which folds) or a scene.
#[derive(Clone, Copy, Debug, PartialEq, Eq, Structural)]
pub struct SceneEntry {
    pub line_idx: usize,
    pub is_section: bool,
}

/// A row of the character navigator.
#[derive(Clone, Copy, Debug, PartialEq, Eq, Structural)]
pub enum EnsembleRow {
    /// A character: its index, and the line of the first scene it is in.
    Header { character: usize, first_line: Option<usize> },
    /// A scene that the character above is in: the scene's line.
    Scene { line_idx: usize },
    /// A row that cannot be selected.
    Other,
}

/// What a navigator key leaves to the caller.
#[derive(Clone, Copy, Debug, PartialEq, Eq, Structural)]
pub enum NavOutcome {
    Done,
    /// Fold or unfold the scenes of this character, rebuild the rows, then
    /// select the character again (`select_character`).
    ToggleCharacter(usize),
}

/// A row that the navigator stops on.
pub open spec fn selectable(r: EnsembleRow) -> bool {
    !(r is Other)
}

/// The nearest row before row `i` that the navigator stops on.
pub open spec fn prev_selectable(items: Seq<EnsembleRow>, i: int) -> Option<int>
    decreases i,
{
    if i <= 0 || i > items.len() {
        None
    } else if selectable(items[i - 1]) {
        Some(i - 1)
    } else {
        prev_selectable(items, i - 1)
    }
}

/// The nearest row after row `i` that the navigator stops on.
pub open spec fn next_selectable(items: Seq<EnsembleRow>, i: int) -> Option<int>
    decreases items.len() - i,
{
    if i < 0 || i + 1 >= items.len() {
        None
    } else if selectable(items[i + 1]) {
        Some(i + 1)
    } else {
        next_selectable(items, i + 1)
    }
}

/// The line that row `r` takes the cursor to.
pub open spec fn row_line(r: EnsembleRow) -> Option<usize> {
    match r {
        EnsembleRow::Header { first_line, .. } => first_line,
        EnsembleRow::Scene { line_idx } => Some(line_idx),
        EnsembleRow::Other => None,
    }
}

/// `pre` with the cursor at the start of line `y`, back on the script.
pub open spec fn jumped(pre: App, y: usize) -> App {
    App { cursor_y: y, cursor_x: 0, mode: AppMode::Normal, nav_original_pos: None, ..pre }
}

/// `pre` with the cursor back where it was when the navigator opened.
pub open spec fn returned(pre: App) -> App {
    match pre.nav_original_pos {
        Some((y, x)) => App { cursor_y: y, cursor_x: x, nav_original_pos: None, mode: AppMode::Normal, ..pre },
        None => App { mode: AppMode::Normal, ..pre },
    }
}

/// `pre` with row `j` of the character navigator selected; a scene row
/// takes the cursor to its line.
pub open spec fn selected_row(pre: App, j: int) -> App {
    match pre.ensemble_items@[j] {
        EnsembleRow::Scene { line_idx } => App {
            selected_ensemble_idx: j as usize,
            cursor_y: line_idx,
            cursor_x: 0,
            ..pre
        },
        _ => App { selected_ensemble_idx: j as usize, ..pre },
    }
}

/// What a key does in the scene tree, given the rows shown: the editor
/// after it (but for the status line, see `handle_navigation`).
pub open spec fn scene_tree_after(pre: App, k: KeyPress, vis: Seq<SceneEntry>) -> App {
    let sel = pre.selected_scene as int;
    match k.code {
        Key::Esc => returned(pre),
        Key::Char(c) => if k.ctrl && c == 't' {
            App { nav_original_pos: None, mode: AppMode::Normal, ..pre }
        } else if k.ctrl && c == 'p' {
            App { mode: AppMode::SettingsPane, ..pre }
        } else {
            pre
        },
        Key::Up => if sel > 0 {
            App {
                selected_scene: (sel - 1) as usize,
                cursor_y: if sel - 1 < vis.len() {
                    vis[sel - 1].line_idx
                } else {
                    pre.cursor_y
                },
                ..pre
            }
        } else {
            pre
        },
        Key::Down => if sel + 1 < vis.len() {
            App { selected_scene: (sel + 1) as usize, cursor_y: vis[sel + 1].line_idx, ..pre }
        } else {
            pre
        },
        Key::Tab | Key::Enter => if sel < vis.len() {
            let it = vis[sel];
            if it.is_section && k.code == Key::Tab {
                pre
            } else {
                jumped(pre, it.line_idx)
            }
        } else {
            pre
        },
        _ => pre,
    }
}

/// Whether a key folds or unfolds a section of the scene tree: its line.
pub open spec fn scene_tree_fold(pre: App, k: KeyPress, vis: Seq<SceneEntry>) -> Option<usize> {
    let sel = pre.selected_scene as int;
    if k.code == Key::Tab && sel < vis.len() && vis[sel].is_section {
        Some(vis[sel].line_idx)
    } else {
        None
    }
}

/// What a key does in the character navigator.
pub open spec fn navigator_after(pre: App, k: KeyPress) -> App {
    let items = pre.ensemble_items@;
    let sel = pre.selected_ensemble_idx as int;
    match k.code {
        Key::Esc => returned(pre),
        Key::Up => match prev_selectable(items, sel) {
            Some(j) => selected_row(pre, j),
            None => pre,
        },
        Key::Down => match next_selectable(items, sel) {
            Some(j) => selected_row(pre, j),
            None => pre,
        },
        Key::Enter => match row_line(items[sel]) {
            Some(y) => jumped(pre, y),
            None => pre,
        },
        _ => pre,
    }
}

/// Row `o`, where there is one, is a scene.
pub open spec fn lands_on_scene(items: Seq<EnsembleRow>, o: Option<int>) -> bool {
    match o {
        Some(j) => items[j] is Scene,
        None => false,
    }
}

/// Whether a key moves the cursor: (the target column is to be taken
/// again, the cursor moved).
pub open spec fn nav_moves(pre: App, k: KeyPress, vis: Seq<SceneEntry>) -> (bool, bool) {
    let back = pre.nav_original_pos is Some;
    if pre.mode == AppMode::SceneTree {
        let sel = pre.selected_scene as int;
        match k.code {
            Key::Esc => (back, back),
            Key::Up => (false, sel > 0 && sel - 1 < vis.len()),
            Key::Down => (false, sel + 1 < vis.len()),
            Key::Tab | Key::Enter => {
                let j = sel < vis.len() && !(vis[sel].is_section && k.code == Key::Tab);
                (j, j)
            },
            _ => (false, false),
        }
    } else if pre.mode == AppMode::CharacterNavigator {
        let items = pre.ensemble_items@;
        let sel = pre.selected_ensemble_idx as int;
        let up = lands_on_scene(items, prev_selectable(items, sel));
        let down = lands_on_scene(items, next_selectable(items, sel));
        match k.code {
            Key::Esc => (back, back),
            Key::Up => (up, up),
            Key::Down => (down, down),
            Key::Enter => (row_line(items[sel]) is Some, row_line(items[sel]) is Some),
            _ => (false, false),
        }
    } else {
        (false, false)
    }
}

/// Row `r` is that of character `c`.
pub open spec fn is_header_of(r: EnsembleRow, c: usize) -> bool {
    r matches EnsembleRow::Header { character, .. } && character == c
}

/// The index of the first row at or after `i` that is character `c`'s;
/// 0 where there is none.
pub open spec fn header_index(items: Seq<EnsembleRow>, c: usize, i: int) -> int
    decreases items.len() - i,
{
    if i < 0 || i >= items.len() {
        0
    } else if is_header_of(items[i], c) {
        i
    } else {
        header_index(items, c, i + 1)
    }
}

/// What a key in the scene tree does to the editor: Esc also tells
/// "Cancelled" on the status line, and Tab on a section folds or unfolds it.
pub open spec fn scene_tree_done(pre: App, post: App, k: KeyPress, vis: Seq<SceneEntry>) -> bool {
    if k.code == Key::Esc {
        &&& post == (App { status_msg: post.status_msg, command_error: false, ..returned(pre) })
        &&& post.status_msg matches Some(m) && m@ == "Cancelled"@
    } else {
        match scene_tree_fold(pre, k, vis) {
            Some(l) => {
                &&& post == (App { collapsed_sections: post.collapsed_sections, ..pre })
                &&& post.collapsed_sections@ == if pre.collapsed_sections@.contains(l) {
                    pre.collapsed_sections@.remove(l)
                } else {
                    pre.collapsed_sections@.insert(l)
                }
            },
            None => post == scene_tree_after(pre, k, vis),
        }
    }
}

/// What a key in the character navigator leaves to the caller.
pub open spec fn navigator_outcome(pre: App, k: KeyPress) -> NavOutcome {
    let row = pre.ensemble_items@[pre.selected_ensemble_idx as int];
    if (k.code == Key::Tab || k.code == Key::Char(' ')) && row is Header {
        NavOutcome::ToggleCharacter(row->character)
    } else {
        NavOutcome::Done
    }
}

/// The keys of the character navigator that read the selected row.
pub open spec fn reads_row(k: KeyPress) -> bool {
    k.code == Key::Tab || k.code == Key::Char(' ') || k.code == Key::Enter
}

impl App {
    fn select_ensemble_row(&mut self, j: usize, update_target_x: &mut bool, cursor_moved: &mut bool)
        requires
            j < old(self).ensemble_items@.len(),
        ensures
            *final(self) == selected_row(*old(self), j as int),
            *final(update_target_x) == (*old(update_target_x) || old(self).ensemble_items@[j as int] is Scene),
            *final(cursor_moved) == (*old(cursor_moved) || old(self).ensemble_items@[j as int] is Scene),
    {
        self.selected_ensemble_idx = j;
        match self.ensemble_items[j] {
            EnsembleRow::Scene { line_idx } => {
                self.cursor_y = line_idx;
                self.cursor_x = 0;
                *cursor_moved = true;
                *update_target_x = true;
            },
            _ => {},
        }
    }

    fn go_back(&mut self, update_target_x: &mut bool, cursor_moved: &mut bool)
        ensures
            *final(self) == returned(*old(self)),
            *final(update_target_x) == (*old(update_target_x) || old(self).nav_original_pos is Some),
            *final(cursor_moved) == (*old(cursor_moved) || old(self).nav_original_pos is Some),
    {
        match self.nav_original_pos {
            Some((y, x)) => {
                self.cursor_y = y;
                self.cursor_x = x;
                self.nav_original_pos = None;
                *cursor_moved = true;
                *update_target_x = true;
            },
            None => {},
        }
        self.mode = AppMode::Normal;
    }

    fn jump_to(&mut self, y: usize, update_target_x: &mut bool, cursor_moved: &mut bool)
        ensures
            *final(self) == jumped(*old(self), y),
            *final(update_target_x),
            *final(cursor_moved),
    {
        self.cursor_y = y;
        self.cursor_x = 0;
        self.mode = AppMode::Normal;
        self.nav_original_pos = None;
        *cursor_moved = true;
        *update_target_x = true;
    }

    fn scene_tree_key(
        &mut self,
        key: KeyPress,
        visible: &Vec<SceneEntry>,
        update_target_x: &mut bool,
        cursor_moved: &mut bool,
    )
        requires
            old(self).mode == AppMode::SceneTree,
        ensures
            scene_tree_done(*old(self), *final(self), key, visible@),
            ({
                let moves = nav_moves(*old(self), key, visible@);
                &&& *final(update_target_x) == (*old(update_target_x) || moves.0)
                &&& *final(cursor_moved) == (*old(cursor_moved) || moves.1)
            }),
    {
        match key.code {
            Key::Esc => {
                self.go_back(update_target_x, cursor_moved);
                self.status_msg = Some(string_of(&chars_of("Cancelled")));
                self.command_error = false;
            },
            Key::Char(c) => {
                if key.ctrl && c == 't' {
                    self.nav_original_pos = None;
                    self.mode = AppMode::Normal;
                } else if key.ctrl && c == 'p' {
                    self.mode = AppMode::SettingsPane;
                }
            },
            Key::Up => {
                if self.selected_scene > 0 {
                    self.selected_scene = self.selected_scene - 1;
                    if self.selected_scene < visible.len() {
                        self.cursor_y = visible[self.selected_scene].line_idx;
                        *cursor_moved = true;
                    }
                }
            },
            Key::Down => {
                if self.selected_scene < visible.len() && self.selected_scene + 1 < visible.len() {
                    self.selected_scene = self.selected_scene + 1;
                    self.cursor_y = visible[self.selected_scene].line_idx;
                    *cursor_moved = true;
                }
            },
            Key::Tab | Key::Enter => {
                if self.selected_scene < visible.len() {
                    let item = visible[self.selected_scene];
                    if item.is_section && key.code == Key::Tab {
                        if self.collapsed_sections.contains(&item.line_idx) {
                            self.collapsed_sections.remove(&item.line_idx);
                        } else {
                            self.collapsed_sections.insert(item.line_idx);
                        }
                    } else {
                        self.jump_to(item.line_idx, update_target_x, cursor_moved);
                    }
                }
            },
            _ => {},
        }
    }

    fn navigator_key(&mut self, key: KeyPress, update_target_x: &mut bool, cursor_moved: &mut bool) -> (r:
        NavOutcome)
        requires
            old(self).mode == AppMode::CharacterNavigator,
            reads_row(key) ==> old(self).selected_ensemble_idx < old(self).ensemble_items@.len(),
            key.code == Key::Up ==> old(self).selected_ensemble_idx <= old(self).ensemble_items@.len(),
        ensures
            *final(self) == navigator_after(*old(self), key),
            r == navigator_outcome(*old(self), key),
            ({
                let moves = nav_moves(*old(self), key, Seq::empty());
                &&& *final(update_target_x) == (*old(update_target_x) || moves.0)
                &&& *final(cursor_moved) == (*old(cursor_moved) || moves.1)
            }),
    {
        match key.code {
            Key::Esc => {
                self.go_back(update_target_x, cursor_moved);
            },
            Key::Up => {
                let mut next = self.selected_ensemble_idx;
                while next > 0
                    invariant
                        *self == *old(self),
                        *update_target_x == *old(update_target_x),
                        *cursor_moved == *old(cursor_moved),
                        key.code == Key::Up,
                        self.mode == AppMode::CharacterNavigator,
                        next <= self.selected_ensemble_idx <= self.ensemble_items@.len(),
                        prev_selectable(self.ensemble_items@, self.selected_ensemble_idx as int)
                            == prev_selectable(self.ensemble_items@, next as int),
                    decreases next,
                {
                    next = next - 1;
                    match self.ensemble_items[next] {
                        EnsembleRow::Other => {},
                        _ => {
                            self.select_ensemble_row(next, update_target_x, cursor_moved);
                            return NavOutcome::Done;
                        },
                    }
                }
            },
            Key::Down => {
                let mut next = self.selected_ensemble_idx;
                while next < self.ensemble_items.len() && next + 1 < self.ensemble_items.len()
                    invariant
                        *self == *old(self),
                        *update_target_x == *old(update_target_x),
                        *cursor_moved == *old(cursor_moved),
                        key.code == Key::Down,
                        self.mode == AppMode::CharacterNavigator,
                        self.selected_ensemble_idx <= next,
                        next_selectable(self.ensemble_items@, self.selected_ensemble_idx as int)
                            == next_selectable(self.ensemble_items@, next as int),
                    decreases self.ensemble_items@.len() - next,
                {
                    next = next + 1;
                    match self.ensemble_items[next] {
                        EnsembleRow::Other => {},
                        _ => {
                            self.select_ensemble_row(next, update_target_x, cursor_moved);
                            return NavOutcome::Done;
                        },
                    }
                }
            },
            Key::Enter => {
                match self.ensemble_items[self.selected_ensemble_idx] {
                    EnsembleRow::Header { first_line: Some(y), .. } => {
                        self.jump_to(y, update_target_x, cursor_moved);
                    },
                    EnsembleRow::Scene { line_idx } => {
                        self.jump_to(line_idx, update_target_x, cursor_moved);
                    },
                    _ => {},
                }
            },
            _ => {
                if key.code == Key::Tab || key.code == Key::Char(' ') {
                    match self.ensemble_items[self.selected_ensemble_idx] {
                        EnsembleRow::Header { character, .. } => {
                            return NavOutcome::ToggleCharacter(character);
                        },
                        _ => {},
                    }
                }
            },
        }
        NavOutcome::Done
    }

    /// Handles `key` in the scene tree, whose rows shown are `visible`, or
    /// in the character navigator; in other modes nothing happens. Esc in
    /// the scene tree also tells "Cancelled" on the status line; Tab on a
    /// section folds or unfolds it. Tab or Space on a character leaves the
    /// folding of its scenes to the caller.
    pub fn handle_navigation(
        &mut self,
        key: KeyPress,
        visible: &Vec<SceneEntry>,
        update_target_x: &mut bool,
        cursor_moved: &mut bool,
    ) -> (r: NavOutcome)
        requires
            old(self).mode == AppMode::CharacterNavigator && reads_row(key)
                ==> old(self).selected_ensemble_idx < old(self).ensemble_items@.len(),
            old(self).mode == AppMode::CharacterNavigator && key.code == Key::Up
                ==> old(self).selected_ensemble_idx <= old(self).ensemble_items@.len(),
        ensures
            ({
                let moves = nav_moves(*old(self), key, visible@);
                &&& *final(update_target_x) == (*old(update_target_x) || moves.0)
                &&& *final(cursor_moved) == (*old(cursor_moved) || moves.1)
            }),
            old(self).mode == AppMode::SceneTree ==> r == NavOutcome::Done && scene_tree_done(
                *old(self),
                *final(self),
                key,
                visible@,
            ),
            old(self).mode == AppMode::CharacterNavigator ==> r == navigator_outcome(*old(self), key)
                && *final(self) == navigator_after(*old(self), key),
            old(self).mode != AppMode::SceneTree && old(self).mode != AppMode::CharacterNavigator
                ==> r == NavOutcome::Done && *final(self) == *old(self),
    {
        if self.mode == AppMode::SceneTree {
            self.scene_tree_key(key, visible, update_target_x, cursor_moved);
            NavOutcome::Done
        } else if self.mode == AppMode::CharacterNavigator {
            self.navigator_key(key, update_target_x, cursor_moved)
        } else {
            NavOutcome::Done
        }
    }

    /// Selects the row of character `character` in the character navigator
    /// (the first row, where it has none), after its rows were rebuilt.
    pub fn select_character(&mut self, character: usize)
        ensures
            *final(self) == (App { selected_ensemble_idx: final(self).selected_ensemble_idx, ..*old(self) }),
            final(self).selected_ensemble_idx == header_index(old(self).ensemble_items@, character, 0),
    {
        let mut i: usize = 0;
        while i < self.ensemble_items.len()
            invariant
                *self == *old(self),
                i <= self.ensemble_items@.len(),
                header_index(self.ensemble_items@, character, 0) == header_index(
                    self.ensemble_items@,
                    character,
                    i as int,
                ),
            decreases self.ensemble_items@.len() - i,
        {
            match self.ensemble_items[i] {
                EnsembleRow::Header { character: c, .. } => {
                    if c == character {
                        self.selected_ensemble_idx = i;
                        return;
                    }
                },
                _ => {},
            }
            i += 1;
        }
        self.selected_ensemble_idx = 0;
    }
}

} // verus!
