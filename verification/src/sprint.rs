//! Writing sprints: a timed goal that, when its time is up, reports how many
//! words and lines were written during it.
use vstd::prelude::*;
use crate::chars::{chars_of, file_stem, path_file_stem};
use crate::editor::App;
use crate::text::{decimal, decimal_spec, push_all};

verus! {

/// Nanoseconds in a minute.
pub const NANOS_PER_MINUTE: u128 = 60_000_000_000;

/// How long the screen flashes when a sprint ends, in nanoseconds.
pub const FLASH_NANOS: u128 = 200_000_000;

/// A sprint under way: its length, and the word and line counts when it began.
#[derive(Clone, Copy, Debug, PartialEq, Eq, Structural)]
pub struct Sprint {
    pub duration_nanos: u128,
    pub start_words: usize,
    pub start_lines: usize,
}

/// What a finished sprint wrote, for the sprint record.
#[derive(Clone, Debug, PartialEq, Eq)]
pub struct SprintResult {
    /// The project: the script's file name without its extension.
    pub project_name: String,
    /// The sprint's length in whole minutes.
    pub duration_mins: u128,
    pub words: usize,
    pub lines: usize,
}

/// A sprint result as values.
pub struct SprintResultV {
    pub project_name: Seq<char>,
    pub duration_mins: int,
    pub words: int,
    pub lines: int,
}

pub open spec fn sprint_result_v(r: SprintResult) -> SprintResultV {
    SprintResultV {
        project_name: r.project_name@,
        duration_mins: r.duration_mins as int,
        words: r.words as int,
        lines: r.lines as int,
    }
}

/// The project a script with path `file` belongs to: the file name
/// without its extension, else `unnamed`.
pub open spec fn project_name(file: Option<String>) -> Seq<char> {
    match file {
        Some(p) => match path_file_stem(p@) {
            Some(n) => n,
            None => "unnamed"@,
        },
        None => "unnamed"@,
    }
}

/// `a - b`, or 0 where `b` is larger.
pub open spec fn sat_sub(a: int, b: int) -> int {
    if a >= b {
        a - b
    } else {
        0
    }
}

/// The status line shown when a sprint ends.
pub open spec fn finished_text(words: nat, lines: nat) -> Seq<char> {
    "Sprint finished! You wrote "@ + decimal_spec(words) + " words and "@ + decimal_spec(lines)
        + " lines."@
}

/// What sprint `sp` of the script with path `file` wrote, with `words`
/// words and `lines` lines in the script now.
pub open spec fn sprint_result(file: Option<String>, sp: Sprint, words: int, lines: int) -> SprintResultV {
    SprintResultV {
        project_name: project_name(file),
        duration_mins: (sp.duration_nanos / NANOS_PER_MINUTE) as int,
        words: sat_sub(words, sp.start_words as int),
        lines: sat_sub(lines, sp.start_lines as int),
    }
}

impl App {
    /// Checks the writing goal. `elapsed_nanos` is how long the sprint has
    /// run, `current_words` the words in the script now, and
    /// `flash_elapsed_nanos` how long the screen has flashed. When the
    /// sprint's time is up it ends: its result is returned (for the caller
    /// to record), the status line tells it, and the screen flashes. A flash
    /// ends after its time.
    pub fn check_goal(
        &mut self,
        elapsed_nanos: u128,
        current_words: usize,
        flash_elapsed_nanos: u128,
    ) -> (r: Option<SprintResult>)
        ensures
            ({
                let ends = old(self).active_sprint matches Some(sp) && elapsed_nanos
                    >= sp.duration_nanos;
                &&& ends ==> {
                    let res = sprint_result(
                        old(self).file,
                        old(self).active_sprint->0,
                        current_words as int,
                        old(self).lines@.len() as int,
                    );
                    &&& r matches Some(v) && sprint_result_v(v) == res
                    &&& final(self).active_sprint is None
                    &&& final(self).status_msg matches Some(m) && m@ == finished_text(
                        res.words as nat,
                        res.lines as nat,
                    )
                    &&& !final(self).command_error
                    &&& final(self).flash
                }
                &&& !ends ==> {
                    &&& r is None
                    &&& final(self).active_sprint == old(self).active_sprint
                    &&& final(self).status_msg == old(self).status_msg
                    &&& final(self).command_error == old(self).command_error
                    &&& final(self).flash == (old(self).flash && flash_elapsed_nanos <= FLASH_NANOS)
                }
            }),
            *final(self) == (App {
                active_sprint: final(self).active_sprint,
                status_msg: final(self).status_msg,
                command_error: final(self).command_error,
                flash: final(self).flash,
                ..*old(self)
            }),
    {
        let mut result: Option<SprintResult> = None;
        match self.active_sprint {
            Some(sp) => {
                if elapsed_nanos >= sp.duration_nanos {
                    let words = current_words.saturating_sub(sp.start_words);
                    let lines = self.lines.len().saturating_sub(sp.start_lines);
                    let mut msg = chars_of("Sprint finished! You wrote ");
                    push_all(&mut msg, &decimal(words));
                    push_all(&mut msg, &chars_of(" words and "));
                    push_all(&mut msg, &decimal(lines));
                    push_all(&mut msg, &chars_of(" lines."));
                    self.status_msg = Some(crate::chars::string_of(&msg));
                    self.command_error = false;
                    self.active_sprint = None;
                    self.flash = true;
                    let project = match &self.file {
                        Some(p) => match file_stem(p.as_str()) {
                            Some(n) => n,
                            None => crate::chars::string_of(&chars_of("unnamed")),
                        },
                        None => crate::chars::string_of(&chars_of("unnamed")),
                    };
                    result = Some(
                        SprintResult {
                            project_name: project,
                            duration_mins: sp.duration_nanos / NANOS_PER_MINUTE,
                            words,
                            lines,
                        },
                    );
                }
            },
            None => {},
        }
        if result.is_none() && self.flash && flash_elapsed_nanos > FLASH_NANOS {
            self.flash = false;
        }
        result
    }
}

} // verus!
