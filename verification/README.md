# fount

The core of Fount, a terminal editor for screenplays written in Fountain,
as a library verified with Verus. The public functions of `src/` carry
contracts that say what they return or change, and `src/` states and
proves, as proof functions named `law_...`, a number of properties that
span several functions (pagination keeps lines on their pages, a split
speech resumes under its `(CONT'D)` cue, a second card swap undoes the
first, and others). Some private helpers have no
contract of their own, and not every property of the editor is stated.

## Layout

- `src/text.rs`, `src/chars.rs`, `src/rich.rs`: character sequences,
  styled (rich) strings and the few standard-library calls the library
  trusts.
- `src/classify.rs`, `src/parse.rs`, `src/screenplay.rs`: line types and
  the reader from Fountain text to a screenplay.
- `src/editor.rs`, `src/editing.rs`, `src/layout.rs`: the editor state,
  cursor motion, editing and undo, and the wrapping of lines into rows.
- `src/keys.rs`, `src/vim.rs`, `src/command.rs`, `src/navigation.rs`: the
  key handlers (the modal layer, the command panel, the scene tree and the
  character navigator).
- `src/cards.rs`, `src/production.rs`, `src/snapshots.rs`,
  `src/sprint.rs`, `src/shortcuts.rs`: index cards, scene numbering,
  snapshots, writing sprints and the shortcut table.
- `src/fdx.rs`: the Final Draft (FDX) exporter.
- `src/pdf.rs`, `src/paginate.rs`, `src/titlepage.rs`, `src/linedraw.rs`:
  the PDF layout: line breaking, pagination, the title page and what each
  placed line draws.
- `src/colors.rs`: theme colour parsing.
- `src/viewport.rs`: which rows the text view and the card board show.
- `src/buffers.rs`: switching between open buffers.
- `src/ensemble.rs`: the ranking, bars and scroll of the character
  interaction table.
- `app/main.rs`: a command-line exporter around the library. It reads the
  script, measures the page geometry in points, and draws the planned
  layout with `krilla`.
- `tests/`: tests of the library on concrete values.
