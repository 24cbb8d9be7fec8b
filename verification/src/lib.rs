pub mod buffers;
pub mod cards;
pub mod chars;
pub mod classify;
pub mod command;
pub mod colors;
pub mod editing;
pub mod ensemble;
pub mod editor;
pub mod fdx;
pub mod keys;
pub mod layout;
pub mod linedraw;
pub mod paginate;
pub mod navigation;
pub mod parse;
pub mod pdf;
pub mod production;
pub mod rich;
pub mod screenplay;
pub mod shortcuts;
pub mod snapshots;
pub mod sprint;
pub mod text;
pub mod titlepage;
pub mod viewport;
pub mod vim;
