//! # Question Bank Creator
//!
//! The engine behind a question bank for teachers: questions whose text
//! refers to named variables, variables that take a fresh value from a
//! bounded range or from a list each time they are recalculated, and the
//! banks that keep related questions together.
//!
//! Everything here works on plain values.  Windows, file choosers and the
//! files themselves belong to the program around this library.

use vstd::prelude::*;

pub mod banks;
pub mod flags;
pub mod global;
pub mod lists;
pub mod math_functions;
pub mod misc;
pub mod questions;
pub mod variable;

verus! {

/// The current iteration of the program being worked on.
pub const DEVELOPMENT_VERSION: &'static str = "Question Bank Rebuild 4";

/// The title of the project.
pub const PROGRAM_TITLE: &'static str = "Question Bank Creator";

/// The current version.
pub const VERSION: &'static str = "0.29.8";

/// The default folder where data is saved.
pub const DATA_GENERAL_FOLDER: &'static str = "/home/jtreagan/programming/mine/qbnk_rb7/src/qbnk_data";

/// The default folder for saving Lists.
pub const LIST_DIR: &'static str = "/home/jtreagan/programming/mine/qbnk_rb7/src/qbnk_data/lists";

/// The default folder for saving Variables.
pub const VARIABLE_DIR: &'static str = "/home/jtreagan/programming/mine/qbnk_rb7/src/qbnk_data/variables";

/// The default folder for saving Banks.
pub const BANK_DIR: &'static str = "/home/jtreagan/programming/mine/qbnk_rb7/src/qbnk_data/banks";

/// Default height of the question display.
pub const QDISP_HEIGHT: i32 = 150;

/// Default width of the scrollbar group.
pub const SCROLLBAR_WIDTH: i32 = 15;

/// The character that brackets a variable's name in question text.
pub const FLAG: char = '\u{a7}';

} // verus!
