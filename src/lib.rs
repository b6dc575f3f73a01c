//! Backend of a small process debugger, with a few text utilities beside it.

use vstd::prelude::*;

pub mod word;
pub mod sys;
pub mod inferior;
pub mod unwind;
pub mod grid;
pub mod diff;
pub mod hangman;
