//! A minimal tracing debugger's core: command parsing, breakpoint bookkeeping across
//! process restarts, the byte patches that install and remove breakpoints, and the
//! decisions of a frame-pointer backtrace; with a singly linked list and a hangman game.

pub mod debugger;
pub mod debugger_command;
pub mod hangman;
pub mod inferior;
pub mod linked_list;
