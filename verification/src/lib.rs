//! A modal (Vim-style) command layer over a selection-based editor model.
//!
//! The crate models the host editor's primitives — a text buffer of
//! characters, anchor/head ranges, multi-range selections, registers —
//! as plain verified types, and implements the modal machinery on top:
//! visual sub-modes, a post-command normalization hook, and the
//! operator/motion/text-object engine with its pending-key state machine.

pub mod commands;
pub mod editor;
pub mod edits;
pub mod findchar;
pub mod keys;
pub mod laws;
pub mod motions;
pub mod operator;
pub mod paragraph;
pub mod pastes;
pub mod range;
pub mod registers;
pub mod selection;
pub mod shellcalc;
pub mod state;
pub mod surround;
pub mod text;
pub mod transforms;
