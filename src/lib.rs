//! Assembles a module document from a directory tree that follows naming
//! conventions.
//!
//! A directory is given as a snapshot of names ([`tree::Directory`]). Each of its
//! files is one entry, unless the directory holds a root-marker file `_.*`, in
//! which case the whole directory is one sparse entry ([`entry::Entry`]); the
//! entries of a tree are collected by [`entry_set`]. Each entry is named by an
//! identifier made from its path ([`identifier`]), and its data is read from the
//! outcomes of reading its files ([`data`]). A module directory's `module`
//! entry, `types` and `contents` are assembled into a [`module::Module`], where
//! the definitions found in files win over those of the module document.

use vstd::prelude::*;

pub mod commands;
pub mod data;
pub mod entry;
pub mod entry_set;
pub mod file_system;
pub mod file_type;
pub mod identifier;
pub mod module;
pub mod module_type;
pub mod order;
pub mod path;
pub mod rendering;
pub mod sorted;
pub mod tree;
pub mod value;
