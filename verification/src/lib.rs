//! A local package-manifest manager: scaffolding a project, editing the
//! dependency table of its manifest, and naming registry locations.

pub mod command;
pub mod document;
pub mod editor;
pub mod error;
pub mod registry;
pub mod scaffold;
