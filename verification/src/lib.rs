//! An Elm-style terminal text viewer: commands and their interpreter, the
//! resource type of fetched data, and the editor model that reacts to
//! messages.  Everything that talks to the terminal lives in the
//! application crate around this library.
pub mod elm;
pub mod text;
pub mod document;
pub mod navigation;
pub mod editor;
