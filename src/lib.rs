//! The verified core of a desktop image viewer: which files it opens and
//! how it steps through a directory, how finished decodes change what is
//! shown, when the back buffer must grow, what window input means, and the
//! byte and text formats it exchanges with the clipboard, the screen and
//! image metadata.

pub mod backbuffer;
pub mod browse;
pub mod capture;
pub mod clipboard;
pub mod geometry;
pub mod input;
pub mod metadata;
pub mod text;
pub mod viewer;
