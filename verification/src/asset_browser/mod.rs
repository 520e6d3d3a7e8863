//! The asset browser: directory navigation, the entry grid, file buttons, and
//! the create / copy / rename / move operations on project files.
pub mod crud;
pub mod entries;
pub mod file_button;
pub mod naming;
pub mod state;
