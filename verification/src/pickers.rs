//! Pickers' logic: folder paths on the browsed device.
pub mod folder_paths;
