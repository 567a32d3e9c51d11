//! Tiling layouts for a window-managing host: a verified binary-space
//! partition with a zipper cursor at the core, and the geometric decorator
//! layouts around it.

pub mod layout;

pub mod avoid_struts_layout;

pub mod binary_space_partition;

pub mod center_layout;

pub mod full_layout;

pub mod gap_layout;

pub mod layout_collection;

pub mod mirror_layout;

pub mod no_borders_layout;

pub mod with_borders_layout;
