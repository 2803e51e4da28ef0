//! Project storage and text style presets for a comic translation workspace.

pub mod api_error;
pub mod clock;
pub mod compaction;
pub mod edit_log;
pub mod legacy;
pub mod maps;
pub mod ordering;
pub mod paths;
pub mod preset_list;
pub mod preset_store;
pub mod presets;
pub mod project;
pub mod scene;
pub mod session;
pub mod slug;
pub mod snapshot;
pub mod text;
