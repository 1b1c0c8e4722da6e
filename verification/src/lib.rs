pub mod disk;
pub mod diskmap;
pub mod format;
pub mod history;
pub mod i18n;
pub mod path;
pub mod release;
pub mod settings;
pub mod state;
pub mod telemetry;
pub mod fs_tree;
pub mod text;
