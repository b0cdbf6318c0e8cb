//! The decision-making core of the Optra image viewer: numbered-sequence
//! detection and ordering, file-tree filtering, the decoded-image cache, the
//! remote-browsing state and the steps of connecting to a remote machine, the
//! rooting of the file tree, what the viewer shows, the open-file queue and the small pieces of input
//! handling that do not depend on the GPU or the window system.
pub mod text;
pub mod paths;
pub mod sequence;
pub mod sort;
pub mod remote;
pub mod text_map;
pub mod image_cache;
pub mod navigation;
pub mod tree;
pub mod theme;
pub mod open_file;
pub mod controls;
pub mod loading;
pub mod connection;
pub mod browse;
pub mod viewing;
