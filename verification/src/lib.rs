//! Verified core logic of the Lapiz painting program: path and file-name
//! rules of asset bundles and their modified revisions, bundle manifests
//! and what a scan and an index sync make of them, recent-file
//! bookkeeping, brush graph code generation, ABR brush file framing,
//! action registration, layer selection and layer-tree navigation, bucket
//! fill jump schedules, the open canvases, the input layout of a brush's
//! main dab expression, and the main window's modifier and canvas dock
//! decisions.

pub mod text;
pub mod path;
pub mod bundle;
pub mod bundle_files;
pub mod manifest;
pub mod sync;
pub mod recent;
pub mod graph;
pub mod abr;
pub mod actions;
pub mod index;
pub mod bucket;
pub mod canvas;
pub mod brush;
pub mod selection;
pub mod layers;
pub mod rename;
pub mod manager;
pub mod main_effect;
pub mod main_view;
