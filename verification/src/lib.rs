//! Packages a validated book description — metadata, rendition settings, and
//! chapters of image pages — into an EPUB 3 container laid out for the ebpaj
//! profile: a manifest and spine with build-wide ids, OPF metadata with
//! refinement chains, per-page XHTML wrappers around inline SVG images, a
//! navigation document, and a ZIP archive whose first entry is the stored
//! mimetype.

pub mod textfmt;
pub mod model;
pub mod spread;
pub mod scaffold;
pub mod error;
pub mod item;
pub mod media;
pub mod content;
pub mod nav;
pub mod opf;
pub mod engine;
pub mod archive;
