//! Verified core of a folder-icon composer: file naming, raster conversion,
//! the model of a loaded image file and the decisions of the main window.

pub mod naming;
pub mod raster;
pub mod file;
pub mod window;
