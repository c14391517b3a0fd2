//! Background-image rotation across independently sized display outputs:
//! fit ranking, image placement, assignment of images to outputs, the
//! per-output double-buffer protocol and the redraw scheduling decisions.

pub mod background_image;
pub mod config;
pub mod image_file;
pub mod output;
pub mod priority;
pub mod wl_app;
