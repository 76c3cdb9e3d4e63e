pub mod cursor;
pub mod drm;
