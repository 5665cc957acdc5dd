pub mod color;
pub mod pinhole_camera;

pub use color::Color;
pub use pinhole_camera::{PinholeCamera, PinholeCameraBuilder, PinholeCameraConfig};
