//! Lifecycle of an image-sensor peripheral and of the frame buffers its driver
//! hands out, together with the single-frame serving policy built on top.
//!
//! The driver itself is reached through foreign calls that the host program
//! makes; this library decides what those calls mean: whether the sensor may be
//! started, which buffer handles are outstanding, which buffer must go back to
//! the pool, and what the answer to a frame request is.
pub mod camera;
pub mod config;
pub mod server;

pub use camera::{Camera, CameraDriver, CameraView, Frame, FrameBuffer, FrameView, InitError, DRIVER_OK};
pub use config::{CameraConfig, CameraPins, ConfigError, FbLocation, FrameSize, GrabMode, PixelFormat};
pub use server::{
    content_type, decimal_digits, image, placeholder, FrameRequest, Response, ResponseView, STATUS_OK,
};
