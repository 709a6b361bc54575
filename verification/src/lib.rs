//! A terminal webcam that renders camera frames as coloured character art.
//!
//! The library holds the frame renderer, the key handling of the viewer, the
//! plan by which a camera is opened, the text of error messages and of the
//! MJPEG stream framing, and the frame encoding for the stream.
pub mod camera;
pub mod glyphs;
pub mod logging;
pub mod render;
pub mod state;
pub mod stream;
pub mod text;
pub mod v4l2;
