//! Exact arithmetic for pixel-perfect rendering at arbitrary scale factors:
//! canvas sizing, camera alignment, pointer mapping, sub-pixel sampling bias,
//! and the bookkeeping of a frame capture session.

pub mod bias;
pub mod camera;
pub mod capture;
pub mod geometry;
pub mod mapper;
pub mod text;

pub use bias::{sampling_bias, SamplingBias};
pub use camera::{
    AlignedOffset, Alignment, CameraState, FinePoint, Offset, MAX_ALIGNED, UNITS_PER_PIXEL,
};
pub use capture::{session_dir, CaptureError, CaptureSummary, ScreenCapture};
pub use geometry::{
    compute_geometry, AxisFit, CanvasGeometry, GeometryError, Resolution, Scale, SizingMode,
};
pub use mapper::{canvas_to_screen, device_to_fine, screen_to_canvas, MAX_FINE};
pub use text::decimal;
