//! Bring-up and drawing logic for an SPI-attached RGB565 TFT panel.
//!
//! The hardware itself (pins, bus, delays, the controller driver) is driven
//! by the caller; this crate decides what happens, in which order, and what
//! every pixel and signal must be.

pub mod bringup;
pub mod color;
pub mod surface;
pub mod text;
pub mod transport;
