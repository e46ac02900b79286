//! Frame processing for a barcode-scanning camera: packed 4:2:2 planes are
//! unpacked into an RGBA image for display and a grayscale image for
//! decoding, both are staged in single-slot mailboxes, and a worker's
//! sampling cycle is described as a state machine.

pub mod camera;
pub mod color;
pub mod convert;
pub mod decode;
pub mod mailbox;
pub mod qr;
pub mod raster;
pub mod worker;
