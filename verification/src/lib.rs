//! Sans-I/O core of the PING sighting device.
//!
//! PING is aimed at something and reports that thing's coordinate. Three
//! sensors feed it: a BNO085 sensor hub for the direction it points, a TF03
//! LiDAR for the range, and a NEO-M9N receiver for where it stands. This
//! crate holds everything between the bytes on the wires and the readings the
//! application uses. It performs no I/O itself: bytes that arrived are handed
//! in, and frames that are to leave are handed back.

pub mod bno085;
pub mod button;
pub mod bytes;
pub mod demo;
pub mod neo_m9n;
pub mod sighting;
pub mod tasks;
pub mod text;
pub mod tf03;
