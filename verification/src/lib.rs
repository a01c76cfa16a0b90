//! A build-time icon-asset compiler: from one square RGBA8 source image it
//! derives every platform-specific icon artifact an application packager
//! needs — a Windows `.ico`, a macOS `.icns`, Linux desktop PNGs, Android
//! mipmap sets, iOS app-icon PNGs and Windows Store logos — as in-memory
//! byte streams paired with their output paths.

pub mod catalog;
pub mod compose;
pub mod errors;
pub mod icns;
pub mod ico;
pub mod img;
pub mod numfmt;
pub mod pathcmd;
pub mod plan;
pub mod png;
pub mod wire;
