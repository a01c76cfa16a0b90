use vstd::prelude::*;

verus! {

/// The failure kinds of the icon pipeline. Every one of them is fatal: a run
/// either produces the complete artifact set or stops at the first error.
#[derive(Clone, Copy, Debug, PartialEq, Eq, Structural)]
pub enum IconError {
    /// The source file could not be read or decoded into RGBA8 pixels.
    SourceDecode,
    /// The decoded source violates a precondition (it is not square).
    Precondition,
    /// An output directory could not be created.
    DirectoryCreation,
    /// Resampling a pixel buffer failed.
    Resample,
    /// A PNG, ICO or ICNS byte stream could not be produced.
    Encode,
    /// The embedded icon size table holds an entry that cannot be used.
    ConfigLookup,
    /// An artifact could not be written to disk.
    Write,
}

/// The stages of a run, in the order a full run performs them; custom mode
/// runs only the flat-PNG stage.
#[derive(Clone, Copy, Debug, PartialEq, Eq, Structural)]
pub enum Stage {
    /// The Windows Store logos.
    Appx,
    /// The `.icns` container.
    Icns,
    /// The `.ico` container.
    Ico,
    /// The PNG family: desktop, Android and iOS files, or the custom sizes.
    Png,
}

/// A fatal failure, tagged with the stage that raised it so the run's abort
/// message can name the stage.
#[derive(Clone, Copy, Debug, PartialEq, Eq, Structural)]
pub struct StageError {
    pub stage: Stage,
    pub kind: IconError,
}

} // verus!
