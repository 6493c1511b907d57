use vstd::prelude::*;

verus! {

/// The step of PNG encoding that refused an image.
#[derive(Clone, Copy, Debug, PartialEq, Eq, Structural)]
pub enum PngStep {
    /// Writing the header (the image size).
    Header,
    /// Writing the image data.
    Data,
    /// Finishing the file.
    Finish,
}

/// The ways a capture, an encoding or a save can fail.
#[derive(Debug)]
pub enum Error {
    /// An argument was out of range, such as a rectangle with zero or
    /// negative size.
    InvalidArg,
    /// The operating system reported a failure, with its error code.
    Os(i32),
    /// The PNG encoder refused the image at this step, with its message.
    Png(PngStep, String),
    /// A failure described by its message, such as a file that could not be
    /// written.
    Other(String),
}

} // verus!
