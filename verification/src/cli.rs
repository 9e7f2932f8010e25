//! Arguments of the image commands.

use vstd::prelude::*;

verus! {

/// Arguments of the command that extracts a configuration from an image.
pub struct CmdImageExtractConfigArgs {
    /// The image to read the configuration from
    pub image: String,
}

/// Commands that work on images.
pub enum ImageCommands {
    /// Extract config from image
    ExtractConfig(CmdImageExtractConfigArgs),
}

} // verus!
