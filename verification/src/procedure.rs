//! What one run of the tool is asked to do, and the decisions of a run that
//! need no input or output.

use crate::program::Core;
use vstd::prelude::*;

verus! {

/// The licenses whose text can be displayed.
#[derive(Clone, Copy, Debug, PartialEq, Eq, Structural)]
pub enum SelectedLicenses {
    /// The license of this tool.
    ThisSoftware,
    /// The licenses of the libraries that this tool is built on.
    Dependencies,
}

/// How the output is encoded, where the format leaves a choice.
#[derive(Clone, Copy, Debug, PartialEq, Eq, Structural)]
pub struct FormatEncodingSettings {
    /// The quality of a JPEG encoding.
    pub jpeg_quality: u8,
    /// Whether a PNM encoding is written as text.
    pub pnm_use_ascii_format: bool,
}

/// The settings of one run.
#[derive(Debug, PartialEq, Eq)]
pub struct Config {
    /// The licenses to display instead of processing an image, if any.
    pub show_license_text_of: Option<SelectedLicenses>,
    /// The frame to take from an animated image, if not the first.
    pub selected_frame: Option<usize>,
    /// The format to encode to, whatever the output path says.
    pub forced_output_format: Option<String>,
    /// The choices within the output format.
    pub encoding_settings: FormatEncodingSettings,
    /// The path to write to; the standard output if there is none.
    pub output: Option<String>,
    /// The program to apply to the image.
    pub image_operations_program: Vec<Core>,
}

/// Decides which license texts a run displays. The texts themselves are
/// written out by the caller. A run that was not asked for any is refused.
pub fn run_display_licenses(config: &Config) -> (r: Result<SelectedLicenses, String>)
    ensures
        match config.show_license_text_of {
            Some(selected) => r == Ok::<SelectedLicenses, String>(selected),
            None => r is Err && r->Err_0@ == "Unable to display license texts"@,
        },
{
    match config.show_license_text_of {
        Some(selected) => Ok(selected),
        None => Err("Unable to display license texts".to_owned()),
    }
}

} // verus!
