//! A conversion from its configuration to the first directory listing:
//! what is checked before anything under the input directory is read.

use crate::document::{initial_blocks, initial_document, initial_styles};
use crate::error::Error;
use crate::filter::{default_extensions, default_extensions_view};
use crate::scan::{scan_dir, Listing, WalkView};
use vstd::prelude::*;
use vstd::string::StringExecFns;

verus! {

/// What a conversion is asked to do.
pub struct Config {
    /// The directory to scan.
    pub input: String,
    /// The file to write the document to.
    pub output: String,
    /// Whether a file at the output path may be replaced.
    pub overwrite: bool,
    /// The extensions of the files that get a page, in lower case.
    pub extensions: Vec<String>,
    /// The font size of a file's lines, in points.
    pub size_font: usize,
    /// The font size of the headings above the files, in points.
    pub heading_size: usize,
    /// The font family of the headings above the files.
    pub font_family_heading: String,
}

/// A configuration, with its texts as sequences of characters.
#[verifier::ext_equal]
pub struct ConfigView {
    pub input: Seq<char>,
    pub output: Seq<char>,
    pub overwrite: bool,
    pub extensions: Seq<Seq<char>>,
    pub size_font: nat,
    pub heading_size: nat,
    pub font_family_heading: Seq<char>,
}

impl View for Config {
    type V = ConfigView;

    open spec fn view(&self) -> ConfigView {
        ConfigView {
            input: self.input@,
            output: self.output@,
            overwrite: self.overwrite,
            extensions: self.extensions.deep_view(),
            size_font: self.size_font as nat,
            heading_size: self.heading_size as nat,
            font_family_heading: self.font_family_heading@,
        }
    }
}

/// What stands at a path.
pub enum Found {
    /// Nothing exists there.
    Nothing,
    /// Something that is no directory.
    File,
    /// A directory.
    Directory,
}

/// A conversion that waits to hear what stands at its input path.
pub struct InputProbe {
    config: Config,
}

/// A conversion that waits to hear whether its output path is taken.
pub struct OutputProbe {
    config: Config,
}

/// What a conversion does once it knows what stands at its input path.
pub enum Checked {
    /// Find out whether anything exists at the output path, and tell
    /// `OutputProbe::found`.
    ProbeOutput(OutputProbe),
    /// List the input directory, and hand the entries to
    /// `Listing::listed`.
    List(Listing),
    /// The conversion has failed.
    Fail(Error),
}

/// The scan as it begins: of the input directory, with the document that
/// holds the title and the table of contents, and with nothing to visit
/// before the directory is listed.
pub open spec fn first_walk(config: ConfigView) -> WalkView {
    WalkView {
        root: config.input,
        extensions: config.extensions,
        font_size: config.size_font,
        styles: initial_styles(config.heading_size, config.font_family_heading),
        blocks: initial_blocks(),
        todo: Seq::empty(),
    }
}

impl Config {
    /// The configuration for `input` where nothing else is asked for.
    pub fn new(input: String) -> (config: Config)
        ensures
            config@ == (ConfigView {
                input: input@,
                output: "output.docx"@,
                overwrite: false,
                extensions: default_extensions_view(),
                size_font: 8,
                heading_size: 12,
                font_family_heading: "Calibri Light"@,
            }),
    {
        Config {
            input,
            output: String::from_str("output.docx"),
            overwrite: false,
            extensions: default_extensions(),
            size_font: 8,
            heading_size: 12,
            font_family_heading: String::from_str("Calibri Light"),
        }
    }

    /// Whether twice each font size is a number that the machine can hold:
    /// the document counts sizes in half-points.
    pub open spec fn fits(&self) -> bool {
        2 * self.size_font <= usize::MAX && 2 * self.heading_size <= usize::MAX
    }

    /// Whether twice each font size is a number that the machine can hold.
    pub fn sizes_fit(&self) -> (fits: bool)
        ensures
            fits == self.fits(),
    {
        self.size_font <= usize::MAX / 2 && self.heading_size <= usize::MAX / 2
    }

    /// Begins a conversion. The first thing to find out is what stands at
    /// the input path.
    pub fn start(self) -> (probe: InputProbe)
        requires
            self.fits(),
        ensures
            probe.config() == self@,
    {
        InputProbe { config: self }
    }

    fn first_listing(self) -> (first: Listing)
        requires
            self.fits(),
        ensures
            first.dir() == self@.input,
            first.walk() == first_walk(self@),
    {
        let docx = initial_document(self.heading_size, self.font_family_heading.as_str());
        scan_dir(self.input, self.extensions, self.size_font, docx)
    }
}

impl InputProbe {
    #[verifier::type_invariant]
    spec fn fits(&self) -> bool {
        self.config.fits()
    }

    /// The configuration of the conversion.
    pub closed spec fn config(&self) -> ConfigView {
        self.config@
    }

    /// The path to probe: the input path.
    pub fn path(&self) -> (path: &String)
        ensures
            path@ == self.config().input,
    {
        &self.config.input
    }

    /// Takes what stands at the input path, or the error of the attempt to
    /// find out. Only a directory can be scanned. Where the output may be
    /// overwritten the scan begins at once; else the output path is probed
    /// first.
    pub fn found(self, found: Result<Found, std::io::Error>) -> (checked: Checked)
        ensures
            match found {
                Err(error) => checked == Checked::Fail(Error::IO(error)),
                Ok(Found::Nothing) => checked == Checked::Fail(Error::InvalidInputDirectory),
                Ok(Found::File) => checked == Checked::Fail(Error::FileInputDirectory),
                Ok(Found::Directory) => if self.config().overwrite {
                    checked matches Checked::List(listing) && listing.dir()
                        == self.config().input && listing.walk() == first_walk(self.config())
                } else {
                    checked matches Checked::ProbeOutput(probe) && probe.config()
                        == self.config()
                },
            },
    {
        proof {
            use_type_invariant(&self);
        }
        match found {
            Err(error) => Checked::Fail(Error::IO(error)),
            Ok(Found::Nothing) => Checked::Fail(Error::InvalidInputDirectory),
            Ok(Found::File) => Checked::Fail(Error::FileInputDirectory),
            Ok(Found::Directory) => {
                if self.config.overwrite {
                    Checked::List(self.config.first_listing())
                } else {
                    Checked::ProbeOutput(OutputProbe { config: self.config })
                }
            },
        }
    }
}

impl OutputProbe {
    #[verifier::type_invariant]
    spec fn fits(&self) -> bool {
        self.config.fits()
    }

    /// The configuration of the conversion.
    pub closed spec fn config(&self) -> ConfigView {
        self.config@
    }

    /// The path to probe: the output path.
    pub fn path(&self) -> (path: &String)
        ensures
            path@ == self.config().output,
    {
        &self.config.output
    }

    /// Takes whether anything exists at the output path, or the error of
    /// the attempt to find out. A path that is taken ends the conversion
    /// before anything under the input directory is read; a free one lets
    /// the scan begin with the listing of the input directory.
    pub fn found(self, taken: Result<bool, std::io::Error>) -> (first: Result<Listing, Error>)
        ensures
            match taken {
                Err(error) => first matches Err(Error::IO(told)) && told == error,
                Ok(true) => first matches Err(Error::InvalidOutputDirectory),
                Ok(false) => first matches Ok(listing) && listing.dir() == self.config().input
                    && listing.walk() == first_walk(self.config()),
            },
    {
        proof {
            use_type_invariant(&self);
        }
        match taken {
            Err(error) => Err(Error::IO(error)),
            Ok(true) => Err(Error::InvalidOutputDirectory),
            Ok(false) => Ok(self.config.first_listing()),
        }
    }
}

} // verus!
