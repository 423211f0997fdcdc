//! Validated configuration values: image dimensions, audio paths, and
//! file-extension lists.

use vstd::prelude::*;
use vstd::string::StringExecFns;

use crate::chars::{
    lower_of, lowercase, parse_u32, spec_parse_u32, spec_split_commas, spec_trim, split_commas,
    trim,
};
use crate::color::Rgba;
use crate::error::WaverError;

verus! {

/// The comma-separated pieces of an extension list that survive trimming:
/// what remains to be validated after splitting.
pub open spec fn spec_kept_parts(s: Seq<char>) -> Seq<Seq<char>> {
    spec_split_commas(s).map_values(|p: Seq<char>| spec_trim(p)).filter(
        |p: Seq<char>| p.len() > 0,
    )
}

/// A validated image width, always at least 16 pixels.
#[derive(Debug, Clone, Copy)]
pub struct Width(u32);

impl View for Width {
    type V = u32;

    closed spec fn view(&self) -> u32 {
        self.0
    }
}

impl Width {
    #[verifier::type_invariant]
    spec fn type_inv(self) -> bool {
        self.0 >= 16
    }

    /// Creates a new validated width; widths below 16 pixels are rejected.
    pub fn new(width: u32) -> (r: Result<Self, WaverError>)
        ensures
            width >= 16 <==> r is Ok,
            r matches Ok(w) ==> w@ == width,
            r matches Err(e) ==> e matches WaverError::ArgumentError(m) && m@
                == "Width must be at least 16 pixels"@,
    {
        if width < 16 {
            return Err(WaverError::argument_error(String::from_str(
                "Width must be at least 16 pixels",
            )));
        }
        Ok(Self(width))
    }

    /// Returns the width value.
    pub fn value(&self) -> (r: u32)
        ensures
            r == self@,
            r >= 16,
    {
        proof {
            use_type_invariant(self);
        }
        self.0
    }

    /// Parses a width from decimal text: non-numeric text is rejected as
    /// such, then the value is validated as in [`Width::new`].
    pub fn parse(s: &str) -> (r: Result<Self, WaverError>)
        ensures
            ({
                let p = spec_parse_u32(s@, 10);
                match p {
                    Ok(v) => {
                        if v >= 16 {
                            r matches Ok(w) && w@ == v
                        } else {
                            r matches Err(WaverError::ArgumentError(m)) && m@
                                == "Width must be at least 16 pixels"@
                        }
                    },
                    Err(_) => r matches Err(WaverError::ArgumentError(m)) && m@
                        == "Width must be a positive integer"@,
                }
            }),
    {
        match parse_u32(s, 10) {
            Ok(v) => Self::new(v),
            Err(_) => Err(
                WaverError::argument_error(String::from_str("Width must be a positive integer")),
            ),
        }
    }
}

/// A validated image height, always at least 6 pixels and even.
#[derive(Debug, Clone, Copy)]
pub struct Height(u32);

impl View for Height {
    type V = u32;

    closed spec fn view(&self) -> u32 {
        self.0
    }
}

impl Height {
    #[verifier::type_invariant]
    spec fn type_inv(self) -> bool {
        self.0 >= 6 && self.0 % 2 == 0
    }

    /// Creates a new validated height; values below 6 pixels or odd values
    /// are rejected.
    pub fn new(height: u32) -> (r: Result<Self, WaverError>)
        ensures
            height >= 6 && height % 2 == 0 <==> r is Ok,
            r matches Ok(h) ==> h@ == height,
            height < 6 ==> (r matches Err(WaverError::ArgumentError(m)) && m@
                == "Height must be at least 6 pixels"@),
            height >= 6 && height % 2 != 0 ==> (r matches Err(WaverError::ArgumentError(m)) && m@
                == "Height must be an even number"@),
    {
        if height < 6 {
            return Err(WaverError::argument_error(String::from_str(
                "Height must be at least 6 pixels",
            )));
        }
        if height % 2 != 0 {
            return Err(WaverError::argument_error(String::from_str(
                "Height must be an even number",
            )));
        }
        Ok(Self(height))
    }

    /// Returns the height value.
    pub fn value(&self) -> (r: u32)
        ensures
            r == self@,
            r >= 6,
            r % 2 == 0,
    {
        proof {
            use_type_invariant(self);
        }
        self.0
    }

    /// Returns the vertical center line position.
    pub fn center(&self) -> (r: u32)
        ensures
            r == self@ / 2,
    {
        proof {
            use_type_invariant(self);
        }
        self.0 / 2
    }

    /// Parses a height from decimal text: non-numeric text is rejected as
    /// such, then the value is validated as in [`Height::new`].
    pub fn parse(s: &str) -> (r: Result<Self, WaverError>)
        ensures
            ({
                let p = spec_parse_u32(s@, 10);
                match p {
                    Ok(v) => {
                        if v >= 6 && v % 2 == 0 {
                            r matches Ok(h) && h@ == v
                        } else if v < 6 {
                            r matches Err(WaverError::ArgumentError(m)) && m@
                                == "Height must be at least 6 pixels"@
                        } else {
                            r matches Err(WaverError::ArgumentError(m)) && m@
                                == "Height must be an even number"@
                        }
                    },
                    Err(_) => r matches Err(WaverError::ArgumentError(m)) && m@
                        == "Height must be a positive integer"@,
                }
            }),
    {
        match parse_u32(s, 10) {
            Ok(v) => Self::new(v),
            Err(_) => Err(
                WaverError::argument_error(String::from_str("Height must be a positive integer")),
            ),
        }
    }
}

impl std::str::FromStr for Width {
    type Err = WaverError;

    fn from_str(s: &str) -> Result<Self, WaverError> {
        Self::parse(s)
    }
}

impl std::str::FromStr for Height {
    type Err = WaverError;

    fn from_str(s: &str) -> Result<Self, WaverError> {
        Self::parse(s)
    }
}

/// An audio input path together with what the filesystem reported of it.
/// Probing the filesystem is I/O and happens at the caller; this type holds
/// the validated outcome.
#[derive(Debug, Clone)]
pub struct AudioPath {
    path: String,
    dir: bool,
}

impl AudioPath {
    /// The path text.
    pub closed spec fn spec_path(&self) -> Seq<char> {
        self.path@
    }

    /// Whether the path names a directory.
    pub closed spec fn spec_is_dir(&self) -> bool {
        self.dir
    }

    /// Creates a validated audio path from a path string and what the
    /// filesystem reports of it: whether it exists, and whether it is a
    /// directory. A path that does not exist is rejected with a message
    /// naming it.
    pub fn new(path: &str, exists: bool, is_dir: bool) -> (r: Result<Self, WaverError>)
        ensures
            exists ==> (r matches Ok(p) && p.spec_path() == path@ && p.spec_is_dir() == is_dir),
            !exists ==> (r matches Err(WaverError::ArgumentError(m)) && m@
                == "Path does not exist: "@ + path@),
    {
        if !exists {
            return Err(
                WaverError::argument_error(
                    String::from_str("Path does not exist: ").concat(path),
                ),
            );
        }
        Ok(Self { path: path.to_owned(), dir: is_dir })
    }

    /// Returns whether this path points to a directory.
    pub fn is_dir(&self) -> (r: bool)
        ensures
            r == self.spec_is_dir(),
    {
        self.dir
    }

    /// Returns the path.
    pub fn path(&self) -> (r: &str)
        ensures
            r@ == self.spec_path(),
    {
        self.path.as_str()
    }
}

/// A validated audio file extension: trimmed, lowercased, and never empty.
#[derive(Debug, Clone)]
pub struct FileExtension {
    ext: String,
}

impl FileExtension {
    /// The extension text.
    pub closed spec fn spec_str(&self) -> Seq<char> {
        self.ext@
    }

    /// Creates a validated file extension: surrounding whitespace is
    /// dropped, the rest is lowercased, and an extension that is empty
    /// after trimming is rejected.
    pub fn new(extension: &str) -> (r: Result<Self, WaverError>)
        ensures
            spec_trim(extension@).len() == 0 ==> (r matches Err(WaverError::ArgumentError(m))
                && m@ == "File extension cannot be empty"@),
            spec_trim(extension@).len() > 0 ==> (r matches Ok(e) && e.spec_str() == lower_of(
                spec_trim(extension@),
            )),
    {
        let t = trim(extension);
        if t.unicode_len() == 0 {
            return Err(
                WaverError::argument_error(String::from_str("File extension cannot be empty")),
            );
        }
        Ok(Self { ext: lowercase(t) })
    }

    /// Returns the extension string.
    pub fn as_str(&self) -> (r: &str)
        ensures
            r@ == self.spec_str(),
    {
        self.ext.as_str()
    }
}

impl std::str::FromStr for FileExtension {
    type Err = WaverError;

    fn from_str(s: &str) -> Result<Self, WaverError> {
        Self::new(s)
    }
}

/// A non-empty collection of validated file extensions.
#[derive(Debug, Clone)]
pub struct FileExtensions {
    exts: Vec<FileExtension>,
}

impl FileExtensions {
    /// The extension texts, in order.
    pub closed spec fn spec_list(&self) -> Seq<Seq<char>> {
        self.exts@.map_values(|e: FileExtension| e.spec_str())
    }

    /// Validates each extension of the list in order; the first one that is
    /// empty after trimming rejects the whole list.
    pub fn new(extensions: Vec<String>) -> (r: Result<Self, WaverError>)
        ensures
            (forall|i: int|
                0 <= i < extensions@.len() ==> spec_trim(#[trigger] extensions@[i]@).len() > 0)
                <==> r is Ok,
            r matches Ok(fe) ==> fe.spec_list().len() == extensions@.len() && forall|i: int|
                0 <= i < extensions@.len() ==> fe.spec_list()[i] == lower_of(
                    spec_trim(#[trigger] extensions@[i]@),
                ),
            r matches Err(e) ==> (e matches WaverError::ArgumentError(m) && m@
                == "File extension cannot be empty"@),
    {
        let mut validated: Vec<FileExtension> = Vec::new();
        let n = extensions.len();
        let mut i: usize = 0;
        while i < n
            invariant
                0 <= i <= n == extensions@.len(),
                validated@.len() == i,
                forall|k: int| 0 <= k < i ==> spec_trim(#[trigger] extensions@[k]@).len() > 0,
                forall|k: int|
                    0 <= k < i ==> (#[trigger] validated@[k]).spec_str() == lower_of(
                        spec_trim(extensions@[k]@),
                    ),
            decreases n - i,
        {
            match FileExtension::new(extensions[i].as_str()) {
                Ok(e) => {
                    validated.push(e);
                },
                Err(e) => {
                    return Err(e);
                },
            }
            i = i + 1;
        }
        Ok(Self { exts: validated })
    }

    /// Returns the file extensions as a vector of strings.
    pub fn as_strings(&self) -> (r: Vec<String>)
        ensures
            r@.len() == self.spec_list().len(),
            forall|i: int| 0 <= i < r@.len() ==> (#[trigger] r@[i])@ == self.spec_list()[i],
    {
        let mut out: Vec<String> = Vec::new();
        let n = self.exts.len();
        let mut i: usize = 0;
        while i < n
            invariant
                0 <= i <= n == self.exts@.len(),
                out@.len() == i,
                forall|k: int| 0 <= k < i ==> (#[trigger] out@[k])@ == self.spec_list()[k],
            decreases n - i,
        {
            out.push(String::from_str(self.exts[i].as_str()));
            i = i + 1;
        }
        out
    }

    /// Parses a comma-separated extension list: the pieces that survive
    /// trimming are validated in order, and a list with no such piece is
    /// rejected.
    pub fn parse(s: &str) -> (r: Result<Self, WaverError>)
        ensures
            spec_kept_parts(s@).len() == 0 ==> (r matches Err(WaverError::ArgumentError(m)) && m@
                == "No file extensions specified"@),
            spec_kept_parts(s@).len() > 0 ==> (r matches Ok(fe) && fe.spec_list().len()
                == spec_kept_parts(s@).len() && forall|i: int|
                0 <= i < spec_kept_parts(s@).len() ==> fe.spec_list()[i] == lower_of(
                    #[trigger] spec_kept_parts(s@)[i],
                )),
    {
        let parts = split_commas(s);
        let ghost all = spec_split_commas(s@).map_values(|p: Seq<char>| spec_trim(p));
        let mut kept: Vec<String> = Vec::new();
        let n = parts.len();
        proof {
            assert(all.subrange(0, 0) =~= Seq::<Seq<char>>::empty());
            reveal(Seq::filter);
            assert(kept@.map_values(|p: String| p@) =~= all.subrange(0, 0).filter(
                |p: Seq<char>| p.len() > 0,
            ));
        }
        let mut i: usize = 0;
        while i < n
            invariant
                0 <= i <= n == parts@.len(),
                parts@.map_values(|p: &str| p@) == spec_split_commas(s@),
                all == spec_split_commas(s@).map_values(|p: Seq<char>| spec_trim(p)),
                kept@.map_values(|p: String| p@) == all.subrange(0, i as int).filter(
                    |p: Seq<char>| p.len() > 0,
                ),
                forall|k: int|
                    0 <= k < kept@.len() ==> spec_trim((#[trigger] kept@[k])@) == kept@[k]@
                        && kept@[k]@.len() > 0,
            decreases n - i,
        {
            let t = trim(parts[i]);
            proof {
                assert(all.subrange(0, i as int + 1).drop_last() =~= all.subrange(0, i as int));
                assert(all[i as int] == spec_trim(parts@[i as int]@));
                reveal(Seq::filter);
                crate::chars::lemma_trim_idempotent(parts@[i as int]@);
            }
            if t.unicode_len() > 0 {
                kept.push(String::from_str(t));
                proof {
                    assert(kept@.map_values(|p: String| p@) =~= all.subrange(0, i as int + 1).filter(
                        |p: Seq<char>| p.len() > 0,
                    ));
                }
            } else {
                proof {
                    assert(kept@.map_values(|p: String| p@) =~= all.subrange(0, i as int + 1).filter(
                        |p: Seq<char>| p.len() > 0,
                    ));
                }
            }
            i = i + 1;
        }
        proof {
            assert(all.subrange(0, n as int) =~= all);
            assert(kept@.map_values(|p: String| p@) == spec_kept_parts(s@));
        }
        if kept.is_empty() {
            return Err(
                WaverError::argument_error(String::from_str("No file extensions specified")),
            );
        }
        Self::new(kept)
    }
}

impl std::str::FromStr for FileExtensions {
    type Err = WaverError;

    fn from_str(s: &str) -> Result<Self, WaverError> {
        Self::parse(s)
    }
}

/// The validated configuration of one run: image dimensions, colors, output
/// policy, and the audio paths to process.
#[derive(Debug)]
pub struct WaverArgs {
    /// Width of the output image in pixels.
    pub width: Width,
    /// Height of the output image in pixels (even).
    pub height: Height,
    /// Color for the left channel.
    pub left_color: Rgba,
    /// Color for the right channel.
    pub right_color: Rgba,
    /// Background color.
    pub background_color: Rgba,
    /// Output file name, allowed only in single-file mode.
    pub output_filename: Option<String>,
    /// The audio file extensions collected from directories.
    pub file_extensions: FileExtensions,
    /// Perform actions without generating files.
    pub dry_run: bool,
    /// Overwrite existing output files.
    pub overwrite: bool,
    /// Suppress most output.
    pub quiet: bool,
    /// Print additional information.
    pub verbose: bool,
    /// Audio files or directories to process.
    pub audio_paths: Vec<AudioPath>,
}

impl WaverArgs {
    /// Validates the constraints that tie several arguments together: one
    /// output file name cannot serve several audio files, nor a directory
    /// of them.
    pub fn validate(&self) -> (r: Result<(), WaverError>)
        ensures
            self.audio_paths@.len() > 1 && self.output_filename is Some ==> (r matches Err(
                WaverError::ArgumentError(m),
            ) && m@ == "Cannot specify --output-filename with multiple audio files"@),
            !(self.audio_paths@.len() > 1 && self.output_filename is Some) && (
            self.output_filename is Some && exists|i: int|
                0 <= i < self.audio_paths@.len() && (#[trigger] self.audio_paths@[i]).spec_is_dir())
                ==> (r matches Err(WaverError::ArgumentError(m)) && m@
                == "Cannot specify --output-filename with a directory"@),
            r is Ok <==> !(self.audio_paths@.len() > 1 && self.output_filename is Some) && !(
            self.output_filename is Some && exists|i: int|
                0 <= i < self.audio_paths@.len() && (#[trigger] self.audio_paths@[i]).spec_is_dir()),
    {
        if self.audio_paths.len() > 1 && self.output_filename.is_some() {
            return Err(
                WaverError::argument_error(
                    String::from_str("Cannot specify --output-filename with multiple audio files"),
                ),
            );
        }
        if self.output_filename.is_some() {
            let n = self.audio_paths.len();
            let mut i: usize = 0;
            while i < n
                invariant
                    0 <= i <= n == self.audio_paths@.len(),
                    self.output_filename is Some,
                    !(self.audio_paths@.len() > 1 && self.output_filename is Some),
                    forall|k: int|
                        0 <= k < i ==> !(#[trigger] self.audio_paths@[k]).spec_is_dir(),
                decreases n - i,
            {
                if self.audio_paths[i].is_dir() {
                    proof {
                        assert((self.audio_paths@[i as int]).spec_is_dir());
                    }
                    return Err(
                        WaverError::argument_error(
                            String::from_str("Cannot specify --output-filename with a directory"),
                        ),
                    );
                }
                i = i + 1;
            }
        }
        Ok(())
    }

    /// Returns the width value.
    pub fn width(&self) -> (r: u32)
        ensures
            r == self.width@,
    {
        self.width.value()
    }

    /// Returns the height value.
    pub fn height(&self) -> (r: u32)
        ensures
            r == self.height@,
    {
        self.height.value()
    }

    /// Returns the center line position.
    pub fn center(&self) -> (r: u32)
        ensures
            r == self.height@ / 2,
    {
        self.height.center()
    }

    /// Returns the file extensions as strings.
    pub fn file_extensions(&self) -> (r: Vec<String>)
        ensures
            r@.len() == self.file_extensions.spec_list().len(),
            forall|i: int|
                0 <= i < r@.len() ==> (#[trigger] r@[i])@ == self.file_extensions.spec_list()[i],
    {
        self.file_extensions.as_strings()
    }
}

} // verus!
