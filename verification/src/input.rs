//! Whether a path may be read as a scheme file. The library looks at no file
//! system: the program around it probes the path and hands in what it found.

use vstd::prelude::*;
use crate::errors::AxtcError;
use crate::text::{chars_of, same_chars};

verus! {

/// What a probe of a path found.
#[derive(Debug, PartialEq, Eq)]
pub struct PathProbe {
    /// Whether anything exists at the path.
    pub exists: bool,
    /// Whether the path names a directory.
    pub is_dir: bool,
    /// The extension of the file's name, without the dot, if it has one.
    pub extension: Option<String>,
}

/// The extension that a scheme file bears.
pub open spec fn scheme_extension() -> Seq<char> {
    "json"@
}

/// Whether a path with these properties is taken: it must exist, be no
/// directory, and bear the extension of a scheme file, in lower case.
pub open spec fn admitted(exists: bool, is_dir: bool, extension: Option<Seq<char>>) -> Result<
    (),
    AxtcError,
> {
    if !exists {
        Err(AxtcError::FileNotFound)
    } else if is_dir || extension != Some(scheme_extension()) {
        Err(AxtcError::InvalidFileFormat)
    } else {
        Ok(())
    }
}

impl PathProbe {
    /// The extension that was found, as characters.
    pub open spec fn found_extension(self) -> Option<Seq<char>> {
        match self.extension {
            Some(e) => Some(e@),
            None => None,
        }
    }
}

/// Says whether the probed path may go on to the parser. A path that does not
/// exist is not found; a directory, or a file of another extension, is of an
/// invalid format.
pub fn check_input_path(probe: &PathProbe) -> (r: Result<(), AxtcError>)
    ensures
        r == admitted(probe.exists, probe.is_dir, probe.found_extension()),
{
    if !probe.exists {
        return Err(AxtcError::FileNotFound);
    }
    if probe.is_dir {
        return Err(AxtcError::InvalidFileFormat);
    }
    match &probe.extension {
        None => Err(AxtcError::InvalidFileFormat),
        Some(extension) => {
            let found = chars_of(extension.as_str());
            let wanted = chars_of("json");
            if same_chars(&found, &wanted) {
                Ok(())
            } else {
                Err(AxtcError::InvalidFileFormat)
            }
        },
    }
}

/// A path that was not found never reaches the parser, whatever else the probe
/// says; nor does a directory.
pub proof fn lemma_missing_or_directory_refused(
    exists: bool,
    is_dir: bool,
    extension: Option<Seq<char>>,
)
    ensures
        !exists ==> admitted(exists, is_dir, extension) == Err::<(), AxtcError>(
            AxtcError::FileNotFound,
        ),
        exists && is_dir ==> admitted(exists, is_dir, extension) == Err::<(), AxtcError>(
            AxtcError::InvalidFileFormat,
        ),
        admitted(exists, is_dir, extension) is Ok <==> exists && !is_dir && extension == Some(
            scheme_extension(),
        ),
{
}

} // verus!
