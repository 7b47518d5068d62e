//! Choosing how an (input, output) pair of paths is processed.

use vstd::prelude::*;
use crate::error::FatalError;
use crate::names::target_name;
use crate::paths::FsPath;

verus! {

/// How a run processes its two paths.
#[derive(Clone, Debug)]
pub enum Mode {
    /// Convert the input file to exactly the output path.
    SingleFile { source: FsPath, target: FsPath },
    /// Convert the input file into the output directory, under its own name
    /// with the target extension.
    FileIntoDirectory { source: FsPath, target: FsPath },
    /// Walk the input directory and mirror it under the output path.
    Tree { root: FsPath, out_root: FsPath },
}

/// What the filesystem says of the two paths.
#[derive(Clone, Copy, Debug, PartialEq, Eq, Structural)]
pub struct PathKinds {
    pub input_is_dir: bool,
    pub output_exists: bool,
    pub output_is_dir: bool,
}

/// A directory cannot be converted into an existing file.
pub open spec fn directory_into_file(k: PathKinds) -> bool {
    k.input_is_dir && k.output_exists && !k.output_is_dir
}

/// The mode for `input` and `output`, or the configuration error that stops
/// the run before any conversion work.
pub fn classify(input: &FsPath, output: &FsPath, kinds: PathKinds) -> (r: Result<Mode, FatalError>)
    ensures
        match r {
            Err(e) => (directory_into_file(kinds) && e is DirectoryIntoFile) || (
            !kinds.input_is_dir && kinds.output_is_dir && input@.len() == 0
                && e is MissingFileName),
            Ok(Mode::SingleFile { source, target }) => !kinds.input_is_dir && !kinds.output_is_dir
                && source@ == input@ && target@ == output@,
            Ok(Mode::FileIntoDirectory { source, target }) => !kinds.input_is_dir
                && kinds.output_is_dir && input@.len() > 0 && source@ == input@ && target@
                == output@.push(target_name(input@.last())),
            Ok(Mode::Tree { root, out_root }) => kinds.input_is_dir && !directory_into_file(kinds)
                && root@ == input@ && out_root@ == output@,
        },
{
    if kinds.input_is_dir {
        if kinds.output_exists && !kinds.output_is_dir {
            Err(FatalError::DirectoryIntoFile)
        } else {
            Ok(Mode::Tree { root: input.duplicate(), out_root: output.duplicate() })
        }
    } else if kinds.output_is_dir {
        match input.file_name() {
            None => Err(FatalError::MissingFileName),
            Some(name) => {
                let renamed = FsPath::new(vec![crate::names::target_file_name(&name)]);
                let target = output.join(&renamed);
                assert(renamed@ =~= seq![target_name(input@.last())]);
                Ok(Mode::FileIntoDirectory { source: input.duplicate(), target })
            },
        }
    } else {
        Ok(Mode::SingleFile { source: input.duplicate(), target: output.duplicate() })
    }
}

} // verus!
