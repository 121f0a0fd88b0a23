//! Validation for the low-level file open modes.

use vstd::prelude::*;

use crate::VeloxError;
use crate::codec::str_eq;

verus! {

/// How a file is to be opened.
#[derive(Debug, Clone, Copy, PartialEq, Eq, Structural)]
pub enum OpenMode {
    Read,
    Write,
    ReadWrite,
    Append,
}

/// Validates a file open mode.
///
/// Exactly `r`, `w`, `rw` and `a` are accepted; anything else is an
/// invalid-mode error, as the caller reports it.
pub fn open_file(mode: &str) -> (r: Result<OpenMode, VeloxError>)
    ensures
        mode@ == "r"@ ==> r == Ok::<OpenMode, VeloxError>(OpenMode::Read),
        mode@ == "w"@ ==> r == Ok::<OpenMode, VeloxError>(OpenMode::Write),
        mode@ == "rw"@ ==> r == Ok::<OpenMode, VeloxError>(OpenMode::ReadWrite),
        mode@ == "a"@ ==> r == Ok::<OpenMode, VeloxError>(OpenMode::Append),
        mode@ != "r"@ && mode@ != "w"@ && mode@ != "rw"@ && mode@ != "a"@ ==> (r matches Err(e)
            && e is IoError && e.detail_text() == "Invalid mode."@),
{
    proof {
        reveal_strlit("r");
        reveal_strlit("w");
        reveal_strlit("rw");
        reveal_strlit("a");
        crate::codec::lemma_str_neq("r"@, "w"@, 0);
        crate::codec::lemma_str_neq("r"@, "a"@, 0);
        crate::codec::lemma_str_neq("w"@, "a"@, 0);
    }
    if str_eq(mode, "r") {
        Ok(OpenMode::Read)
    } else if str_eq(mode, "w") {
        Ok(OpenMode::Write)
    } else if str_eq(mode, "rw") {
        Ok(OpenMode::ReadWrite)
    } else if str_eq(mode, "a") {
        Ok(OpenMode::Append)
    } else {
        Err(VeloxError::IoError { detail: "Invalid mode.".to_owned() })
    }
}

} // verus!
