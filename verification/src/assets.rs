//! Where the front-end's static assets live.
//!
//! The probing of the filesystem and the process's arguments is the
//! runner's work; the decision — which directory serves, and when startup
//! must fail — is made here.

use vstd::prelude::*;

use crate::VeloxError;

verus! {

/// Picks the directory assets are served from.
///
/// A run under the build tool serves the configured build directory; a
/// bundled run serves the installed bundle directory.  A missing directory
/// is fatal to startup, reported rather than crashed on.
pub fn get_asset_path(
    ran_by_build_tool: bool,
    build_dir: &str,
    build_dir_exists: bool,
    bundle_dir: &str,
    bundle_dir_exists: bool,
) -> (r: Result<String, VeloxError>)
    ensures
        ran_by_build_tool && build_dir_exists ==> (r matches Ok(p) && p@ == build_dir@),
        ran_by_build_tool && !build_dir_exists ==> (r matches Err(e) && e is IoError),
        !ran_by_build_tool && bundle_dir_exists ==> (r matches Ok(p) && p@ == bundle_dir@),
        !ran_by_build_tool && !bundle_dir_exists ==> (r matches Err(e) && e is IoError),
{
    if ran_by_build_tool {
        if build_dir_exists {
            Ok(build_dir.to_owned())
        } else {
            Err(VeloxError::IoError { detail: "could not load assets".to_owned() })
        }
    } else {
        if bundle_dir_exists {
            Ok(bundle_dir.to_owned())
        } else {
            Err(VeloxError::IoError { detail: "could not load assets".to_owned() })
        }
    }
}

} // verus!
