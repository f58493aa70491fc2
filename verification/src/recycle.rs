//! The recycle-bin delete's computing half: admission and the mapping of
//! the native shell operation's outcome. The shell call is the caller's
//! part.

use vstd::prelude::*;
use crate::error::{ZError, ZResult};

verus! {

/// Check a delete request before the native call: the path must exist.
pub fn precheck_recycle(path_exists: bool, path: &str) -> (r: Option<ZError>)
    ensures
        !path_exists ==> (r matches Some(e) && e is NotFound && e.spec_path() == Some(path@)),
        path_exists ==> r is None,
{
    if !path_exists {
        Some(ZError::NotFound { path: path.to_owned() })
    } else {
        None
    }
}

/// Map the native shell operation's outcome: a non-zero code is a native
/// error, an aborted operation a cancellation, anything else success.
pub fn recycle_outcome(result_code: i32, any_aborted: bool) -> (r: ZResult<()>)
    ensures
        result_code != 0 ==> (r matches Err(e) && e is Windows),
        result_code == 0 && any_aborted ==> (r matches Err(e) && e is Cancelled),
        result_code == 0 && !any_aborted ==> r is Ok,
{
    if result_code != 0 {
        let code: u32 = if result_code >= 0 {
            result_code as u32
        } else {
            0
        };
        let mut msg = "shell delete failed with code ".to_owned();
        let num = crate::text::i64_to_string(result_code as i64);
        msg.append(num.as_str());
        return Err(ZError::Windows { code, message: msg });
    }
    if any_aborted {
        return Err(ZError::Cancelled);
    }
    Ok(())
}

} // verus!
