//! Location of the hardware-accelerated quality tool.

use vstd::prelude::*;

use vstd::string::StringExecFns;

verus! {

/// The configured location of the hardware-accelerated quality tool.
pub fn find_vmaf_cuda() -> (r: Option<String>)
    ensures
        match r {
            Some(p) => p@ == "path/to/vmaf_cuda"@,
            None => false,
        },
{
    Some(String::from_str("path/to/vmaf_cuda"))
}

} // verus!
