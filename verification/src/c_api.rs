//! The result codes of the C interface and what they say.

use vstd::prelude::*;

verus! {

/// A result of a C interface call.
#[derive(Debug, Clone, Copy, PartialEq, Eq)]
pub enum CApiError {
    Success,
    InvalidParameter,
    DeviceNotFound,
    InitializationFailed,
    OperationFailed,
    NotImplemented,
}

impl CApiError {
    /// The number a C caller sees: zero for success, negative for failures.
    pub fn code(&self) -> (r: i32)
        ensures
            r == match *self {
                CApiError::Success => 0i32,
                CApiError::InvalidParameter => -1i32,
                CApiError::DeviceNotFound => -2i32,
                CApiError::InitializationFailed => -3i32,
                CApiError::OperationFailed => -4i32,
                CApiError::NotImplemented => -5i32,
            },
    {
        match self {
            CApiError::Success => 0,
            CApiError::InvalidParameter => -1,
            CApiError::DeviceNotFound => -2,
            CApiError::InitializationFailed => -3,
            CApiError::OperationFailed => -4,
            CApiError::NotImplemented => -5,
        }
    }
}

/// The text of a result code.
pub open spec fn error_text(code: i32) -> Seq<char> {
    if code == 0 {
        "Success"@
    } else if code == -1 {
        "Invalid parameter"@
    } else if code == -2 {
        "Device not found"@
    } else if code == -3 {
        "Initialization failed"@
    } else if code == -4 {
        "Operation failed"@
    } else if code == -5 {
        "Not implemented"@
    } else {
        "Unknown error"@
    }
}

/// The text of a result code.
pub fn error_string(code: i32) -> (r: &'static str)
    ensures
        r@ == error_text(code),
{
    match code {
        0 => "Success",
        -1 => "Invalid parameter",
        -2 => "Device not found",
        -3 => "Initialization failed",
        -4 => "Operation failed",
        -5 => "Not implemented",
        _ => "Unknown error",
    }
}

/// The devices listed to a caller with room for `max_devices`: identifiers
/// from 0, at most two; no room is an invalid parameter.
pub fn device_list(max_devices: u32) -> (r: Result<Vec<u32>, CApiError>)
    ensures
        max_devices == 0 ==> r == Err::<Vec<u32>, CApiError>(CApiError::InvalidParameter),
        max_devices > 0 ==> (r matches Ok(ids) && ids@.len() == (if max_devices < 2 { max_devices } else { 2 })
            && forall|i: int| 0 <= i < ids@.len() ==> ids@[i] == i),
{
    if max_devices == 0 {
        return Err(CApiError::InvalidParameter);
    }
    let count: u32 = if max_devices < 2 { max_devices } else { 2 };
    let mut ids: Vec<u32> = Vec::new();
    let mut i: u32 = 0;
    while i < count
        invariant
            i <= count,
            count <= 2,
            ids@.len() == i,
            forall|j: int| 0 <= j < i ==> ids@[j] == j,
        decreases count - i,
    {
        ids.push(i);
        i = i + 1;
    }
    Ok(ids)
}

} // verus!
