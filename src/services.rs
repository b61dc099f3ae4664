//! Errors of the services layer, and facts about local drives.

use vstd::prelude::*;

verus! {

/// Failures reported by a media service.
#[derive(Debug, Clone)]
pub enum ServiceError {
    RequestError(String),
    ParseError(String),
    ApiError(String),
    NetworkError(String),
}

/// One mounted drive and its capacity, in bytes.
#[derive(Debug, Clone)]
pub struct DriveInfo {
    pub name: String,
    pub mount_point: String,
    pub total_space: u64,
    pub free_space: u64,
    pub available_space: u64,
    pub drive_type: String,
}

pub open spec fn drive_type_label(code: u32) -> Seq<char> {
    if code == 2 {
        "Removable"@
    } else if code == 3 {
        "Local Disk"@
    } else if code == 4 {
        "Network"@
    } else if code == 5 {
        "CD-ROM"@
    } else {
        "Unknown"@
    }
}

/// The label of a drive-type code as the operating system reports it.
pub fn drive_type_name(code: u32) -> (r: &'static str)
    ensures
        r@ == drive_type_label(code),
{
    if code == 2 {
        "Removable"
    } else if code == 3 {
        "Local Disk"
    } else if code == 4 {
        "Network"
    } else if code == 5 {
        "CD-ROM"
    } else {
        "Unknown"
    }
}

} // verus!
