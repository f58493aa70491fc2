//! Drive and volume descriptions: types, labels, and space summaries.
//! Enumerating the system's drives is the caller's part.

use vstd::prelude::*;
use crate::entry::spec_format_size;

verus! {

/// Type of drive/volume.
#[derive(Debug, Clone, Copy, PartialEq, Eq, Structural)]
pub enum DriveType {
    /// Unknown drive type.
    Unknown,
    /// Drive has no root directory (not mounted).
    NoRootDir,
    /// Removable drive (USB stick, memory card, and the like).
    Removable,
    /// Fixed drive (internal disk).
    Fixed,
    /// Network drive.
    Network,
    /// Optical drive.
    CdRom,
    /// RAM disk.
    RamDisk,
}

impl DriveType {
    /// What `description` renders for each type.
    pub open spec fn spec_description(&self) -> Seq<char> {
        match *self {
            DriveType::Unknown => "Unknown"@,
            DriveType::NoRootDir => "Not Mounted"@,
            DriveType::Removable => "Removable"@,
            DriveType::Fixed => "Local Disk"@,
            DriveType::Network => "Network Drive"@,
            DriveType::CdRom => "CD/DVD Drive"@,
            DriveType::RamDisk => "RAM Disk"@,
        }
    }

    /// Get a human-readable description.
    pub fn description(&self) -> (r: &'static str)
        ensures
            r@ == self.spec_description(),
    {
        match self {
            DriveType::Unknown => "Unknown",
            DriveType::NoRootDir => "Not Mounted",
            DriveType::Removable => "Removable",
            DriveType::Fixed => "Local Disk",
            DriveType::Network => "Network Drive",
            DriveType::CdRom => "CD/DVD Drive",
            DriveType::RamDisk => "RAM Disk",
        }
    }

    /// What `icon` names for each type.
    pub open spec fn spec_icon(&self) -> Seq<char> {
        match *self {
            DriveType::Unknown => "drive"@,
            DriveType::NoRootDir => "drive"@,
            DriveType::Removable => "usb"@,
            DriveType::Fixed => "hard-drive"@,
            DriveType::Network => "network"@,
            DriveType::CdRom => "disc"@,
            DriveType::RamDisk => "memory"@,
        }
    }

    /// Get an icon name for the drive type.
    pub fn icon(&self) -> (r: &'static str)
        ensures
            r@ == self.spec_icon(),
    {
        match self {
            DriveType::Unknown => "drive",
            DriveType::NoRootDir => "drive",
            DriveType::Removable => "usb",
            DriveType::Fixed => "hard-drive",
            DriveType::Network => "network",
            DriveType::CdRom => "disc",
            DriveType::RamDisk => "memory",
        }
    }
}

/// Information about a drive/volume.
#[derive(Debug, Clone, PartialEq)]
pub struct DriveInfo {
    /// The drive letter or mount point (e.g., "C:\\").
    pub path: String,
    /// Volume label (e.g., "Windows", "Data").
    pub label: String,
    /// Type of drive.
    pub drive_type: DriveType,
    /// File system (e.g., "NTFS", "FAT32").
    pub file_system: Option<String>,
    /// Total capacity in bytes.
    pub total_bytes: Option<u64>,
    /// Free space in bytes.
    pub free_bytes: Option<u64>,
    /// Whether the drive is ready/accessible.
    pub is_ready: bool,
}

/// A path with its trailing backslashes removed.
pub open spec fn spec_trim_backslashes(s: Seq<char>) -> Seq<char>
    decreases s.len(),
{
    if s.len() > 0 && s.last() == '\\' {
        spec_trim_backslashes(s.drop_last())
    } else {
        s
    }
}

/// Removes every trailing backslash.
fn trim_backslashes(s: &str) -> (r: String)
    ensures
        r@ == spec_trim_backslashes(s@),
{
    let len = s.unicode_len();
    proof {
        assert(s@.take(len as int) =~= s@);
    }
    let mut end: usize = len;
    let mut done = false;
    while !done && end > 0
        invariant
            end <= len,
            len == s@.len(),
            done ==> end > 0 && s@[end - 1] != '\\',
            spec_trim_backslashes(s@) == spec_trim_backslashes(s@.take(end as int)),
        decreases end, (if done { 0int } else { 1int }),
    {
        let c = s.get_char(end - 1);
        if c != '\\' {
            done = true;
        } else {
            proof {
                assert(s@.take(end as int).last() == s@[end - 1]);
                assert(s@.take(end as int).drop_last() =~= s@.take(end - 1));
            }
            end -= 1;
        }
    }
    let out = s.substring_char(0, end).to_owned();
    proof {
        if end > 0 {
            assert(s@.take(end as int).last() == s@[end - 1]);
        }
        assert(out@ =~= spec_trim_backslashes(s@.take(end as int)));
    }
    out
}

impl DriveInfo {
    /// What `display_name` renders: the label (or the type's description
    /// when unlabeled) with the trimmed drive letter.
    pub open spec fn spec_display_name(&self) -> Seq<char> {
        let letter = spec_trim_backslashes(self.path@);
        if self.label@.len() == 0 {
            self.drive_type.spec_description() + " ("@ + letter + ")"@
        } else {
            self.label@ + " ("@ + letter + ")"@
        }
    }

    /// Get the display name for the drive.
    pub fn display_name(&self) -> (r: String)
        ensures
            r@ == self.spec_display_name(),
    {
        let letter = trim_backslashes(self.path.as_str());
        let mut s = if self.label.as_str().unicode_len() == 0 {
            proof {
                assert(self.label@ =~= Seq::<char>::empty());
            }
            self.drive_type.description().to_owned()
        } else {
            self.label.clone()
        };
        s.append(" (");
        s.append(letter.as_str());
        s.append(")");
        proof {
            assert(s@ =~= self.spec_display_name());
        }
        s
    }

    /// Get used space in bytes, when both totals are known.
    pub fn used_bytes(&self) -> (r: Option<u64>)
        ensures
            match (self.total_bytes, self.free_bytes) {
                (Some(total), Some(free)) => r == Some(
                    (if total >= free {
                        (total - free) as u64
                    } else {
                        0u64
                    }),
                ),
                _ => r is None,
            },
    {
        match (self.total_bytes, self.free_bytes) {
            (Some(total), Some(free)) => {
                if total >= free {
                    Some(total - free)
                } else {
                    Some(0)
                }
            },
            _ => None,
        }
    }

    /// Format free space as a human-readable string.
    pub fn free_space_display(&self) -> (r: String)
        ensures
            self.free_bytes matches Some(b) ==> r@ == spec_format_size(b),
            self.free_bytes is None ==> r@ == "N/A"@,
    {
        match self.free_bytes {
            Some(b) => format_bytes(b),
            None => "N/A".to_owned(),
        }
    }

    /// Format total space as a human-readable string.
    pub fn total_space_display(&self) -> (r: String)
        ensures
            self.total_bytes matches Some(b) ==> r@ == spec_format_size(b),
            self.total_bytes is None ==> r@ == "N/A"@,
    {
        match self.total_bytes {
            Some(b) => format_bytes(b),
            None => "N/A".to_owned(),
        }
    }
}

/// Format bytes as a human-readable string.
pub fn format_bytes(bytes: u64) -> (r: String)
    ensures
        r@ == spec_format_size(bytes),
{
    crate::entry::format_size(bytes)
}

} // verus!
