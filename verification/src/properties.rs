//! File and folder properties: the record the properties panel shows, the
//! folder statistics, and extension-based media-type guessing.

use vstd::prelude::*;
use crate::entry::{opt_view, EntryKind};
use crate::text::{dec_str, lower_of, scaled2};
use crate::entry::{GB, KB, MB, TB};

verus! {

/// Detailed properties for a file or folder.
#[derive(Debug, Clone, PartialEq)]
pub struct Properties {
    /// The path to the item.
    pub path: String,
    /// Display name.
    pub name: String,
    /// Type of entry.
    pub kind: EntryKind,
    /// Size in bytes (files) or the calculated size (folders).
    pub size: Option<u64>,
    /// Number of files (for folders).
    pub file_count: Option<usize>,
    /// Number of subdirectories (for folders).
    pub folder_count: Option<usize>,
    /// Creation time, seconds since the Unix epoch.
    pub created: Option<i64>,
    /// Last modification time, seconds since the Unix epoch.
    pub modified: Option<i64>,
    /// Last access time, seconds since the Unix epoch.
    pub accessed: Option<i64>,
    /// Whether the item is read-only.
    pub readonly: bool,
    /// Whether the item is hidden.
    pub hidden: bool,
    /// Whether the item is a system file.
    pub system: bool,
    /// Whether the item is an archive (ready for backup).
    pub archive: bool,
    /// Link target (for symlinks/junctions).
    pub link_target: Option<String>,
    /// File extension (for files).
    pub extension: Option<String>,
    /// Media type (if determinable).
    pub mime_type: Option<String>,
}

/// What this module's `format_size` renders: binary units with two
/// decimals, plain "bytes" below a kilobyte.
pub open spec fn spec_props_size(bytes: u64) -> Seq<char> {
    if bytes >= TB {
        scaled2(bytes as nat, TB as nat) + " TB"@
    } else if bytes >= GB {
        scaled2(bytes as nat, GB as nat) + " GB"@
    } else if bytes >= MB {
        scaled2(bytes as nat, MB as nat) + " MB"@
    } else if bytes >= KB {
        scaled2(bytes as nat, KB as nat) + " KB"@
    } else {
        dec_str(bytes as nat) + " bytes"@
    }
}

/// Format size as a human-readable string.
pub fn format_size(bytes: u64) -> (r: String)
    ensures
        r@ == spec_props_size(bytes),
{
    if bytes >= KB {
        let r = crate::entry::format_size(bytes);
        proof {
            assert(r@ =~= spec_props_size(bytes));
        }
        r
    } else {
        let mut s = crate::text::u64_to_string(bytes);
        s.append(" bytes");
        proof {
            assert(s@ =~= spec_props_size(bytes));
        }
        s
    }
}

impl Properties {
    /// Get a human-readable size string, or a dash when none is known.
    pub fn size_display(&self) -> (r: String)
        ensures
            self.size matches Some(b) ==> r@ == spec_props_size(b),
            self.size is None ==> r@ == "-"@,
    {
        match self.size {
            Some(b) => format_size(b),
            None => "-".to_owned(),
        }
    }

    /// What `contents_summary` renders for the known counts.
    pub open spec fn spec_contents_summary(&self) -> Option<Seq<char>> {
        match (self.file_count, self.folder_count) {
            (Some(files), Some(folders)) => Some(
                dec_str(files as nat) + " files, "@ + dec_str(folders as nat) + " folders"@,
            ),
            (Some(files), None) => Some(dec_str(files as nat) + " files"@),
            (None, Some(folders)) => Some(dec_str(folders as nat) + " folders"@),
            (None, None) => None,
        }
    }

    /// Get a summary string (e.g., "10 files, 3 folders").
    pub fn contents_summary(&self) -> (r: Option<String>)
        ensures
            opt_view(r) == self.spec_contents_summary(),
    {
        match (self.file_count, self.folder_count) {
            (Some(files), Some(folders)) => {
                let mut s = crate::text::u64_to_string(files as u64);
                s.append(" files, ");
                let f2 = crate::text::u64_to_string(folders as u64);
                s.append(f2.as_str());
                s.append(" folders");
                proof {
                    assert(s@ =~= dec_str(files as nat) + " files, "@ + dec_str(folders as nat)
                        + " folders"@);
                }
                Some(s)
            },
            (Some(files), None) => {
                let mut s = crate::text::u64_to_string(files as u64);
                s.append(" files");
                Some(s)
            },
            (None, Some(folders)) => {
                let mut s = crate::text::u64_to_string(folders as u64);
                s.append(" folders");
                Some(s)
            },
            (None, None) => None,
        }
    }

    /// Format the modification time for display, in local time.
    pub fn modified_display(&self) -> (r: Option<String>)
        ensures
            r is Some <==> self.modified is Some,
    {
        match self.modified {
            Some(t) => Some(format_local_datetime(t)),
            None => None,
        }
    }

    /// Format the creation time for display, in local time.
    pub fn created_display(&self) -> (r: Option<String>)
        ensures
            r is Some <==> self.created is Some,
    {
        match self.created {
            Some(t) => Some(format_local_datetime(t)),
            None => None,
        }
    }

    /// What `attributes_display` renders: one letter per set flag, a dash
    /// when none is set.
    pub open spec fn spec_attributes_display(&self) -> Seq<char> {
        let s = (if self.readonly {
            seq!['R']
        } else {
            Seq::<char>::empty()
        }) + (if self.hidden {
            seq!['H']
        } else {
            Seq::<char>::empty()
        }) + (if self.system {
            seq!['S']
        } else {
            Seq::<char>::empty()
        }) + (if self.archive {
            seq!['A']
        } else {
            Seq::<char>::empty()
        });
        if s.len() == 0 {
            "-"@
        } else {
            s
        }
    }

    /// Get attribute flags as a string (like "RHSA").
    pub fn attributes_display(&self) -> (r: String)
        ensures
            r@ == self.spec_attributes_display(),
    {
        let mut attrs = String::new();
        if self.readonly {
            attrs.append("R");
        }
        if self.hidden {
            attrs.append("H");
        }
        if self.system {
            attrs.append("S");
        }
        if self.archive {
            attrs.append("A");
        }
        proof {
            reveal_strlit("R");
            reveal_strlit("H");
            reveal_strlit("S");
            reveal_strlit("A");
        }
        if attrs.as_str().unicode_len() == 0 {
            proof {
                assert(attrs@ =~= Seq::<char>::empty());
                assert(self.spec_attributes_display() =~= "-"@);
            }
            "-".to_owned()
        } else {
            proof {
                assert(attrs@ =~= self.spec_attributes_display());
            }
            attrs
        }
    }
}

/// Renders a timestamp as local "year-month-day hour:minute:second" text.
/// Relies on chrono's DateTime formatting; the result depends on the
/// machine's time zone, so nothing more is promised of it.
#[verifier::external_body]
pub fn format_local_datetime(secs: i64) -> String {
    match chrono::DateTime::from_timestamp(secs, 0) {
        Some(utc) => {
            let local: chrono::DateTime<chrono::Local> = utc.into();
            local.format("%Y-%m-%d %H:%M:%S").to_string()
        },
        None => String::new(),
    }
}

/// Statistics about a folder's contents.
#[derive(Debug, Clone, PartialEq, Eq, Structural)]
pub struct FolderStats {
    /// Total size of all files in bytes.
    pub total_size: u64,
    /// Number of files.
    pub file_count: usize,
    /// Number of subdirectories.
    pub folder_count: usize,
}

impl Default for FolderStats {
    fn default() -> (r: FolderStats)
        ensures
            r.total_size == 0 && r.file_count == 0 && r.folder_count == 0,
    {
        FolderStats { total_size: 0, file_count: 0, folder_count: 0 }
    }
}

impl FolderStats {
    /// Get a human-readable size.
    pub fn size_display(&self) -> (r: String)
        ensures
            r@ == spec_props_size(self.total_size),
    {
        format_size(self.total_size)
    }

    /// What `summary` renders.
    pub open spec fn spec_summary(&self) -> Seq<char> {
        spec_props_size(self.total_size) + ", "@ + dec_str(self.file_count as nat) + " files, "@
            + dec_str(self.folder_count as nat) + " folders"@
    }

    /// Get a summary string.
    pub fn summary(&self) -> (r: String)
        ensures
            r@ == self.spec_summary(),
    {
        let mut s = format_size(self.total_size);
        s.append(", ");
        let f = crate::text::u64_to_string(self.file_count as u64);
        s.append(f.as_str());
        s.append(" files, ");
        let d = crate::text::u64_to_string(self.folder_count as u64);
        s.append(d.as_str());
        s.append(" folders");
        proof {
            assert(s@ =~= self.spec_summary());
        }
        s
    }
}

/// The media type this crate knows for a lowercase extension.
pub open spec fn spec_mime(e: Seq<char>) -> Option<Seq<char>> {
    if e == "txt"@ {
        Some("text/plain"@)
    } else if e == "md"@ || e == "markdown"@ {
        Some("text/markdown"@)
    } else if e == "html"@ || e == "htm"@ {
        Some("text/html"@)
    } else if e == "css"@ {
        Some("text/css"@)
    } else if e == "js"@ {
        Some("application/javascript"@)
    } else if e == "json"@ {
        Some("application/json"@)
    } else if e == "xml"@ {
        Some("application/xml"@)
    } else if e == "csv"@ {
        Some("text/csv"@)
    } else if e == "jpg"@ || e == "jpeg"@ {
        Some("image/jpeg"@)
    } else if e == "png"@ {
        Some("image/png"@)
    } else if e == "gif"@ {
        Some("image/gif"@)
    } else if e == "webp"@ {
        Some("image/webp"@)
    } else if e == "svg"@ {
        Some("image/svg+xml"@)
    } else if e == "ico"@ {
        Some("image/x-icon"@)
    } else if e == "bmp"@ {
        Some("image/bmp"@)
    } else if e == "mp3"@ {
        Some("audio/mpeg"@)
    } else if e == "wav"@ {
        Some("audio/wav"@)
    } else if e == "ogg"@ {
        Some("audio/ogg"@)
    } else if e == "flac"@ {
        Some("audio/flac"@)
    } else if e == "m4a"@ {
        Some("audio/mp4"@)
    } else if e == "mp4"@ {
        Some("video/mp4"@)
    } else if e == "webm"@ {
        Some("video/webm"@)
    } else if e == "mkv"@ {
        Some("video/x-matroska"@)
    } else if e == "avi"@ {
        Some("video/x-msvideo"@)
    } else if e == "mov"@ {
        Some("video/quicktime"@)
    } else if e == "zip"@ {
        Some("application/zip"@)
    } else if e == "rar"@ {
        Some("application/vnd.rar"@)
    } else if e == "7z"@ {
        Some("application/x-7z-compressed"@)
    } else if e == "tar"@ {
        Some("application/x-tar"@)
    } else if e == "gz"@ {
        Some("application/gzip"@)
    } else if e == "pdf"@ {
        Some("application/pdf"@)
    } else if e == "doc"@ || e == "docx"@ {
        Some("application/msword"@)
    } else if e == "xls"@ || e == "xlsx"@ {
        Some("application/vnd.ms-excel"@)
    } else if e == "ppt"@ || e == "pptx"@ {
        Some("application/vnd.ms-powerpoint"@)
    } else if e == "rs"@ {
        Some("text/x-rust"@)
    } else if e == "py"@ {
        Some("text/x-python"@)
    } else if e == "ts"@ {
        Some("text/typescript"@)
    } else if e == "tsx"@ {
        Some("text/typescript-jsx"@)
    } else if e == "jsx"@ {
        Some("text/javascript-jsx"@)
    } else if e == "go"@ {
        Some("text/x-go"@)
    } else if e == "c"@ || e == "h"@ {
        Some("text/x-c"@)
    } else if e == "cpp"@ || e == "hpp"@ {
        Some("text/x-c++"@)
    } else if e == "java"@ {
        Some("text/x-java"@)
    } else if e == "exe"@ {
        Some("application/x-msdownload"@)
    } else if e == "dll"@ {
        Some("application/x-msdownload"@)
    } else if e == "msi"@ {
        Some("application/x-msi"@)
    } else {
        None
    }
}

/// Guess a media type from a file extension, case-insensitively.
pub fn guess_mime_type(extension: &str) -> (r: Option<String>)
    ensures
        opt_view(r) == spec_mime(lower_of(extension@)),
{
    let low = crate::text::lowercase(extension);
    if crate::text::str_eq(low.as_str(), "txt") {
        Some("text/plain".to_owned())
    } else if crate::text::str_eq(low.as_str(), "md") || crate::text::str_eq(low.as_str(), "markdown") {
        Some("text/markdown".to_owned())
    } else if crate::text::str_eq(low.as_str(), "html") || crate::text::str_eq(low.as_str(), "htm") {
        Some("text/html".to_owned())
    } else if crate::text::str_eq(low.as_str(), "css") {
        Some("text/css".to_owned())
    } else if crate::text::str_eq(low.as_str(), "js") {
        Some("application/javascript".to_owned())
    } else if crate::text::str_eq(low.as_str(), "json") {
        Some("application/json".to_owned())
    } else if crate::text::str_eq(low.as_str(), "xml") {
        Some("application/xml".to_owned())
    } else if crate::text::str_eq(low.as_str(), "csv") {
        Some("text/csv".to_owned())
    } else if crate::text::str_eq(low.as_str(), "jpg") || crate::text::str_eq(low.as_str(), "jpeg") {
        Some("image/jpeg".to_owned())
    } else if crate::text::str_eq(low.as_str(), "png") {
        Some("image/png".to_owned())
    } else if crate::text::str_eq(low.as_str(), "gif") {
        Some("image/gif".to_owned())
    } else if crate::text::str_eq(low.as_str(), "webp") {
        Some("image/webp".to_owned())
    } else if crate::text::str_eq(low.as_str(), "svg") {
        Some("image/svg+xml".to_owned())
    } else if crate::text::str_eq(low.as_str(), "ico") {
        Some("image/x-icon".to_owned())
    } else if crate::text::str_eq(low.as_str(), "bmp") {
        Some("image/bmp".to_owned())
    } else if crate::text::str_eq(low.as_str(), "mp3") {
        Some("audio/mpeg".to_owned())
    } else if crate::text::str_eq(low.as_str(), "wav") {
        Some("audio/wav".to_owned())
    } else if crate::text::str_eq(low.as_str(), "ogg") {
        Some("audio/ogg".to_owned())
    } else if crate::text::str_eq(low.as_str(), "flac") {
        Some("audio/flac".to_owned())
    } else if crate::text::str_eq(low.as_str(), "m4a") {
        Some("audio/mp4".to_owned())
    } else if crate::text::str_eq(low.as_str(), "mp4") {
        Some("video/mp4".to_owned())
    } else if crate::text::str_eq(low.as_str(), "webm") {
        Some("video/webm".to_owned())
    } else if crate::text::str_eq(low.as_str(), "mkv") {
        Some("video/x-matroska".to_owned())
    } else if crate::text::str_eq(low.as_str(), "avi") {
        Some("video/x-msvideo".to_owned())
    } else if crate::text::str_eq(low.as_str(), "mov") {
        Some("video/quicktime".to_owned())
    } else if crate::text::str_eq(low.as_str(), "zip") {
        Some("application/zip".to_owned())
    } else if crate::text::str_eq(low.as_str(), "rar") {
        Some("application/vnd.rar".to_owned())
    } else if crate::text::str_eq(low.as_str(), "7z") {
        Some("application/x-7z-compressed".to_owned())
    } else if crate::text::str_eq(low.as_str(), "tar") {
        Some("application/x-tar".to_owned())
    } else if crate::text::str_eq(low.as_str(), "gz") {
        Some("application/gzip".to_owned())
    } else if crate::text::str_eq(low.as_str(), "pdf") {
        Some("application/pdf".to_owned())
    } else if crate::text::str_eq(low.as_str(), "doc") || crate::text::str_eq(low.as_str(), "docx") {
        Some("application/msword".to_owned())
    } else if crate::text::str_eq(low.as_str(), "xls") || crate::text::str_eq(low.as_str(), "xlsx") {
        Some("application/vnd.ms-excel".to_owned())
    } else if crate::text::str_eq(low.as_str(), "ppt") || crate::text::str_eq(low.as_str(), "pptx") {
        Some("application/vnd.ms-powerpoint".to_owned())
    } else if crate::text::str_eq(low.as_str(), "rs") {
        Some("text/x-rust".to_owned())
    } else if crate::text::str_eq(low.as_str(), "py") {
        Some("text/x-python".to_owned())
    } else if crate::text::str_eq(low.as_str(), "ts") {
        Some("text/typescript".to_owned())
    } else if crate::text::str_eq(low.as_str(), "tsx") {
        Some("text/typescript-jsx".to_owned())
    } else if crate::text::str_eq(low.as_str(), "jsx") {
        Some("text/javascript-jsx".to_owned())
    } else if crate::text::str_eq(low.as_str(), "go") {
        Some("text/x-go".to_owned())
    } else if crate::text::str_eq(low.as_str(), "c") || crate::text::str_eq(low.as_str(), "h") {
        Some("text/x-c".to_owned())
    } else if crate::text::str_eq(low.as_str(), "cpp") || crate::text::str_eq(low.as_str(), "hpp") {
        Some("text/x-c++".to_owned())
    } else if crate::text::str_eq(low.as_str(), "java") {
        Some("text/x-java".to_owned())
    } else if crate::text::str_eq(low.as_str(), "exe") {
        Some("application/x-msdownload".to_owned())
    } else if crate::text::str_eq(low.as_str(), "dll") {
        Some("application/x-msdownload".to_owned())
    } else if crate::text::str_eq(low.as_str(), "msi") {
        Some("application/x-msi".to_owned())
    } else {
        None
    }
}

} // verus!
