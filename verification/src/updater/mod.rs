//! Finding, checking and installing a newer release, with the user's approval.

use vstd::prelude::*;

pub mod archive;
pub mod checksum;
pub mod install;
pub mod release;
pub mod version;

verus! {

/// Where the releases are listed.
pub const RELEASES_URL: &'static str = "https://api.github.com/repos/luizGTogni/gocode/releases";

/// How the name of a Windows archive ends.
pub const WINDOWS_ARCHIVE_SUFFIX: &'static str = "windows-x86_64.zip";

/// How the name of a Linux archive ends.
pub const LINUX_ARCHIVE_SUFFIX: &'static str = "linux-x86_64.tar.gz";

/// The name of the asset with the checksums.
pub const CHECKSUM_ASSET: &'static str = "SHA256SUMS";

/// Why an update failed.
#[derive(Debug, PartialEq, Eq)]
pub enum UpdateError {
    Network(String),
    InvalidRelease(String),
    AssetNotFound,
    ChecksumMissing,
    ChecksumMismatch,
    UnsafeArchive(String),
    Io(String),
    Replace(String),
    Rollback(String),
    UnsupportedPlatform,
}

/// An update error over plain values.
pub enum Fault {
    Network(Seq<char>),
    InvalidRelease(Seq<char>),
    AssetNotFound,
    ChecksumMissing,
    ChecksumMismatch,
    UnsafeArchive(Seq<char>),
    Io(Seq<char>),
    Replace(Seq<char>),
    Rollback(Seq<char>),
    UnsupportedPlatform,
}

impl View for UpdateError {
    type V = Fault;

    open spec fn view(&self) -> Fault {
        match *self {
            UpdateError::Network(m) => Fault::Network(m@),
            UpdateError::InvalidRelease(m) => Fault::InvalidRelease(m@),
            UpdateError::AssetNotFound => Fault::AssetNotFound,
            UpdateError::ChecksumMissing => Fault::ChecksumMissing,
            UpdateError::ChecksumMismatch => Fault::ChecksumMismatch,
            UpdateError::UnsafeArchive(m) => Fault::UnsafeArchive(m@),
            UpdateError::Io(m) => Fault::Io(m@),
            UpdateError::Replace(m) => Fault::Replace(m@),
            UpdateError::Rollback(m) => Fault::Rollback(m@),
            UpdateError::UnsupportedPlatform => Fault::UnsupportedPlatform,
        }
    }
}

/// What is shown of a fault.
pub open spec fn fault_text(e: Fault) -> Seq<char> {
    match e {
        Fault::Network(m) => m,
        Fault::InvalidRelease(m) => m,
        Fault::UnsafeArchive(m) => m,
        Fault::Io(m) => m,
        Fault::Replace(m) => m,
        Fault::Rollback(m) => m,
        Fault::AssetNotFound => "The release does not contain the required update files."@,
        Fault::ChecksumMissing => {
            "The release does not provide a checksum for the update archive."@
        },
        Fault::ChecksumMismatch => "Gocode could not verify the downloaded update."@,
        Fault::UnsupportedPlatform => {
            "Automatic updates are currently available only on Windows and Linux."@
        },
    }
}

impl UpdateError {
    /// What is shown of the error.
    pub fn message(&self) -> (r: String)
        ensures
            r@ == fault_text(self@),
    {
        match self {
            UpdateError::Network(m) => m.clone(),
            UpdateError::InvalidRelease(m) => m.clone(),
            UpdateError::UnsafeArchive(m) => m.clone(),
            UpdateError::Io(m) => m.clone(),
            UpdateError::Replace(m) => m.clone(),
            UpdateError::Rollback(m) => m.clone(),
            UpdateError::AssetNotFound => {
                "The release does not contain the required update files.".to_owned()
            },
            UpdateError::ChecksumMissing => {
                "The release does not provide a checksum for the update archive.".to_owned()
            },
            UpdateError::ChecksumMismatch => {
                "Gocode could not verify the downloaded update.".to_owned()
            },
            UpdateError::UnsupportedPlatform => {
                "Automatic updates are currently available only on Windows and Linux.".to_owned()
            },
        }
    }
}

} // verus!
