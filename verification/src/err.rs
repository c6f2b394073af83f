use vstd::prelude::*;

verus! {

/// Every failure the library reports.
///
/// Failures that originate in an outside library are carried as the
/// message text that library produced, so callers can log them without
/// holding on to foreign error values.
#[derive(Debug)]
pub enum ScanError {
    /// A clone URL that is neither a web URL nor an ssh-style address.
    InvalidUrl,
    /// A clone URL whose host is an IP address rather than a domain name.
    NonDomainHost,
    /// A clone URL with no host at all.
    NoHost,
    /// A filesystem-level failure.
    Io { message: String },
    /// A failure reported by the version-control backend.
    Git { message: String },
    /// A failure while walking the directory tree.
    Walk { message: String },
    /// An external command exited unsuccessfully.
    SubcommandFailed { code: Option<i32> },
}

} // verus!
