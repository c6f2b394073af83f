use vstd::prelude::*;

use crate::check::{warning_views, RepoReport, Warning, WarningV};
use crate::err::ScanError;
use crate::stats::Statistics;

verus! {

/// The decimal digit character for one digit value.
pub open spec fn spec_digit(d: int) -> char {
    if d == 0 {
        '0'
    } else if d == 1 {
        '1'
    } else if d == 2 {
        '2'
    } else if d == 3 {
        '3'
    } else if d == 4 {
        '4'
    } else if d == 5 {
        '5'
    } else if d == 6 {
        '6'
    } else if d == 7 {
        '7'
    } else if d == 8 {
        '8'
    } else {
        '9'
    }
}

/// The decimal digits of a non-negative number, most significant first.
pub open spec fn spec_digits(n: int) -> Seq<char>
    decreases n,
{
    if n < 10 {
        seq![spec_digit(n)]
    } else {
        spec_digits(n / 10).push(spec_digit(n % 10))
    }
}

fn digit_str(d: usize) -> (r: &'static str)
    requires
        d < 10,
    ensures
        r@ == seq![spec_digit(d as int)],
{
    let s: &'static str = if d == 0 {
        "0"
    } else if d == 1 {
        "1"
    } else if d == 2 {
        "2"
    } else if d == 3 {
        "3"
    } else if d == 4 {
        "4"
    } else if d == 5 {
        "5"
    } else if d == 6 {
        "6"
    } else if d == 7 {
        "7"
    } else if d == 8 {
        "8"
    } else {
        "9"
    };
    proof {
        reveal_strlit("0");
        reveal_strlit("1");
        reveal_strlit("2");
        reveal_strlit("3");
        reveal_strlit("4");
        reveal_strlit("5");
        reveal_strlit("6");
        reveal_strlit("7");
        reveal_strlit("8");
        reveal_strlit("9");
        assert(s@ =~= seq![spec_digit(d as int)]);
    }
    s
}

/// A number in decimal.
pub fn usize_to_string(n: usize) -> (r: String)
    ensures
        r@ == spec_digits(n as int),
    decreases n,
{
    if n < 10 {
        digit_str(n).to_owned()
    } else {
        let mut s = usize_to_string(n / 10);
        s.append(digit_str(n % 10));
        proof {
            assert(s@ =~= spec_digits((n / 10) as int).push(spec_digit((n % 10) as int)));
        }
        s
    }
}

/// A signed number in decimal, with a leading minus sign when negative.
pub open spec fn spec_signed_digits(n: int) -> Seq<char> {
    if n < 0 {
        seq!['-'] + spec_digits(-n)
    } else {
        spec_digits(n)
    }
}

/// An exit code in decimal.
pub fn i32_to_string(n: i32) -> (r: String)
    ensures
        r@ == spec_signed_digits(n as int),
{
    if n >= 0 {
        usize_to_string(n as usize)
    } else {
        let wide: i64 = n as i64;
        let magnitude: usize = (-wide) as usize;
        let mut s = String::new();
        s.append("-");
        let digits = usize_to_string(magnitude);
        s.append(digits.as_str());
        proof {
            reveal_strlit("-");
            assert(s@ =~= seq!['-'] + spec_digits(-(n as int)));
        }
        s
    }
}

/// The one-line text of a warning, as the report prints it.
pub open spec fn spec_warning_text(w: WarningV) -> Seq<char> {
    match w {
        WarningV::NoRemotes => "no remotes configured"@,
        WarningV::DirtyWorkingDir => "working directory has changes not checked in"@,
        WarningV::LocalCommitsNotOnRemote { remote, branch, ahead_by } => "local branch "@ + branch
            + " ahead of "@ + remote + "/"@ + branch + " by "@ + spec_digits(ahead_by as int)
            + " commits"@,
        WarningV::LocalBranchNotOnRemote { remote, branch } => "local branch "@ + branch
            + " does not exist on remote "@ + remote,
    }
}

impl Warning {
    /// The diagnosis, ready to print.
    pub fn describe(&self) -> (r: String)
        ensures
            r@ == spec_warning_text(self@),
    {
        match self {
            Warning::NoRemotes => "no remotes configured".to_owned(),
            Warning::DirtyWorkingDir => "working directory has changes not checked in".to_owned(),
            Warning::LocalCommitsNotOnRemote { remote, branch, ahead_by } => {
                let mut s = String::new();
                s.append("local branch ");
                s.append(branch.as_str());
                s.append(" ahead of ");
                s.append(remote.as_str());
                s.append("/");
                s.append(branch.as_str());
                s.append(" by ");
                let count = usize_to_string(*ahead_by);
                s.append(count.as_str());
                s.append(" commits");
                proof {
                    assert(s@ =~= spec_warning_text(self@));
                }
                s
            },
            Warning::LocalBranchNotOnRemote { remote, branch } => {
                let mut s = String::new();
                s.append("local branch ");
                s.append(branch.as_str());
                s.append(" does not exist on remote ");
                s.append(remote.as_str());
                proof {
                    assert(s@ =~= spec_warning_text(self@));
                }
                s
            },
        }
    }
}

/// The indented warning lines of a repository's report, in order.
pub open spec fn spec_warning_lines(ws: Seq<WarningV>) -> Seq<char>
    decreases ws.len(),
{
    if ws.len() == 0 {
        Seq::empty()
    } else {
        spec_warning_lines(ws.drop_last()) + "  - "@ + spec_warning_text(ws.last()) + "\n"@
    }
}

/// A repository's whole report block: its path, then one indented line
/// per warning.
pub open spec fn spec_report_text(r: RepoReport) -> Seq<char> {
    r.path@ + "\n"@ + spec_warning_lines(warning_views(r.warnings@))
}

impl RepoReport {
    /// The report block, ready to print.
    pub fn render(&self) -> (r: String)
        ensures
            r@ == spec_report_text(*self),
    {
        let ghost ws = warning_views(self.warnings@);
        let mut s = String::new();
        s.append(self.path.as_str());
        s.append("\n");
        proof {
            assert(warning_views(self.warnings@.subrange(0, 0)) =~= Seq::<WarningV>::empty());
            assert(s@ =~= self.path@ + "\n"@ + spec_warning_lines(
                warning_views(self.warnings@.subrange(0, 0)),
            ));
        }
        let mut i: usize = 0;
        while i < self.warnings.len()
            invariant
                i <= self.warnings.len(),
                ws == warning_views(self.warnings@),
                s@ == self.path@ + "\n"@ + spec_warning_lines(
                    warning_views(self.warnings@.subrange(0, i as int)),
                ),
            decreases self.warnings.len() - i,
        {
            s.append("  - ");
            let line = self.warnings[i].describe();
            s.append(line.as_str());
            s.append("\n");
            proof {
                assert(warning_views(self.warnings@.subrange(0, i + 1)).drop_last()
                    =~= warning_views(self.warnings@.subrange(0, i as int)));
                assert(warning_views(self.warnings@.subrange(0, i + 1)).last()
                    == self.warnings@[i as int]@);
                assert(s@ =~= self.path@ + "\n"@ + spec_warning_lines(
                    warning_views(self.warnings@.subrange(0, i + 1)),
                ));
            }
            i = i + 1;
        }
        proof {
            assert(self.warnings@.subrange(0, self.warnings@.len() as int) =~= self.warnings@);
        }
        s
    }
}

/// The aggregate block the summary option prints.
pub open spec fn spec_summary_text(st: Statistics) -> Seq<char> {
    "---- Summary ---\n"@ + "Warnings: "@ + spec_digits(st.warnings as int) + "\n"@
        + "Scanned repositories: "@ + spec_digits(st.total_repos as int) + "\n"@
        + "Repositories with warnings: "@ + spec_digits(st.repos_with_warnings as int) + "\n"@
        + "Repositories with no warnings: "@ + spec_digits(st.repos_no_warnings as int) + "\n"@
}

impl Statistics {
    /// The summary block, ready to print.
    pub fn render(&self) -> (r: String)
        ensures
            r@ == spec_summary_text(*self),
    {
        let mut s = String::new();
        s.append("---- Summary ---\n");
        s.append("Warnings: ");
        let warnings = usize_to_string(self.warnings);
        s.append(warnings.as_str());
        s.append("\n");
        s.append("Scanned repositories: ");
        let total = usize_to_string(self.total_repos);
        s.append(total.as_str());
        s.append("\n");
        s.append("Repositories with warnings: ");
        let with = usize_to_string(self.repos_with_warnings);
        s.append(with.as_str());
        s.append("\n");
        s.append("Repositories with no warnings: ");
        let without = usize_to_string(self.repos_no_warnings);
        s.append(without.as_str());
        s.append("\n");
        proof {
            assert(s@ =~= spec_summary_text(*self));
        }
        s
    }
}

/// The one-line text of an error, as diagnostics print it.
pub open spec fn spec_error_text(e: ScanError) -> Seq<char> {
    match e {
        ScanError::InvalidUrl => "Invalid URL"@,
        ScanError::NoHost => "URL is required to have a host"@,
        ScanError::NonDomainHost => "URL host is required to be a domain name"@,
        ScanError::Io { message } => "I/O Error: "@ + message@,
        ScanError::Git { message } => "Git library Error: "@ + message@,
        ScanError::Walk { message } => "Error walking directory tree: "@ + message@,
        ScanError::SubcommandFailed { code } => match code {
            Some(c) => "Subcommand failed with exit code "@ + spec_signed_digits(c as int),
            None => "Subcommand failed"@,
        },
    }
}

impl ScanError {
    /// The error text, ready to log.
    pub fn describe(&self) -> (r: String)
        ensures
            r@ == spec_error_text(*self),
    {
        match self {
            ScanError::InvalidUrl => "Invalid URL".to_owned(),
            ScanError::NoHost => "URL is required to have a host".to_owned(),
            ScanError::NonDomainHost => "URL host is required to be a domain name".to_owned(),
            ScanError::Io { message } => {
                let mut s = String::new();
                s.append("I/O Error: ");
                s.append(message.as_str());
                proof {
                    assert(s@ =~= spec_error_text(*self));
                }
                s
            },
            ScanError::Git { message } => {
                let mut s = String::new();
                s.append("Git library Error: ");
                s.append(message.as_str());
                proof {
                    assert(s@ =~= spec_error_text(*self));
                }
                s
            },
            ScanError::Walk { message } => {
                let mut s = String::new();
                s.append("Error walking directory tree: ");
                s.append(message.as_str());
                proof {
                    assert(s@ =~= spec_error_text(*self));
                }
                s
            },
            ScanError::SubcommandFailed { code } => match code {
                Some(c) => {
                    let mut s = String::new();
                    s.append("Subcommand failed with exit code ");
                    let digits = i32_to_string(*c);
                    s.append(digits.as_str());
                    proof {
                        assert(s@ =~= spec_error_text(*self));
                    }
                    s
                },
                None => "Subcommand failed".to_owned(),
            },
        }
    }
}

} // verus!
