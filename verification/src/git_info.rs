//! What the picker shows about a project directory: commit facts for a Git
//! repository, a file count otherwise.

use vstd::prelude::*;
use crate::paths::opt_string_view;
use crate::text::{
    chars_of, i64_to_decimal, push_char, spec_decimal2, spec_signed_decimal,
    str_to_string, u64_to_decimal2,
};

verus! {

/// Facts about a Git repository's head commit.
#[derive(Debug)]
pub struct GitInfo {
    pub file_count: usize,
    pub commit_count: usize,
    pub last_commit_author: String,
    pub last_commit_email: String,
    pub last_commit_date: String,
    pub last_commit_id: String,
    pub last_commit_message: String,
}

/// Facts about a directory that is not a Git repository.
#[derive(Debug)]
pub struct NonGitInfo {
    pub file_count: usize,
}

/// What is known about a project directory.
#[derive(Debug)]
pub enum ProjectInfo {
    Git(GitInfo),
    NonGit(NonGitInfo),
}

/// Directories not descended into when counting files outside Git.
pub open spec fn spec_is_excluded_dir(name: Seq<char>) -> bool {
    name == "node_modules"@ || name == "build"@ || name == "dist"@ || name == "target"@
}

/// Whether a directory is skipped when counting files outside Git.
pub fn is_excluded_dir(name: &str) -> (r: bool)
    ensures
        r == spec_is_excluded_dir(name@),
{
    crate::text::str_eq(name, "node_modules") || crate::text::str_eq(name, "build")
        || crate::text::str_eq(name, "dist") || crate::text::str_eq(name, "target")
}

/// The calendar date and clock time (year, month, day, hour, minute) in UTC
/// of a Unix timestamp, when it is representable.
pub uninterp spec fn spec_utc_from_unix(secs: i64) -> Option<(i32, u8, u8, u8, u8)>;

/// Calls `time::OffsetDateTime::from_unix_timestamp` and reads the year,
/// month, day, hour and minute of the result. The contract names the result
/// and states the ranges and the two examples that the `time`
/// documentation gives.
#[verifier::external_body]
pub(crate) fn utc_from_unix(secs: i64) -> (r: Option<(i32, u8, u8, u8, u8)>)
    ensures
        r == spec_utc_from_unix(secs),
        r matches Some(t) ==> 1 <= t.1 <= 12 && 1 <= t.2 <= 31 && t.3 < 24 && t.4 < 60,
        secs == 0 ==> r == Some((1970i32, 1u8, 1u8, 0u8, 0u8)),
        secs == 1_546_300_800 ==> r == Some((2019i32, 1u8, 1u8, 0u8, 0u8)),
{
    time::OffsetDateTime::from_unix_timestamp(secs).ok().map(|dt| {
        (dt.year(), dt.month() as u8, dt.day(), dt.hour(), dt.minute())
    })
}

/// `YYYY-MM-DD HH:MM` in UTC, or the raw seconds when out of range.
pub open spec fn spec_format_git_time(secs: i64) -> Seq<char> {
    match spec_utc_from_unix(secs) {
        Some(t) => spec_signed_decimal(t.0 as int) + "-"@ + spec_decimal2(t.1 as nat) + "-"@
            + spec_decimal2(t.2 as nat) + " "@ + spec_decimal2(t.3 as nat) + ":"@ + spec_decimal2(
            t.4 as nat,
        ),
        None => spec_signed_decimal(secs as int),
    }
}

/// Formats a commit time given in Unix seconds.
pub fn format_git_time(secs: i64) -> (r: String)
    ensures
        r@ == spec_format_git_time(secs),
{
    match utc_from_unix(secs) {
        Some(t) => {
            let mut r = i64_to_decimal(t.0 as i64);
            r.append("-");
            let m = u64_to_decimal2(t.1 as u64);
            r.append(m.as_str());
            r.append("-");
            let d = u64_to_decimal2(t.2 as u64);
            r.append(d.as_str());
            r.append(" ");
            let h = u64_to_decimal2(t.3 as u64);
            r.append(h.as_str());
            r.append(":");
            let mi = u64_to_decimal2(t.4 as u64);
            r.append(mi.as_str());
            r
        },
        None => i64_to_decimal(secs),
    }
}

/// A commit message on one line, cut to its first 24 characters.
pub open spec fn spec_short_message(message: Seq<char>) -> Seq<char> {
    let flat = message.map_values(|c: char| if c == '\n' { ' ' } else { c });
    if flat.len() <= 24 {
        flat
    } else {
        flat.take(24)
    }
}

/// What the picker shows about a Git repository, from the facts read from
/// it: missing author fields become "unknown", the commit id is cut to seven
/// characters and the message to one short line.
pub open spec fn spec_git_info(
    file_count: usize,
    commit_count: usize,
    author: Option<Seq<char>>,
    email: Option<Seq<char>>,
    secs: i64,
    id: Seq<char>,
    message: Option<Seq<char>>,
    info: GitInfo,
) -> bool {
    &&& info.file_count == file_count
    &&& info.commit_count == commit_count
    &&& info.last_commit_author@ == match author { Some(a) => a, None => "unknown"@ }
    &&& info.last_commit_email@ == match email { Some(e) => e, None => "unknown"@ }
    &&& info.last_commit_date@ == spec_format_git_time(secs)
    &&& info.last_commit_id@ == id.take(7)
    &&& info.last_commit_message@ == spec_short_message(match message { Some(m) => m, None => seq![] })
}

/// Assembles what the picker shows about a Git repository from the facts
/// read from it. The commit id is the hexadecimal text of an object id.
pub fn git_info_from_parts(
    file_count: usize,
    commit_count: usize,
    author: Option<String>,
    email: Option<String>,
    secs: i64,
    id: &str,
    message: Option<String>,
) -> (info: GitInfo)
    requires
        id@.len() >= 7,
    ensures
        spec_git_info(
            file_count,
            commit_count,
            opt_string_view(author),
            opt_string_view(email),
            secs,
            id@,
            opt_string_view(message),
            info,
        ),
{
    let last_commit_author = match author {
        Some(a) => a,
        None => str_to_string("unknown"),
    };
    let last_commit_email = match email {
        Some(e) => e,
        None => str_to_string("unknown"),
    };
    let last_commit_date = format_git_time(secs);
    let idv = chars_of(id);
    let last_commit_id = crate::text::string_from_range(&idv, 0, 7);
    let ghost msg_view = match opt_string_view(message) {
        Some(m) => m,
        None => Seq::<char>::empty(),
    };
    let mv: Vec<char> = match &message {
        Some(m) => chars_of(m.as_str()),
        None => Vec::new(),
    };
    assert(mv@ == msg_view);
    let mut short = String::new();
    let mut i: usize = 0;
    while i < mv.len() && i < 24
        invariant
            i <= mv@.len(),
            i <= 24,
            short@ == mv@.take(i as int).map_values(|c: char| if c == '\n' { ' ' } else { c }),
        decreases mv@.len() - i,
    {
        let c = mv[i];
        let d = if c == '\n' { ' ' } else { c };
        push_char(&mut short, d);
        assert(mv@.take(i + 1).map_values(|c: char| if c == '\n' { ' ' } else { c }) =~= mv@.take(
            i as int,
        ).map_values(|c: char| if c == '\n' { ' ' } else { c }).push(d));
        i = i + 1;
    }
    proof {
        let flat = msg_view.map_values(|c: char| if c == '\n' { ' ' } else { c });
        if mv@.len() <= 24 {
            assert(mv@.take(mv@.len() as int) =~= mv@);
            assert(short@ =~= flat);
        } else {
            assert(short@ =~= flat.take(24));
        }
    }
    GitInfo {
        file_count,
        commit_count,
        last_commit_author,
        last_commit_email,
        last_commit_date,
        last_commit_id,
        last_commit_message: short,
    }
}

} // verus!
