//! Zellij session planning: session names, the decision whether to attach
//! or create, the arguments handed to `zellij`, the setup script that opens
//! a project's tabs, and reading `zellij list-sessions` output and saved
//! session layouts.

use vstd::prelude::*;
use crate::config::{Project, ProjectView, spec_expanded};
use crate::paths::{
    cache_dir, home_dir, opt_str_view, opt_string_view, path_join,
    spec_path_join, spec_tilde, tilde_with_home,
};
use crate::text::{
    chars_of, contains, find, is_alphanumeric, join, lines_chars, spec_contains, spec_find,
    spec_is_alphanumeric, spec_join, spec_lines, spec_split_whitespace, spec_str_to_lowercase,
    spec_trim, split_whitespace_chars, str_to_lowercase, str_to_string, string_from_chars,
    strings_view, trim_chars, chars_eq,
};

verus! {

/// What `zellij list-sessions` says about a session.
#[derive(Clone, Copy, Debug, PartialEq, Eq, Structural)]
pub enum SessionState {
    Running,
    Exited,
    NotFound,
}

/// What the saved layout of an exited session holds.
#[derive(Clone, Copy, Debug, PartialEq, Eq, Structural)]
pub enum SavedLayoutState {
    HasTabs,
    Empty,
    Unknown,
}

/// How to open a project when no fresh session was requested.
#[derive(Clone, Copy, Debug, PartialEq, Eq, Structural)]
pub enum LaunchDecision {
    Attach,
    CreateNewSession,
    DeleteAndCreateSession,
}

/// Attach to running sessions and to exited ones whose saved layout has (or
/// may have) tabs; recreate exited sessions whose layout is empty; create
/// missing ones.
pub open spec fn spec_decide_launch(state: SessionState, saved: SavedLayoutState) -> LaunchDecision {
    match state {
        SessionState::Running => LaunchDecision::Attach,
        SessionState::Exited => match saved {
            SavedLayoutState::HasTabs | SavedLayoutState::Unknown => LaunchDecision::Attach,
            SavedLayoutState::Empty => LaunchDecision::DeleteAndCreateSession,
        },
        SessionState::NotFound => LaunchDecision::CreateNewSession,
    }
}

/// How to open a project when no fresh session was requested.
pub fn decide_launch(state: SessionState, saved: SavedLayoutState) -> (d: LaunchDecision)
    ensures
        d == spec_decide_launch(state, saved),
{
    match state {
        SessionState::Running => LaunchDecision::Attach,
        SessionState::Exited => match saved {
            SavedLayoutState::HasTabs | SavedLayoutState::Unknown => LaunchDecision::Attach,
            SavedLayoutState::Empty => LaunchDecision::DeleteAndCreateSession,
        },
        SessionState::NotFound => LaunchDecision::CreateNewSession,
    }
}

/// The whole plan for opening a project from outside Zellij.
#[derive(Clone, Copy, Debug, PartialEq, Eq, Structural)]
pub enum LaunchPlan {
    /// Attach to the existing session.
    Attach,
    /// Create the session and attach to it.
    Create,
    /// Remove the session, known to be in the given state, then create it anew.
    RemoveThenCreate(SessionState),
}

/// A fresh session replaces whatever exists; otherwise the launch decision
/// decides.
pub open spec fn spec_launch_plan(state: SessionState, new_session: bool, saved: SavedLayoutState) -> LaunchPlan {
    if new_session {
        LaunchPlan::RemoveThenCreate(state)
    } else {
        match spec_decide_launch(state, saved) {
            LaunchDecision::Attach => LaunchPlan::Attach,
            LaunchDecision::CreateNewSession => LaunchPlan::Create,
            LaunchDecision::DeleteAndCreateSession => LaunchPlan::RemoveThenCreate(SessionState::Exited),
        }
    }
}

/// Whether the saved layout must be read before planning: only for an
/// exited session when no fresh session was requested.
pub fn needs_saved_layout(state: SessionState, new_session: bool) -> (r: bool)
    ensures
        r == (!new_session && state == SessionState::Exited),
{
    !new_session && state == SessionState::Exited
}

/// The plan for opening a project from outside Zellij.
pub fn plan_outside_launch(state: SessionState, new_session: bool, saved: SavedLayoutState) -> (p: LaunchPlan)
    ensures
        p == spec_launch_plan(state, new_session, saved),
        new_session ==> p == LaunchPlan::RemoveThenCreate(state),
{
    if new_session {
        return LaunchPlan::RemoveThenCreate(state);
    }
    match decide_launch(state, saved) {
        LaunchDecision::Attach => LaunchPlan::Attach,
        LaunchDecision::CreateNewSession => LaunchPlan::Create,
        LaunchDecision::DeleteAndCreateSession => LaunchPlan::RemoveThenCreate(SessionState::Exited),
    }
}

/// What to do while waiting for a deleted session to disappear.
#[derive(Clone, Copy, Debug, PartialEq, Eq, Structural)]
pub enum RemovalStep {
    /// The session is gone.
    Done,
    /// The deadline passed with the session still listed.
    TimedOut,
    /// The session is exited but still listed: delete it again.
    DeleteAgain,
    /// The session is still running: poll again.
    Wait,
}

/// One step of waiting for a session to disappear.
pub fn removal_step(state: SessionState, deadline_passed: bool) -> (r: RemovalStep)
    ensures
        state == SessionState::NotFound ==> r == RemovalStep::Done,
        state != SessionState::NotFound && deadline_passed ==> r == RemovalStep::TimedOut,
        state == SessionState::Exited && !deadline_passed ==> r == RemovalStep::DeleteAgain,
        state == SessionState::Running && !deadline_passed ==> r == RemovalStep::Wait,
{
    match state {
        SessionState::NotFound => RemovalStep::Done,
        _ if deadline_passed => RemovalStep::TimedOut,
        SessionState::Exited => RemovalStep::DeleteAgain,
        SessionState::Running => RemovalStep::Wait,
    }
}

// ---------------------------------------------------------------------------
// Command-line arguments.
// ---------------------------------------------------------------------------

/// `zellij attach <session>`
pub fn attach_args(session_name: &str) -> (args: Vec<String>)
    ensures
        strings_view(args@) == seq!["attach"@, session_name@],
{
    let mut args: Vec<String> = Vec::new();
    args.push(str_to_string("attach"));
    args.push(str_to_string(session_name));
    assert(strings_view(args@) =~= seq!["attach"@, session_name@]);
    args
}

/// The arguments that delete a session in the given state: forced for a
/// running one, plain for an exited one, none for a missing one.
pub open spec fn spec_cleanup_args(state: SessionState, name: Seq<char>) -> Option<Seq<Seq<char>>> {
    match state {
        SessionState::Running => Some(seq!["delete-session"@, "--force"@, name]),
        SessionState::Exited => Some(seq!["delete-session"@, name]),
        SessionState::NotFound => None,
    }
}

/// The arguments that delete a session in the given state.
pub fn session_cleanup_args(state: SessionState, session_name: &str) -> (r: Option<Vec<String>>)
    ensures
        match r {
            Some(v) => spec_cleanup_args(state, session_name@) == Some(strings_view(v@)),
            None => spec_cleanup_args(state, session_name@) is None,
        },
{
    match state {
        SessionState::Running => {
            let mut v: Vec<String> = Vec::new();
            v.push(str_to_string("delete-session"));
            v.push(str_to_string("--force"));
            v.push(str_to_string(session_name));
            assert(strings_view(v@) =~= seq!["delete-session"@, "--force"@, session_name@]);
            Some(v)
        },
        SessionState::Exited => {
            let mut v: Vec<String> = Vec::new();
            v.push(str_to_string("delete-session"));
            v.push(str_to_string(session_name));
            assert(strings_view(v@) =~= seq!["delete-session"@, session_name@]);
            Some(v)
        },
        SessionState::NotFound => None,
    }
}

/// `zellij attach --create-background <session>`
pub fn create_background_args(session_name: &str) -> (args: Vec<String>)
    ensures
        strings_view(args@) == seq!["attach"@, "--create-background"@, session_name@],
{
    let mut args: Vec<String> = Vec::new();
    args.push(str_to_string("attach"));
    args.push(str_to_string("--create-background"));
    args.push(str_to_string(session_name));
    assert(strings_view(args@) =~= seq!["attach"@, "--create-background"@, session_name@]);
    args
}

// ---------------------------------------------------------------------------
// Session names.
// ---------------------------------------------------------------------------

/// Characters kept in session names.
pub open spec fn session_name_char() -> spec_fn(char) -> bool {
    |c: char| spec_is_alphanumeric(c) || c == '-'
}

/// A session name: the lower-cased project name with spaces turned into
/// hyphens and every character other than letters, digits and hyphens dropped.
pub open spec fn spec_sanitize_session_name(name: Seq<char>) -> Seq<char> {
    spec_str_to_lowercase(name).map_values(|c: char| if c == ' ' { '-' } else { c }).filter(
        session_name_char(),
    )
}

/// The session name for a project name.
pub fn sanitize_session_name(name: &str) -> (r: String)
    ensures
        r@ == spec_sanitize_session_name(name@),
{
    let lower = str_to_lowercase(name);
    let lv = chars_of(lower.as_str());
    let ghost dashed = lv@.map_values(|c: char| if c == ' ' { '-' } else { c });
    let mut out: Vec<char> = Vec::new();
    let mut i: usize = 0;
    while i < lv.len()
        invariant
            i <= lv@.len(),
            dashed == lv@.map_values(|c: char| if c == ' ' { '-' } else { c }),
            out@ == dashed.take(i as int).filter(session_name_char()),
        decreases lv@.len() - i,
    {
        reveal(Seq::filter);
        assert(dashed.take(i + 1).drop_last() =~= dashed.take(i as int));
        let c = lv[i];
        let d = if c == ' ' { '-' } else { c };
        assert(dashed.take(i + 1).last() == d);
        if is_alphanumeric(d) || d == '-' {
            out.push(d);
        }
        i = i + 1;
    }
    assert(dashed.take(lv@.len() as int) =~= dashed);
    string_from_chars(&out)
}

// ---------------------------------------------------------------------------
// Shell quoting.
// ---------------------------------------------------------------------------

/// Every single quote replaced by `'\''`.
pub open spec fn spec_escape_quotes(s: Seq<char>) -> Seq<char>
    decreases s.len(),
{
    if s.len() == 0 {
        seq![]
    } else {
        spec_escape_quotes(s.drop_last()) + (if s.last() == '\'' {
            seq!['\'', '\\', '\'', '\'']
        } else {
            seq![s.last()]
        })
    }
}

/// `s` as one single-quoted shell word.
pub open spec fn spec_shell_escape(s: Seq<char>) -> Seq<char> {
    seq!['\''] + spec_escape_quotes(s) + seq!['\'']
}

/// `s` as one single-quoted shell word.
pub fn shell_escape(s: &str) -> (r: String)
    ensures
        r@ == spec_shell_escape(s@),
{
    let v = chars_of(s);
    let mut body = String::new();
    let mut i: usize = 0;
    while i < v.len()
        invariant
            i <= v@.len(),
            body@ == spec_escape_quotes(v@.take(i as int)),
        decreases v@.len() - i,
    {
        assert(v@.take(i + 1).drop_last() =~= v@.take(i as int));
        let c = v[i];
        if c == '\'' {
            crate::text::push_char(&mut body, '\'');
            crate::text::push_char(&mut body, '\\');
            crate::text::push_char(&mut body, '\'');
            crate::text::push_char(&mut body, '\'');
        } else {
            crate::text::push_char(&mut body, c);
        }
        assert(body@ =~= spec_escape_quotes(v@.take(i + 1)));
        i = i + 1;
    }
    assert(v@.take(v@.len() as int) =~= v@);
    let mut r = String::new();
    crate::text::push_char(&mut r, '\'');
    r.append(body.as_str());
    crate::text::push_char(&mut r, '\'');
    assert(r@ =~= spec_shell_escape(s@));
    r
}

/// Each of the strings quoted.
pub open spec fn spec_escape_all(args: Seq<Seq<char>>) -> Seq<Seq<char>> {
    args.map_values(|a: Seq<char>| spec_shell_escape(a))
}

// ---------------------------------------------------------------------------
// Tab commands.
// ---------------------------------------------------------------------------

/// The words of a launch command, each with `~` expanded against `home`.
pub open spec fn spec_expand_command(cmd: Seq<char>, home: Option<Seq<char>>) -> Seq<Seq<char>> {
    spec_split_whitespace(cmd).map_values(|w: Seq<char>| spec_tilde(w, home))
}

/// The words of a launch command, each with `~` expanded against `home`.
pub fn expand_launch_command_with_home(cmd: &str, home: Option<&str>) -> (r: Vec<String>)
    ensures
        strings_view(r@) == spec_expand_command(cmd@, opt_str_view(home)),
{
    let v = chars_of(cmd);
    let words = split_whitespace_chars(&v);
    let ghost wv = words@.map_values(|w: Vec<char>| w@);
    let ghost h = opt_str_view(home);
    let mut r: Vec<String> = Vec::new();
    let mut i: usize = 0;
    while i < words.len()
        invariant
            i <= words@.len(),
            wv == words@.map_values(|w: Vec<char>| w@),
            h == opt_str_view(home),
            strings_view(r@) == wv.take(i as int).map_values(|w: Seq<char>| spec_tilde(w, h)),
        decreases words@.len() - i,
    {
        let w = string_from_chars(&words[i]);
        let e = tilde_with_home(w.as_str(), home);
        let ghost before = strings_view(r@);
        r.push(e);
        assert(strings_view(r@) =~= before.push(e@));
        assert(wv.take(i + 1).map_values(|w: Seq<char>| spec_tilde(w, h)) =~= wv.take(
            i as int,
        ).map_values(|w: Seq<char>| spec_tilde(w, h)).push(spec_tilde(wv[i as int], h)));
        i = i + 1;
    }
    assert(wv.take(words@.len() as int) =~= wv);
    r
}

/// The words of a launch command, with `~` expanded against the current home directory.
pub fn expand_launch_command(cmd: &str) -> (r: Vec<String>)
    ensures
        exists|home: Option<Seq<char>>| strings_view(r@) == spec_expand_command(cmd@, home),
{
    let home = home_dir();
    let h = match &home {
        Some(s) => Some(s.as_str()),
        None => None,
    };
    expand_launch_command_with_home(cmd, h)
}

/// `action new-tab --cwd <dir>`, followed by `-- <command words>` when the
/// tab launches a command.
pub open spec fn spec_tab_args(cwd: Seq<char>, launch: Option<Seq<char>>, home: Option<Seq<char>>) -> Seq<Seq<char>> {
    seq!["action"@, "new-tab"@, "--cwd"@, cwd] + match launch {
        Some(cmd) => seq!["--"@] + spec_expand_command(cmd, home),
        None => seq![],
    }
}

/// The new-tab commands for the given tabs of a project.
pub open spec fn spec_tabs_args(
    cwd: Seq<char>,
    tabs: Seq<Option<Seq<char>>>,
    home: Option<Seq<char>>,
) -> Seq<Seq<Seq<char>>> {
    tabs.map_values(|t: Option<Seq<char>>| spec_tab_args(cwd, t, home))
}

/// The views of a list of argument lists.
pub open spec fn arg_lists_view(v: Seq<Vec<String>>) -> Seq<Seq<Seq<char>>> {
    v.map_values(|a: Vec<String>| strings_view(a@))
}

fn tab_args(cwd: &str, launch: &Option<String>, home: Option<&str>) -> (args: Vec<String>)
    ensures
        strings_view(args@) == spec_tab_args(cwd@, opt_string_view(*launch), opt_str_view(home)),
{
    let mut args: Vec<String> = Vec::new();
    args.push(str_to_string("action"));
    args.push(str_to_string("new-tab"));
    args.push(str_to_string("--cwd"));
    args.push(str_to_string(cwd));
    let ghost head = strings_view(args@);
    assert(head =~= seq!["action"@, "new-tab"@, "--cwd"@, cwd@]);
    match launch {
        Some(cmd) => {
            args.push(str_to_string("--"));
            let mut words = expand_launch_command_with_home(cmd.as_str(), home);
            let ghost wv = strings_view(words@);
            let ghost mid = strings_view(args@);
            args.append(&mut words);
            assert(strings_view(args@) =~= mid + wv);
            assert(strings_view(args@) =~= spec_tab_args(
                cwd@,
                opt_string_view(*launch),
                opt_str_view(home),
            ));
        },
        None => {
            assert(strings_view(args@) =~= spec_tab_args(
                cwd@,
                opt_string_view(*launch),
                opt_str_view(home),
            ));
        },
    }
    args
}

/// The new-tab commands for tabs `from..` of `project`, in `cwd`.
fn tabs_commands_from(project: &Project, cwd: &str, from: usize, home: Option<&str>) -> (cmds: Vec<Vec<String>>)
    requires
        from <= project@.tabs.len(),
    ensures
        arg_lists_view(cmds@) == spec_tabs_args(cwd@, project@.tabs.skip(from as int), opt_str_view(home)),
{
    let ghost tv = project@.tabs;
    let ghost h = opt_str_view(home);
    let mut cmds: Vec<Vec<String>> = Vec::new();
    let mut i: usize = from;
    while i < project.tabs.len()
        invariant
            from <= i <= tv.len(),
            tv == project@.tabs,
            tv.len() == project.tabs@.len(),
            h == opt_str_view(home),
            arg_lists_view(cmds@) == spec_tabs_args(cwd@, tv.subrange(from as int, i as int), h),
        decreases tv.len() - i,
    {
        assert(tv[i as int] == opt_string_view(project.tabs@[i as int].launch));
        let args = tab_args(cwd, &project.tabs[i].launch, home);
        let ghost before = arg_lists_view(cmds@);
        cmds.push(args);
        assert(arg_lists_view(cmds@) =~= before.push(strings_view(args@)));
        assert(tv.subrange(from as int, i + 1) =~= tv.subrange(from as int, i as int).push(tv[i as int]));
        assert(spec_tabs_args(cwd@, tv.subrange(from as int, i + 1), h) =~= spec_tabs_args(
            cwd@,
            tv.subrange(from as int, i as int),
            h,
        ).push(spec_tab_args(cwd@, tv[i as int], h)));
        i = i + 1;
    }
    assert(tv.subrange(from as int, tv.len() as int) =~= tv.skip(from as int));
    cmds
}

/// The commands that open every tab after the first, in the project directory.
pub open spec fn spec_build_tab_commands(p: ProjectView, home: Option<Seq<char>>) -> Seq<Seq<Seq<char>>> {
    if p.tabs.len() == 0 {
        seq![]
    } else {
        spec_tabs_args(spec_expanded(p, home), p.tabs.skip(1), home)
    }
}

/// The commands that open every tab of the project, in the project directory
/// (used when already inside Zellij).
pub open spec fn spec_all_tab_commands(p: ProjectView, home: Option<Seq<char>>) -> Seq<Seq<Seq<char>>> {
    spec_tabs_args(spec_expanded(p, home), p.tabs, home)
}

/// The commands that open every tab after the first, with `~` expanded against `home`.
pub fn build_tab_commands_with_home(session_name: &str, project: &Project, home: Option<&str>) -> (cmds: Vec<Vec<String>>)
    ensures
        arg_lists_view(cmds@) == spec_build_tab_commands(project@, opt_str_view(home)),
{
    let cwd = project.expanded_path_with_home(home);
    if project.tabs.len() == 0 {
        let cmds: Vec<Vec<String>> = Vec::new();
        assert(arg_lists_view(cmds@) =~= spec_build_tab_commands(project@, opt_str_view(home)));
        return cmds;
    }
    tabs_commands_from(project, cwd.as_str(), 1, home)
}

/// The commands that open every tab after the first, with `~` expanded
/// against the current home directory.
pub fn build_tab_commands(session_name: &str, project: &Project) -> (cmds: Vec<Vec<String>>)
    ensures
        exists|home: Option<Seq<char>>|
            arg_lists_view(cmds@) == spec_build_tab_commands(project@, home),
{
    let home = home_dir();
    let h = match &home {
        Some(s) => Some(s.as_str()),
        None => None,
    };
    build_tab_commands_with_home(session_name, project, h)
}

/// The commands that open every tab of the project, with `~` expanded against `home`.
pub fn all_tab_commands_with_home(project: &Project, home: Option<&str>) -> (cmds: Vec<Vec<String>>)
    ensures
        arg_lists_view(cmds@) == spec_all_tab_commands(project@, opt_str_view(home)),
{
    let cwd = project.expanded_path_with_home(home);
    let cmds = tabs_commands_from(project, cwd.as_str(), 0, home);
    assert(project@.tabs.skip(0) =~= project@.tabs);
    cmds
}

/// The commands that open every tab of the project, with `~` expanded
/// against the current home directory.
pub fn all_tab_commands(project: &Project) -> (cmds: Vec<Vec<String>>)
    ensures
        exists|home: Option<Seq<char>>|
            arg_lists_view(cmds@) == spec_all_tab_commands(project@, home),
{
    let home = home_dir();
    let h = match &home {
        Some(s) => Some(s.as_str()),
        None => None,
    };
    all_tab_commands_with_home(project, h)
}

// ---------------------------------------------------------------------------
// The setup script.
// ---------------------------------------------------------------------------

/// `zellij -s <session> `
pub open spec fn spec_zellij_prefix(session: Seq<char>) -> Seq<char> {
    "zellij -s "@ + spec_shell_escape(session)
}

/// Waits until a client is attached to the session, giving up after 50 tries.
pub open spec fn spec_wait_for_attach(session: Seq<char>) -> Seq<char> {
    "tries=0\nwhile ! "@ + spec_zellij_prefix(session)
        + " action list-clients 2>/dev/null | tail -n +2 | grep -q .; do\n  tries=$((tries + 1))\n  if [ \"$tries\" -ge 50 ]; then exit 1; fi\n  sleep 0.1\ndone\nsleep 0.2"@
}

/// Types the first tab's command into it.
pub open spec fn spec_initial_write(session: Seq<char>, p: ProjectView, home: Option<Seq<char>>) -> Option<Seq<char>> {
    if p.tabs.len() > 0 && p.tabs[0] is Some {
        Some(spec_zellij_prefix(session) + " action write-chars "@ + spec_shell_escape(
            spec_join(spec_expand_command(p.tabs[0]->0, home), " "@) + "\n"@,
        ))
    } else {
        None
    }
}

/// The script lines that open the remaining tabs.
pub open spec fn spec_tab_lines(session: Seq<char>, p: ProjectView, home: Option<Seq<char>>) -> Seq<Seq<char>> {
    spec_build_tab_commands(p, home).map_values(
        |args: Seq<Seq<char>>| spec_zellij_prefix(session) + " "@ + spec_join(spec_escape_all(args), " "@),
    )
}

/// The script run in the background after a session is created: wait for
/// the client, type the first tab's command, open the other tabs, and focus
/// the first tab again. There is none when there is nothing to do.
pub open spec fn spec_setup_script(session: Seq<char>, p: ProjectView, home: Option<Seq<char>>) -> Option<Seq<char>> {
    let initial = spec_initial_write(session, p, home);
    let tabs = spec_tab_lines(session, p, home);
    if initial is None && tabs.len() == 0 {
        None
    } else {
        let lines = seq![spec_wait_for_attach(session)]
            + (if initial is Some { seq![initial->0] } else { seq![] })
            + tabs
            + (if tabs.len() > 0 { seq![spec_zellij_prefix(session) + " action go-to-tab 1"@] } else { seq![] });
        Some(spec_join(lines, "\n"@) + "\n"@)
    }
}

fn zellij_prefix(session_name: &str) -> (r: String)
    ensures
        r@ == spec_zellij_prefix(session_name@),
{
    let mut r = String::new();
    r.append("zellij -s ");
    let e = shell_escape(session_name);
    r.append(e.as_str());
    r
}

fn escape_all(args: &Vec<String>) -> (r: Vec<String>)
    ensures
        strings_view(r@) == spec_escape_all(strings_view(args@)),
{
    let ghost av = strings_view(args@);
    let mut r: Vec<String> = Vec::new();
    let mut i: usize = 0;
    while i < args.len()
        invariant
            i <= args@.len(),
            av == strings_view(args@),
            strings_view(r@) == spec_escape_all(av.take(i as int)),
        decreases args@.len() - i,
    {
        let e = shell_escape(args[i].as_str());
        let ghost before = strings_view(r@);
        r.push(e);
        assert(strings_view(r@) =~= before.push(e@));
        assert(spec_escape_all(av.take(i + 1)) =~= spec_escape_all(av.take(i as int)).push(
            spec_shell_escape(av[i as int]),
        ));
        i = i + 1;
    }
    assert(av.take(args@.len() as int) =~= av);
    r
}

fn push_line(lines: &mut Vec<String>, line: String)
    ensures
        strings_view(final(lines)@) == strings_view(old(lines)@).push(line@),
{
    let ghost before = strings_view(lines@);
    lines.push(line);
    assert(strings_view(lines@) =~= before.push(line@));
}

/// The background setup script for a new session, with `~` expanded against `home`.
pub fn build_setup_script_with_home(session_name: &str, project: &Project, home: Option<&str>) -> (r: Option<String>)
    ensures
        opt_string_view(r) == spec_setup_script(session_name@, project@, opt_str_view(home)),
        project@.tabs.len() >= 2 ==> (r matches Some(t) && {
            let last = "\n"@ + spec_zellij_prefix(session_name@) + " action go-to-tab 1\n"@;
            t@.len() >= last.len() && t@.subrange(t@.len() - last.len(), t@.len() as int) == last
        }),
{
    proof {
        if project@.tabs.len() >= 2 {
            lemma_setup_script_returns_to_first_tab(session_name@, project@, opt_str_view(home));
        }
    }
    let ghost h = opt_str_view(home);
    let ghost pv = project@;
    let prefix = zellij_prefix(session_name);
    let initial: Option<String> = if project.tabs.len() > 0 {
        match &project.tabs[0].launch {
            Some(cmd) => {
                let words = expand_launch_command_with_home(cmd.as_str(), home);
                let mut typed = join(&words, " ");
                typed.append("\n");
                let mut line = str_to_string(prefix.as_str());
                line.append(" action write-chars ");
                let e = shell_escape(typed.as_str());
                line.append(e.as_str());
                Some(line)
            },
            None => None,
        }
    } else {
        None
    };
    assert(opt_string_view(initial) == spec_initial_write(session_name@, pv, h));
    let cmds = build_tab_commands_with_home(session_name, project, home);
    let ghost cv = arg_lists_view(cmds@);
    let mut tab_lines: Vec<String> = Vec::new();
    let mut i: usize = 0;
    while i < cmds.len()
        invariant
            i <= cmds@.len(),
            cv == arg_lists_view(cmds@),
            prefix@ == spec_zellij_prefix(session_name@),
            strings_view(tab_lines@) == cv.take(i as int).map_values(
                |args: Seq<Seq<char>>| spec_zellij_prefix(session_name@) + " "@ + spec_join(spec_escape_all(args), " "@),
            ),
        decreases cmds@.len() - i,
    {
        let escaped = escape_all(&cmds[i]);
        let joined = join(&escaped, " ");
        let mut line = str_to_string(prefix.as_str());
        line.append(" ");
        line.append(joined.as_str());
        push_line(&mut tab_lines, line);
        assert(cv.take(i + 1).map_values(
            |args: Seq<Seq<char>>| spec_zellij_prefix(session_name@) + " "@ + spec_join(spec_escape_all(args), " "@),
        ) =~= cv.take(i as int).map_values(
            |args: Seq<Seq<char>>| spec_zellij_prefix(session_name@) + " "@ + spec_join(spec_escape_all(args), " "@),
        ).push(spec_zellij_prefix(session_name@) + " "@ + spec_join(spec_escape_all(cv[i as int]), " "@)));
        i = i + 1;
    }
    assert(cv.take(cmds@.len() as int) =~= cv);
    let ghost tl = strings_view(tab_lines@);
    assert(tl == spec_tab_lines(session_name@, pv, h));
    if initial.is_none() && tab_lines.len() == 0 {
        return None;
    }
    let mut lines: Vec<String> = Vec::new();
    let mut wait = String::new();
    wait.append("tries=0\nwhile ! ");
    wait.append(prefix.as_str());
    wait.append(
        " action list-clients 2>/dev/null | tail -n +2 | grep -q .; do\n  tries=$((tries + 1))\n  if [ \"$tries\" -ge 50 ]; then exit 1; fi\n  sleep 0.1\ndone\nsleep 0.2",
    );
    push_line(&mut lines, wait);
    let has_tabs = tab_lines.len() > 0;
    match initial {
        Some(line) => push_line(&mut lines, line),
        None => {},
    }
    let ghost before_tabs = strings_view(lines@);
    lines.append(&mut tab_lines);
    assert(strings_view(lines@) =~= before_tabs + tl);
    if has_tabs {
        let mut focus = str_to_string(prefix.as_str());
        focus.append(" action go-to-tab 1");
        push_line(&mut lines, focus);
    }
    let mut script = join(&lines, "\n");
    script.append("\n");
    proof {
        let initial_v = spec_initial_write(session_name@, pv, h);
        let expected = seq![spec_wait_for_attach(session_name@)]
            + (if initial_v is Some { seq![initial_v->0] } else { seq![] })
            + tl
            + (if tl.len() > 0 { seq![spec_zellij_prefix(session_name@) + " action go-to-tab 1"@] } else { seq![] });
        assert(strings_view(lines@) =~= expected);
    }
    Some(script)
}

/// The background setup script for a new session, with `~` expanded against
/// the current home directory.
pub fn build_setup_script(session_name: &str, project: &Project) -> (r: Option<String>)
    ensures
        exists|home: Option<Seq<char>>|
            opt_string_view(r) == spec_setup_script(session_name@, project@, home),
{
    let home = home_dir();
    let h = match &home {
        Some(s) => Some(s.as_str()),
        None => None,
    };
    build_setup_script_with_home(session_name, project, h)
}

// ---------------------------------------------------------------------------
// Reading `zellij list-sessions --no-formatting`.
// ---------------------------------------------------------------------------

/// The session name a listing line is about: the text before ` [`, or the
/// whole trimmed line.
pub open spec fn spec_line_session_name(line: Seq<char>) -> Seq<char> {
    match spec_find(line, " ["@) {
        Some(i) => line.take(i),
        None => spec_trim(line),
    }
}

/// The state a listing line reports.
pub open spec fn spec_line_state(line: Seq<char>) -> SessionState {
    if spec_contains(line, "(EXITED"@) {
        SessionState::Exited
    } else {
        SessionState::Running
    }
}

/// The state reported by the first line naming the session.
pub open spec fn spec_state_in_lines(lines: Seq<Seq<char>>, name: Seq<char>) -> SessionState
    decreases lines.len(),
{
    if lines.len() == 0 {
        SessionState::NotFound
    } else if spec_line_session_name(lines[0]) == name {
        spec_line_state(lines[0])
    } else {
        spec_state_in_lines(lines.drop_first(), name)
    }
}

/// The state of a session according to the listing output.
pub open spec fn spec_parse_session_state(output: Seq<char>, name: Seq<char>) -> SessionState {
    spec_state_in_lines(spec_lines(output), name)
}

/// The state of `session_name` according to `zellij list-sessions` output.
pub fn parse_session_state(output: &str, session_name: &str) -> (r: SessionState)
    ensures
        r == spec_parse_session_state(output@, session_name@),
{
    let v = chars_of(output);
    let lines = lines_chars(&v);
    let ghost lv = lines@.map_values(|w: Vec<char>| w@);
    let name = chars_of(session_name);
    let sep = chars_of(" [");
    let exited = chars_of("(EXITED");
    let mut i: usize = 0;
    assert(lv.skip(0) =~= lv);
    while i < lines.len()
        invariant
            i <= lines@.len(),
            lv == lines@.map_values(|w: Vec<char>| w@),
            lv == spec_lines(output@),
            name@ == session_name@,
            sep@ == " ["@,
            exited@ == "(EXITED"@,
            spec_parse_session_state(output@, session_name@) == spec_state_in_lines(
                lv.skip(i as int),
                session_name@,
            ),
        decreases lines@.len() - i,
    {
        let line = &lines[i];
        assert(lv.skip(i as int)[0] == line@);
        assert(lv.skip(i as int).drop_first() =~= lv.skip(i + 1));
        proof {
            crate::text::lemma_find_from_sound(line@, sep@, 0);
        }
        let line_name: Vec<char> = match find(line, &sep) {
            Some(k) => {
                let mut n: Vec<char> = Vec::new();
                let mut j: usize = 0;
                while j < k
                    invariant
                        j <= k <= line@.len(),
                        n@ == line@.take(j as int),
                    decreases k - j,
                {
                    n.push(line[j]);
                    assert(line@.take(j + 1) =~= line@.take(j as int).push(line@[j as int]));
                    j = j + 1;
                }
                n
            },
            None => trim_chars(line),
        };
        assert(line_name@ == spec_line_session_name(line@));
        if chars_eq(&line_name, &name) {
            if contains(line, &exited) {
                return SessionState::Exited;
            } else {
                return SessionState::Running;
            }
        }
        i = i + 1;
    }
    SessionState::NotFound
}

// ---------------------------------------------------------------------------
// Saved session layouts.
// ---------------------------------------------------------------------------

/// Where Zellij keeps the saved layout of a session, under a cache directory.
pub open spec fn spec_saved_layout_path(cache: Seq<char>, session: Seq<char>) -> Seq<char> {
    spec_path_join(
        spec_path_join(
            spec_path_join(spec_path_join(spec_path_join(cache, "zellij"@), "contract_version_1"@), "session_info"@),
            session,
        ),
        "session-layout.kdl"@,
    )
}

/// Where Zellij keeps the saved layout of a session, under `cache`.
pub fn saved_layout_path_in(cache: &str, session_name: &str) -> (r: String)
    ensures
        r@ == spec_saved_layout_path(cache@, session_name@),
{
    let a = path_join(cache, "zellij");
    let b = path_join(a.as_str(), "contract_version_1");
    let c = path_join(b.as_str(), "session_info");
    let d = path_join(c.as_str(), session_name);
    path_join(d.as_str(), "session-layout.kdl")
}

/// Where Zellij keeps the saved layout of a session, if the cache directory is known.
pub fn saved_session_layout_path(session_name: &str) -> (r: Option<String>)
    ensures
        r matches Some(p) ==> exists|cache: Seq<char>| p@ == spec_saved_layout_path(cache, session_name@),
{
    match cache_dir() {
        Some(cache) => Some(saved_layout_path_in(cache.as_str(), session_name)),
        None => None,
    }
}

/// A top-level node of a KDL document: its name and the names of its
/// children, when it has a children block.
#[derive(Debug, Clone)]
pub struct KdlNodeOutline {
    pub name: String,
    pub children: Option<Vec<String>>,
}

/// The abstract value of a node outline.
pub open spec fn outline_view(n: KdlNodeOutline) -> (Seq<char>, Option<Seq<Seq<char>>>) {
    (n.name@, match n.children {
        Some(c) => Some(strings_view(c@)),
        None => None,
    })
}

/// The abstract value of a document outline.
pub open spec fn outlines_view(v: Seq<KdlNodeOutline>) -> Seq<(Seq<char>, Option<Seq<Seq<char>>>)> {
    v.map_values(|n: KdlNodeOutline| outline_view(n))
}

/// The outline of the KDL document that `text` parses to, or none when it
/// does not parse.
pub uninterp spec fn spec_kdl_outline(text: Seq<char>) -> Option<Seq<(Seq<char>, Option<Seq<Seq<char>>>)>>;

/// Parses `text` with `kdl::KdlDocument`'s `FromStr` and keeps the names of
/// the top-level nodes and of their direct children. The contract only
/// names the result: it is a function of the text.
#[verifier::external_body]
pub(crate) fn parse_kdl_outline(text: &str) -> (r: Option<Vec<KdlNodeOutline>>)
    ensures
        match r {
            Some(v) => spec_kdl_outline(text@) == Some(outlines_view(v@)),
            None => spec_kdl_outline(text@) is None,
        },
{
    let doc = text.parse::<kdl::KdlDocument>().ok()?;
    let names = |d: &kdl::KdlDocument| -> Vec<String> {
        d.nodes().iter().map(|n| n.name().value().to_string()).collect()
    };
    Some(doc.nodes().iter().map(|n| KdlNodeOutline {
        name: n.name().value().to_string(),
        children: n.children().map(names),
    }).collect())
}

/// Whether a `layout` node of the document has a direct `tab` child.
pub open spec fn spec_layout_has_tabs(doc: Seq<(Seq<char>, Option<Seq<Seq<char>>>)>) -> bool {
    exists|i: int, j: int|
        0 <= i < doc.len() && #[trigger] doc[i].0 == "layout"@ && doc[i].1 is Some && 0 <= j
            < doc[i].1->0.len() && #[trigger] doc[i].1->0[j] == "tab"@
}

/// Whether some `layout` node of the document has a direct `tab` child.
pub fn classify_saved_layout_document(doc: &Vec<KdlNodeOutline>) -> (r: SavedLayoutState)
    ensures
        r == (if spec_layout_has_tabs(outlines_view(doc@)) {
            SavedLayoutState::HasTabs
        } else {
            SavedLayoutState::Empty
        }),
{
    let ghost dv = outlines_view(doc@);
    let layout = chars_of("layout");
    let tab = chars_of("tab");
    let mut i: usize = 0;
    while i < doc.len()
        invariant
            i <= doc@.len(),
            dv == outlines_view(doc@),
            layout@ == "layout"@,
            tab@ == "tab"@,
            forall|a: int, b: int|
                0 <= a < i && #[trigger] dv[a].0 == "layout"@ && dv[a].1 is Some && 0 <= b
                    < dv[a].1->0.len() ==> #[trigger] dv[a].1->0[b] != "tab"@,
        decreases doc@.len() - i,
    {
        let node = &doc[i];
        assert(dv[i as int] == outline_view(*node));
        let nv = chars_of(node.name.as_str());
        if chars_eq(&nv, &layout) {
            assert(dv[i as int].0 == "layout"@);
            match &node.children {
                Some(children) => {
                    let mut j: usize = 0;
                    while j < children.len()
                        invariant
                            i < doc@.len(),
                            dv == outlines_view(doc@),
                            dv[i as int].0 == "layout"@,
                            j <= children@.len(),
                            dv[i as int].1 == Some(strings_view(children@)),
                            tab@ == "tab"@,
                            forall|b: int| 0 <= b < j ==> #[trigger] dv[i as int].1->0[b] != "tab"@,
                            forall|a: int, b: int|
                                0 <= a < i && #[trigger] dv[a].0 == "layout"@ && dv[a].1 is Some && 0 <= b
                                    < dv[a].1->0.len() ==> #[trigger] dv[a].1->0[b] != "tab"@,
                        decreases children@.len() - j,
                    {
                        let cv = chars_of(children[j].as_str());
                        assert(dv[i as int].1->0[j as int] == children@[j as int]@);
                        if chars_eq(&cv, &tab) {
                            assert(dv[i as int].1->0[j as int] == "tab"@);
                            assert(spec_layout_has_tabs(dv));
                            return SavedLayoutState::HasTabs;
                        }
                        j = j + 1;
                    }
                },
                None => {},
            }
        }
        i = i + 1;
    }
    SavedLayoutState::Empty
}

/// What reading a saved layout file gave.
pub enum LayoutRead {
    /// There is no such file.
    Missing,
    /// The file exists but could not be read.
    Unreadable,
    /// The file's text.
    Contents(String),
}

/// Classifies the text of a saved layout: unknown when it is not KDL.
pub fn classify_saved_layout_text(text: &str) -> (r: SavedLayoutState)
    ensures
        match spec_kdl_outline(text@) {
            Some(doc) => r == (if spec_layout_has_tabs(doc) {
                SavedLayoutState::HasTabs
            } else {
                SavedLayoutState::Empty
            }),
            None => r == SavedLayoutState::Unknown,
        },
{
    match parse_kdl_outline(text) {
        Some(doc) => classify_saved_layout_document(&doc),
        None => SavedLayoutState::Unknown,
    }
}

/// Classifies a saved layout from what reading its file gave: a missing
/// file is an empty layout, an unreadable one is unknown.
pub fn classify_saved_layout_read(read: &LayoutRead) -> (r: SavedLayoutState)
    ensures
        read is Missing ==> r == SavedLayoutState::Empty,
        read is Unreadable ==> r == SavedLayoutState::Unknown,
        read matches LayoutRead::Contents(text) ==> match spec_kdl_outline(text@) {
            Some(doc) => r == (if spec_layout_has_tabs(doc) {
                SavedLayoutState::HasTabs
            } else {
                SavedLayoutState::Empty
            }),
            None => r == SavedLayoutState::Unknown,
        },
{
    match read {
        LayoutRead::Missing => SavedLayoutState::Empty,
        LayoutRead::Unreadable => SavedLayoutState::Unknown,
        LayoutRead::Contents(text) => classify_saved_layout_text(text.as_str()),
    }
}

// ---------------------------------------------------------------------------
// Laws.
// ---------------------------------------------------------------------------

/// A session name holds only letters, digits and hyphens: every character
/// passes `char::is_alphanumeric` or is `-`, and none is a space.
pub proof fn lemma_session_name_chars(name: Seq<char>)
    ensures
        forall|i: int|
            0 <= i < spec_sanitize_session_name(name).len() ==> {
                let c = #[trigger] spec_sanitize_session_name(name)[i];
                (spec_is_alphanumeric(c) || c == '-') && c != ' '
            },
{
    let dashed = spec_str_to_lowercase(name).map_values(|c: char| if c == ' ' { '-' } else { c });
    dashed.filter_lemma(session_name_char());
    lemma_filter_avoids(dashed, session_name_char(), ' ');
}

/// Filtering keeps no character that the sequence does not hold.
proof fn lemma_filter_avoids(s: Seq<char>, pred: spec_fn(char) -> bool, c: char)
    requires
        forall|i: int| 0 <= i < s.len() ==> s[i] != c,
    ensures
        forall|i: int| 0 <= i < s.filter(pred).len() ==> #[trigger] s.filter(pred)[i] != c,
    decreases s.len(),
{
    reveal(Seq::filter);
    if s.len() > 0 {
        let d = s.drop_last();
        assert forall|i: int| 0 <= i < d.len() implies d[i] != c by {
            assert(d[i] == s[i]);
        }
        lemma_filter_avoids(d, pred, c);
        let f = d.filter(pred);
        assert(s.last() != c);
        if pred(s.last()) {
            assert(s.filter(pred) == f.push(s.last()));
        } else {
            assert(s.filter(pred) == f);
        }
    }
}

/// How a shell reads a word made of single-quoted runs and
/// backslash-escaped characters: the characters read so far, whether a
/// quote is open, and whether a backslash is pending.
pub open spec fn spec_shell_read(s: Seq<char>) -> (Seq<char>, bool, bool)
    decreases s.len(),
{
    if s.len() == 0 {
        (seq![], false, false)
    } else {
        let (out, quoted, escaped) = spec_shell_read(s.drop_last());
        let c = s.last();
        if escaped {
            (out.push(c), quoted, false)
        } else if quoted {
            if c == '\'' { (out, false, false) } else { (out.push(c), true, false) }
        } else if c == '\'' {
            (out, true, false)
        } else if c == '\\' {
            (out, false, true)
        } else {
            (out.push(c), false, false)
        }
    }
}

proof fn lemma_escape_body_read(s: Seq<char>)
    ensures
        spec_shell_read(seq!['\''] + spec_escape_quotes(s)) == (s, true, false),
    decreases s.len(),
{
    if s.len() == 0 {
        let w = seq!['\''];
        assert(seq!['\''] + spec_escape_quotes(s) =~= w);
        assert(w.drop_last() =~= Seq::<char>::empty());
        assert(spec_shell_read(w.drop_last()) == (Seq::<char>::empty(), false, false));
        assert(spec_shell_read(w) == (Seq::<char>::empty(), true, false));
        assert(s =~= Seq::<char>::empty());
    } else {
        let o = s.drop_last();
        let prefix = seq!['\''] + spec_escape_quotes(o);
        lemma_escape_body_read(o);
        assert(spec_shell_read(prefix) == (o, true, false));
        let c = s.last();
        assert(o.push(c) =~= s);
        if c == '\'' {
            let w1 = prefix.push('\'');
            let w2 = w1.push('\\');
            let w3 = w2.push('\'');
            let w4 = w3.push('\'');
            assert(w1.drop_last() =~= prefix);
            assert(spec_shell_read(w1) == (o, false, false));
            assert(w2.drop_last() =~= w1);
            assert(spec_shell_read(w2) == (o, false, true));
            assert(w3.drop_last() =~= w2);
            assert(spec_shell_read(w3) == (o.push('\''), false, false));
            assert(w4.drop_last() =~= w3);
            assert(spec_shell_read(w4) == (o.push('\''), true, false));
            assert(seq!['\''] + spec_escape_quotes(s) =~= w4);
        } else {
            let w = prefix.push(c);
            assert(w.drop_last() =~= prefix);
            assert(spec_shell_read(w) == (o.push(c), true, false));
            assert(seq!['\''] + spec_escape_quotes(s) =~= w);
        }
    }
}

/// A quoted word reads back as the original text: the shell sees exactly
/// `s`, with no quote left open and no backslash pending.
pub proof fn lemma_shell_escape_reads_back(s: Seq<char>)
    ensures
        spec_shell_read(spec_shell_escape(s)) == (s, false, false),
{
    lemma_escape_body_read(s);
    let body = seq!['\''] + spec_escape_quotes(s);
    assert(spec_shell_escape(s) =~= body.push('\''));
    assert(body.push('\'').drop_last() =~= body);
}

/// There is no setup script exactly when the project has no tabs, or a
/// single tab that opens a plain shell.
pub proof fn lemma_setup_script_absent(session: Seq<char>, p: ProjectView, home: Option<Seq<char>>)
    ensures
        spec_setup_script(session, p, home) is None <==> (p.tabs.len() == 0 || (p.tabs.len() == 1
            && p.tabs[0] is None)),
{
    if p.tabs.len() > 0 {
        assert(spec_tab_lines(session, p, home).len() == p.tabs.len() - 1);
    }
}

/// A requested fresh session always replaces what exists: whatever the
/// session's state and saved layout, the plan removes the session in the
/// state it was found in and creates it anew, never attaching to it.
pub proof fn lemma_fresh_session_replaces(state: SessionState, saved: SavedLayoutState)
    ensures
        spec_launch_plan(state, true, saved) == LaunchPlan::RemoveThenCreate(state),
        spec_launch_plan(state, true, saved) != LaunchPlan::Attach,
        spec_launch_plan(state, true, saved) != LaunchPlan::Create,
{
}

/// With two or more tabs the setup script ends by focusing the first tab
/// again: its last line is `zellij -s <quoted session> action go-to-tab 1`,
/// whether or not the first tab launches a command.
pub proof fn lemma_setup_script_returns_to_first_tab(session: Seq<char>, p: ProjectView, home: Option<Seq<char>>)
    requires
        p.tabs.len() >= 2,
    ensures
        spec_setup_script(session, p, home) is Some,
        ({
            let t = spec_setup_script(session, p, home)->0;
            let last = "\n"@ + spec_zellij_prefix(session) + " action go-to-tab 1\n"@;
            t.len() >= last.len() && t.subrange(t.len() - last.len(), t.len() as int) == last
        }),
{
    let initial = spec_initial_write(session, p, home);
    let tabs = spec_tab_lines(session, p, home);
    assert(tabs.len() == p.tabs.len() - 1);
    let focus = spec_zellij_prefix(session) + " action go-to-tab 1"@;
    let lines = seq![spec_wait_for_attach(session)]
        + (if initial is Some { seq![initial->0] } else { seq![] })
        + tabs
        + seq![focus];
    assert(lines.len() >= 3);
    assert(lines.last() == focus);
    let t = spec_join(lines, "\n"@) + "\n"@;
    assert(spec_setup_script(session, p, home) == Some(t));
    let head = spec_join(lines.drop_last(), "\n"@);
    assert(spec_join(lines, "\n"@) == head + "\n"@ + focus);
    let last = "\n"@ + spec_zellij_prefix(session) + " action go-to-tab 1\n"@;
    assert(last =~= "\n"@ + focus + "\n"@) by {
        reveal_strlit(" action go-to-tab 1");
        reveal_strlit(" action go-to-tab 1\n");
        reveal_strlit("\n");
    }
    assert(t =~= head + last);
    assert(t.subrange(t.len() - last.len(), t.len() as int) =~= last);
}

/// A running session is deleted only when a fresh session was asked for,
/// and an existing session is reattached unless its saved layout is known
/// to be empty.
pub proof fn lemma_launch_plan(state: SessionState, new_session: bool, saved: SavedLayoutState)
    ensures
        spec_launch_plan(state, new_session, saved) == LaunchPlan::RemoveThenCreate(SessionState::Running)
            ==> new_session,
        !new_session && state == SessionState::Running ==> spec_launch_plan(state, new_session, saved)
            == LaunchPlan::Attach,
        !new_session && state == SessionState::Exited && saved != SavedLayoutState::Empty
            ==> spec_launch_plan(state, new_session, saved) == LaunchPlan::Attach,
        !new_session && state == SessionState::NotFound ==> spec_launch_plan(state, new_session, saved)
            == LaunchPlan::Create,
{
}

} // verus!
