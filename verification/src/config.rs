//! Project configuration: the data model, validation, and the pure parts of
//! adding and removing projects.

use vstd::prelude::*;
use crate::paths::{
    path_join, tilde_with_home, spec_path_join, spec_tilde_applies, file_name, home_dir, opt_str_view, opt_string_view,
    path_exists, paths_equal, spec_file_name, spec_paths_equal, spec_tilde,
    lemma_components_double_slash, lemma_components_trailing_slash,
};
use crate::text::{
    char_to_uppercase, chars_of, push_char, spec_all_whitespace,
    spec_char_to_uppercase, spec_decimal, spec_join, spec_split_whitespace,
    spec_starts_with, spec_trim, split_whitespace_chars, str_to_string, spec_ascii_lowercase,
    string_from_chars, string_from_range, strings_view, trim_chars, usize_to_decimal, join,
    lemma_trim_empty_iff_all_whitespace, lemma_trim_ascii_lowercase, lemma_ascii_lowercase_twice,
    lemma_trim_around, spec_is_whitespace,
};

verus! {

/// One tab of a project: the command it launches, or a plain shell.
#[derive(Debug, Clone)]
pub struct Tab {
    pub launch: Option<String>,
}

/// A configured project.
#[derive(Debug, Clone)]
pub struct Project {
    pub name: String,
    pub path: String,
    pub tabs: Vec<Tab>,
}

/// The whole configuration file.
#[derive(Debug)]
pub struct Config {
    pub projects: Vec<Project>,
}

/// What `add` was asked to do.
#[derive(Debug, Clone)]
pub struct AddProjectOptions {
    pub name: Option<String>,
    pub path: Option<String>,
    pub tabs: Vec<String>,
}

impl View for Tab {
    type V = Option<Seq<char>>;

    open spec fn view(&self) -> Option<Seq<char>> {
        opt_string_view(self.launch)
    }
}

/// The abstract value of a project.
pub struct ProjectView {
    pub name: Seq<char>,
    pub path: Seq<char>,
    pub tabs: Seq<Option<Seq<char>>>,
}

/// The abstract values of a sequence of tabs.
pub open spec fn tabs_view(tabs: Seq<Tab>) -> Seq<Option<Seq<char>>> {
    tabs.map_values(|t: Tab| t@)
}

impl View for Project {
    type V = ProjectView;

    open spec fn view(&self) -> ProjectView {
        ProjectView { name: self.name@, path: self.path@, tabs: tabs_view(self.tabs@) }
    }
}

/// The abstract values of a sequence of projects.
pub open spec fn projects_view(ps: Seq<Project>) -> Seq<ProjectView> {
    ps.map_values(|p: Project| p@)
}

/// The abstract values of a sequence of borrowed projects.
pub open spec fn project_refs_view(ps: Seq<&Project>) -> Seq<ProjectView> {
    ps.map_values(|p: &Project| p@)
}

impl View for Config {
    type V = Seq<ProjectView>;

    open spec fn view(&self) -> Seq<ProjectView> {
        projects_view(self.projects@)
    }
}

impl Default for AddProjectOptions {
    fn default() -> (r: AddProjectOptions)
        ensures
            r.name is None,
            r.path is None,
            r.tabs@.len() == 0,
    {
        AddProjectOptions { name: None, path: None, tabs: Vec::new() }
    }
}

// ---------------------------------------------------------------------------
// Paths of projects.
// ---------------------------------------------------------------------------

/// Tilde expansion against an explicit home directory.
pub fn expand_path_with_home(path: &str, home: Option<&str>) -> (r: String)
    ensures
        r@ == spec_tilde(path@, opt_str_view(home)),
{
    tilde_with_home(path, home)
}

/// Tilde expansion against the current user's home directory.
pub fn expand_path(path: &str) -> (r: String)
    ensures
        exists|home: Option<Seq<char>>| r@ == spec_tilde(path@, home),
        !spec_tilde_applies(path@) ==> r@ == path@,
{
    let home = home_dir();
    let r = expand_path_with_home(path, as_opt_str(&home));
    assert(r@ == spec_tilde(path@, opt_string_view(home)));
    r
}


/// The directory a project lives in, with `~` expanded against `home`.
pub open spec fn spec_expanded(p: ProjectView, home: Option<Seq<char>>) -> Seq<char> {
    spec_tilde(p.path, home)
}

impl Project {
    /// The project directory with `~` expanded against the current home directory.
    pub fn expanded_path(&self) -> (r: String)
        ensures
            exists|home: Option<Seq<char>>| r@ == spec_expanded(self@, home),
    {
        let r = expand_path(&self.path);
        proof {
            let h = choose|h: Option<Seq<char>>| r@ == spec_tilde(self.path@, h);
            assert(r@ == spec_expanded(self@, h));
        }
        r
    }

    /// The project directory with `~` expanded against `home`.
    pub fn expanded_path_with_home(&self, home: Option<&str>) -> (r: String)
        ensures
            r@ == spec_expanded(self@, opt_str_view(home)),
    {
        expand_path_with_home(&self.path, home)
    }
}

fn as_opt_str(o: &Option<String>) -> (r: Option<&str>)
    ensures
        opt_str_view(r) == opt_string_view(*o),
{
    match o {
        Some(s) => Some(s.as_str()),
        None => None,
    }
}

// ---------------------------------------------------------------------------
// Where the configuration file lives.
// ---------------------------------------------------------------------------

/// Why no configuration path could be determined.
#[derive(Clone, Copy, Debug, PartialEq, Eq, Structural)]
pub enum ConfigPathError {
    /// The home directory is unknown.
    NoHomeDirectory,
}

/// `<home>/.prawjector/prawjector.json`
pub open spec fn spec_config_path_in(home: Seq<char>) -> Seq<char> {
    spec_path_join(spec_path_join(home, ".prawjector"@), "prawjector.json"@)
}

/// The default configuration file under a home directory.
pub fn config_path_in_home(home: &str) -> (r: String)
    ensures
        r@ == spec_config_path_in(home@),
{
    let dir = path_join(home, ".prawjector");
    path_join(dir.as_str(), "prawjector.json")
}

/// The configuration path: the given one with `~` expanded against `home`,
/// else the default one under `home`; an error when neither is available.
pub open spec fn spec_config_path(arg: Option<Seq<char>>, home: Option<Seq<char>>) -> Result<Seq<char>, ConfigPathError> {
    match arg {
        Some(p) => Ok(spec_tilde(p, home)),
        None => match home {
            Some(h) => Ok(spec_config_path_in(h)),
            None => Err(ConfigPathError::NoHomeDirectory),
        },
    }
}

/// The view of a configuration path result.
pub open spec fn config_path_view(r: Result<String, ConfigPathError>) -> Result<Seq<char>, ConfigPathError> {
    match r {
        Ok(p) => Ok(p@),
        Err(e) => Err(e),
    }
}

/// The configuration path chosen by the `--config` argument, against `home`.
pub fn config_path_from_arg_with_home(path: Option<&str>, home: Option<&str>) -> (r: Result<String, ConfigPathError>)
    ensures
        config_path_view(r) == spec_config_path(opt_str_view(path), opt_str_view(home)),
{
    match path {
        Some(p) => Ok(expand_path_with_home(p, home)),
        None => match home {
            Some(h) => Ok(config_path_in_home(h)),
            None => Err(ConfigPathError::NoHomeDirectory),
        },
    }
}

/// The default configuration file, `~/.prawjector/prawjector.json`.
pub fn default_config_path() -> (r: Result<String, ConfigPathError>)
    ensures
        exists|home: Option<Seq<char>>| config_path_view(r) == #[trigger] spec_config_path(None, home),
{
    let home = home_dir();
    config_path_from_arg_with_home(None, as_opt_str(&home))
}

/// The configuration path chosen by the `--config` argument, with `~`
/// handled against the current home directory.
pub fn config_path_from_arg(path: Option<&str>) -> (r: Result<String, ConfigPathError>)
    ensures
        exists|home: Option<Seq<char>>|
            config_path_view(r) == #[trigger] spec_config_path(opt_str_view(path), home),
{
    let home = home_dir();
    config_path_from_arg_with_home(path, as_opt_str(&home))
}

// ---------------------------------------------------------------------------
// Validation.
// ---------------------------------------------------------------------------

/// "Project {index}: name is empty"
pub open spec fn spec_msg_name_empty(index: nat) -> Seq<char> {
    "Project "@ + spec_decimal(index) + ": name is empty"@
}

/// "Project {index}: path is empty"
pub open spec fn spec_msg_path_empty(index: nat) -> Seq<char> {
    "Project "@ + spec_decimal(index) + ": path is empty"@
}

/// "Project {index} ({name}): has no tabs"
pub open spec fn spec_msg_no_tabs(index: nat, name: Seq<char>) -> Seq<char> {
    "Project "@ + spec_decimal(index) + " ("@ + name + "): has no tabs"@
}

/// "Project {index} ({name}): path does not exist: {path}"
pub open spec fn spec_msg_missing(index: nat, name: Seq<char>, path: Seq<char>) -> Seq<char> {
    "Project "@ + spec_decimal(index) + " ("@ + name + "): path does not exist: "@ + path
}

/// The problems reported for one project, given its expanded directory and
/// whether that directory exists.
pub open spec fn spec_project_errors(
    index: nat,
    p: ProjectView,
    expanded: Seq<char>,
    exists: bool,
) -> Seq<Seq<char>> {
    (if spec_trim(p.name).len() == 0 { seq![spec_msg_name_empty(index)] } else { seq![] })
        + (if spec_trim(p.path).len() == 0 { seq![spec_msg_path_empty(index)] } else { seq![] })
        + (if p.tabs.len() == 0 { seq![spec_msg_no_tabs(index, p.name)] } else { seq![] })
        + (if !exists { seq![spec_msg_missing(index, p.name, expanded)] } else { seq![] })
}

/// The problems reported for the first `k` projects, under one home
/// directory and the given existence answers.
pub open spec fn spec_config_errors(
    ps: Seq<ProjectView>,
    home: Option<Seq<char>>,
    exists: Seq<bool>,
    k: nat,
) -> Seq<Seq<char>>
    decreases k,
{
    if k == 0 {
        seq![]
    } else {
        let i = (k - 1) as nat;
        spec_config_errors(ps, home, exists, i) + spec_project_errors(
            i,
            ps[i as int],
            spec_expanded(ps[i as int], home),
            exists[i as int],
        )
    }
}

/// A project is in order when its name and path are not blank, it has a
/// tab, and its directory exists.
pub open spec fn spec_project_ok(p: ProjectView, exists: bool) -> bool {
    &&& !spec_all_whitespace(p.name)
    &&& !spec_all_whitespace(p.path)
    &&& p.tabs.len() > 0
    &&& exists
}

fn push_message(errors: &mut Vec<String>, msg: String)
    ensures
        strings_view(final(errors)@) == strings_view(old(errors)@).push(msg@),
{
    let ghost before = strings_view(errors@);
    errors.push(msg);
    assert(strings_view(errors@) =~= before.push(msg@));
}

fn message_prefix(index: usize) -> (s: String)
    ensures
        s@ == "Project "@ + spec_decimal(index as nat),
{
    let mut s = String::new();
    s.append("Project ");
    let d = usize_to_decimal(index);
    s.append(d.as_str());
    s
}

/// The problems of one project, given its expanded directory and whether
/// that directory exists.
pub fn validate_project_report(
    index: usize,
    project: &Project,
    expanded: &str,
    exists: bool,
) -> (errors: Vec<String>)
    ensures
        strings_view(errors@) == spec_project_errors(index as nat, project@, expanded@, exists),
{
    let mut errors: Vec<String> = Vec::new();
    let name_chars = chars_of(project.name.as_str());
    let path_chars = chars_of(project.path.as_str());
    let trimmed_name = trim_chars(&name_chars);
    let trimmed_path = trim_chars(&path_chars);
    if trimmed_name.len() == 0 {
        let mut m = message_prefix(index);
        m.append(": name is empty");
        push_message(&mut errors, m);
    }
    if trimmed_path.len() == 0 {
        let mut m = message_prefix(index);
        m.append(": path is empty");
        push_message(&mut errors, m);
    }
    if project.tabs.len() == 0 {
        let mut m = message_prefix(index);
        m.append(" (");
        m.append(project.name.as_str());
        m.append("): has no tabs");
        push_message(&mut errors, m);
    }
    if !exists {
        let mut m = message_prefix(index);
        m.append(" (");
        m.append(project.name.as_str());
        m.append("): path does not exist: ");
        m.append(expanded);
        push_message(&mut errors, m);
    }
    proof {
        let p = project@;
        assert(p.tabs.len() == project.tabs@.len());
        assert(strings_view(errors@) =~= spec_project_errors(index as nat, p, expanded@, exists));
    }
    errors
}

/// Checks every project against `home` and the existence answers the disk
/// gives, returning the problems in project order.
pub fn validate_config_with_home(config: &Config, home: Option<&str>) -> (errors: Vec<String>)
    ensures
        exists|exists: Seq<bool>|
            exists.len() == config@.len() && strings_view(errors@) == spec_config_errors(
                config@,
                opt_str_view(home),
                exists,
                config@.len(),
            ),
{
    let mut errors: Vec<String> = Vec::new();
    let ghost mut answers: Seq<bool> = Seq::empty();
    let mut i: usize = 0;
    while i < config.projects.len()
        invariant
            i <= config@.len(),
            config@.len() == config.projects@.len(),
            answers.len() == i,
            strings_view(errors@) == spec_config_errors(config@, opt_str_view(home), answers, i as nat),
        decreases config@.len() - i,
    {
        let project = &config.projects[i];
        assert(config@[i as int] == project@);
        let expanded = project.expanded_path_with_home(home);
        let exists = path_exists(expanded.as_str());
        let report = validate_project_report(i, project, expanded.as_str(), exists);
        let ghost before = strings_view(errors@);
        let ghost prev = answers;
        proof {
            answers = answers.push(exists);
            assert forall|k: nat| k <= i implies spec_config_errors(
                config@,
                opt_str_view(home),
                answers,
                k,
            ) == spec_config_errors(config@, opt_str_view(home), prev, k) by {
                lemma_config_errors_prefix(config@, opt_str_view(home), prev, answers, k);
            }
        }
        let mut j: usize = 0;
        while j < report.len()
            invariant
                j <= report@.len(),
                strings_view(errors@) == before + strings_view(report@).take(j as int),
            decreases report@.len() - j,
        {
            let ghost mid = strings_view(errors@);
            errors.push(report[j].clone());
            assert(strings_view(errors@) =~= mid.push(report@[j as int]@));
            assert(strings_view(report@).take(j + 1) =~= strings_view(report@).take(j as int).push(
                report@[j as int]@,
            ));
            j = j + 1;
        }
        assert(strings_view(report@).take(report@.len() as int) =~= strings_view(report@));
        i = i + 1;
    }
    errors
}

proof fn lemma_config_errors_prefix(
    ps: Seq<ProjectView>,
    home: Option<Seq<char>>,
    a: Seq<bool>,
    b: Seq<bool>,
    k: nat,
)
    requires
        k <= a.len(),
        k <= b.len(),
        forall|i: int| 0 <= i < k ==> a[i] == b[i],
    ensures
        spec_config_errors(ps, home, a, k) == spec_config_errors(ps, home, b, k),
    decreases k,
{
    if k > 0 {
        lemma_config_errors_prefix(ps, home, a, b, (k - 1) as nat);
    }
}

/// Checks every project, with `~` expanded against the current home directory.
pub fn validate_config(config: &Config) -> (errors: Vec<String>)
    ensures
        exists|home: Option<Seq<char>>, exists: Seq<bool>|
            exists.len() == config@.len() && strings_view(errors@) == spec_config_errors(
                config@,
                home,
                exists,
                config@.len(),
            ),
{
    let home = home_dir();
    validate_config_with_home(config, as_opt_str(&home))
}

// ---------------------------------------------------------------------------
// Shortening paths under the home directory.
// ---------------------------------------------------------------------------

/// The home directory without one trailing `/`.
pub open spec fn spec_home_base(h: Seq<char>) -> Seq<char> {
    if h.len() > 0 && h.last() == '/' {
        h.drop_last()
    } else {
        h
    }
}

/// Whether `path` is the directory `base` or lies below it: it equals
/// `base`, or it is `base` followed by `/` and more.
pub open spec fn spec_within(path: Seq<char>, base: Seq<char>) -> bool {
    spec_starts_with(path, base) && (path.len() == base.len() || path[base.len() as int] == '/')
}

/// `path` with a leading home directory replaced by `~`, at a path
/// boundary only: the path must be the home directory or lie below it (a
/// trailing `/` on the home directory is ignored).
pub open spec fn spec_compress(path: Seq<char>, home: Option<Seq<char>>) -> Seq<char> {
    match home {
        Some(h) => if spec_within(path, spec_home_base(h)) {
            seq!['~'] + path.skip(spec_home_base(h).len() as int)
        } else {
            path
        },
        None => path,
    }
}

/// `path` with a leading home directory replaced by `~`, at a path boundary.
pub fn compress_path_with_home(path: &str, home: Option<&str>) -> (r: String)
    ensures
        r@ == spec_compress(path@, opt_str_view(home)),
{
    match home {
        Some(h) => {
            let pv = chars_of(path);
            let hv = chars_of(h);
            let blen: usize = if hv.len() > 0 && hv[hv.len() - 1] == '/' { hv.len() - 1 } else { hv.len() };
            let ghost base = spec_home_base(h@);
            assert(base =~= hv@.take(blen as int));
            let mut within = pv.len() >= blen;
            let mut i: usize = 0;
            while within && i < blen
                invariant
                    blen <= hv@.len(),
                    base == hv@.take(blen as int),
                    within ==> pv@.len() >= blen,
                    i <= blen,
                    within ==> forall|j: int| 0 <= j < i ==> pv@[j] == hv@[j],
                    !within ==> !spec_starts_with(pv@, base),
                decreases blen - i + (if within { 1int } else { 0int }),
            {
                if pv[i] != hv[i] {
                    assert(pv@.subrange(0, blen as int)[i as int] != base[i as int]);
                    within = false;
                } else {
                    i = i + 1;
                }
            }
            if within {
                assert(pv@.subrange(0, blen as int) =~= base);
                if pv.len() > blen && pv[blen] != '/' {
                    within = false;
                }
            }
            assert(within == spec_within(pv@, base));
            if within {
                let mut r = String::new();
                push_char(&mut r, '~');
                let rest = string_from_range(&pv, blen, pv.len());
                r.append(rest.as_str());
                assert(pv@.subrange(blen as int, pv@.len() as int) =~= pv@.skip(blen as int));
                r
            } else {
                str_to_string(path)
            }
        },
        None => str_to_string(path),
    }
}

/// `path` with a leading home directory replaced by `~`.
pub fn compress_path(path: &str) -> (r: String)
    ensures
        exists|home: Option<Seq<char>>| r@ == spec_compress(path@, home),
{
    let home = home_dir();
    compress_path_with_home(path, as_opt_str(&home))
}

// ---------------------------------------------------------------------------
// Project names derived from directories.
// ---------------------------------------------------------------------------

/// `word` with its first character upper-cased.
pub open spec fn spec_capitalize(word: Seq<char>) -> Seq<char> {
    if word.len() == 0 {
        seq![]
    } else {
        spec_char_to_uppercase(word[0]) + word.drop_first()
    }
}

/// `word` with its first character upper-cased.
pub fn capitalize_word(word: &str) -> (r: String)
    ensures
        r@ == spec_capitalize(word@),
{
    let v = chars_of(word);
    if v.len() == 0 {
        return String::new();
    }
    let mut r = char_to_uppercase(v[0]);
    let rest = string_from_range(&v, 1, v.len());
    r.append(rest.as_str());
    assert(v@.subrange(1, v@.len() as int) =~= v@.drop_first());
    r
}

/// Hyphens and underscores become spaces.
pub open spec fn spec_dashes_to_spaces(s: Seq<char>) -> Seq<char> {
    s.map_values(|c: char| if c == '-' || c == '_' { ' ' } else { c })
}

/// The project name derived from a directory: its final component (or
/// "Project"), split into words at whitespace, hyphens and underscores,
/// each word capitalized, joined by single spaces.
pub open spec fn spec_name_from_path(path: Seq<char>) -> Seq<char> {
    let dir = match spec_file_name(path) {
        Some(n) => n,
        None => "Project"@,
    };
    spec_join(
        spec_split_whitespace(spec_dashes_to_spaces(dir)).map_values(|w: Seq<char>| spec_capitalize(w)),
        " "@,
    )
}

/// The project name derived from a directory path.
pub fn name_from_path(path: &str) -> (r: String)
    ensures
        r@ == spec_name_from_path(path@),
{
    let dir = match file_name(path) {
        Some(n) => n,
        None => str_to_string("Project"),
    };
    let dv = chars_of(dir.as_str());
    let mut replaced: Vec<char> = Vec::new();
    let mut i: usize = 0;
    while i < dv.len()
        invariant
            i <= dv@.len(),
            replaced@ == spec_dashes_to_spaces(dv@.take(i as int)),
        decreases dv@.len() - i,
    {
        let c = dv[i];
        let d = if c == '-' || c == '_' { ' ' } else { c };
        replaced.push(d);
        assert(spec_dashes_to_spaces(dv@.take(i + 1)) =~= spec_dashes_to_spaces(dv@.take(i as int)).push(d));
        i = i + 1;
    }
    assert(dv@.take(dv@.len() as int) =~= dv@);
    let words = split_whitespace_chars(&replaced);
    let ghost wv = words@.map_values(|w: Vec<char>| w@);
    let mut caps: Vec<String> = Vec::new();
    let mut k: usize = 0;
    while k < words.len()
        invariant
            k <= words@.len(),
            wv == words@.map_values(|w: Vec<char>| w@),
            strings_view(caps@) == wv.take(k as int).map_values(|w: Seq<char>| spec_capitalize(w)),
        decreases words@.len() - k,
    {
        let w = string_from_chars(&words[k]);
        let c = capitalize_word(w.as_str());
        let ghost before = strings_view(caps@);
        caps.push(c);
        assert(strings_view(caps@) =~= before.push(c@));
        assert(wv.take(k + 1).map_values(|w: Seq<char>| spec_capitalize(w)) =~= wv.take(
            k as int,
        ).map_values(|w: Seq<char>| spec_capitalize(w)).push(spec_capitalize(wv[k as int])));
        k = k + 1;
    }
    assert(wv.take(words@.len() as int) =~= wv);
    join(&caps, " ")
}

// ---------------------------------------------------------------------------
// Adding projects.
// ---------------------------------------------------------------------------

/// The directory `add` registers: the given path with `~` expanded, or the
/// working directory.
pub open spec fn spec_add_path(
    path: Option<Seq<char>>,
    cwd: Seq<char>,
    home: Option<Seq<char>>,
) -> Seq<char> {
    match path {
        Some(p) => spec_tilde(p, home),
        None => cwd,
    }
}

/// The directory `add` registers, with `~` expanded against `home`.
pub fn project_path_from_add_options_with_home(
    options: &AddProjectOptions,
    cwd: &str,
    home: Option<&str>,
) -> (r: String)
    ensures
        r@ == spec_add_path(opt_string_view(options.path), cwd@, opt_str_view(home)),
{
    match &options.path {
        Some(p) => expand_path_with_home(p.as_str(), home),
        None => str_to_string(cwd),
    }
}

/// The directory `add` registers, with `~` expanded against the current home directory.
pub fn project_path_from_add_options(options: &AddProjectOptions, cwd: &str) -> (r: String)
    ensures
        exists|home: Option<Seq<char>>|
            r@ == spec_add_path(opt_string_view(options.path), cwd@, home),
{
    let home = home_dir();
    project_path_from_add_options_with_home(options, cwd, as_opt_str(&home))
}

/// The launch command of a tab given on the command line: `-` is a plain shell.
pub open spec fn spec_launch_from_cli(value: Seq<char>) -> Option<Seq<char>> {
    if value == "-"@ {
        None
    } else {
        Some(value)
    }
}

/// The launch command of a tab given on the command line.
pub fn launch_from_cli_tab(value: &str) -> (r: Option<String>)
    ensures
        opt_string_view(r) == spec_launch_from_cli(value@),
{
    let dash = chars_of("-");
    let v = chars_of(value);
    if crate::text::chars_eq(&v, &dash) {
        None
    } else {
        Some(str_to_string(value))
    }
}

/// The tabs of a project added from the command line: one plain shell when
/// none are given, else one per value in order.
pub open spec fn spec_tabs_from_cli(values: Seq<Seq<char>>) -> Seq<Option<Seq<char>>> {
    if values.len() == 0 {
        seq![None]
    } else {
        values.map_values(|v: Seq<char>| spec_launch_from_cli(v))
    }
}

/// The tabs of a project added from the command line.
pub fn tabs_from_cli_tabs(values: &Vec<String>) -> (tabs: Vec<Tab>)
    ensures
        tabs_view(tabs@) == spec_tabs_from_cli(strings_view(values@)),
{
    let mut tabs: Vec<Tab> = Vec::new();
    if values.len() == 0 {
        tabs.push(Tab { launch: None });
        assert(tabs_view(tabs@) =~= spec_tabs_from_cli(strings_view(values@)));
        return tabs;
    }
    let ghost vv = strings_view(values@);
    let mut i: usize = 0;
    while i < values.len()
        invariant
            i <= values@.len(),
            vv == strings_view(values@),
            tabs_view(tabs@) == vv.take(i as int).map_values(|v: Seq<char>| spec_launch_from_cli(v)),
        decreases values@.len() - i,
    {
        let t = Tab { launch: launch_from_cli_tab(values[i].as_str()) };
        let ghost before = tabs_view(tabs@);
        tabs.push(t);
        assert(tabs_view(tabs@) =~= before.push(t@));
        assert(vv.take(i + 1).map_values(|v: Seq<char>| spec_launch_from_cli(v)) =~= vv.take(
            i as int,
        ).map_values(|v: Seq<char>| spec_launch_from_cli(v)).push(spec_launch_from_cli(vv[i as int])));
        i = i + 1;
    }
    assert(vv.take(values@.len() as int) =~= vv);
    tabs
}

/// The project `add` creates for `dir`: the given name or one derived from
/// the directory, the directory with the home prefix shortened to `~`, and
/// the command-line tabs.
pub open spec fn spec_new_project(
    name: Option<Seq<char>>,
    tabs: Seq<Seq<char>>,
    dir: Seq<char>,
    home: Option<Seq<char>>,
) -> ProjectView {
    ProjectView {
        name: match name {
            Some(n) => n,
            None => spec_name_from_path(dir),
        },
        path: spec_compress(dir, home),
        tabs: spec_tabs_from_cli(tabs),
    }
}

/// The project `add` creates for `dir`, shortening under `home`.
pub fn project_from_add_options_with_home(
    options: &AddProjectOptions,
    dir: &str,
    home: Option<&str>,
) -> (p: Project)
    ensures
        p@ == spec_new_project(
            opt_string_view(options.name),
            strings_view(options.tabs@),
            dir@,
            opt_str_view(home),
        ),
{
    let compressed = compress_path_with_home(dir, home);
    let name = match &options.name {
        Some(n) => str_to_string(n.as_str()),
        None => name_from_path(dir),
    };
    let tabs = tabs_from_cli_tabs(&options.tabs);
    Project { name, path: compressed, tabs }
}

/// The project `add` creates for `dir`, shortening under the current home directory.
pub fn project_from_add_options(options: &AddProjectOptions, dir: &str) -> (p: Project)
    ensures
        exists|home: Option<Seq<char>>|
            p@ == spec_new_project(
                opt_string_view(options.name),
                strings_view(options.tabs@),
                dir@,
                home,
            ),
{
    let home = home_dir();
    project_from_add_options_with_home(options, dir, as_opt_str(&home))
}

// ---------------------------------------------------------------------------
// Matching and removing projects by directory.
// ---------------------------------------------------------------------------

/// Whether a project's expanded directory is the same path as `dir`.
pub open spec fn spec_matches(p: ProjectView, dir: Seq<char>, home: Option<Seq<char>>) -> bool {
    spec_paths_equal(spec_expanded(p, home), dir)
}

/// The projects that live in `dir`.
pub open spec fn matches_dir(dir: Seq<char>, home: Option<Seq<char>>) -> spec_fn(ProjectView) -> bool {
    |p: ProjectView| spec_matches(p, dir, home)
}

/// The projects that live elsewhere.
pub open spec fn misses_dir(dir: Seq<char>, home: Option<Seq<char>>) -> spec_fn(ProjectView) -> bool {
    |p: ProjectView| !spec_matches(p, dir, home)
}

/// Whether `project` lives in `dir`, with `~` expanded against `home`.
fn project_matches(project: &Project, dir: &str, home: Option<&str>) -> (r: bool)
    ensures
        r == spec_matches(project@, dir@, opt_str_view(home)),
{
    let expanded = project.expanded_path_with_home(home);
    paths_equal(expanded.as_str(), dir)
}

/// The projects of `config` whose directory is `dir`, in order.
pub fn matching_projects_with_home<'a>(config: &'a Config, dir: &str, home: Option<&str>) -> (r: Vec<
    &'a Project,
>)
    ensures
        project_refs_view(r@) == config@.filter(matches_dir(dir@, opt_str_view(home))),
{
    let ghost pred = matches_dir(dir@, opt_str_view(home));
    let mut r: Vec<&Project> = Vec::new();
    let mut i: usize = 0;
    while i < config.projects.len()
        invariant
            i <= config@.len(),
            config@.len() == config.projects@.len(),
            pred == matches_dir(dir@, opt_str_view(home)),
            project_refs_view(r@) == config@.take(i as int).filter(pred),
        decreases config@.len() - i,
    {
        reveal(Seq::filter);
        let project = &config.projects[i];
        assert(config@.take(i + 1).drop_last() =~= config@.take(i as int));
        assert(config@.take(i + 1).last() == project@);
        let ghost before = project_refs_view(r@);
        if project_matches(project, dir, home) {
            r.push(project);
            assert(project_refs_view(r@) =~= before.push(project@));
        }
        i = i + 1;
    }
    assert(config@.take(config@.len() as int) =~= config@);
    r
}

/// The projects of `config` whose directory is `dir`, with `~` expanded
/// against the current home directory.
pub fn matching_projects<'a>(config: &'a Config, dir: &str) -> (r: Vec<&'a Project>)
    ensures
        exists|home: Option<Seq<char>>|
            project_refs_view(r@) == config@.filter(#[trigger] matches_dir(dir@, home)),
{
    let home = home_dir();
    matching_projects_with_home(config, dir, as_opt_str(&home))
}

/// Moves the projects whose directory is `dir` out of `config`, keeping the
/// order of both the removed and the remaining ones.
pub fn remove_projects_for_path_with_home(config: &mut Config, dir: &str, home: Option<&str>) -> (removed: Vec<Project>)
    ensures
        projects_view(removed@) == old(config)@.filter(matches_dir(dir@, opt_str_view(home))),
        final(config)@ == old(config)@.filter(misses_dir(dir@, opt_str_view(home))),
{
    let ghost keep = misses_dir(dir@, opt_str_view(home));
    let ghost take = matches_dir(dir@, opt_str_view(home));
    let ghost all = config@;
    let mut projects: Vec<Project> = Vec::new();
    std::mem::swap(&mut projects, &mut config.projects);
    assert(projects_view(projects@) == all);
    let mut removed: Vec<Project> = Vec::new();
    let mut kept: Vec<Project> = Vec::new();
    for project in it: projects.into_iter()
        invariant
            all == projects_view(it.seq()),
            keep == misses_dir(dir@, opt_str_view(home)),
            take == matches_dir(dir@, opt_str_view(home)),
            projects_view(removed@) == all.take(it.index() as int).filter(take),
            projects_view(kept@) == all.take(it.index() as int).filter(keep),
    {
        reveal(Seq::filter);
        let ghost idx = it.index() as int;
        assert(all.take(idx + 1).drop_last() =~= all.take(idx));
        assert(all.take(idx + 1).last() == project@);
        let ghost rb = projects_view(removed@);
        let ghost kb = projects_view(kept@);
        if project_matches(&project, dir, home) {
            let ghost pv = project@;
            removed.push(project);
            assert(projects_view(removed@) =~= rb.push(pv));
        } else {
            let ghost pv = project@;
            kept.push(project);
            assert(projects_view(kept@) =~= kb.push(pv));
        }
    }
    assert(all.take(all.len() as int) =~= all);
    config.projects = kept;
    removed
}

/// Moves the projects whose directory is `dir` out of `config`, with `~`
/// expanded against the current home directory.
pub fn remove_projects_for_path(config: &mut Config, dir: &str) -> (removed: Vec<Project>)
    ensures
        exists|home: Option<Seq<char>>|
            projects_view(removed@) == old(config)@.filter(#[trigger] matches_dir(dir@, home))
                && final(config)@ == old(config)@.filter(misses_dir(dir@, home)),
{
    let home = home_dir();
    remove_projects_for_path_with_home(config, dir, as_opt_str(&home))
}

/// Each name in double quotes, separated by commas.
pub open spec fn spec_project_names(ps: Seq<ProjectView>) -> Seq<char> {
    spec_join(ps.map_values(|p: ProjectView| "\""@ + p.name + "\""@), ", "@)
}

/// Each project's name in double quotes, separated by commas.
pub fn project_names(projects: &[&Project]) -> (r: String)
    ensures
        r@ == spec_project_names(project_refs_view(projects@)),
{
    let ghost pv = project_refs_view(projects@);
    let mut quoted: Vec<String> = Vec::new();
    let mut i: usize = 0;
    while i < projects.len()
        invariant
            i <= projects@.len(),
            pv == project_refs_view(projects@),
            strings_view(quoted@) == pv.take(i as int).map_values(
                |p: ProjectView| "\""@ + p.name + "\""@,
            ),
        decreases projects@.len() - i,
    {
        let mut q = String::new();
        q.append("\"");
        q.append(projects[i].name.as_str());
        q.append("\"");
        let ghost before = strings_view(quoted@);
        quoted.push(q);
        assert(strings_view(quoted@) =~= before.push(q@));
        assert(pv.take(i + 1).map_values(|p: ProjectView| "\""@ + p.name + "\""@) =~= pv.take(
            i as int,
        ).map_values(|p: ProjectView| "\""@ + p.name + "\""@).push(
            "\""@ + pv[i as int].name + "\""@,
        ));
        i = i + 1;
    }
    assert(pv.take(projects@.len() as int) =~= pv);
    join(&quoted, ", ")
}

/// "Remove project(s) {names} ({dir}) from config? [y/N] "
pub open spec fn spec_remove_prompt(ps: Seq<ProjectView>, dir: Seq<char>, home: Option<Seq<char>>) -> Seq<char> {
    "Remove "@ + (if ps.len() == 1 { "project"@ } else { "projects"@ }) + " "@
        + spec_project_names(ps) + " ("@ + spec_compress(dir, home) + ") from config? [y/N] "@
}

/// The question asked before removing `projects` registered for `dir`.
pub fn remove_confirmation_prompt_with_home(projects: &[&Project], dir: &str, home: Option<&str>) -> (r: String)
    ensures
        r@ == spec_remove_prompt(project_refs_view(projects@), dir@, opt_str_view(home)),
{
    let compressed = compress_path_with_home(dir, home);
    let mut r = String::new();
    r.append("Remove ");
    if projects.len() == 1 {
        r.append("project");
    } else {
        r.append("projects");
    }
    r.append(" ");
    let names = project_names(projects);
    r.append(names.as_str());
    r.append(" (");
    r.append(compressed.as_str());
    r.append(") from config? [y/N] ");
    r
}

/// The question asked before removing `projects`, shortening under the
/// current home directory.
pub fn remove_confirmation_prompt(projects: &[&Project], dir: &str) -> (r: String)
    ensures
        exists|home: Option<Seq<char>>|
            r@ == spec_remove_prompt(project_refs_view(projects@), dir@, home),
{
    let home = home_dir();
    remove_confirmation_prompt_with_home(projects, dir, as_opt_str(&home))
}

/// Whether an answer confirms: `y` or `yes` in any case, ignoring
/// surrounding whitespace.
pub open spec fn spec_is_confirmed(input: Seq<char>) -> bool {
    let t = spec_ascii_lowercase(spec_trim(input));
    t == "y"@ || t == "yes"@
}

fn ascii_lower(c: char) -> (r: char)
    ensures
        r == (if 'A' <= c && c <= 'Z' { ((c as int) + 32) as char } else { c }),
{
    if 'A' <= c && c <= 'Z' {
        let b: u8 = c as u8;
        assert(b as int == c as int);
        let l: u8 = b + 32;
        l as char
    } else {
        c
    }
}

/// Whether an answer to the removal question confirms it.
pub fn is_confirmed(input: &str) -> (r: bool)
    ensures
        r == spec_is_confirmed(input@),
        r == spec_is_confirmed(spec_ascii_lowercase(input@)),
{
    proof {
        lemma_confirmation_ignores_case(input@);
    }
    let v = chars_of(input);
    let t = trim_chars(&v);
    let mut lower: Vec<char> = Vec::new();
    let mut i: usize = 0;
    while i < t.len()
        invariant
            i <= t@.len(),
            lower@ == spec_ascii_lowercase(t@.take(i as int)),
        decreases t@.len() - i,
    {
        let c = ascii_lower(t[i]);
        lower.push(c);
        assert(spec_ascii_lowercase(t@.take(i + 1)) =~= spec_ascii_lowercase(t@.take(i as int)).push(c));
        i = i + 1;
    }
    assert(t@.take(t@.len() as int) =~= t@);
    let y = chars_of("y");
    let yes = chars_of("yes");
    crate::text::chars_eq(&lower, &y) || crate::text::chars_eq(&lower, &yes)
}

/// What `remove` does next.
#[derive(Clone, Copy, Debug, PartialEq, Eq, Structural)]
pub enum RemovalDecision {
    /// No project lives in the directory: say so and change nothing.
    NothingToRemove,
    /// Ask for confirmation, then decide again with the answer.
    Ask,
    /// Remove the projects that live in the directory.
    Remove,
    /// The removal was declined: say so and change nothing.
    Cancel,
}

/// Nothing is removed when no project matches; with `--force` the matches
/// are removed at once; otherwise the user is asked, and only an answer
/// that confirms removes them.
pub open spec fn spec_removal_decision(n_matches: usize, force: bool, answer: Option<Seq<char>>) -> RemovalDecision {
    if n_matches == 0 {
        RemovalDecision::NothingToRemove
    } else if force {
        RemovalDecision::Remove
    } else {
        match answer {
            None => RemovalDecision::Ask,
            Some(a) => if spec_is_confirmed(a) {
                RemovalDecision::Remove
            } else {
                RemovalDecision::Cancel
            },
        }
    }
}

/// What `remove` does next, given how many projects live in the directory,
/// whether `--force` was given, and the answer to the question, once asked.
pub fn removal_decision(n_matches: usize, force: bool, answer: Option<&str>) -> (d: RemovalDecision)
    ensures
        d == spec_removal_decision(n_matches, force, opt_str_view(answer)),
{
    if n_matches == 0 {
        RemovalDecision::NothingToRemove
    } else if force {
        RemovalDecision::Remove
    } else {
        match answer {
            None => RemovalDecision::Ask,
            Some(a) => if is_confirmed(a) {
                RemovalDecision::Remove
            } else {
                RemovalDecision::Cancel
            },
        }
    }
}

/// What is reported after removing projects: the name when there is one,
/// else the count.
pub open spec fn spec_removal_message(removed: Seq<ProjectView>, dir: Seq<char>, home: Option<Seq<char>>) -> Seq<char> {
    if removed.len() == 1 {
        "Removed project \""@ + removed[0].name + "\" ("@ + spec_compress(dir, home) + ")"@
    } else {
        "Removed "@ + spec_decimal(removed.len()) + " projects ("@ + spec_compress(dir, home) + ")"@
    }
}

/// What is reported after removing `removed` from `dir`.
pub fn removal_message_with_home(removed: &[Project], dir: &str, home: Option<&str>) -> (r: String)
    ensures
        r@ == spec_removal_message(projects_view(removed@), dir@, opt_str_view(home)),
{
    let compressed = compress_path_with_home(dir, home);
    let mut r = String::new();
    if removed.len() == 1 {
        r.append("Removed project \"");
        r.append(removed[0].name.as_str());
        r.append("\" (");
    } else {
        r.append("Removed ");
        let n = usize_to_decimal(removed.len());
        r.append(n.as_str());
        r.append(" projects (");
    }
    r.append(compressed.as_str());
    r.append(")");
    r
}

/// What is reported after removing `removed`, shortening under the current
/// home directory.
pub fn removal_message(removed: &[Project], dir: &str) -> (r: String)
    ensures
        exists|home: Option<Seq<char>>|
            r@ == spec_removal_message(projects_view(removed@), dir@, home),
{
    let home = home_dir();
    removal_message_with_home(removed, dir, as_opt_str(&home))
}

/// The outcome of adding a project to the configuration.
pub enum AddOutcome {
    /// A project for the directory is already configured; nothing changed.
    AlreadyExists { path: String },
    /// The project was appended.
    Added { name: String, path: String },
}

/// The projects after `add` for directory `dir`: unchanged when one already
/// lives there, else with the new project appended.
pub open spec fn spec_add_projects(
    ps: Seq<ProjectView>,
    name: Option<Seq<char>>,
    tabs: Seq<Seq<char>>,
    dir: Seq<char>,
    home: Option<Seq<char>>,
) -> Seq<ProjectView> {
    if exists|i: int| 0 <= i < ps.len() && spec_matches(#[trigger] ps[i], dir, home) {
        ps
    } else {
        ps.push(spec_new_project(name, tabs, dir, home))
    }
}

/// Whether some project of `config` lives in `dir`.
fn any_project_matches(config: &Config, dir: &str, home: Option<&str>) -> (r: bool)
    ensures
        r == exists|i: int|
            0 <= i < config@.len() && spec_matches(#[trigger] config@[i], dir@, opt_str_view(home)),
{
    let mut i: usize = 0;
    while i < config.projects.len()
        invariant
            i <= config@.len(),
            config@.len() == config.projects@.len(),
            forall|j: int| 0 <= j < i ==> !spec_matches(#[trigger] config@[j], dir@, opt_str_view(home)),
        decreases config@.len() - i,
    {
        assert(config@[i as int] == config.projects@[i as int]@);
        if project_matches(&config.projects[i], dir, home) {
            return true;
        }
        i = i + 1;
    }
    false
}

/// Adds the project described by `options` (or the working directory `cwd`)
/// to `config` unless a project already lives in that directory.
pub fn add_project_to_config_with_home(
    config: &mut Config,
    options: &AddProjectOptions,
    cwd: &str,
    home: Option<&str>,
) -> (r: AddOutcome)
    ensures
        ({
            let dir = spec_add_path(opt_string_view(options.path), cwd@, opt_str_view(home));
            let found = exists|i: int|
                0 <= i < old(config)@.len() && spec_matches(
                    #[trigger] old(config)@[i],
                    dir,
                    opt_str_view(home),
                );
            &&& final(config)@ == spec_add_projects(
                old(config)@,
                opt_string_view(options.name),
                strings_view(options.tabs@),
                dir,
                opt_str_view(home),
            )
            &&& found ==> (r matches AddOutcome::AlreadyExists { path } && path@ == spec_compress(
                dir,
                opt_str_view(home),
            ))
            &&& !found ==> (r matches AddOutcome::Added { name, path } && path@ == spec_compress(
                dir,
                opt_str_view(home),
            ) && name@ == spec_new_project(
                opt_string_view(options.name),
                strings_view(options.tabs@),
                dir,
                opt_str_view(home),
            ).name)
        }),
{
    let ghost h = opt_str_view(home);
    let dir = project_path_from_add_options_with_home(options, cwd, home);
    let compressed = compress_path_with_home(dir.as_str(), home);
    if any_project_matches(config, dir.as_str(), home) {
        return AddOutcome::AlreadyExists { path: compressed };
    }
    let project = project_from_add_options_with_home(options, dir.as_str(), home);
    let name = str_to_string(project.name.as_str());
    let ghost before = config@;
    let ghost pv = project@;
    config.projects.push(project);
    assert(config@ =~= before.push(pv));
    AddOutcome::Added { name, path: compressed }
}

/// Adds a project as `add_project_to_config_with_home` does, with `~`
/// handled against the current home directory.
pub fn add_project_to_config(config: &mut Config, options: &AddProjectOptions, cwd: &str) -> (r: AddOutcome)
    ensures
        exists|home: Option<Seq<char>>|
            final(config)@ == #[trigger] spec_add_projects(
                old(config)@,
                opt_string_view(options.name),
                strings_view(options.tabs@),
                spec_add_path(opt_string_view(options.path), cwd@, home),
                home,
            ),
{
    let home = home_dir();
    add_project_to_config_with_home(config, options, cwd, as_opt_str(&home))
}

// ---------------------------------------------------------------------------
// Laws.
// ---------------------------------------------------------------------------

/// Whether a directory is absolute: it starts at the root.
pub open spec fn spec_is_absolute(dir: Seq<char>) -> bool {
    dir.len() > 0 && dir[0] == '/'
}

/// A directory stored in its shortened form expands back to the same
/// directory, for every absolute directory and every home: the expansion
/// names the same components, and is the very same text unless the home
/// ends with `/`.
pub proof fn lemma_compress_then_expand(dir: Seq<char>, home: Option<Seq<char>>)
    requires
        spec_is_absolute(dir),
    ensures
        spec_paths_equal(spec_tilde(spec_compress(dir, home), home), dir),
        (home is None || spec_home_base(home->0) == home->0) ==> spec_tilde(spec_compress(dir, home), home)
            == dir,
{
    match home {
        None => {},
        Some(h) => {
            let b = spec_home_base(h);
            if spec_within(dir, b) {
                let c = spec_compress(dir, home);
                let rest = dir.skip(b.len() as int);
                assert(c == seq!['~'] + rest);
                assert(c.drop_first() =~= rest);
                if dir.len() > b.len() {
                    assert(c[1] == dir[b.len() as int]);
                }
                assert(spec_tilde(c, home) == h + rest);
                assert(b + rest =~= dir) by {
                    assert(dir.subrange(0, b.len() as int) == b);
                }
                if b != h {
                    assert(h =~= b + seq!['/']);
                    if rest.len() == 0 {
                        assert(b =~= dir);
                        assert(h + rest =~= b + seq!['/']);
                        lemma_components_trailing_slash(b);
                    } else {
                        let r = rest.drop_first();
                        assert(rest[0] == '/');
                        assert(rest =~= seq!['/'] + r);
                        assert(h + rest =~= b + seq!['/'] + (seq!['/'] + r));
                        assert(dir =~= b + seq!['/'] + r);
                        assert(b.len() > 0 ==> b[0] == dir[0]);
                        lemma_components_double_slash(b, r);
                    }
                }
            }
        },
    }
}

/// A project added for a directory lives in that directory: after `add`,
/// some project matches the directory (so `remove` run from there finds it),
/// for every absolute directory.
pub proof fn lemma_added_project_matches(
    ps: Seq<ProjectView>,
    name: Option<Seq<char>>,
    tabs: Seq<Seq<char>>,
    dir: Seq<char>,
    home: Option<Seq<char>>,
)
    requires
        spec_is_absolute(dir),
    ensures
        exists|i: int|
            0 <= i < spec_add_projects(ps, name, tabs, dir, home).len() && spec_matches(
                #[trigger] spec_add_projects(ps, name, tabs, dir, home)[i],
                dir,
                home,
            ),
{
    let after = spec_add_projects(ps, name, tabs, dir, home);
    if exists|i: int| 0 <= i < ps.len() && spec_matches(#[trigger] ps[i], dir, home) {
        let i = choose|i: int| 0 <= i < ps.len() && spec_matches(#[trigger] ps[i], dir, home);
        assert(spec_matches(after[i], dir, home));
    } else {
        let p = spec_new_project(name, tabs, dir, home);
        lemma_compress_then_expand(dir, home);
        assert(spec_paths_equal(spec_expanded(p, home), dir));
        assert(after[ps.len() as int] == p);
        assert(spec_matches(after[ps.len() as int], dir, home));
    }
}

/// Adding the same directory twice changes the configuration only once.
pub proof fn lemma_add_twice_is_add_once(
    ps: Seq<ProjectView>,
    name: Option<Seq<char>>,
    tabs: Seq<Seq<char>>,
    dir: Seq<char>,
    home: Option<Seq<char>>,
)
    requires
        spec_is_absolute(dir),
    ensures
        spec_add_projects(spec_add_projects(ps, name, tabs, dir, home), name, tabs, dir, home)
            == spec_add_projects(ps, name, tabs, dir, home),
{
    lemma_added_project_matches(ps, name, tabs, dir, home);
}

/// Keeping only what every element satisfies keeps everything; keeping
/// only what no element satisfies keeps nothing.
proof fn lemma_filter_uniform(ps: Seq<ProjectView>, pred: spec_fn(ProjectView) -> bool, all: bool)
    requires
        forall|i: int| 0 <= i < ps.len() ==> pred(#[trigger] ps[i]) == all,
    ensures
        ps.filter(pred) == (if all { ps } else { Seq::<ProjectView>::empty() }),
    decreases ps.len(),
{
    reveal(Seq::filter);
    if ps.len() > 0 {
        let d = ps.drop_last();
        assert forall|i: int| 0 <= i < d.len() implies pred(#[trigger] d[i]) == all by {
            assert(d[i] == ps[i]);
        }
        lemma_filter_uniform(d, pred, all);
        assert(pred(ps.last()) == all);
        if all {
            assert(d.push(ps.last()) =~= ps);
        }
    } else {
        assert(ps =~= Seq::<ProjectView>::empty());
    }
}

/// Removing from a directory undoes adding it: when no project lived in
/// the directory before, `add` followed by `remove` there removes just the
/// new project and leaves the projects as they were, for every absolute
/// directory.
pub proof fn lemma_remove_undoes_add(
    ps: Seq<ProjectView>,
    name: Option<Seq<char>>,
    tabs: Seq<Seq<char>>,
    dir: Seq<char>,
    home: Option<Seq<char>>,
)
    requires
        spec_is_absolute(dir),
        forall|i: int| 0 <= i < ps.len() ==> !spec_matches(#[trigger] ps[i], dir, home),
    ensures
        spec_add_projects(ps, name, tabs, dir, home).filter(misses_dir(dir, home)) == ps,
        spec_add_projects(ps, name, tabs, dir, home).filter(matches_dir(dir, home)) == seq![
            spec_new_project(name, tabs, dir, home),
        ],
{
    reveal(Seq::filter);
    let p = spec_new_project(name, tabs, dir, home);
    let after = spec_add_projects(ps, name, tabs, dir, home);
    assert(after == ps.push(p));
    lemma_compress_then_expand(dir, home);
    assert(spec_paths_equal(spec_expanded(p, home), dir));
    assert(spec_matches(p, dir, home));
    assert forall|i: int| 0 <= i < ps.len() implies misses_dir(dir, home)(#[trigger] ps[i]) == true by {}
    assert forall|i: int| 0 <= i < ps.len() implies matches_dir(dir, home)(#[trigger] ps[i]) == false by {}
    lemma_filter_uniform(ps, misses_dir(dir, home), true);
    lemma_filter_uniform(ps, matches_dir(dir, home), false);
    assert(after.drop_last() =~= ps);
    assert(after.filter(matches_dir(dir, home)) =~= seq![p]);
}

/// Confirmation ignores ASCII case: an answer confirms exactly when its
/// lower-cased form does, so `Y`, `YES` and `Yes` confirm as `y` and `yes`
/// do, with or without surrounding whitespace.
pub proof fn lemma_confirmation_ignores_case(input: Seq<char>)
    ensures
        spec_is_confirmed(input) == spec_is_confirmed(spec_ascii_lowercase(input)),
{
    lemma_trim_ascii_lowercase(input);
    lemma_ascii_lowercase_twice(spec_trim(input));
}

/// `y` or `yes` in any mix of cases, with any whitespace around it (such as
/// the line feed that ends a typed answer), confirms; an answer that is
/// only whitespace does not.
pub proof fn lemma_yes_in_any_case_confirms(pre: Seq<char>, word: Seq<char>, suf: Seq<char>)
    requires
        spec_all_whitespace(pre),
        spec_all_whitespace(suf),
        spec_ascii_lowercase(word) == "y"@ || spec_ascii_lowercase(word) == "yes"@,
    ensures
        spec_is_confirmed(pre + word + suf),
        !spec_is_confirmed(pre),
{
    reveal_strlit("y");
    reveal_strlit("yes");
    let l = spec_ascii_lowercase(word);
    assert(word.len() == l.len());
    assert(word.len() > 0);
    assert(l[0] == 'y');
    assert(!spec_is_whitespace(word[0])) by {
        assert(l[0] == if 'A' <= word[0] && word[0] <= 'Z' { ((word[0] as int) + 32) as char } else { word[0] });
    }
    let k = word.len() - 1;
    assert(l[k] == 'y' || l[k] == 's');
    assert(!spec_is_whitespace(word.last())) by {
        assert(word.last() == word[k]);
        assert(l[k] == if 'A' <= word[k] && word[k] <= 'Z' { ((word[k] as int) + 32) as char } else { word[k] });
    }
    lemma_trim_around(pre, word, suf);
    lemma_trim_empty_iff_all_whitespace(pre);
    assert(spec_ascii_lowercase(spec_trim(pre)).len() == 0);
}

/// Removal asks for confirmation unless `--force` is given: with matches
/// and no answer yet it asks, with `--force` it removes without asking,
/// and without matches it removes nothing whatever is given.
pub proof fn lemma_removal_asks_unless_forced(n_matches: usize, force: bool, answer: Option<Seq<char>>)
    ensures
        n_matches > 0 && !force ==> spec_removal_decision(n_matches, force, None) == RemovalDecision::Ask,
        n_matches > 0 && force ==> spec_removal_decision(n_matches, force, answer) == RemovalDecision::Remove,
        n_matches == 0 ==> spec_removal_decision(n_matches, force, answer) == RemovalDecision::NothingToRemove,
        spec_removal_decision(n_matches, force, answer) != RemovalDecision::Ask ==> (force || answer is Some
            || n_matches == 0),
{
}

/// Removal splits the projects in two: the removed ones are exactly those
/// in the directory, the kept ones are all the others, and none is lost.
pub proof fn lemma_remove_partitions(ps: Seq<ProjectView>, dir: Seq<char>, home: Option<Seq<char>>)
    ensures
        ps.filter(matches_dir(dir, home)).len() + ps.filter(misses_dir(dir, home)).len() == ps.len(),
        forall|i: int|
            0 <= i < ps.filter(misses_dir(dir, home)).len() ==> !spec_matches(
                #[trigger] ps.filter(misses_dir(dir, home))[i],
                dir,
                home,
            ),
        forall|i: int|
            0 <= i < ps.filter(matches_dir(dir, home)).len() ==> spec_matches(
                #[trigger] ps.filter(matches_dir(dir, home))[i],
                dir,
                home,
            ),
    decreases ps.len(),
{
    reveal(Seq::filter);
    ps.filter_lemma(matches_dir(dir, home));
    ps.filter_lemma(misses_dir(dir, home));
    if ps.len() > 0 {
        lemma_remove_partitions(ps.drop_last(), dir, home);
    }
}

/// No problem is reported exactly when every project has a name, a path,
/// a tab and an existing directory.
pub proof fn lemma_validation_clean_iff(
    ps: Seq<ProjectView>,
    home: Option<Seq<char>>,
    exists: Seq<bool>,
    k: nat,
)
    requires
        k <= ps.len(),
        k <= exists.len(),
    ensures
        spec_config_errors(ps, home, exists, k).len() == 0 <==> forall|i: int|
            0 <= i < k ==> spec_project_ok(#[trigger] ps[i], exists[i]),
    decreases k,
{
    if k > 0 {
        let i = (k - 1) as int;
        lemma_validation_clean_iff(ps, home, exists, (k - 1) as nat);
        lemma_trim_empty_iff_all_whitespace(ps[i].name);
        lemma_trim_empty_iff_all_whitespace(ps[i].path);
        let errs = spec_project_errors(i as nat, ps[i], spec_expanded(ps[i], home), exists[i]);
        assert(errs.len() == 0 <==> spec_project_ok(ps[i], exists[i]));
        if spec_config_errors(ps, home, exists, (k - 1) as nat).len() == 0 && errs.len() == 0 {
            assert forall|j: int| 0 <= j < k implies spec_project_ok(#[trigger] ps[j], exists[j]) by {
                if j < i {
                }
            }
        }
    }
}

} // verus!
