//! The picker's state and how it answers keys.

use vstd::prelude::*;
use std::collections::HashMap;
use crate::config::Config;
use crate::git_info::ProjectInfo;
use crate::text::{chars_of, clear_string, pop_char, push_char};

verus! {

broadcast use vstd::std_specs::hash::group_hash_axioms;

/// A key press, as far as the picker distinguishes keys.
#[derive(Clone, Copy, Debug, PartialEq, Eq, Structural)]
pub enum Key {
    Char(char),
    Esc,
    Up,
    Down,
    Enter,
    Backspace,
    Other,
}

/// The picker's state.
pub struct App {
    pub should_quit: bool,
    pub selected_index: usize,
    pub input_buffer: String,
    pub project_infos: HashMap<usize, ProjectInfo>,
    pub tick: u64,
    pub new_session: bool,
}

/// The part of the picker's state that keys change.
pub struct AppView {
    pub should_quit: bool,
    pub selected_index: usize,
    pub input_buffer: Seq<char>,
    pub new_session: bool,
}

impl App {
    /// The state that keys act on.
    pub open spec fn key_state(&self) -> AppView {
        AppView {
            should_quit: self.should_quit,
            selected_index: self.selected_index,
            input_buffer: self.input_buffer@,
            new_session: self.new_session,
        }
    }
}

// ---------------------------------------------------------------------------
// Reading typed numbers.
// ---------------------------------------------------------------------------

/// Whether `c` is one of the ASCII digits.
pub open spec fn spec_is_digit(c: char) -> bool {
    '0' <= c && c <= '9'
}

/// The number written by a sequence of ASCII digits.
pub open spec fn spec_digits_value(s: Seq<char>) -> nat
    decreases s.len(),
{
    if s.len() == 0 {
        0
    } else {
        spec_digits_value(s.drop_last()) * 10 + ((s.last() as int) - 48) as nat
    }
}

/// The digits of a number after an optional leading `+`.
pub open spec fn spec_unsigned_digits(s: Seq<char>) -> Seq<char> {
    if s.len() > 0 && s[0] == '+' {
        s.drop_first()
    } else {
        s
    }
}

/// `str::parse::<usize>`: an optional `+`, then at least one ASCII digit
/// and nothing else, with a value that fits.
pub open spec fn spec_parse_usize(s: Seq<char>) -> Option<usize> {
    spec_parse_usize_digits(spec_unsigned_digits(s))
}

proof fn lemma_digits_value_grows(s: Seq<char>, k: int)
    requires
        0 <= k <= s.len(),
        forall|i: int| 0 <= i < s.len() ==> spec_is_digit(#[trigger] s[i]),
    ensures
        spec_digits_value(s.take(k)) <= spec_digits_value(s),
    decreases s.len(),
{
    if k < s.len() {
        assert(s.drop_last().take(k) =~= s.take(k));
        lemma_digits_value_grows(s.drop_last(), k);
    } else {
        assert(s.take(k) =~= s);
    }
}

/// Reads a number the way `str::parse::<usize>` does.
pub fn parse_usize(s: &str) -> (r: Option<usize>)
    ensures
        r == spec_parse_usize(s@),
{
    let v = chars_of(s);
    let start: usize = if v.len() > 0 && v[0] == '+' { 1 } else { 0 };
    let ghost d = spec_unsigned_digits(s@);
    assert(d =~= v@.skip(start as int));
    if start >= v.len() {
        return None;
    }
    let mut value: usize = 0;
    let mut i: usize = start;
    while i < v.len()
        invariant
            start <= i <= v@.len(),
            v@ == s@,
            d == spec_unsigned_digits(s@),
            d == v@.skip(start as int),
            d.len() > 0,
            forall|j: int| 0 <= j < i - start ==> spec_is_digit(#[trigger] d[j]),
            value as nat == spec_digits_value(d.take(i - start)),
        decreases v@.len() - i,
    {
        let c = v[i];
        assert(d[i - start] == c);
        if !('0' <= c && c <= '9') {
            assert(!spec_is_digit(d[i - start]));
            return None;
        }
        let digit: usize = ((c as u32) - 48) as usize;
        assert(d.take(i + 1 - start).drop_last() =~= d.take(i - start));
        assert(d.take(i + 1 - start).last() == c);
        match value.checked_mul(10) {
            Some(m) => match m.checked_add(digit) {
                Some(n) => {
                    value = n;
                },
                None => {
                    proof {
                        assert(spec_digits_value(d.take(i + 1 - start)) > usize::MAX);
                        lemma_rest_digits(d, i + 1 - start);
                    }
                    return None;
                },
            },
            None => {
                proof {
                    assert(spec_digits_value(d.take(i + 1 - start)) > usize::MAX) by (nonlinear_arith)
                        requires
                            spec_digits_value(d.take(i + 1 - start)) == value * 10 + digit,
                            value * 10 > usize::MAX,
                    ;
                    lemma_rest_digits(d, i + 1 - start);
                }
                return None;
            },
        }
        i = i + 1;
    }
    assert(d.take(d.len() as int) =~= d);
    Some(value)
}

/// When a prefix of `d` is already too large, `d` either holds a non-digit
/// or is too large as a whole.
proof fn lemma_rest_digits(d: Seq<char>, k: int)
    requires
        0 <= k <= d.len(),
        spec_digits_value(d.take(k)) > usize::MAX,
        forall|j: int| 0 <= j < k ==> spec_is_digit(#[trigger] d[j]),
    ensures
        spec_parse_usize_digits(d) is None,
{
    if forall|i: int| 0 <= i < d.len() ==> spec_is_digit(#[trigger] d[i]) {
        lemma_digits_value_grows(d, k);
    }
}

/// `spec_parse_usize` once the sign is removed.
pub open spec fn spec_parse_usize_digits(d: Seq<char>) -> Option<usize> {
    if d.len() == 0 || exists|i: int| 0 <= i < d.len() && !spec_is_digit(#[trigger] d[i]) {
        None
    } else if spec_digits_value(d) > usize::MAX {
        None
    } else {
        Some(spec_digits_value(d) as usize)
    }
}

// ---------------------------------------------------------------------------
// Keys.
// ---------------------------------------------------------------------------

/// How the picker answers a key: the next state and, for a confirmed
/// choice, the chosen entry and whether a fresh session was requested.
pub open spec fn spec_handle_key(s: AppView, key: Key, total: usize) -> (AppView, Option<(usize, bool)>) {
    match key {
        Key::Char('q') | Key::Esc => (AppView { should_quit: true, ..s }, None),
        Key::Up => (
            AppView {
                selected_index: if s.selected_index > 0 { (s.selected_index - 1) as usize } else { s.selected_index },
                input_buffer: seq![],
                ..s
            },
            None,
        ),
        Key::Down => (
            AppView {
                selected_index: if s.selected_index < (if total > 0 { total - 1 } else { 0 }) {
                    (s.selected_index + 1) as usize
                } else {
                    s.selected_index
                },
                input_buffer: seq![],
                ..s
            },
            None,
        ),
        Key::Char(' ') => (AppView { new_session: !s.new_session, ..s }, None),
        Key::Char(c) => if spec_is_digit(c) {
            let buf = s.input_buffer.push(c);
            (
                AppView {
                    input_buffer: buf,
                    selected_index: match spec_parse_usize(buf) {
                        Some(n) => if n < total { n } else { s.selected_index },
                        None => s.selected_index,
                    },
                    ..s
                },
                None,
            )
        } else {
            (s, None)
        },
        Key::Enter => (
            AppView { input_buffer: seq![], ..s },
            if s.input_buffer.len() == 0 {
                Some((s.selected_index, s.new_session))
            } else {
                match spec_parse_usize(s.input_buffer) {
                    Some(n) => if n < total { Some((n, s.new_session)) } else { None },
                    None => None,
                }
            },
        ),
        Key::Backspace => (
            AppView {
                input_buffer: if s.input_buffer.len() > 0 { s.input_buffer.drop_last() } else { s.input_buffer },
                ..s
            },
            None,
        ),
        Key::Other => (s, None),
    }
}

/// The animation counter after one more frame, wrapping at the end of its range.
pub open spec fn spec_next_tick(t: u64) -> u64 {
    if t == u64::MAX { 0 } else { (t + 1) as u64 }
}

impl App {
    /// A fresh picker: nothing selected but the first entry, no typed
    /// number, and the project facts that could be read, keyed by project
    /// position.
    pub fn new(config: &Config, infos: Vec<Option<ProjectInfo>>) -> (app: App)
        ensures
            !app.should_quit,
            app.selected_index == 0,
            app.input_buffer@ == Seq::<char>::empty(),
            app.tick == 0,
            !app.new_session,
            forall|i: usize|
                #[trigger] app.project_infos@.contains_key(i) <==> (i < config.projects@.len() && i
                    < infos@.len() && infos@[i as int] is Some),
            forall|i: usize|
                #[trigger] app.project_infos@.contains_key(i) ==> Some(app.project_infos@[i])
                    == infos@[i as int],
    {
        let n = config.projects.len();
        let len: usize = infos.len();
        let mut project_infos: HashMap<usize, ProjectInfo> = HashMap::new();
        let ghost all = infos@;
        let mut i: usize = 0;
        for info in it: infos.into_iter()
            invariant
                all == it.seq(),
                all.len() == len,
                n == config.projects@.len(),
                i == it.index(),
                forall|k: usize|
                    #[trigger] project_infos@.contains_key(k) <==> (k < i && k < n && all[k as int] is Some),
                forall|k: usize| #[trigger] project_infos@.contains_key(k) ==> Some(project_infos@[k]) == all[k as int],
        {
            if i < n {
                match info {
                    Some(v) => {
                        project_infos.insert(i, v);
                    },
                    None => {},
                }
            }
            i = i + 1;
        }
        App {
            should_quit: false,
            selected_index: 0,
            input_buffer: String::new(),
            project_infos,
            tick: 0,
            new_session: false,
        }
    }

    /// Advances the animation counter, wrapping at the end of its range.
    pub fn tick(&mut self)
        ensures
            final(self).tick == spec_next_tick(old(self).tick),
            final(self).key_state() == old(self).key_state(),
            final(self).project_infos@ == old(self).project_infos@,
    {
        self.tick = self.tick.wrapping_add(1);
    }

    /// Answers a key, given how many entries the picker lists.
    pub fn handle_key(&mut self, key: Key, total_options: usize) -> (r: Option<(usize, bool)>)
        ensures
            (final(self).key_state(), r) == spec_handle_key(old(self).key_state(), key, total_options),
            r matches Some(c) ==> key == Key::Enter && c.1 == old(self).new_session,
            final(self).tick == old(self).tick,
            final(self).project_infos@ == old(self).project_infos@,
    {
        match key {
            Key::Char('q') | Key::Esc => {
                self.should_quit = true;
                None
            },
            Key::Up => {
                if self.selected_index > 0 {
                    self.selected_index = self.selected_index - 1;
                }
                clear_string(&mut self.input_buffer);
                None
            },
            Key::Down => {
                if self.selected_index < total_options.saturating_sub(1) {
                    self.selected_index = self.selected_index + 1;
                }
                clear_string(&mut self.input_buffer);
                None
            },
            Key::Char(' ') => {
                self.new_session = !self.new_session;
                None
            },
            Key::Char(c) => {
                if '0' <= c && c <= '9' {
                    push_char(&mut self.input_buffer, c);
                    match parse_usize(self.input_buffer.as_str()) {
                        Some(num) => {
                            if num < total_options {
                                self.selected_index = num;
                            }
                        },
                        None => {},
                    }
                }
                None
            },
            Key::Enter => {
                let result = if self.input_buffer.as_str().unicode_len() == 0 {
                    Some((self.selected_index, self.new_session))
                } else {
                    match parse_usize(self.input_buffer.as_str()) {
                        Some(n) => if n < total_options {
                            Some((n, self.new_session))
                        } else {
                            None
                        },
                        None => None,
                    }
                };
                clear_string(&mut self.input_buffer);
                result
            },
            Key::Backspace => {
                pop_char(&mut self.input_buffer);
                None
            },
            Key::Other => None,
        }
    }
}

// ---------------------------------------------------------------------------
// Running the picker.
// ---------------------------------------------------------------------------

/// What the picker ends with.
#[derive(Clone, Copy, Debug, PartialEq, Eq, Structural)]
pub enum LaunchAction {
    /// Leave without launching anything.
    Quit,
    /// Launch the project at this position, in a fresh session if asked.
    LaunchProject(usize, bool),
    /// Open an empty session.
    LaunchEmpty,
}

/// What a confirmed choice launches: entry 0 is the empty session, entry
/// `i` the project at position `i - 1`.
pub open spec fn spec_action_for_choice(choice: (usize, bool)) -> LaunchAction {
    if choice.0 == 0 {
        LaunchAction::LaunchEmpty
    } else {
        LaunchAction::LaunchProject((choice.0 - 1) as usize, choice.1)
    }
}

/// What a confirmed choice launches.
pub fn action_for_choice(choice: (usize, bool)) -> (a: LaunchAction)
    ensures
        a == spec_action_for_choice(choice),
{
    if choice.0 == 0 {
        LaunchAction::LaunchEmpty
    } else {
        LaunchAction::LaunchProject(choice.0 - 1, choice.1)
    }
}

/// One round of the picker: the key pressed in it, if any, is answered; a
/// confirmed choice ends the picker with its launch. Otherwise the
/// animation advances, and the picker ends without a launch once it has
/// been asked to quit.
pub open spec fn spec_step(s: AppView, key: Option<Key>, total: usize) -> (AppView, Option<LaunchAction>) {
    let (next, choice) = match key {
        Some(k) => spec_handle_key(s, k, total),
        None => (s, None),
    };
    match choice {
        Some(c) => (next, Some(spec_action_for_choice(c))),
        None => (next, if next.should_quit { Some(LaunchAction::Quit) } else { None }),
    }
}

/// Whether the picker ended by launching something.
pub open spec fn spec_is_launch(a: Option<LaunchAction>) -> bool {
    a matches Some(LaunchAction::LaunchProject(..)) || a == Some(LaunchAction::LaunchEmpty)
}

impl App {
    /// One round of the picker, given the key pressed in it, if any, and how
    /// many entries the picker lists.
    pub fn step(&mut self, key: Option<Key>, total_options: usize) -> (r: Option<LaunchAction>)
        ensures
            (final(self).key_state(), r) == spec_step(old(self).key_state(), key, total_options),
            final(self).tick == (if spec_is_launch(r) { old(self).tick } else { spec_next_tick(old(self).tick) }),
            final(self).project_infos@ == old(self).project_infos@,
    {
        match key {
            Some(k) => match self.handle_key(k, total_options) {
                Some(choice) => {
                    return Some(action_for_choice(choice));
                },
                None => {},
            },
            None => {},
        }
        self.tick();
        if self.should_quit {
            Some(LaunchAction::Quit)
        } else {
            None
        }
    }
}

/// `str::parse::<u32>`: an optional `+`, then at least one ASCII digit and
/// nothing else, with a value that fits in 32 bits.
pub open spec fn spec_parse_u32(s: Seq<char>) -> Option<u32> {
    let d = spec_unsigned_digits(s);
    if d.len() == 0 || exists|i: int| 0 <= i < d.len() && !spec_is_digit(#[trigger] d[i]) {
        None
    } else if spec_digits_value(d) > u32::MAX {
        None
    } else {
        Some(spec_digits_value(d) as u32)
    }
}

/// Reads a number the way `str::parse::<u32>` does.
pub fn parse_u32(s: &str) -> (r: Option<u32>)
    ensures
        r == spec_parse_u32(s@),
{
    match parse_usize(s) {
        Some(n) => if n <= 4294967295usize {
            Some(n as u32)
        } else {
            None
        },
        None => None,
    }
}

/// Whether the picker may start: the shell nesting level (`SHLVL`) is set
/// to a number of at least 1.
pub open spec fn spec_started_from_shell(shlvl: Option<Seq<char>>) -> bool {
    match shlvl {
        Some(v) => match spec_parse_u32(v) {
            Some(n) => n >= 1,
            None => false,
        },
        None => false,
    }
}

/// Whether the picker may start, given the value of `SHLVL`, if set.
pub fn started_from_shell(shlvl: Option<&str>) -> (r: bool)
    ensures
        r == spec_started_from_shell(crate::paths::opt_str_view(shlvl)),
{
    match shlvl {
        Some(v) => match parse_u32(v) {
            Some(n) => n >= 1,
            None => false,
        },
        None => false,
    }
}

// ---------------------------------------------------------------------------
// Laws.
// ---------------------------------------------------------------------------

/// The selection never leaves the list: when it starts on one of the
/// `total` entries, it stays on one whatever key is pressed.
pub proof fn lemma_selection_stays_in_list(s: AppView, key: Key, total: usize)
    requires
        s.selected_index < total,
    ensures
        spec_handle_key(s, key, total).0.selected_index < total,
{
}

/// A confirmed choice is always one of the listed entries, when the
/// selection is.
pub proof fn lemma_choice_in_list(s: AppView, key: Key, total: usize)
    requires
        s.selected_index < total,
    ensures
        (spec_handle_key(s, key, total).1 matches Some(c) ==> c.0 < total),
{
}

/// Pressing space twice gives back the same state.
pub proof fn lemma_space_twice_restores(s: AppView, total: usize)
    ensures
        spec_handle_key(spec_handle_key(s, Key::Char(' '), total).0, Key::Char(' '), total).0 == s,
{
}

/// Moving down and then up returns to the same entry (the typed number is
/// cleared), unless the selection was already on the last entry.
pub proof fn lemma_up_undoes_down(s: AppView, total: usize)
    requires
        s.selected_index + 1 < total,
    ensures
        spec_handle_key(spec_handle_key(s, Key::Down, total).0, Key::Up, total).0 == (AppView {
            input_buffer: seq![],
            ..s
        }),
{
}

/// Selection stops at the first and last entries: `Up` on the first entry
/// and `Down` on the last one leave it where it is.
pub proof fn lemma_selection_stops_at_ends(s: AppView, total: usize)
    ensures
        s.selected_index == 0 ==> spec_handle_key(s, Key::Up, total).0.selected_index == 0,
        total > 0 && s.selected_index == total - 1 ==> spec_handle_key(s, Key::Down, total).0.selected_index
            == total - 1,
{
}

/// Typing a digit with nothing typed before selects the entry of that
/// number when it is listed; `0` selects the first entry, the empty session.
pub proof fn lemma_typed_digit_selects(s: AppView, c: char, total: usize)
    requires
        s.input_buffer.len() == 0,
        spec_is_digit(c),
        (c as int) - 48 < total,
    ensures
        spec_handle_key(s, Key::Char(c), total).0.selected_index == (c as int) - 48,
        spec_handle_key(s, Key::Char(c), total).0.input_buffer == seq![c],
        spec_handle_key(s, Key::Char(c), total).1 is None,
{
    let buf = s.input_buffer.push(c);
    assert(buf =~= seq![c]);
    assert(spec_unsigned_digits(buf) =~= seq![c]);
    assert(seq![c].drop_last() =~= Seq::<char>::empty());
    assert(spec_digits_value(Seq::<char>::empty()) == 0);
    assert(seq![c].last() == c);
    assert(spec_digits_value(seq![c]) == (c as int) - 48);
    assert(!exists|i: int| 0 <= i < seq![c].len() && !spec_is_digit(#[trigger] seq![c][i]));
}

/// `q` and `Esc` ask to quit and launch nothing; `Space` flips the session
/// choice and nothing else; `Backspace` drops the last typed character.
pub proof fn lemma_simple_keys(s: AppView, total: usize)
    ensures
        spec_handle_key(s, Key::Char('q'), total) == (AppView { should_quit: true, ..s }, None::<(usize, bool)>),
        spec_handle_key(s, Key::Esc, total) == (AppView { should_quit: true, ..s }, None::<(usize, bool)>),
        spec_handle_key(s, Key::Char(' '), total) == (AppView { new_session: !s.new_session, ..s }, None::<(usize, bool)>),
        s.input_buffer.len() > 0 ==> spec_handle_key(s, Key::Backspace, total).0 == (AppView {
            input_buffer: s.input_buffer.drop_last(),
            ..s
        }),
{
}

/// A launched project is one of the listed ones: when the selection is on
/// one of the `total` entries, a launch names entry `i + 1` below `total`
/// (project `i`), and a launch is only ever the answer to a key.
pub proof fn lemma_launch_in_list(s: AppView, key: Option<Key>, total: usize)
    requires
        s.selected_index < total,
    ensures
        spec_step(s, key, total).1 matches Some(LaunchAction::LaunchProject(i, _)) ==> i + 1 < total,
        key is None ==> !spec_is_launch(spec_step(s, key, total).1),
{
    match key {
        Some(k) => lemma_choice_in_list(s, k, total),
        None => {},
    }
}

/// Enter confirms with the current session choice: whenever a key yields a
/// choice, the key is Enter and the choice carries the new-session flag as
/// it was before the key, for a typed number as for the highlighted entry;
/// a typed number is chosen exactly when it reads as a listed entry.
pub proof fn lemma_enter_keeps_session_choice(s: AppView, key: Key, total: usize)
    ensures
        spec_handle_key(s, key, total).1 matches Some(c) ==> key == Key::Enter && c.1 == s.new_session,
        forall|i: usize, b: bool|
            key == Key::Enter && s.input_buffer.len() > 0 ==> (spec_handle_key(s, key, total).1 == Some((i, b))
                <==> (spec_parse_usize(s.input_buffer) == Some(i) && i < total && b == s.new_session)),
{
}

/// Once the picker is asked to quit, no key takes that back.
pub proof fn lemma_quit_is_final(s: AppView, key: Key, total: usize)
    requires
        s.should_quit,
    ensures
        spec_handle_key(s, key, total).0.should_quit,
{
}

/// Enter always clears the typed number, and with nothing typed it confirms
/// the selected entry with the current session choice.
pub proof fn lemma_enter(s: AppView, total: usize)
    ensures
        spec_handle_key(s, Key::Enter, total).0.input_buffer.len() == 0,
        s.input_buffer.len() == 0 ==> spec_handle_key(s, Key::Enter, total).1 == Some(
            (s.selected_index, s.new_session),
        ),
{
}

} // verus!
