//! The interactive driver's state: the per-turn state machine, intent
//! classification of raw input, the line-editing buffer behind the prompt,
//! and the task dashboard's keyboard handling. Terminal I/O happens
//! outside the library and feeds plain events in.

use vstd::prelude::*;

use crate::text::{
    contains_seq, is_space, lower_seq, starts_with, str_chars, string_from_chars, to_lower_chars,
    chars_start_with, str_contains,
};

verus! {

/// The driver's states.
#[derive(Clone, Copy, Debug, PartialEq, Eq, Structural)]
pub enum ReplState {
    Idle,
    AwaitingInput,
    Orchestrating,
    Shutdown,
}

/// What happened since the last step.
#[derive(Clone, Copy, Debug, PartialEq, Eq, Structural)]
pub enum ReplEvent {
    Started,
    InputReceived,
    TurnSucceeded,
    TurnFailed,
    ShutdownSignal,
}

/// The per-turn machine: the state and how many attempts the current turn
/// has used.
#[derive(Clone, Copy, Debug, PartialEq, Eq, Structural)]
pub struct TurnMachine {
    pub state: ReplState,
    pub attempts: u32,
}

/// The transition relation of the driver: a shutdown signal wins in every
/// state; input starts a turn; a failed turn retries up to three attempts
/// and then returns to waiting.
pub open spec fn spec_step(m: TurnMachine, event: ReplEvent) -> TurnMachine {
    if event == ReplEvent::ShutdownSignal {
        TurnMachine { state: ReplState::Shutdown, attempts: m.attempts }
    } else if m.state == ReplState::Idle && event == ReplEvent::Started {
        TurnMachine { state: ReplState::AwaitingInput, attempts: 0 }
    } else if m.state == ReplState::AwaitingInput && event == ReplEvent::InputReceived {
        TurnMachine { state: ReplState::Orchestrating, attempts: 0 }
    } else if m.state == ReplState::Orchestrating && event == ReplEvent::TurnSucceeded {
        TurnMachine { state: ReplState::AwaitingInput, attempts: 0 }
    } else if m.state == ReplState::Orchestrating && event == ReplEvent::TurnFailed {
        if m.attempts + 1 < 3 {
            TurnMachine { state: ReplState::Orchestrating, attempts: (m.attempts + 1) as u32 }
        } else {
            TurnMachine { state: ReplState::AwaitingInput, attempts: 0 }
        }
    } else {
        m
    }
}

impl TurnMachine {
    /// The machine before anything happened.
    pub fn new() -> (r: TurnMachine)
        ensures
            r.state == ReplState::Idle,
            r.attempts == 0,
    {
        TurnMachine { state: ReplState::Idle, attempts: 0 }
    }

    /// Advance by one event.
    pub fn step(&mut self, event: ReplEvent)
        requires
            old(self).attempts < 3,
        ensures
            *final(self) == spec_step(*old(self), event),
            final(self).attempts < 3,
    {
        if event == ReplEvent::ShutdownSignal {
            self.state = ReplState::Shutdown;
        } else if self.state == ReplState::Idle && event == ReplEvent::Started {
            self.state = ReplState::AwaitingInput;
            self.attempts = 0;
        } else if self.state == ReplState::AwaitingInput && event == ReplEvent::InputReceived {
            self.state = ReplState::Orchestrating;
            self.attempts = 0;
        } else if self.state == ReplState::Orchestrating && event == ReplEvent::TurnSucceeded {
            self.state = ReplState::AwaitingInput;
            self.attempts = 0;
        } else if self.state == ReplState::Orchestrating && event == ReplEvent::TurnFailed {
            if self.attempts + 1 < 3 {
                self.attempts = self.attempts + 1;
            } else {
                self.state = ReplState::AwaitingInput;
                self.attempts = 0;
            }
        }
    }
}

/// A shutdown signal moves every state to `Shutdown` in one step, so the
/// loop exits at the first poll after the signal.
pub proof fn lemma_shutdown_immediate(m: TurnMachine)
    ensures
        spec_step(m, ReplEvent::ShutdownSignal).state == ReplState::Shutdown,
{
}

/// What one line of non-command input asks for.
#[derive(Clone, Copy, Debug, PartialEq, Eq, Structural)]
pub enum Intent {
    Goal,
    SimpleChange,
    Info,
}

/// The input names a long-running goal.
pub open spec fn spec_is_goal(l: Seq<char>) -> bool {
    starts_with(l, "goal:"@)
}

/// The input asks for a simple change.
pub open spec fn spec_is_change(l: Seq<char>) -> bool {
    ||| contains_seq(l, "rename"@)
    ||| contains_seq(l, "modify"@)
    ||| contains_seq(l, "add"@)
    ||| contains_seq(l, "remove"@)
    ||| contains_seq(l, "refactor"@)
    ||| contains_seq(l, "change"@)
    ||| contains_seq(l, "delete"@)
}

/// The intent of one line of input, classified over its lower-cased text:
/// a goal wins, then a change verb, anything else is informational.
pub open spec fn spec_classify(s: Seq<char>) -> Intent {
    let l = lower_seq(s);
    if spec_is_goal(l) {
        Intent::Goal
    } else if spec_is_change(l) {
        Intent::SimpleChange
    } else {
        Intent::Info
    }
}

/// Classify one line of non-command input.
pub fn classify_input(input: &str) -> (r: Intent)
    ensures
        r == spec_classify(input@),
{
    let c = str_chars(input);
    let lower = to_lower_chars(c.as_slice());
    let goal_prefix = str_chars("goal:");
    if chars_start_with(lower.as_slice(), goal_prefix.as_slice()) {
        return Intent::Goal;
    }
    let l = string_from_chars(lower.as_slice());
    if str_contains(l.as_str(), "rename") || str_contains(l.as_str(), "modify")
        || str_contains(l.as_str(), "add") || str_contains(l.as_str(), "remove")
        || str_contains(l.as_str(), "refactor") || str_contains(l.as_str(), "change")
        || str_contains(l.as_str(), "delete") {
        Intent::SimpleChange
    } else {
        Intent::Info
    }
}

/// The slash-commands the driver accepts.
#[derive(Clone, Copy, Debug, PartialEq, Eq, Structural)]
pub enum ReplCommand {
    Help,
    Quit,
    Model,
    Env,
    SetOption,
    Report,
    TimelineView,
    Review,
    Toggle,
    Unknown,
}

/// The command a first token names.
pub open spec fn spec_command(t: Seq<char>) -> ReplCommand {
    if t == "/help"@ {
        ReplCommand::Help
    } else if t == "/quit"@ || t == "/exit"@ {
        ReplCommand::Quit
    } else if t == "/model"@ {
        ReplCommand::Model
    } else if t == "/env"@ {
        ReplCommand::Env
    } else if t == "/set"@ {
        ReplCommand::SetOption
    } else if t == "/report"@ {
        ReplCommand::Report
    } else if t == "/timeline"@ {
        ReplCommand::TimelineView
    } else if t == "/review"@ {
        ReplCommand::Review
    } else if t == "/toggle"@ {
        ReplCommand::Toggle
    } else {
        ReplCommand::Unknown
    }
}

/// Parse the command named by the first token of a `/` line.
pub fn parse_command(token: &str) -> (r: ReplCommand)
    ensures
        r == spec_command(token@),
{
    let t = str_chars(token);
    if crate::text::chars_eq_str(t.as_slice(), "/help") {
        ReplCommand::Help
    } else if crate::text::chars_eq_str(t.as_slice(), "/quit")
        || crate::text::chars_eq_str(t.as_slice(), "/exit") {
        ReplCommand::Quit
    } else if crate::text::chars_eq_str(t.as_slice(), "/model") {
        ReplCommand::Model
    } else if crate::text::chars_eq_str(t.as_slice(), "/env") {
        ReplCommand::Env
    } else if crate::text::chars_eq_str(t.as_slice(), "/set") {
        ReplCommand::SetOption
    } else if crate::text::chars_eq_str(t.as_slice(), "/report") {
        ReplCommand::Report
    } else if crate::text::chars_eq_str(t.as_slice(), "/timeline") {
        ReplCommand::TimelineView
    } else if crate::text::chars_eq_str(t.as_slice(), "/review") {
        ReplCommand::Review
    } else if crate::text::chars_eq_str(t.as_slice(), "/toggle") {
        ReplCommand::Toggle
    } else {
        ReplCommand::Unknown
    }
}

/// One key handed to the line editor.
#[derive(Debug)]
pub enum KeyInput {
    Plain(char),
    CtrlU,
    CtrlW,
    Backspace,
    Tab,
    Escape,
    Paste(String),
}

/// The prompt's line buffer.
#[derive(Debug)]
pub struct LineBuffer {
    pub chars: Vec<char>,
}

/// The bounds a word deletion works from: `e` is the end of the text with
/// trailing whitespace removed, `c` the position after the last remaining
/// whitespace before `e`.
pub open spec fn delete_word_bounds(s: Seq<char>, e: int, c: int) -> bool {
    &&& 0 <= c <= e <= s.len()
    &&& forall|k: int| e <= k < s.len() ==> is_space(s[k])
    &&& (e > 0 ==> !is_space(s[e - 1]))
    &&& (c > 0 ==> is_space(s[c - 1]))
    &&& forall|k: int| c <= k < e ==> !is_space(s[k])
}

/// Word-deletion bounds are unique.
pub proof fn lemma_delete_word_bounds_unique(s: Seq<char>, e1: int, c1: int, e2: int, c2: int)
    requires
        delete_word_bounds(s, e1, c1),
        delete_word_bounds(s, e2, c2),
    ensures
        e1 == e2,
        c1 == c2,
{
    if e1 < e2 {
        assert(is_space(s[e2 - 1]));
        assert(!is_space(s[e2 - 1]));
    }
    if e2 < e1 {
        assert(is_space(s[e1 - 1]));
        assert(!is_space(s[e1 - 1]));
    }
    if c1 < c2 {
        assert(is_space(s[c2 - 1]));
        assert(!is_space(s[c2 - 1]));
    }
    if c2 < c1 {
        assert(is_space(s[c1 - 1]));
        assert(!is_space(s[c1 - 1]));
    }
}

/// The buffer after deleting the trailing word: trailing whitespace goes,
/// then everything back to the last whitespace.
pub open spec fn spec_delete_word(s: Seq<char>) -> Seq<char> {
    let ec = choose|ec: (int, int)| delete_word_bounds(s, ec.0, ec.1);
    s.subrange(0, ec.1)
}

impl LineBuffer {
    /// An empty buffer.
    pub fn new() -> (r: LineBuffer)
        ensures
            r.chars@.len() == 0,
    {
        LineBuffer { chars: Vec::new() }
    }

    /// Apply one key: characters and tabs append, backspace removes the
    /// last character, the control keys clear the line or delete the
    /// trailing word, a paste appends verbatim.
    pub fn apply_key(&mut self, key: KeyInput)
        ensures
            match key {
                KeyInput::Plain(c) => final(self).chars@ == old(self).chars@.push(c),
                KeyInput::Tab => final(self).chars@ == old(self).chars@.push('\t'),
                KeyInput::Backspace => final(self).chars@ == if old(self).chars@.len() > 0 {
                    old(self).chars@.drop_last()
                } else {
                    old(self).chars@
                },
                KeyInput::CtrlU => final(self).chars@.len() == 0,
                KeyInput::Escape => final(self).chars@.len() == 0,
                KeyInput::CtrlW => final(self).chars@ == spec_delete_word(old(self).chars@),
                KeyInput::Paste(s) => final(self).chars@ == old(self).chars@ + s@,
            },
    {
        match key {
            KeyInput::Plain(c) => {
                self.chars.push(c);
            },
            KeyInput::Tab => {
                self.chars.push('\t');
            },
            KeyInput::Backspace => {
                if self.chars.len() > 0 {
                    self.chars.pop();
                    proof {
                        assert(self.chars@ =~= old(self).chars@.drop_last());
                    }
                }
            },
            KeyInput::CtrlU => {
                self.chars.clear();
            },
            KeyInput::Escape => {
                self.chars.clear();
            },
            KeyInput::CtrlW => {
                let n = self.chars.len();
                let mut e: usize = n;
                while e > 0 && crate::text::space_char(self.chars[e - 1])
                    invariant
                        n == self.chars@.len(),
                        e <= n,
                        self.chars@ == old(self).chars@,
                        forall|k: int| e <= k < n ==> is_space(self.chars@[k]),
                    decreases e,
                {
                    e -= 1;
                }
                let mut c: usize = e;
                while c > 0 && !crate::text::space_char(self.chars[c - 1])
                    invariant
                        n == self.chars@.len(),
                        c <= e <= n,
                        self.chars@ == old(self).chars@,
                        forall|k: int| e <= k < n ==> is_space(self.chars@[k]),
                        e > 0 ==> !is_space(self.chars@[e - 1]),
                        forall|k: int| c <= k < e ==> !is_space(self.chars@[k]),
                    decreases c,
                {
                    c -= 1;
                }
                proof {
                    assert(delete_word_bounds(old(self).chars@, e as int, c as int));
                    assert(exists|ec: (int, int)|
                        delete_word_bounds(old(self).chars@, ec.0, ec.1)) by {
                        let w = (e as int, c as int);
                        assert(delete_word_bounds(old(self).chars@, w.0, w.1));
                    }
                    let ec = choose|ec: (int, int)|
                        delete_word_bounds(old(self).chars@, ec.0, ec.1);
                    lemma_delete_word_bounds_unique(
                        old(self).chars@,
                        e as int,
                        c as int,
                        ec.0,
                        ec.1,
                    );
                }
                self.chars.truncate(c);
                proof {
                    assert(self.chars@ =~= old(self).chars@.subrange(0, c as int));
                }
            },
            KeyInput::Paste(s) => {
                let pasted = str_chars(s.as_str());
                let ghost before = self.chars@;
                let n = pasted.len();
                let mut i: usize = 0;
                while i < n
                    invariant
                        n == pasted@.len(),
                        i <= n,
                        pasted@ == s@,
                        self.chars@ == before + s@.subrange(0, i as int),
                    decreases n - i,
                {
                    self.chars.push(pasted[i]);
                    proof {
                        assert(self.chars@ =~= before + s@.subrange(0, i + 1 as int));
                    }
                    i += 1;
                }
                proof {
                    assert(self.chars@ =~= before + s@);
                }
            },
        }
    }

    /// The buffer's text.
    pub fn contents(&self) -> (r: String)
        ensures
            r@ == self.chars@,
    {
        string_from_chars(self.chars.as_slice())
    }
}

/// A task's place in the dashboard.
#[derive(Clone, Copy, Debug, PartialEq, Eq, Structural)]
pub enum TaskStatus {
    Pending,
    Running,
    Paused,
    Cancelled,
}

/// One dashboard row.
#[derive(Debug)]
pub struct TaskItem {
    pub id: usize,
    pub summary: String,
    pub detail: String,
    pub status: TaskStatus,
    pub expanded: bool,
}

/// One key handed to the dashboard.
#[derive(Clone, Copy, Debug, PartialEq, Eq, Structural)]
pub enum DashKey {
    Up,
    Down,
    ToggleExpand,
    PauseResume,
    Cancel,
    Quit,
    Other,
}

/// The pause key's effect on a status: paused resumes, pending or running
/// pauses, anything else is unchanged.
pub open spec fn pause_toggled(s: TaskStatus) -> TaskStatus {
    match s {
        TaskStatus::Paused => TaskStatus::Running,
        TaskStatus::Running => TaskStatus::Paused,
        TaskStatus::Pending => TaskStatus::Paused,
        TaskStatus::Cancelled => TaskStatus::Cancelled,
    }
}

/// Move the dashboard selection by one key; the task list is untouched.
pub fn dashboard_move(selected: usize, len: usize, key: DashKey) -> (r: usize)
    requires
        len > 0 ==> selected < len,
    ensures
        key == DashKey::Up ==> r == if selected > 0 {
            (selected - 1) as int
        } else {
            selected as int
        },
        key == DashKey::Down ==> r == if selected + 1 < len {
            (selected + 1) as int
        } else {
            selected as int
        },
        key != DashKey::Up && key != DashKey::Down ==> r == selected,
        len > 0 ==> r < len,
{
    match key {
        DashKey::Up => if selected > 0 {
            selected - 1
        } else {
            selected
        },
        DashKey::Down => if selected < len && len - selected > 1 {
            selected + 1
        } else {
            selected
        },
        _ => selected,
    }
}

/// Apply a status key to the selected task: cancel cancels, pause toggles,
/// expansion flips; everything else of the task and every other task is
/// unchanged.
pub fn dashboard_update(tasks: &mut Vec<TaskItem>, selected: usize, key: DashKey)
    requires
        selected < old(tasks)@.len(),
    ensures
        final(tasks)@.len() == old(tasks)@.len(),
        forall|i: int|
            0 <= i < old(tasks)@.len() && i != selected ==> final(tasks)@[i] == old(tasks)@[i],
        final(tasks)@[selected as int].id == old(tasks)@[selected as int].id,
        final(tasks)@[selected as int].summary == old(tasks)@[selected as int].summary,
        final(tasks)@[selected as int].detail == old(tasks)@[selected as int].detail,
        key == DashKey::Cancel ==> final(tasks)@[selected as int].status == TaskStatus::Cancelled
            && final(tasks)@[selected as int].expanded == old(tasks)@[selected as int].expanded,
        key == DashKey::PauseResume ==> final(tasks)@[selected as int].status == pause_toggled(
            old(tasks)@[selected as int].status,
        ) && final(tasks)@[selected as int].expanded == old(tasks)@[selected as int].expanded,
        key == DashKey::ToggleExpand ==> final(tasks)@[selected as int].expanded == !old(
            tasks,
        )@[selected as int].expanded && final(tasks)@[selected as int].status == old(
            tasks,
        )@[selected as int].status,
        (key != DashKey::Cancel && key != DashKey::PauseResume && key != DashKey::ToggleExpand)
            ==> final(tasks)@[selected as int] == old(tasks)@[selected as int],
{
    let mut item = tasks.remove(selected);
    match key {
        DashKey::Cancel => {
            item.status = TaskStatus::Cancelled;
        },
        DashKey::PauseResume => {
            item.status = match item.status {
                TaskStatus::Paused => TaskStatus::Running,
                TaskStatus::Running => TaskStatus::Paused,
                TaskStatus::Pending => TaskStatus::Paused,
                TaskStatus::Cancelled => TaskStatus::Cancelled,
            };
        },
        DashKey::ToggleExpand => {
            item.expanded = !item.expanded;
        },
        _ => {},
    }
    let ghost gi = item;
    tasks.insert(selected, item);
    proof {
        assert(tasks@ =~= old(tasks)@.update(selected as int, gi));
    }
}

} // verus!
