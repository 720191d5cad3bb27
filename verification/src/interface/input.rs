use vstd::prelude::*;
use vstd::string::StringExecFns;
use std::collections::VecDeque;

verus! {

/// The number of nanoseconds in a second. All times in this crate are whole
/// nanoseconds.
pub const NANOS_PER_SECOND: u128 = 1_000_000_000;

/// How far a command has come, as an exact fraction of times.
#[derive(Debug, Clone, Copy, PartialEq, Eq, Structural)]
pub enum Progress {
    /// The coefficient is `elapsed / span`. It is not clamped: it passes one
    /// when `elapsed` passes `span`, and a `span` of zero gives no finite
    /// coefficient.
    Ratio { elapsed: u128, span: u128 },
    /// The coefficient swings as the sine of the phase
    /// `2 * pi * elapsed / period`.
    Wave { elapsed: u128, period: u128 },
}

impl Progress {
    /// The coefficient is exactly one.
    pub open spec fn is_full(self) -> bool {
        self matches Progress::Ratio { elapsed, span } && elapsed == span && span != 0
    }

    /// The coefficient is exactly `num / den`.
    pub open spec fn is_fraction(self, num: int, den: int) -> bool {
        self matches Progress::Ratio { elapsed, span } && span != 0 && den != 0 && elapsed * den
            == num * span
    }
}

/// How a command spreads its effect over time.
#[derive(Debug, Clone, Copy, PartialEq, Eq, Structural)]
pub enum InterpolationMode {
    /// All at once, on the frame the command is first resolved.
    Instant,
    /// Evenly over `duration` nanoseconds.
    Linear { duration: u128 },
    /// Without end, at the command's amount per second.
    Continuous,
    /// Back and forth without end, once every `period` nanoseconds.
    Oscillation { period: u128 },
}

impl InterpolationMode {
    /// Whether a command of this mode is complete once `elapsed` nanoseconds
    /// have passed since it was issued.
    pub open spec fn spec_is_over(self, elapsed: u128) -> bool {
        match self {
            InterpolationMode::Instant => true,
            InterpolationMode::Linear { duration } => elapsed > duration,
            InterpolationMode::Continuous => false,
            InterpolationMode::Oscillation { period } => false,
        }
    }

    /// How far a command of this mode has come after `elapsed` nanoseconds.
    pub open spec fn spec_progress(self, elapsed: u128) -> Progress {
        match self {
            InterpolationMode::Instant => Progress::Ratio { elapsed: 1, span: 1 },
            InterpolationMode::Linear { duration } => Progress::Ratio { elapsed, span: duration },
            InterpolationMode::Continuous => Progress::Ratio { elapsed, span: NANOS_PER_SECOND },
            InterpolationMode::Oscillation { period } => Progress::Wave { elapsed, period },
        }
    }

    pub fn is_over(&self, elapsed: u128) -> (over: bool)
        ensures
            over == self.spec_is_over(elapsed),
    {
        match self {
            InterpolationMode::Instant => true,
            InterpolationMode::Linear { duration } => elapsed > *duration,
            InterpolationMode::Continuous => false,
            InterpolationMode::Oscillation { period: _ } => false,
        }
    }

    pub fn progress(&self, elapsed: u128) -> (p: Progress)
        ensures
            p == self.spec_progress(elapsed),
    {
        match self {
            InterpolationMode::Instant => Progress::Ratio { elapsed: 1, span: 1 },
            InterpolationMode::Linear { duration } => Progress::Ratio {
                elapsed,
                span: *duration,
            },
            InterpolationMode::Continuous => Progress::Ratio { elapsed, span: NANOS_PER_SECOND },
            InterpolationMode::Oscillation { period } => Progress::Wave {
                elapsed,
                period: *period,
            },
        }
    }
}

/// One command in flight: what it does (`command`, which this crate carries
/// and hands back but never reads), how it is spread over time, and the
/// nanoseconds that have passed since it was issued.
#[derive(Debug, Clone, Copy, PartialEq, Eq)]
pub struct ActiveCommand<P> {
    pub command: P,
    pub interpolation: InterpolationMode,
    pub time_passed: u128,
}

impl<P> ActiveCommand<P> {
    /// Whether the command is complete, and so leaves the queue.
    pub open spec fn spec_is_over(self) -> bool {
        self.interpolation.spec_is_over(self.time_passed)
    }

    /// The command as it is after `time` more nanoseconds. The clock stops
    /// at the largest time it can hold.
    pub open spec fn after(self, time: u128) -> ActiveCommand<P> {
        ActiveCommand {
            command: self.command,
            interpolation: self.interpolation,
            time_passed: if self.time_passed + time > u128::MAX {
                u128::MAX
            } else {
                (self.time_passed + time) as u128
            },
        }
    }
}

/// A key as the command line takes it.
#[derive(Debug, Clone, Copy, PartialEq, Eq, Structural)]
pub enum Key {
    /// A character key; the return key is `'\n'`.
    Char(char),
    /// A character key pressed with the control key held.
    Ctrl(char),
    Backspace,
    Up,
    Down,
    /// Any other key.
    Other,
}

/// What a command does to its object.
#[derive(Debug, Clone, Copy, PartialEq, Eq, Structural)]
pub enum CommandKind {
    /// It moves the object along the chosen axes.
    Move,
    /// It turns the object about the chosen axes.
    Rotate,
}

/// How a typed command asks to be spread over time.
#[derive(Debug, Clone, Copy, PartialEq, Eq, Structural)]
pub enum Pacing {
    Instant,
    Linear,
    Continuous,
}

/// A command line taken apart. The two numbers are carried as they were
/// typed: reading them is left to the caller.
#[derive(Debug, Clone, PartialEq, Eq)]
pub struct CommandRequest {
    pub kind: CommandKind,
    /// Whether the command acts along the x axis; likewise `y` and `z`.
    pub x: bool,
    pub y: bool,
    pub z: bool,
    /// The amount: a distance, or an angle in degrees.
    pub amount: String,
    pub pacing: Pacing,
    /// The number after the pacing letter, in seconds, where one was typed.
    pub duration: Option<String>,
}

/// A `CommandRequest` with its texts as sequences of characters.
pub struct CommandRequestView {
    pub kind: CommandKind,
    pub x: bool,
    pub y: bool,
    pub z: bool,
    pub amount: Seq<char>,
    pub pacing: Pacing,
    pub duration: Option<Seq<char>>,
}

impl View for CommandRequest {
    type V = CommandRequestView;

    open spec fn view(&self) -> CommandRequestView {
        CommandRequestView {
            kind: self.kind,
            x: self.x,
            y: self.y,
            z: self.z,
            amount: self.amount@,
            pacing: self.pacing,
            duration: match self.duration {
                Some(d) => Some(d@),
                None => None,
            },
        }
    }
}

/// The form of a command line: the kind (`m` or `r`), one or more axes, the
/// amount, then at will a pacing letter (`c` or `l`) and its number.
pub const COMMAND_PATTERN: &'static str = r"^([mr])([xyz]+)([\d.-]+)([cl])?([\d.-]+)?$";

/// What the regular expression `pattern` captures in `text`: nothing where
/// `pattern` is no regular expression or does not match; else, for each
/// group of the pattern from the whole match (group 0) on, the text that
/// the group matched, if it took part.
pub uninterp spec fn regex_captures(pattern: Seq<char>, text: Seq<char>) -> Option<
    Seq<Option<Seq<char>>>,
>;

/// The captured texts as sequences of characters.
pub open spec fn captures_view(caps: Seq<Option<String>>) -> Seq<Option<Seq<char>>> {
    caps.map_values(
        |c: Option<String>|
            match c {
                Some(s) => Some(s@),
                None => None,
            },
    )
}

/// Compiles `pattern` with `regex::Regex::new` and matches it against
/// `text` with `Regex::captures`: the leftmost match, one entry for each
/// group of the pattern.
#[verifier::external_body]
fn capture_groups(pattern: &str, text: &str) -> (caps: Option<Vec<Option<String>>>)
    ensures
        match caps {
            Some(v) => regex_captures(pattern@, text@) == Some(captures_view(v@)),
            None => regex_captures(pattern@, text@) is None,
        },
{
    let regex = regex::Regex::new(pattern).ok()?;
    let caps = regex.captures(text)?;
    Some(caps.iter().map(|g| g.map(|m| m.as_str().to_string())).collect())
}

/// Whether every character of `axes` is one of `x`, `y`, `z`.
pub open spec fn are_axes(axes: Seq<char>) -> bool {
    forall|i: int| 0 <= i < axes.len() ==> axes[i] == 'x' || axes[i] == 'y' || axes[i] == 'z'
}

/// What a command line with the captures `caps` asks for, where it is well
/// formed: six groups, of which the first names the kind, the second only
/// axes, the third the amount, and the fourth, if it took part, the pacing.
pub open spec fn spec_interpret(caps: Seq<Option<Seq<char>>>) -> Option<CommandRequestView> {
    if caps.len() == 6 && caps[1] is Some && caps[2] is Some && caps[3] is Some && (caps[1]->0
        == seq!['m'] || caps[1]->0 == seq!['r']) && are_axes(caps[2]->0) && (caps[4] is None
        || caps[4]->0 == seq!['l'] || caps[4]->0 == seq!['c']) {
        Some(
            CommandRequestView {
                kind: if caps[1]->0 == seq!['m'] {
                    CommandKind::Move
                } else {
                    CommandKind::Rotate
                },
                x: caps[2]->0.contains('x'),
                y: caps[2]->0.contains('y'),
                z: caps[2]->0.contains('z'),
                amount: caps[3]->0,
                pacing: if caps[4] is None {
                    Pacing::Instant
                } else if caps[4]->0 == seq!['l'] {
                    Pacing::Linear
                } else {
                    Pacing::Continuous
                },
                duration: caps[5],
            },
        )
    } else {
        None
    }
}

/// Whether `text` is the single character `c`.
pub(crate) fn is_letter(text: &String, c: char) -> (r: bool)
    ensures
        r == (text@ == seq![c]),
{
    let s = text.as_str();
    if s.unicode_len() != 1 {
        return false;
    }
    let r = s.get_char(0) == c;
    proof {
        if r {
            assert(text@ =~= seq![c]);
        }
    }
    r
}

/// Reads what a command line asks for off its captures.
pub fn interpret_captures(caps: &Vec<Option<String>>) -> (r: Option<CommandRequest>)
    ensures
        match r {
            Some(req) => spec_interpret(captures_view(caps@)) == Some(req@),
            None => spec_interpret(captures_view(caps@)) is None,
        },
{
    if caps.len() != 6 {
        return None;
    }
    let ghost groups = captures_view(caps@);
    assert(groups[1] is Some == caps@[1] is Some && groups[2] is Some == caps@[2] is Some);
    let kind = match &caps[1] {
        Some(k) => {
            if is_letter(k, 'm') {
                CommandKind::Move
            } else if is_letter(k, 'r') {
                CommandKind::Rotate
            } else {
                return None;
            }
        },
        None => {
            return None;
        },
    };
    let mut x = false;
    let mut y = false;
    let mut z = false;
    match &caps[2] {
        Some(axes) => {
            let s = axes.as_str();
            let n = s.unicode_len();
            let mut i: usize = 0;
            assert(groups[2] == Some(s@));
            while i < n
                invariant
                    i <= n,
                    n == s@.len(),
                    groups == captures_view(caps@),
                    groups.len() == 6,
                    groups[2] == Some(s@),
                    are_axes(s@.subrange(0, i as int)),
                    x == s@.subrange(0, i as int).contains('x'),
                    y == s@.subrange(0, i as int).contains('y'),
                    z == s@.subrange(0, i as int).contains('z'),
                decreases n - i,
            {
                let c = s.get_char(i);
                let ghost seen = s@.subrange(0, i as int);
                let ghost next = s@.subrange(0, i as int + 1);
                proof {
                    assert(next =~= seen.push(c));
                    assert(next[i as int] == c);
                    assert forall|a: char| next.contains(a) == (seen.contains(a) || a == c) by {
                        if seen.contains(a) {
                            let k = choose|k: int| 0 <= k < seen.len() && seen[k] == a;
                            assert(next[k] == a);
                        }
                    }
                }
                if c == 'x' {
                    x = true;
                } else if c == 'y' {
                    y = true;
                } else if c == 'z' {
                    z = true;
                } else {
                    proof {
                        assert(s@[i as int] == c);
                        assert(!are_axes(s@));
                    }
                    return None;
                }
                i += 1;
            }
            assert(s@.subrange(0, n as int) =~= s@);
        },
        None => {
            return None;
        },
    }
    let amount = match &caps[3] {
        Some(a) => a.clone(),
        None => {
            return None;
        },
    };
    let pacing = match &caps[4] {
        Some(p) => {
            if is_letter(p, 'l') {
                Pacing::Linear
            } else if is_letter(p, 'c') {
                Pacing::Continuous
            } else {
                return None;
            }
        },
        None => Pacing::Instant,
    };
    let duration = match &caps[5] {
        Some(d) => Some(d.clone()),
        None => None,
    };
    Some(CommandRequest { kind, x, y, z, amount, pacing, duration })
}

/// What the caller of `Input::process_key` is to do about the key.
#[derive(Debug, Clone, PartialEq, Eq)]
pub enum KeyAction {
    /// Nothing.
    Idle,
    /// Leave the frame loop.
    Exit,
    /// The line is a well-formed command. The caller reads its numbers,
    /// issues the command and then calls `Input::accept`; where a number
    /// cannot be read, the caller reports the line as malformed instead and
    /// the line stays as it is.
    Submit(CommandRequest),
    /// The line is malformed: report this message. The line stays as it is.
    Reject(String),
}

/// `std::string::String::pop` takes the last character off the string and
/// returns it, or returns `None` and changes nothing where the string is
/// empty.
pub assume_specification[ String::pop ](s: &mut String) -> (c: Option<char>)
    ensures
        old(s)@.len() == 0 ==> c is None && final(s)@ == old(s)@,
        old(s)@.len() > 0 ==> c == Some(old(s)@.last()) && final(s)@ == old(s)@.drop_last(),
;

/// The state of the command line as plain values.
pub struct InputView {
    /// The line being typed.
    pub command: Seq<char>,
    /// The lines that were accepted, the latest first.
    pub history: Seq<Seq<char>>,
    /// Which line of the history is shown, counted from one; zero while the
    /// user's own line is shown.
    pub current_history: nat,
}

impl InputView {
    /// The shown line of the history does not lie past its end.
    pub open spec fn wf(self) -> bool {
        self.current_history <= self.history.len()
    }

    /// The state after an accepted line has been put away.
    pub open spec fn accepted(self) -> InputView {
        InputView {
            command: Seq::empty(),
            history: seq![self.command] + self.history,
            current_history: self.current_history,
        }
    }

    /// The state after the key `k`.
    pub open spec fn after_key(self, k: Key) -> InputView {
        match k {
            Key::Char(c) => if c == '\n' {
                self
            } else {
                InputView { command: self.command.push(c), ..self }
            },
            Key::Backspace => if self.command.len() == 0 {
                self
            } else {
                InputView { command: self.command.drop_last(), ..self }
            },
            Key::Up => if self.history.len() == 0 {
                self
            } else {
                let shown = if self.current_history < self.history.len() {
                    self.current_history + 1
                } else {
                    self.current_history
                };
                InputView {
                    command: self.history[shown - 1],
                    history: self.history,
                    current_history: shown as nat,
                }
            },
            Key::Down => {
                let shown = if self.current_history <= 1 {
                    0
                } else {
                    self.current_history - 1
                };
                InputView {
                    command: if shown == 0 {
                        Seq::empty()
                    } else {
                        self.history[shown - 1]
                    },
                    history: self.history,
                    current_history: shown as nat,
                }
            },
            _ => self,
        }
    }
}

/// What the command line `line` asks for, where it is well formed.
pub open spec fn spec_parse(line: Seq<char>) -> Option<CommandRequestView> {
    match regex_captures(COMMAND_PATTERN@, line) {
        Some(caps) => spec_interpret(caps),
        None => None,
    }
}

/// The message that reports `line` as malformed.
pub open spec fn error_text(line: Seq<char>) -> Seq<char> {
    "error parsing command '"@ + line + seq!['\'']
}

/// Whether `action` is what the key `k` asks of the caller while the line
/// reads `line`.
pub open spec fn is_action_for(action: KeyAction, line: Seq<char>, k: Key) -> bool {
    match k {
        Key::Char(c) => if c == '\n' {
            match spec_parse(line) {
                Some(req) => action matches KeyAction::Submit(r) && r@ == req,
                None => action matches KeyAction::Reject(msg) && msg@ == error_text(line),
            }
        } else {
            action is Idle
        },
        Key::Ctrl(c) => if c == 'c' {
            action is Exit
        } else {
            action is Idle
        },
        _ => action is Idle,
    }
}

/// The command line: the line being typed and the lines accepted so far.
#[derive(Debug)]
pub struct Input {
    command: String,
    history: VecDeque<String>,
    current_history: usize,
}

impl View for Input {
    type V = InputView;

    closed spec fn view(&self) -> InputView {
        InputView {
            command: self.command@,
            history: self.history@.map_values(|s: String| s@),
            current_history: self.current_history as nat,
        }
    }
}

impl Input {
    /// An empty line and no history.
    pub fn new() -> (input: Input)
        ensures
            input@ == (InputView {
                command: Seq::empty(),
                history: Seq::empty(),
                current_history: 0,
            }),
            input@.wf(),
    {
        let input = Input {
            command: String::new(),
            history: VecDeque::new(),
            current_history: 0,
        };
        assert(input@.history =~= Seq::empty());
        input
    }

    /// The line as typed so far.
    pub fn line(&self) -> (text: String)
        ensures
            text@ == self@.command,
    {
        self.command.clone()
    }

    /// Takes one key. The line and the history change as `after_key` says;
    /// the result says what is left for the caller to do.
    pub fn process_key(&mut self, k: Key) -> (action: KeyAction)
        requires
            old(self)@.wf(),
        ensures
            final(self)@ == old(self)@.after_key(k),
            final(self)@.wf(),
            is_action_for(action, old(self)@.command, k),
    {
        match k {
            Key::Char(c) => {
                if c == '\n' {
                    match self.parse_command() {
                        Ok(request) => KeyAction::Submit(request),
                        Err(message) => KeyAction::Reject(message),
                    }
                } else {
                    self.command.push(c);
                    KeyAction::Idle
                }
            },
            Key::Ctrl(c) => {
                if c == 'c' {
                    KeyAction::Exit
                } else {
                    KeyAction::Idle
                }
            },
            Key::Backspace => {
                self.command.pop();
                KeyAction::Idle
            },
            Key::Up => {
                if self.history.len() == 0 {
                    return KeyAction::Idle;
                }
                if self.current_history < self.history.len() {
                    self.current_history += 1;
                }
                self.command = self.get_history(self.current_history);
                KeyAction::Idle
            },
            Key::Down => {
                self.current_history = if self.current_history <= 1 {
                    0
                } else {
                    self.current_history - 1
                };
                if self.current_history == 0 {
                    self.command = String::new();
                } else {
                    self.command = self.get_history(self.current_history);
                }
                KeyAction::Idle
            },
            Key::Other => KeyAction::Idle,
        }
    }

    /// Puts the line into the history, in front of the lines that are
    /// there, and starts a new, empty line. The history has no limit.
    pub fn accept(&mut self)
        requires
            old(self)@.wf(),
        ensures
            final(self)@ == old(self)@.accepted(),
            final(self)@.wf(),
    {
        let line = self.command.clone();
        self.add_history(line);
        self.command = String::new();
    }

    /// Puts `line` into the history, in front of the lines that are there.
    pub fn add_history(&mut self, line: String)
        requires
            old(self)@.wf(),
        ensures
            final(self)@ == (InputView {
                history: seq![line@] + old(self)@.history,
                ..old(self)@
            }),
            final(self)@.wf(),
    {
        let ghost before = self.history@;
        self.history.push_front(line);
        assert(self.history@.map_values(|s: String| s@) =~= seq![line@] + before.map_values(
            |s: String| s@,
        ));
    }

    /// The line of the history that is `i` places from the front, counted
    /// from one; zero stands for the first as well.
    pub fn get_history(&self, i: usize) -> (line: String)
        requires
            i <= 1 ==> self@.history.len() > 0,
            i > 1 ==> i <= self@.history.len(),
        ensures
            line@ == self@.history[if i <= 1 {
                0
            } else {
                i - 1
            }],
    {
        let at: usize = if i <= 1 {
            0
        } else {
            i - 1
        };
        self.history[at].clone()
    }

    /// Takes the line apart as a command. A line that is no command gives
    /// the message that reports it.
    pub fn parse_command(&self) -> (r: Result<CommandRequest, String>)
        ensures
            match spec_parse(self@.command) {
                Some(req) => r matches Ok(request) && request@ == req,
                None => r matches Err(msg) && msg@ == error_text(self@.command),
            },
    {
        let request = match capture_groups(COMMAND_PATTERN, self.command.as_str()) {
            Some(caps) => interpret_captures(&caps),
            None => None,
        };
        match request {
            Some(request) => Ok(request),
            None => {
                let mut message = String::from_str("error parsing command '");
                message.append(self.command.as_str());
                message.push('\'');
                Err(message)
            },
        }
    }
}

} // verus!
