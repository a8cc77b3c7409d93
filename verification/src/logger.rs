//! The console log: timestamped messages, kept in two bounded buffers (the
//! console view and the longer stored history).
use vstd::prelude::*;

verus! {

/// How many messages the console keeps.
pub const MAX_CONSOLE_MESSAGES: usize = 1000;
/// How many messages the stored history keeps.
pub const MAX_STORED_MESSAGES: usize = 50000;

#[derive(Clone, Copy, Debug, PartialEq, Eq, Structural)]
pub enum ConsoleMessageType {
    Info,
    Warning,
    Error,
    Debug,
}

/// The current time, from `chrono::Local::now`, as milliseconds since the
/// Unix epoch. It depends on the clock; nothing is stated of it.
#[verifier::external_body]
fn local_now() -> i64 {
    chrono::Local::now().timestamp_millis()
}

#[derive(Debug)]
pub struct ConsoleMessage {
    pub text: String,
    /// When the message was logged, in milliseconds since the Unix epoch.
    pub timestamp: i64,
    pub message_type: ConsoleMessageType,
}

pub struct ConsoleMessageView {
    pub text: Seq<char>,
    pub timestamp: i64,
    pub message_type: ConsoleMessageType,
}

impl View for ConsoleMessage {
    type V = ConsoleMessageView;

    open spec fn view(&self) -> ConsoleMessageView {
        ConsoleMessageView { text: self.text@, timestamp: self.timestamp, message_type: self.message_type }
    }
}

impl Clone for ConsoleMessage {
    fn clone(&self) -> (r: Self)
        ensures
            r@ == self@,
    {
        ConsoleMessage { text: self.text.clone(), timestamp: self.timestamp, message_type: self.message_type }
    }
}

impl ConsoleMessage {
    /// A message stamped with the current local time.
    pub fn new(text: String, message_type: ConsoleMessageType) -> (r: Self)
        ensures
            r.text@ == text@,
            r.message_type == message_type,
    {
        ConsoleMessage { text, timestamp: local_now(), message_type }
    }
}

/// The views of a list of messages.
pub open spec fn messages(v: Seq<ConsoleMessage>) -> Seq<ConsoleMessageView> {
    v.map_values(|m: ConsoleMessage| m@)
}

/// The newest `cap` entries of a list (all of them when there are fewer).
pub open spec fn newest<T>(s: Seq<T>, cap: nat) -> Seq<T> {
    if s.len() > cap {
        s.skip(s.len() - cap)
    } else {
        s
    }
}

pub struct Logger {
    console_messages: Vec<ConsoleMessage>,
    stored_messages: Vec<ConsoleMessage>,
}

pub struct LoggerView {
    pub console: Seq<ConsoleMessageView>,
    pub stored: Seq<ConsoleMessageView>,
}

impl View for Logger {
    type V = LoggerView;

    closed spec fn view(&self) -> LoggerView {
        LoggerView { console: messages(self.console_messages@), stored: messages(self.stored_messages@) }
    }
}

impl LoggerView {
    /// The log after one more message.
    pub open spec fn log(self, m: ConsoleMessageView) -> LoggerView {
        LoggerView {
            console: newest(self.console.push(m), MAX_CONSOLE_MESSAGES as nat),
            stored: newest(self.stored.push(m), MAX_STORED_MESSAGES as nat),
        }
    }
}

/// Appends a message and keeps only the newest `cap` messages.
fn push_bounded(v: &mut Vec<ConsoleMessage>, m: ConsoleMessage, cap: usize)
    ensures
        messages(final(v)@) == newest(messages(old(v)@).push(m@), cap as nat),
{
    let ghost all = messages(v@).push(m@);
    v.push(m);
    assert(messages(v@) =~= all);
    if v.len() > cap {
        let excess = v.len() - cap;
        let mut kept: Vec<ConsoleMessage> = Vec::new();
        let mut i: usize = excess;
        while i < v.len()
            invariant
                excess <= i <= v.len(),
                messages(v@) == all,
                messages(kept@) == all.subrange(excess as int, i as int),
            decreases v.len() - i,
        {
            let ghost before = messages(kept@);
            let c = v[i].clone();
            kept.push(c);
            assert(messages(kept@) =~= before.push(messages(v@)[i as int]));
            assert(messages(kept@) =~= all.subrange(excess as int, i + 1));
            i = i + 1;
        }
        assert(all.subrange(excess as int, all.len() as int) =~= all.skip(excess as int));
        *v = kept;
    }
}

/// The text of a line of program output with its ANSI escape sequences
/// (colours, cursor moves) taken out, as strip-ansi-escapes gives it.
pub uninterp spec fn ansi_stripped(line: Seq<char>) -> Seq<char>;

/// `strip_ansi_escapes::strip` on the line's bytes, read back as text (a
/// lossy UTF-8 reading, as the build log does). The result is a function of
/// the line; it is named, not described.
#[verifier::external_body]
fn strip_ansi(line: &str) -> (r: String)
    ensures
        r@ == ansi_stripped(line@),
{
    String::from_utf8_lossy(&strip_ansi_escapes::strip(line.as_bytes())).into_owned()
}

impl Logger {
    /// An empty log.
    pub fn new() -> (r: Self)
        ensures
            r@.console.len() == 0 && r@.stored.len() == 0,
    {
        let r = Logger { console_messages: Vec::new(), stored_messages: Vec::new() };
        assert(messages(r.console_messages@) =~= Seq::<ConsoleMessageView>::empty());
        assert(messages(r.stored_messages@) =~= Seq::<ConsoleMessageView>::empty());
        r
    }

    /// Adds a message, stamped now, to both buffers.
    pub fn log_message(&mut self, message: String, message_type: ConsoleMessageType)
        ensures
            exists|m: ConsoleMessageView| m.text == message@ && m.message_type == message_type
                && #[trigger] old(self)@.log(m) == final(self)@,
    {
        let new_message = ConsoleMessage::new(message, message_type);
        let ghost m = new_message@;
        push_bounded(&mut self.console_messages, new_message.clone(), MAX_CONSOLE_MESSAGES);
        push_bounded(&mut self.stored_messages, new_message, MAX_STORED_MESSAGES);
        assert(old(self)@.log(m) == self@);
    }

    pub fn info(&mut self, message: String)
        ensures
            exists|m: ConsoleMessageView| m.text == message@ && m.message_type == ConsoleMessageType::Info
                && #[trigger] old(self)@.log(m) == final(self)@,
    {
        self.log_message(message, ConsoleMessageType::Info);
    }

    pub fn warning(&mut self, message: String)
        ensures
            exists|m: ConsoleMessageView| m.text == message@ && m.message_type == ConsoleMessageType::Warning
                && #[trigger] old(self)@.log(m) == final(self)@,
    {
        self.log_message(message, ConsoleMessageType::Warning);
    }

    pub fn error(&mut self, message: String)
        ensures
            exists|m: ConsoleMessageView| m.text == message@ && m.message_type == ConsoleMessageType::Error
                && #[trigger] old(self)@.log(m) == final(self)@,
    {
        self.log_message(message, ConsoleMessageType::Error);
    }

    pub fn debug(&mut self, message: String)
        ensures
            exists|m: ConsoleMessageView| m.text == message@ && m.message_type == ConsoleMessageType::Debug
                && #[trigger] old(self)@.log(m) == final(self)@,
    {
        self.log_message(message, ConsoleMessageType::Debug);
    }

    /// A line of a build's output, logged for the console as plain text (its
    /// colour codes taken out) at debug level.
    pub fn log_build_output(&mut self, line: &str)
        ensures
            exists|m: ConsoleMessageView| m.text == ansi_stripped(line@) && m.message_type == ConsoleMessageType::Debug
                && #[trigger] old(self)@.log(m) == final(self)@,
    {
        let clean = strip_ansi(line);
        self.debug(clean);
    }

    pub fn get_console_messages(&self) -> (r: Vec<ConsoleMessage>)
        ensures
            messages(r@) == self@.console,
    {
        copy_messages(&self.console_messages)
    }

    pub fn get_stored_messages(&self) -> (r: Vec<ConsoleMessage>)
        ensures
            messages(r@) == self@.stored,
    {
        copy_messages(&self.stored_messages)
    }
}

/// The console's order of levels: information, warning, error, then debug.
pub open spec fn level_rank(t: ConsoleMessageType) -> int {
    match t {
        ConsoleMessageType::Info => 0,
        ConsoleMessageType::Warning => 1,
        ConsoleMessageType::Error => 2,
        ConsoleMessageType::Debug => 3,
    }
}

/// Whether the console, set to show `selected`, shows a message of type
/// `t`: at the debug level only debug messages; at any other level the
/// messages of that level and above, debug messages excepted.
pub open spec fn shown_at(t: ConsoleMessageType, selected: ConsoleMessageType) -> bool {
    if selected == ConsoleMessageType::Debug {
        t == ConsoleMessageType::Debug
    } else {
        level_rank(t) >= level_rank(selected) && t != ConsoleMessageType::Debug
    }
}

fn rank(t: ConsoleMessageType) -> (r: u8)
    ensures
        r == level_rank(t),
{
    match t {
        ConsoleMessageType::Info => 0,
        ConsoleMessageType::Warning => 1,
        ConsoleMessageType::Error => 2,
        ConsoleMessageType::Debug => 3,
    }
}

/// Whether a message of type `t` shows at the `selected` level (see `shown_at`).
pub fn is_shown(t: ConsoleMessageType, selected: ConsoleMessageType) -> (r: bool)
    ensures
        r == shown_at(t, selected),
{
    if selected == ConsoleMessageType::Debug {
        t == ConsoleMessageType::Debug
    } else {
        rank(t) >= rank(selected) && t != ConsoleMessageType::Debug
    }
}

/// The messages the console shows at the `selected` level, in order.
pub fn visible_messages(v: &Vec<ConsoleMessage>, selected: ConsoleMessageType) -> (r: Vec<ConsoleMessage>)
    ensures
        messages(r@) == messages(v@).filter(|m: ConsoleMessageView| shown_at(m.message_type, selected)),
{
    let ghost p = |m: ConsoleMessageView| shown_at(m.message_type, selected);
    let ghost mv = messages(v@);
    let mut r: Vec<ConsoleMessage> = Vec::new();
    let mut i: usize = 0;
    while i < v.len()
        invariant
            i <= v.len(),
            mv == messages(v@),
            p == (|m: ConsoleMessageView| shown_at(m.message_type, selected)),
            messages(r@) == mv.take(i as int).filter(p),
        decreases v.len() - i,
    {
        let ghost before = messages(r@);
        proof {
            assert(mv.take(i + 1) =~= mv.take(i as int).push(mv[i as int]));
            mv.take(i as int).lemma_filter_push(mv[i as int], p);
        }
        if is_shown(v[i].message_type, selected) {
            r.push(v[i].clone());
            assert(messages(r@) =~= before.push(mv[i as int]));
        }
        i = i + 1;
    }
    assert(mv.take(i as int) =~= mv);
    r
}

fn copy_messages(v: &Vec<ConsoleMessage>) -> (r: Vec<ConsoleMessage>)
    ensures
        messages(r@) == messages(v@),
{
    let mut r: Vec<ConsoleMessage> = Vec::new();
    let mut i: usize = 0;
    while i < v.len()
        invariant
            i <= v.len(),
            messages(r@) == messages(v@).take(i as int),
        decreases v.len() - i,
    {
        let ghost before = messages(r@);
        let c = v[i].clone();
        r.push(c);
        assert(messages(r@) =~= before.push(messages(v@)[i as int]));
        assert(messages(r@) =~= messages(v@).take(i + 1));
        i = i + 1;
    }
    assert(messages(v@).take(i as int) =~= messages(v@));
    r
}

/// Logging keeps both buffers within their bounds, with the new message last
/// in each.
pub proof fn law_log_is_bounded(l: LoggerView, m: ConsoleMessageView)
    requires
        l.console.len() <= MAX_CONSOLE_MESSAGES,
        l.stored.len() <= MAX_STORED_MESSAGES,
    ensures
        l.log(m).console.len() <= MAX_CONSOLE_MESSAGES,
        l.log(m).stored.len() <= MAX_STORED_MESSAGES,
        l.log(m).console.last() == m,
        l.log(m).stored.last() == m,
{
}

/// Below the bound nothing is dropped: the console is the old console plus
/// the new message.
pub proof fn law_log_below_bound_keeps_all(l: LoggerView, m: ConsoleMessageView)
    requires
        l.console.len() < MAX_CONSOLE_MESSAGES,
    ensures
        l.log(m).console == l.console.push(m),
{
}

} // verus!
