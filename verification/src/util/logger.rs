use vstd::prelude::*;
use vstd::std_specs::convert::{FromSpecImpl, TryFromSpecImpl};

use crate::messages::events::event::Event;
use crate::messages::events::server::{LogEvent, ServerEvent};
use crate::messages::message::Message;

verus! {

/// Severity of a log message, from the most verbose to none at all.
#[derive(Debug, Clone, Copy, PartialEq, Eq, Structural)]
pub enum LogLevel {
    Trace,
    Debug,
    Info,
    Warn,
    Error,
    Off,
}

impl LogLevel {
    /// The numeric code of a level, as it travels on the wire.
    pub open spec fn spec_code(self) -> u8 {
        match self {
            LogLevel::Trace => 0,
            LogLevel::Debug => 1,
            LogLevel::Info => 2,
            LogLevel::Warn => 3,
            LogLevel::Error => 4,
            LogLevel::Off => 5,
        }
    }

    /// The numeric code of this level.
    pub fn code(&self) -> (c: u8)
        ensures
            c == self.spec_code(),
    {
        match self {
            LogLevel::Trace => 0,
            LogLevel::Debug => 1,
            LogLevel::Info => 2,
            LogLevel::Warn => 3,
            LogLevel::Error => 4,
            LogLevel::Off => 5,
        }
    }

    /// The level with a code; every code past the last level means `Off`.
    pub open spec fn spec_from_u8(value: u8) -> LogLevel {
        if value == 0 {
            LogLevel::Trace
        } else if value == 1 {
            LogLevel::Debug
        } else if value == 2 {
            LogLevel::Info
        } else if value == 3 {
            LogLevel::Warn
        } else if value == 4 {
            LogLevel::Error
        } else {
            LogLevel::Off
        }
    }

    /// The level with a code, if there is one.
    pub open spec fn spec_try_from_u64(value: u64) -> Result<LogLevel, ()> {
        if value <= 5 {
            Ok(Self::spec_from_u8(value as u8))
        } else {
            Err(())
        }
    }
}

impl From<u8> for LogLevel {
    fn from(value: u8) -> (r: LogLevel) {
        if value == 0 {
            LogLevel::Trace
        } else if value == 1 {
            LogLevel::Debug
        } else if value == 2 {
            LogLevel::Info
        } else if value == 3 {
            LogLevel::Warn
        } else if value == 4 {
            LogLevel::Error
        } else {
            LogLevel::Off
        }
    }
}

impl FromSpecImpl<u8> for LogLevel {
    open spec fn obeys_from_spec() -> bool {
        true
    }

    open spec fn from_spec(v: u8) -> LogLevel {
        LogLevel::spec_from_u8(v)
    }
}

impl TryFrom<u64> for LogLevel {
    type Error = ();

    fn try_from(value: u64) -> (r: Result<LogLevel, ()>) {
        if value <= 5 {
            Ok(LogLevel::from(value as u8))
        } else {
            Err(())
        }
    }
}

impl TryFromSpecImpl<u64> for LogLevel {
    open spec fn obeys_try_from_spec() -> bool {
        true
    }

    open spec fn try_from_spec(v: u64) -> Result<LogLevel, ()> {
        LogLevel::spec_try_from_u64(v)
    }
}

/// Reading a level back from its code gives the level.
pub proof fn lemma_level_code_roundtrip(level: LogLevel)
    ensures
        LogLevel::spec_from_u8(level.spec_code()) == level,
        LogLevel::spec_try_from_u64(level.spec_code() as u64) == Ok::<LogLevel, ()>(level),
{
}

/// Decides which messages are logged, and turns those into messages for the
/// editor plugin.
pub struct Logger {
    level: u8,
}

impl Logger {
    /// The code of the least severe level that is logged.
    pub closed spec fn spec_level(&self) -> u8 {
        self.level
    }

    /// A logger that logs messages of `level` and more severe ones.
    pub fn new(level: LogLevel) -> (r: Logger)
        ensures
            r.spec_level() == level.spec_code(),
    {
        Logger { level: level.code() }
    }

    /// Logs messages of `level` and more severe ones from now on.
    pub fn set_level(&mut self, level: LogLevel)
        ensures
            final(self).spec_level() == level.spec_code(),
    {
        self.level = level.code();
    }

    /// Whether a message of `level` is logged: it is at least as severe as
    /// the current level, and is not `Off`.
    pub open spec fn spec_would_log(&self, level: LogLevel) -> bool {
        level.spec_code() >= self.spec_level() && level != LogLevel::Off
    }

    /// Whether a message of `level` is logged.
    pub fn would_log(&self, level: LogLevel) -> (r: bool)
        ensures
            r == self.spec_would_log(level),
    {
        level.code() >= self.level && level != LogLevel::Off
    }

    /// A log line for the editor plugin, when `level` is logged.
    pub fn log(&self, level: LogLevel, message: String, client_id: u32) -> (r: Option<Message>)
        ensures
            self.spec_would_log(level) ==> (r matches Some(m) && log_message_of(m) == Some(
                (client_id, message@, level),
            )),
            !self.spec_would_log(level) ==> r is None,
    {
        if self.would_log(level) {
            Some(Self::log_raw_message(level, message, client_id))
        } else {
            None
        }
    }

    /// A log line for the editor plugin, its text made by `cb` only when
    /// `level` is logged.
    pub fn log_cb<F: FnOnce() -> String>(&self, level: LogLevel, client_id: u32, cb: F) -> (r:
        Option<Message>)
        requires
            call_requires(cb, ()),
        ensures
            self.spec_would_log(level) ==> (r matches Some(m) && exists|text: String|
                call_ensures(cb, (), text) && log_message_of(m) == Some(
                    (client_id, text@, level),
                )),
            !self.spec_would_log(level) ==> r is None,
    {
        if self.would_log(level) {
            let text = cb();
            Some(Self::log_raw_message(level, text, client_id))
        } else {
            None
        }
    }

    /// A log line for the editor plugin, whatever the level.
    pub fn log_raw(&self, level: LogLevel, message: String, client_id: u32) -> (r: Message)
        ensures
            log_message_of(r) == Some((client_id, message@, level)),
    {
        Self::log_raw_message(level, message, client_id)
    }

    /// A log line for the editor plugin, whatever the level, its text made
    /// by `cb`.
    pub fn log_raw_cb<F: FnOnce() -> String>(&self, level: LogLevel, client_id: u32, cb: F) -> (r:
        Message)
        requires
            call_requires(cb, ()),
        ensures
            exists|text: String|
                call_ensures(cb, (), text) && log_message_of(r) == Some((client_id, text@, level)),
    {
        let text = cb();
        Self::log_raw_message(level, text, client_id)
    }

    fn log_raw_message(level: LogLevel, message: String, client_id: u32) -> (r: Message)
        ensures
            log_message_of(r) == Some((client_id, message@, level)),
    {
        Message::new(client_id, Event::Server(ServerEvent::Log(LogEvent::new(message, level))))
    }
}

/// The client, text and level of a message that carries a log line.
pub open spec fn log_message_of(m: Message) -> Option<(u32, Seq<char>, LogLevel)> {
    match m.event {
        Event::Server(ServerEvent::Log(e)) => Some((m.client_id, e.message@, e.level)),
        _ => None,
    }
}

/// Messages of level `Off` are never logged, and a logger that logs a
/// level logs every more severe level too.
pub proof fn lemma_would_log_monotone(logger: Logger, a: LogLevel, b: LogLevel)
    ensures
        !logger.spec_would_log(LogLevel::Off),
        logger.spec_would_log(a) && a.spec_code() <= b.spec_code() && b != LogLevel::Off
            ==> logger.spec_would_log(b),
{
}

} // verus!
