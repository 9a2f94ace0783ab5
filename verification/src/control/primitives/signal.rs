//! The signals of the command `SIGNAL`.

use crate::utils::text::str_eq;
use vstd::prelude::*;

verus! {

/// A signal that Tor can be sent.
#[derive(Debug, Copy, Clone, PartialEq, Eq, Structural, PartialOrd, Ord, Hash)]
pub enum TorSignal {
    Reload,
    Shutdown,
    Dump,
    Debug,
    Halt,
    Hup,
    Int,
    Usr1,
    Usr2,
    Term,
    NewNym,
    ClearDNSCache,
    Heartbeat,
    Active,
    Dormant,
}

impl TorSignal {
    /// The signal as the protocol spells it.
    pub open spec fn identifier(self) -> Seq<char> {
        match self {
            TorSignal::Reload => "RELOAD"@,
            TorSignal::Shutdown => "SHUTDOWN"@,
            TorSignal::Dump => "DUMP"@,
            TorSignal::Debug => "DEBUG"@,
            TorSignal::Halt => "HALT"@,
            TorSignal::Hup => "HUP"@,
            TorSignal::Int => "INT"@,
            TorSignal::Usr1 => "USR1"@,
            TorSignal::Usr2 => "USR2"@,
            TorSignal::Term => "TERM"@,
            TorSignal::NewNym => "NEWNYM"@,
            TorSignal::ClearDNSCache => "CLEARDNSCACHE"@,
            TorSignal::Heartbeat => "HEARTBEAT"@,
            TorSignal::Active => "ACTIVE"@,
            TorSignal::Dormant => "DORMANT"@,
        }
    }

    /// The signal as the protocol spells it.
    pub fn as_str(self) -> (res: &'static str)
        ensures
            res@ == self.identifier(),
    {
        match self {
            TorSignal::Reload => "RELOAD",
            TorSignal::Shutdown => "SHUTDOWN",
            TorSignal::Dump => "DUMP",
            TorSignal::Debug => "DEBUG",
            TorSignal::Halt => "HALT",
            TorSignal::Hup => "HUP",
            TorSignal::Int => "INT",
            TorSignal::Usr1 => "USR1",
            TorSignal::Usr2 => "USR2",
            TorSignal::Term => "TERM",
            TorSignal::NewNym => "NEWNYM",
            TorSignal::ClearDNSCache => "CLEARDNSCACHE",
            TorSignal::Heartbeat => "HEARTBEAT",
            TorSignal::Active => "ACTIVE",
            TorSignal::Dormant => "DORMANT",
        }
    }

    /// The signal that a word of the protocol names, if it names one.
    pub open spec fn named(s: Seq<char>) -> Option<TorSignal> {
        if s == "RELOAD"@ {
            Some(TorSignal::Reload)
        } else if s == "SHUTDOWN"@ {
            Some(TorSignal::Shutdown)
        } else if s == "DUMP"@ {
            Some(TorSignal::Dump)
        } else if s == "DEBUG"@ {
            Some(TorSignal::Debug)
        } else if s == "HALT"@ {
            Some(TorSignal::Halt)
        } else if s == "HUP"@ {
            Some(TorSignal::Hup)
        } else if s == "INT"@ {
            Some(TorSignal::Int)
        } else if s == "USR1"@ {
            Some(TorSignal::Usr1)
        } else if s == "USR2"@ {
            Some(TorSignal::Usr2)
        } else if s == "TERM"@ {
            Some(TorSignal::Term)
        } else if s == "NEWNYM"@ {
            Some(TorSignal::NewNym)
        } else if s == "CLEARDNSCACHE"@ {
            Some(TorSignal::ClearDNSCache)
        } else if s == "HEARTBEAT"@ {
            Some(TorSignal::Heartbeat)
        } else if s == "ACTIVE"@ {
            Some(TorSignal::Active)
        } else if s == "DORMANT"@ {
            Some(TorSignal::Dormant)
        } else {
            None
        }
    }

    /// Reads the word of the protocol. A text that is no such word is
    /// refused.
    pub fn from_str(s: &str) -> (res: Result<TorSignal, ()>)
        ensures
            res == match TorSignal::named(s@) {
                Some(kind) => Ok::<TorSignal, ()>(kind),
                None => Err::<TorSignal, ()>(()),
            },
    {
        if str_eq(s, "RELOAD") {
            Ok(TorSignal::Reload)
        } else if str_eq(s, "SHUTDOWN") {
            Ok(TorSignal::Shutdown)
        } else if str_eq(s, "DUMP") {
            Ok(TorSignal::Dump)
        } else if str_eq(s, "DEBUG") {
            Ok(TorSignal::Debug)
        } else if str_eq(s, "HALT") {
            Ok(TorSignal::Halt)
        } else if str_eq(s, "HUP") {
            Ok(TorSignal::Hup)
        } else if str_eq(s, "INT") {
            Ok(TorSignal::Int)
        } else if str_eq(s, "USR1") {
            Ok(TorSignal::Usr1)
        } else if str_eq(s, "USR2") {
            Ok(TorSignal::Usr2)
        } else if str_eq(s, "TERM") {
            Ok(TorSignal::Term)
        } else if str_eq(s, "NEWNYM") {
            Ok(TorSignal::NewNym)
        } else if str_eq(s, "CLEARDNSCACHE") {
            Ok(TorSignal::ClearDNSCache)
        } else if str_eq(s, "HEARTBEAT") {
            Ok(TorSignal::Heartbeat)
        } else if str_eq(s, "ACTIVE") {
            Ok(TorSignal::Active)
        } else if str_eq(s, "DORMANT") {
            Ok(TorSignal::Dormant)
        } else {
            Err(())
        }
    }
}

} // verus!
