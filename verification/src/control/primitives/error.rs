//! The statuses with which Tor reports an error.

use vstd::prelude::*;

verus! {

/// The kind of an error that Tor reports.
#[derive(Debug, Copy, Clone, PartialEq, Eq, Structural, PartialOrd, Ord, Hash)]
pub enum TorErrorKind {
    ResourceExhausted,
    SyntaxErrorProtocol,
    UnrecognizedCmd,
    UnimplementedCmd,
    SyntaxErrorCmdArg,
    UnrecognizedCmdArg,
    AuthRequired,
    BadAuth,
    UnspecifiedTorError,
    InternalError,
    UnrecognizedEntity,
    InvalidConfigValue,
    InvalidDescriptor,
    UnmanagedEntity,
}

impl TorErrorKind {
    /// The status that reports this kind of error.
    pub open spec fn code(self) -> u16 {
        match self {
            TorErrorKind::ResourceExhausted => 451,
            TorErrorKind::SyntaxErrorProtocol => 500,
            TorErrorKind::UnrecognizedCmd => 510,
            TorErrorKind::UnimplementedCmd => 511,
            TorErrorKind::SyntaxErrorCmdArg => 512,
            TorErrorKind::UnrecognizedCmdArg => 513,
            TorErrorKind::AuthRequired => 514,
            TorErrorKind::BadAuth => 515,
            TorErrorKind::UnspecifiedTorError => 550,
            TorErrorKind::InternalError => 551,
            TorErrorKind::UnrecognizedEntity => 552,
            TorErrorKind::InvalidConfigValue => 553,
            TorErrorKind::InvalidDescriptor => 554,
            TorErrorKind::UnmanagedEntity => 555,
        }
    }

    /// The status that reports this kind of error.
    pub fn into(self) -> (res: u32)
        ensures
            res == self.code(),
    {
        match self {
            TorErrorKind::ResourceExhausted => 451,
            TorErrorKind::SyntaxErrorProtocol => 500,
            TorErrorKind::UnrecognizedCmd => 510,
            TorErrorKind::UnimplementedCmd => 511,
            TorErrorKind::SyntaxErrorCmdArg => 512,
            TorErrorKind::UnrecognizedCmdArg => 513,
            TorErrorKind::AuthRequired => 514,
            TorErrorKind::BadAuth => 515,
            TorErrorKind::UnspecifiedTorError => 550,
            TorErrorKind::InternalError => 551,
            TorErrorKind::UnrecognizedEntity => 552,
            TorErrorKind::InvalidConfigValue => 553,
            TorErrorKind::InvalidDescriptor => 554,
            TorErrorKind::UnmanagedEntity => 555,
        }
    }

    /// The kind of error that a status reports, if it reports one.
    pub open spec fn kind_of(code: u16) -> Option<TorErrorKind> {
        if code == 451 {
            Some(TorErrorKind::ResourceExhausted)
        } else if code == 500 {
            Some(TorErrorKind::SyntaxErrorProtocol)
        } else if code == 510 {
            Some(TorErrorKind::UnrecognizedCmd)
        } else if code == 511 {
            Some(TorErrorKind::UnimplementedCmd)
        } else if code == 512 {
            Some(TorErrorKind::SyntaxErrorCmdArg)
        } else if code == 513 {
            Some(TorErrorKind::UnrecognizedCmdArg)
        } else if code == 514 {
            Some(TorErrorKind::AuthRequired)
        } else if code == 515 {
            Some(TorErrorKind::BadAuth)
        } else if code == 550 {
            Some(TorErrorKind::UnspecifiedTorError)
        } else if code == 551 {
            Some(TorErrorKind::InternalError)
        } else if code == 552 {
            Some(TorErrorKind::UnrecognizedEntity)
        } else if code == 553 {
            Some(TorErrorKind::InvalidConfigValue)
        } else if code == 554 {
            Some(TorErrorKind::InvalidDescriptor)
        } else if code == 555 {
            Some(TorErrorKind::UnmanagedEntity)
        } else {
            None
        }
    }

    /// The kind of error that the status `code` reports, if it reports
    /// one.
    pub fn try_from(code: u16) -> (res: Result<TorErrorKind, ()>)
        ensures
            res == match TorErrorKind::kind_of(code) {
                Some(kind) => Ok::<TorErrorKind, ()>(kind),
                None => Err::<TorErrorKind, ()>(()),
            },
    {
        match code {
            451 => Ok(TorErrorKind::ResourceExhausted),
            500 => Ok(TorErrorKind::SyntaxErrorProtocol),
            510 => Ok(TorErrorKind::UnrecognizedCmd),
            511 => Ok(TorErrorKind::UnimplementedCmd),
            512 => Ok(TorErrorKind::SyntaxErrorCmdArg),
            513 => Ok(TorErrorKind::UnrecognizedCmdArg),
            514 => Ok(TorErrorKind::AuthRequired),
            515 => Ok(TorErrorKind::BadAuth),
            550 => Ok(TorErrorKind::UnspecifiedTorError),
            551 => Ok(TorErrorKind::InternalError),
            552 => Ok(TorErrorKind::UnrecognizedEntity),
            553 => Ok(TorErrorKind::InvalidConfigValue),
            554 => Ok(TorErrorKind::InvalidDescriptor),
            555 => Ok(TorErrorKind::UnmanagedEntity),
            _ => Err(()),
        }
    }
}

/// The status of a kind of error reports that kind.
pub proof fn lemma_kind_of_code(kind: TorErrorKind)
    ensures
        TorErrorKind::kind_of(kind.code()) == Some(kind),
{
}

} // verus!
