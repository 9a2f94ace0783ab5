//! Events that Tor reports without being asked.

use crate::utils::text::str_eq;
use vstd::prelude::*;

verus! {

/// A reply that Tor sends without being asked: a reply with the status 650.
/// Its lines are handed on as they are.
#[derive(Debug, Clone, PartialEq, Eq)]
pub struct AsyncEvent {
    /// The status of the reply.
    pub code: u16,
    /// The lines of the reply.
    pub lines: Vec<String>,
}

/// The kinds of events that are known.
#[derive(Debug, Copy, Clone, PartialEq, Eq, Structural, PartialOrd, Ord, Hash)]
pub enum AsyncEventKind {
    CircuitStatusChanged,
    StreamStatusChanged,
    ConnectionStatusChanged,
    BandwidthUsedInTheLastSecond,
    LogMessagesDebug,
    LogMessagesInfo,
    LogMessagesNotice,
    LogMessagesWarn,
    LogMessagesErr,
    NewDescriptorsAvailable,
    NewAddressMapping,
    DescriptorsUploadedToUsInOurRoleAsAuthoritativeServer,
    OurDescriptorChanged,
    StatusGeneral,
    StatusClient,
    StatusServer,
    OurSetOfGuardNodesHasChanged,
    NetworkStatusHasChanged,
    BandwidthUsedOnApplicationStream,
    PerCountryClientStats,
    NewConsensusNetworkStatusHasArrived,
    NewCircuitBuildTimeHasBeenSet,
    SignalReceived,
    ConfigurationChanged,
    CircuitStatusChangedSlightly,
    PluggableTransportLaunched,
    BandwidthUsedOnOROrDirOrExitConnection,
    BandwidthUsedByAllStreamsAttachedToACircuit,
    PerCircuitCellStatus,
    TokenBucketsRefilled,
    HiddenServiceDescriptors,
    HiddenServiceDescriptorsContent,
    NetworkLivenessHasChanged,
    PluggableTransportLogs,
    PluggableTransportStatus,
}

impl AsyncEventKind {
    /// The word behind the status 650 that tells the kind of an event.
    pub open spec fn identifier(self) -> Seq<char> {
        match self {
            AsyncEventKind::CircuitStatusChanged => "CIRC"@,
            AsyncEventKind::StreamStatusChanged => "STREAM"@,
            AsyncEventKind::ConnectionStatusChanged => "ORCONN"@,
            AsyncEventKind::BandwidthUsedInTheLastSecond => "BW"@,
            AsyncEventKind::LogMessagesDebug => "DEBUG"@,
            AsyncEventKind::LogMessagesInfo => "INFO"@,
            AsyncEventKind::LogMessagesNotice => "NOTICE"@,
            AsyncEventKind::LogMessagesWarn => "WARN"@,
            AsyncEventKind::LogMessagesErr => "ERR"@,
            AsyncEventKind::NewDescriptorsAvailable => "NEWDESC"@,
            AsyncEventKind::NewAddressMapping => "ADDRMAP"@,
            AsyncEventKind::DescriptorsUploadedToUsInOurRoleAsAuthoritativeServer => "AUTHDIR_NEWDESCS"@,
            AsyncEventKind::OurDescriptorChanged => "DESCCHANGED"@,
            AsyncEventKind::StatusGeneral => "STATUS_GENERAL"@,
            AsyncEventKind::StatusClient => "STATUS_CLIENT"@,
            AsyncEventKind::StatusServer => "STATUS_SERVER"@,
            AsyncEventKind::OurSetOfGuardNodesHasChanged => "GUARD"@,
            AsyncEventKind::NetworkStatusHasChanged => "NS"@,
            AsyncEventKind::BandwidthUsedOnApplicationStream => "STREAM_BW"@,
            AsyncEventKind::PerCountryClientStats => "CLIENTS_SEEN"@,
            AsyncEventKind::NewConsensusNetworkStatusHasArrived => "NEWCONSENSUS"@,
            AsyncEventKind::NewCircuitBuildTimeHasBeenSet => "BUILDTIMEOUT_SET"@,
            AsyncEventKind::SignalReceived => "SIGNAL"@,
            AsyncEventKind::ConfigurationChanged => "CONF_CHANGED"@,
            AsyncEventKind::CircuitStatusChangedSlightly => "CIRC_MINOR"@,
            AsyncEventKind::PluggableTransportLaunched => "TRANSPORT_LAUNCHED"@,
            AsyncEventKind::BandwidthUsedOnOROrDirOrExitConnection => "CONN_BW"@,
            AsyncEventKind::BandwidthUsedByAllStreamsAttachedToACircuit => "CIRC_BW"@,
            AsyncEventKind::PerCircuitCellStatus => "CELL_STATS"@,
            AsyncEventKind::TokenBucketsRefilled => "TB_EMPTY"@,
            AsyncEventKind::HiddenServiceDescriptors => "HS_DESC"@,
            AsyncEventKind::HiddenServiceDescriptorsContent => "HS_DESC_CONTENT"@,
            AsyncEventKind::NetworkLivenessHasChanged => "NETWORK_LIVENESS"@,
            AsyncEventKind::PluggableTransportLogs => "PT_LOG"@,
            AsyncEventKind::PluggableTransportStatus => "PT_STATUS"@,
        }
    }

    /// The word behind the status 650 that tells the kind of an event.
    pub fn get_identifier(self) -> (res: &'static str)
        ensures
            res@ == self.identifier(),
    {
        match self {
            AsyncEventKind::CircuitStatusChanged => "CIRC",
            AsyncEventKind::StreamStatusChanged => "STREAM",
            AsyncEventKind::ConnectionStatusChanged => "ORCONN",
            AsyncEventKind::BandwidthUsedInTheLastSecond => "BW",
            AsyncEventKind::LogMessagesDebug => "DEBUG",
            AsyncEventKind::LogMessagesInfo => "INFO",
            AsyncEventKind::LogMessagesNotice => "NOTICE",
            AsyncEventKind::LogMessagesWarn => "WARN",
            AsyncEventKind::LogMessagesErr => "ERR",
            AsyncEventKind::NewDescriptorsAvailable => "NEWDESC",
            AsyncEventKind::NewAddressMapping => "ADDRMAP",
            AsyncEventKind::DescriptorsUploadedToUsInOurRoleAsAuthoritativeServer => "AUTHDIR_NEWDESCS",
            AsyncEventKind::OurDescriptorChanged => "DESCCHANGED",
            AsyncEventKind::StatusGeneral => "STATUS_GENERAL",
            AsyncEventKind::StatusClient => "STATUS_CLIENT",
            AsyncEventKind::StatusServer => "STATUS_SERVER",
            AsyncEventKind::OurSetOfGuardNodesHasChanged => "GUARD",
            AsyncEventKind::NetworkStatusHasChanged => "NS",
            AsyncEventKind::BandwidthUsedOnApplicationStream => "STREAM_BW",
            AsyncEventKind::PerCountryClientStats => "CLIENTS_SEEN",
            AsyncEventKind::NewConsensusNetworkStatusHasArrived => "NEWCONSENSUS",
            AsyncEventKind::NewCircuitBuildTimeHasBeenSet => "BUILDTIMEOUT_SET",
            AsyncEventKind::SignalReceived => "SIGNAL",
            AsyncEventKind::ConfigurationChanged => "CONF_CHANGED",
            AsyncEventKind::CircuitStatusChangedSlightly => "CIRC_MINOR",
            AsyncEventKind::PluggableTransportLaunched => "TRANSPORT_LAUNCHED",
            AsyncEventKind::BandwidthUsedOnOROrDirOrExitConnection => "CONN_BW",
            AsyncEventKind::BandwidthUsedByAllStreamsAttachedToACircuit => "CIRC_BW",
            AsyncEventKind::PerCircuitCellStatus => "CELL_STATS",
            AsyncEventKind::TokenBucketsRefilled => "TB_EMPTY",
            AsyncEventKind::HiddenServiceDescriptors => "HS_DESC",
            AsyncEventKind::HiddenServiceDescriptorsContent => "HS_DESC_CONTENT",
            AsyncEventKind::NetworkLivenessHasChanged => "NETWORK_LIVENESS",
            AsyncEventKind::PluggableTransportLogs => "PT_LOG",
            AsyncEventKind::PluggableTransportStatus => "PT_STATUS",
        }
    }

    /// The kind that a word of the protocol names, if it names one.
    pub open spec fn named(s: Seq<char>) -> Option<AsyncEventKind> {
        if s == "CIRC"@ {
            Some(AsyncEventKind::CircuitStatusChanged)
        } else if s == "STREAM"@ {
            Some(AsyncEventKind::StreamStatusChanged)
        } else if s == "ORCONN"@ {
            Some(AsyncEventKind::ConnectionStatusChanged)
        } else if s == "BW"@ {
            Some(AsyncEventKind::BandwidthUsedInTheLastSecond)
        } else if s == "DEBUG"@ {
            Some(AsyncEventKind::LogMessagesDebug)
        } else if s == "INFO"@ {
            Some(AsyncEventKind::LogMessagesInfo)
        } else if s == "NOTICE"@ {
            Some(AsyncEventKind::LogMessagesNotice)
        } else if s == "WARN"@ {
            Some(AsyncEventKind::LogMessagesWarn)
        } else if s == "ERR"@ {
            Some(AsyncEventKind::LogMessagesErr)
        } else if s == "NEWDESC"@ {
            Some(AsyncEventKind::NewDescriptorsAvailable)
        } else if s == "ADDRMAP"@ {
            Some(AsyncEventKind::NewAddressMapping)
        } else if s == "AUTHDIR_NEWDESCS"@ {
            Some(AsyncEventKind::DescriptorsUploadedToUsInOurRoleAsAuthoritativeServer)
        } else if s == "DESCCHANGED"@ {
            Some(AsyncEventKind::OurDescriptorChanged)
        } else if s == "STATUS_GENERAL"@ {
            Some(AsyncEventKind::StatusGeneral)
        } else if s == "STATUS_CLIENT"@ {
            Some(AsyncEventKind::StatusClient)
        } else if s == "STATUS_SERVER"@ {
            Some(AsyncEventKind::StatusServer)
        } else if s == "GUARD"@ {
            Some(AsyncEventKind::OurSetOfGuardNodesHasChanged)
        } else if s == "NS"@ {
            Some(AsyncEventKind::NetworkStatusHasChanged)
        } else if s == "STREAM_BW"@ {
            Some(AsyncEventKind::BandwidthUsedOnApplicationStream)
        } else if s == "CLIENTS_SEEN"@ {
            Some(AsyncEventKind::PerCountryClientStats)
        } else if s == "NEWCONSENSUS"@ {
            Some(AsyncEventKind::NewConsensusNetworkStatusHasArrived)
        } else if s == "BUILDTIMEOUT_SET"@ {
            Some(AsyncEventKind::NewCircuitBuildTimeHasBeenSet)
        } else if s == "SIGNAL"@ {
            Some(AsyncEventKind::SignalReceived)
        } else if s == "CONF_CHANGED"@ {
            Some(AsyncEventKind::ConfigurationChanged)
        } else if s == "CIRC_MINOR"@ {
            Some(AsyncEventKind::CircuitStatusChangedSlightly)
        } else if s == "TRANSPORT_LAUNCHED"@ {
            Some(AsyncEventKind::PluggableTransportLaunched)
        } else if s == "CONN_BW"@ {
            Some(AsyncEventKind::BandwidthUsedOnOROrDirOrExitConnection)
        } else if s == "CIRC_BW"@ {
            Some(AsyncEventKind::BandwidthUsedByAllStreamsAttachedToACircuit)
        } else if s == "CELL_STATS"@ {
            Some(AsyncEventKind::PerCircuitCellStatus)
        } else if s == "TB_EMPTY"@ {
            Some(AsyncEventKind::TokenBucketsRefilled)
        } else if s == "HS_DESC"@ {
            Some(AsyncEventKind::HiddenServiceDescriptors)
        } else if s == "HS_DESC_CONTENT"@ {
            Some(AsyncEventKind::HiddenServiceDescriptorsContent)
        } else if s == "NETWORK_LIVENESS"@ {
            Some(AsyncEventKind::NetworkLivenessHasChanged)
        } else if s == "PT_LOG"@ {
            Some(AsyncEventKind::PluggableTransportLogs)
        } else if s == "PT_STATUS"@ {
            Some(AsyncEventKind::PluggableTransportStatus)
        } else {
            None
        }
    }

    /// Reads the word of the protocol. A text that is no such word is
    /// refused.
    #[verifier::rlimit(80)]
    pub fn from_str(s: &str) -> (res: Result<AsyncEventKind, ()>)
        ensures
            res == match AsyncEventKind::named(s@) {
                Some(kind) => Ok::<AsyncEventKind, ()>(kind),
                None => Err::<AsyncEventKind, ()>(()),
            },
    {
        if str_eq(s, "CIRC") {
            Ok(AsyncEventKind::CircuitStatusChanged)
        } else if str_eq(s, "STREAM") {
            Ok(AsyncEventKind::StreamStatusChanged)
        } else if str_eq(s, "ORCONN") {
            Ok(AsyncEventKind::ConnectionStatusChanged)
        } else if str_eq(s, "BW") {
            Ok(AsyncEventKind::BandwidthUsedInTheLastSecond)
        } else if str_eq(s, "DEBUG") {
            Ok(AsyncEventKind::LogMessagesDebug)
        } else if str_eq(s, "INFO") {
            Ok(AsyncEventKind::LogMessagesInfo)
        } else if str_eq(s, "NOTICE") {
            Ok(AsyncEventKind::LogMessagesNotice)
        } else if str_eq(s, "WARN") {
            Ok(AsyncEventKind::LogMessagesWarn)
        } else if str_eq(s, "ERR") {
            Ok(AsyncEventKind::LogMessagesErr)
        } else if str_eq(s, "NEWDESC") {
            Ok(AsyncEventKind::NewDescriptorsAvailable)
        } else if str_eq(s, "ADDRMAP") {
            Ok(AsyncEventKind::NewAddressMapping)
        } else if str_eq(s, "AUTHDIR_NEWDESCS") {
            Ok(AsyncEventKind::DescriptorsUploadedToUsInOurRoleAsAuthoritativeServer)
        } else if str_eq(s, "DESCCHANGED") {
            Ok(AsyncEventKind::OurDescriptorChanged)
        } else if str_eq(s, "STATUS_GENERAL") {
            Ok(AsyncEventKind::StatusGeneral)
        } else if str_eq(s, "STATUS_CLIENT") {
            Ok(AsyncEventKind::StatusClient)
        } else if str_eq(s, "STATUS_SERVER") {
            Ok(AsyncEventKind::StatusServer)
        } else if str_eq(s, "GUARD") {
            Ok(AsyncEventKind::OurSetOfGuardNodesHasChanged)
        } else if str_eq(s, "NS") {
            Ok(AsyncEventKind::NetworkStatusHasChanged)
        } else if str_eq(s, "STREAM_BW") {
            Ok(AsyncEventKind::BandwidthUsedOnApplicationStream)
        } else if str_eq(s, "CLIENTS_SEEN") {
            Ok(AsyncEventKind::PerCountryClientStats)
        } else if str_eq(s, "NEWCONSENSUS") {
            Ok(AsyncEventKind::NewConsensusNetworkStatusHasArrived)
        } else if str_eq(s, "BUILDTIMEOUT_SET") {
            Ok(AsyncEventKind::NewCircuitBuildTimeHasBeenSet)
        } else if str_eq(s, "SIGNAL") {
            Ok(AsyncEventKind::SignalReceived)
        } else if str_eq(s, "CONF_CHANGED") {
            Ok(AsyncEventKind::ConfigurationChanged)
        } else if str_eq(s, "CIRC_MINOR") {
            Ok(AsyncEventKind::CircuitStatusChangedSlightly)
        } else if str_eq(s, "TRANSPORT_LAUNCHED") {
            Ok(AsyncEventKind::PluggableTransportLaunched)
        } else if str_eq(s, "CONN_BW") {
            Ok(AsyncEventKind::BandwidthUsedOnOROrDirOrExitConnection)
        } else if str_eq(s, "CIRC_BW") {
            Ok(AsyncEventKind::BandwidthUsedByAllStreamsAttachedToACircuit)
        } else if str_eq(s, "CELL_STATS") {
            Ok(AsyncEventKind::PerCircuitCellStatus)
        } else if str_eq(s, "TB_EMPTY") {
            Ok(AsyncEventKind::TokenBucketsRefilled)
        } else if str_eq(s, "HS_DESC") {
            Ok(AsyncEventKind::HiddenServiceDescriptors)
        } else if str_eq(s, "HS_DESC_CONTENT") {
            Ok(AsyncEventKind::HiddenServiceDescriptorsContent)
        } else if str_eq(s, "NETWORK_LIVENESS") {
            Ok(AsyncEventKind::NetworkLivenessHasChanged)
        } else if str_eq(s, "PT_LOG") {
            Ok(AsyncEventKind::PluggableTransportLogs)
        } else if str_eq(s, "PT_STATUS") {
            Ok(AsyncEventKind::PluggableTransportStatus)
        } else {
            Err(())
        }
    }
}

} // verus!
