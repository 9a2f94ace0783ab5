//! What a new onion service is made of.

use crate::onion::common::TorSecretKey;
use crate::onion::v3::key::{TorPublicKeyV3, TorSecretKeyV3};
use std::collections::HashMap;
use vstd::prelude::*;
use vstd::string::StringSliceAdditionalSpecFns;

verus! {

/// A flag of `ADD_ONION`.
#[derive(Debug, Copy, Clone, PartialEq, Eq, Structural, PartialOrd, Ord, Hash)]
pub enum OnionServiceFlag {
    DiscardPK,
    Detach,
    NonAnonymous,
    MaxStreamsCloseCircuit,
}

impl OnionServiceFlag {
    /// The flag as the protocol spells it.
    pub open spec fn name(self) -> Seq<u8> {
        match self {
            OnionServiceFlag::DiscardPK => "DiscardPK".spec_bytes(),
            OnionServiceFlag::Detach => "Detach".spec_bytes(),
            OnionServiceFlag::NonAnonymous => "NonAnonymous".spec_bytes(),
            OnionServiceFlag::MaxStreamsCloseCircuit => "MaxStreamsCloseCircuit".spec_bytes(),
        }
    }

    /// The flag as the protocol spells it.
    pub fn as_str(&self) -> (res: &'static str)
        ensures
            res.spec_bytes() == self.name(),
    {
        match self {
            OnionServiceFlag::DiscardPK => "DiscardPK",
            OnionServiceFlag::Detach => "Detach",
            OnionServiceFlag::NonAnonymous => "NonAnonymous",
            OnionServiceFlag::MaxStreamsCloseCircuit => "MaxStreamsCloseCircuit",
        }
    }
}

/// A set of flags.
#[derive(Debug, Copy, Clone, PartialEq, Eq, Structural)]
pub struct OnionServiceFlags {
    discard_pk: bool,
    detach: bool,
    non_anonymous: bool,
    max_streams_close_circuit: bool,
}

impl View for OnionServiceFlags {
    type V = Set<OnionServiceFlag>;

    closed spec fn view(&self) -> Set<OnionServiceFlag> {
        Set::new(
            |f: OnionServiceFlag|
                match f {
                    OnionServiceFlag::DiscardPK => self.discard_pk,
                    OnionServiceFlag::Detach => self.detach,
                    OnionServiceFlag::NonAnonymous => self.non_anonymous,
                    OnionServiceFlag::MaxStreamsCloseCircuit => self.max_streams_close_circuit,
                },
        )
    }
}

impl OnionServiceFlags {
    /// The empty set.
    pub fn new() -> (res: OnionServiceFlags)
        ensures
            res@ == Set::<OnionServiceFlag>::empty(),
    {
        let res = OnionServiceFlags {
            discard_pk: false,
            detach: false,
            non_anonymous: false,
            max_streams_close_circuit: false,
        };
        res
    }

    /// Tells whether `flag` is in the set.
    pub fn contains(&self, flag: OnionServiceFlag) -> (res: bool)
        ensures
            res == self@.contains(flag),
    {
        match flag {
            OnionServiceFlag::DiscardPK => self.discard_pk,
            OnionServiceFlag::Detach => self.detach,
            OnionServiceFlag::NonAnonymous => self.non_anonymous,
            OnionServiceFlag::MaxStreamsCloseCircuit => self.max_streams_close_circuit,
        }
    }

    /// Puts `flag` into the set.
    pub fn insert(&mut self, flag: OnionServiceFlag)
        ensures
            final(self)@ == old(self)@.insert(flag),
    {
        match flag {
            OnionServiceFlag::DiscardPK => {
                self.discard_pk = true;
            },
            OnionServiceFlag::Detach => {
                self.detach = true;
            },
            OnionServiceFlag::NonAnonymous => {
                self.non_anonymous = true;
            },
            OnionServiceFlag::MaxStreamsCloseCircuit => {
                self.max_streams_close_circuit = true;
            },
        }
    }
}

/// Collects what a new onion service is made of.
pub struct OnionServiceBuilder {
    key: Option<TorSecretKey>,
    ports_mapping: HashMap<u16, String>,
    max_streams: Option<u16>,
    client_auth: Vec<(String, String)>,
    onion_service_flags: OnionServiceFlags,
}

impl OnionServiceBuilder {
    /// The ports that are mapped, each with the address that it leads to.
    pub closed spec fn mappings(&self) -> Map<u16, Seq<char>> {
        self.ports_mapping@.map_values(|local: String| local@)
    }

    /// The greatest number of streams, if one is set.
    pub closed spec fn max_streams(&self) -> Option<u16> {
        self.max_streams
    }

    /// The flags.
    pub closed spec fn flags(&self) -> Set<OnionServiceFlag> {
        self.onion_service_flags@
    }

    /// The key, if one is set.
    pub closed spec fn key(&self) -> Option<TorSecretKey> {
        self.key
    }

    /// A builder with nothing set.
    pub fn new() -> (res: OnionServiceBuilder)
        ensures
            res.mappings() == Map::<u16, Seq<char>>::empty(),
            res.max_streams() is None,
            res.flags() == Set::<OnionServiceFlag>::empty(),
            res.key() is None,
    {
        let res = OnionServiceBuilder {
            key: None,
            ports_mapping: HashMap::new(),
            max_streams: None,
            client_auth: Vec::new(),
            onion_service_flags: OnionServiceFlags::new(),
        };
        assert(res.mappings() =~= Map::<u16, Seq<char>>::empty());
        res
    }

    /// Sets the key of the service. Nothing else changes.
    pub fn set_key(&mut self, sk: TorSecretKey)
        ensures
            final(self).key() == Some(sk),
            final(self).mappings() == old(self).mappings(),
            final(self).max_streams() == old(self).max_streams(),
            final(self).flags() == old(self).flags(),
    {
        self.key = Some(sk);
    }

    /// Sets the greatest number of streams. Nothing else changes.
    pub fn set_max_streams(&mut self, streams: u16)
        ensures
            final(self).max_streams() == Some(streams),
            final(self).mappings() == old(self).mappings(),
            final(self).flags() == old(self).flags(),
            final(self).key() == old(self).key(),
    {
        self.max_streams = Some(streams);
    }

    /// Maps the port `remote` of the service to the address `local`.
    ///
    /// A port that is mapped already leads to `local` from now on. Every
    /// other port leads where it led, no other port is added, and nothing
    /// else changes.
    pub fn set_port_mapping(&mut self, local: String, remote: u16)
        ensures
            final(self).mappings() == old(self).mappings().insert(remote, local@),
            final(self).max_streams() == old(self).max_streams(),
            final(self).flags() == old(self).flags(),
            final(self).key() == old(self).key(),
    {
        broadcast use vstd::std_specs::hash::group_hash_axioms;

        let _ = self.ports_mapping.insert(remote, local);
        assert(self.mappings() =~= old(self).mappings().insert(remote, local@));
    }

    /// Sets the flags of the service. Nothing else changes.
    pub fn set_flags(&mut self, flags: OnionServiceFlags)
        ensures
            final(self).flags() == flags@,
            final(self).mappings() == old(self).mappings(),
            final(self).max_streams() == old(self).max_streams(),
            final(self).key() == old(self).key(),
    {
        self.onion_service_flags = flags;
    }
}

/// The keys of a service that runs.
pub enum RunningOnionServiceKeyPair {
    V3(TorPublicKeyV3, TorSecretKeyV3),
}

/// A service that runs.
pub struct RunningOnionService {
    pub flags: OnionServiceFlags,
    pub key_pair: RunningOnionServiceKeyPair,
    pub client_auth: Vec<(String, String)>,
}

} // verus!
