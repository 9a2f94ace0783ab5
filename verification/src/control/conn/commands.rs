//! The commands of an authenticated connection, as they are written.
//!
//! Each command is a line that ends with a carriage return and a line
//! feed. The arguments are checked before the line is made, so that no
//! argument can break out of its place in the line.

use crate::control::conn::conn::{AuthenticatedConnError, ConnError};
use crate::control::conn::unauthenticated_conn::crlf;
use crate::onion::v2::key::TorSecretKeyV2;
use crate::onion::v3::key::TorSecretKeyV3;
use crate::utils::codec::{base64_text, is_base64};
use crate::utils::quoted::{push_quoted, quoted};
use crate::utils::text::{decimal, push_decimal};
use crate::utils::{
    byte_is_alphanumeric, is_alphanumeric, is_hostname, is_keyword, is_option, is_service_id,
    is_valid_event, is_valid_hostname, is_valid_keyword, is_valid_option, is_valid_service_id, CR,
    EQUALS, LF, SPACE,
};
use std::collections::HashSet;
use vstd::prelude::*;
use vstd::string::StringSliceAdditionalSpecFns;

verus! {

/// An option of `SETCONF` as bytes: the keyword, and the new value unless
/// the option is set back to its default.
pub type ConfOption = (Seq<u8>, Option<Seq<u8>>);

/// The bytes of an option of `SETCONF`.
pub open spec fn conf_option(option: (&str, Option<&str>)) -> ConfOption {
    (
        option.0.spec_bytes(),
        match option.1 {
            Some(value) => Some(value.spec_bytes()),
            None => None,
        },
    )
}

/// The bytes of the options of `SETCONF`.
pub open spec fn conf_options(options: Seq<(&str, Option<&str>)>) -> Seq<ConfOption> {
    Seq::new(options.len(), |i: int| conf_option(options[i]))
}

/// The bytes of texts.
pub open spec fn texts(items: Seq<&str>) -> Seq<Seq<u8>> {
    Seq::new(items.len(), |i: int| items[i].spec_bytes())
}

/// What stands in `SETCONF` for the options: a space and the keyword for
/// each, and an equals sign and the quoted value where a value is set.
pub open spec fn conf_items(options: Seq<ConfOption>) -> Seq<u8>
    decreases options.len(),
{
    if options.len() == 0 {
        Seq::empty()
    } else {
        conf_items(options.drop_last()) + seq![SPACE] + options.last().0 + match options.last().1 {
            Some(value) => seq![EQUALS] + quoted(value),
            None => Seq::empty(),
        }
    }
}

/// The command `SETCONF` for the options.
pub open spec fn set_conf_command(options: Seq<ConfOption>) -> Seq<u8> {
    "SETCONF".spec_bytes() + conf_items(options) + crlf()
}

/// Every keyword of the options is a keyword.
pub open spec fn conf_keys_are_valid(options: Seq<ConfOption>) -> bool {
    forall|i: int| 0 <= i < options.len() ==> is_keyword((#[trigger] options[i]).0)
}

/// The words with a space in front of each.
pub open spec fn spaced(words: Seq<Seq<u8>>) -> Seq<u8>
    decreases words.len(),
{
    if words.len() == 0 {
        Seq::empty()
    } else {
        spaced(words.drop_last()) + seq![SPACE] + words.last()
    }
}

/// The command `GETCONF` for one keyword.
pub open spec fn get_conf_command(option: Seq<u8>) -> Seq<u8> {
    "GETCONF ".spec_bytes() + option + crlf()
}

/// The command `GETINFO` for the keys.
pub open spec fn get_info_command(options: Seq<Seq<u8>>) -> Seq<u8> {
    "GETINFO".spec_bytes() + spaced(options) + crlf()
}

/// The command `SETEVENTS` for the events.
pub open spec fn set_events_command(extended: bool, kinds: Seq<Seq<u8>>) -> Seq<u8> {
    "SETEVENTS".spec_bytes() + (if extended {
        " EXTENDED".spec_bytes()
    } else {
        Seq::empty()
    }) + spaced(kinds) + crlf()
}

/// The command `RESOLVE` for a host name.
pub open spec fn resolve_command(hostname: Seq<u8>) -> Seq<u8> {
    "RESOLVE ".spec_bytes() + hostname + crlf()
}

/// An address of IPv4 in dotted decimal notation.
pub open spec fn dotted(address: Seq<u8>) -> Seq<u8> {
    decimal(address[0] as nat) + seq![0x2eu8] + decimal(address[1] as nat) + seq![0x2eu8] + decimal(
        address[2] as nat,
    ) + seq![0x2eu8] + decimal(address[3] as nat)
}

/// The command `RESOLVE` for the reverse lookup of an address of IPv4.
pub open spec fn reverse_resolve_command(address: Seq<u8>) -> Seq<u8> {
    "RESOLVE mode=reverse ".spec_bytes() + dotted(address) + crlf()
}

/// The command `DEL_ONION` for the identifier of a service.
pub open spec fn del_onion_command(identifier: Seq<u8>) -> Seq<u8> {
    "DEL_ONION ".spec_bytes() + identifier + crlf()
}

/// Every text of `items` is an option.
pub open spec fn all_options(items: Seq<Seq<u8>>) -> bool {
    forall|i: int| 0 <= i < items.len() ==> is_option(#[trigger] items[i])
}

/// Every text of `items` is a keyword.
pub open spec fn all_keywords(items: Seq<Seq<u8>>) -> bool {
    forall|i: int| 0 <= i < items.len() ==> is_keyword(#[trigger] items[i])
}

/// A listener as bytes: the port of the service and the address that
/// connections to it are handed to.
pub type Listener = (u16, Seq<u8>);

/// The bytes of listeners.
pub open spec fn listeners_of(listeners: Seq<(u16, String)>) -> Seq<Listener> {
    Seq::new(listeners.len(), |i: int| (listeners[i].0, vstd::utf8::encode_utf8(listeners[i].1@)))
}

/// A byte allowed in the address of a listener: an ASCII letter or digit,
/// or one of `.`, `:`, `[`, `]` and `%`.
pub open spec fn is_target_byte(b: u8) -> bool {
    is_alphanumeric(b) || b == 0x2e || b == 0x3a || b == 0x5b || b == 0x5d || b == 0x25
}

/// The address of a listener is not empty and holds its bytes only.
pub open spec fn is_target(text: Seq<u8>) -> bool {
    text.len() > 0 && forall|i: int| 0 <= i < text.len() ==> is_target_byte(#[trigger] text[i])
}

/// There is a listener, no port has two, and every address is one.
pub open spec fn listeners_are_valid(listeners: Seq<Listener>) -> bool {
    &&& listeners.len() > 0
    &&& forall|i: int, j: int|
        0 <= i < j < listeners.len() ==> (#[trigger] listeners[i]).0 != (#[trigger] listeners[j]).0
    &&& forall|i: int| 0 <= i < listeners.len() ==> is_target((#[trigger] listeners[i]).1)
}

/// What stands in `ADD_ONION` for the listeners: a space and
/// `Port=port,address` for each.
pub open spec fn ports_text(listeners: Seq<Listener>) -> Seq<u8>
    decreases listeners.len(),
{
    if listeners.len() == 0 {
        Seq::empty()
    } else {
        ports_text(listeners.drop_last()) + " Port=".spec_bytes() + decimal(
            listeners.last().0 as nat,
        ) + seq![0x2cu8] + listeners.last().1
    }
}

/// The flags of `ADD_ONION`, with commas between them. `DiscardPK` is
/// always set: the key is kept by the one who sends it.
pub open spec fn flags_text(detach: bool, non_anonymous: bool, max_streams_close_circuit: bool)
    -> Seq<u8> {
    "DiscardPK".spec_bytes() + (if detach {
        ",Detach".spec_bytes()
    } else {
        Seq::empty()
    }) + (if non_anonymous {
        ",NonAnonymous".spec_bytes()
    } else {
        Seq::empty()
    }) + (if max_streams_close_circuit {
        ",MaxStreamsCloseCircuit".spec_bytes()
    } else {
        Seq::empty()
    })
}

/// What stands in `ADD_ONION` for the greatest number of streams.
pub open spec fn max_streams_text(max_num_streams: Option<u16>) -> Seq<u8> {
    match max_num_streams {
        Some(n) => " MaxStreams=".spec_bytes() + decimal(n as nat),
        None => Seq::empty(),
    }
}

/// The name of the kind of a key.
pub open spec fn key_kind(is_rsa: bool) -> Seq<u8> {
    if is_rsa {
        "RSA1024".spec_bytes()
    } else {
        "ED25519-V3".spec_bytes()
    }
}

/// The command `ADD_ONION`, without the end of the line: the kind of the
/// key and the key, the flags, the greatest number of streams if one is
/// given, and the listeners.
pub open spec fn add_onion_call(
    is_rsa: bool,
    key_blob: Seq<u8>,
    detach: bool,
    non_anonymous: bool,
    max_streams_close_circuit: bool,
    max_num_streams: Option<u16>,
    listeners: Seq<Listener>,
) -> Seq<u8> {
    "ADD_ONION ".spec_bytes() + key_kind(is_rsa) + seq![0x3au8] + key_blob + " Flags=".spec_bytes()
        + flags_text(detach, non_anonymous, max_streams_close_circuit) + max_streams_text(
        max_num_streams,
    ) + ports_text(listeners)
}

/// Writes the command `SETCONF`.
///
/// An option whose keyword is no keyword is refused. For no options there
/// is no command.
pub fn set_conf_request(options: &[(&str, Option<&str>)]) -> (res: Result<
    Option<Vec<u8>>,
    ConnError,
>)
    ensures
        match res {
            Ok(Some(bytes)) => conf_keys_are_valid(conf_options(options@)) && options@.len() > 0
                && bytes@ == set_conf_command(conf_options(options@)),
            Ok(None) => options@.len() == 0,
            Err(e) => !conf_keys_are_valid(conf_options(options@)) && e
                == ConnError::AuthenticatedConnError(AuthenticatedConnError::InvalidKeywordValue),
        },
{
    let ghost model = conf_options(options@);
    let mut call: Vec<u8> = Vec::new();
    call.extend_from_slice("SETCONF".as_bytes());
    let mut i: usize = 0;
    while i < options.len()
        invariant
            i <= options.len(),
            model == conf_options(options@),
            call@ == "SETCONF".spec_bytes() + conf_items(model.take(i as int)),
            forall|j: int| 0 <= j < i ==> is_keyword((#[trigger] model[j]).0),
        decreases options.len() - i,
    {
        let (key, value) = options[i];
        assert(model[i as int] == conf_option(options@[i as int]));
        if !is_valid_keyword(key) {
            return Err(
                ConnError::AuthenticatedConnError(AuthenticatedConnError::InvalidKeywordValue),
            );
        }
        call.push(SPACE);
        call.extend_from_slice(key.as_bytes());
        if let Some(value) = value {
            call.push(EQUALS);
            push_quoted(&mut call, value.as_bytes());
        }
        proof {
            assert(model.take(i + 1).drop_last() =~= model.take(i as int));
        }
        i += 1;
    }
    if options.len() == 0 {
        return Ok(None);
    }
    assert(model.take(i as int) =~= model);
    call.push(CR);
    call.push(LF);
    Ok(Some(call))
}

/// Writes the command `GETCONF`. A text that is no keyword is refused.
pub fn get_conf_request(config_option: &str) -> (res: Result<Vec<u8>, ConnError>)
    ensures
        match res {
            Ok(bytes) => is_keyword(config_option.spec_bytes()) && bytes@ == get_conf_command(
                config_option.spec_bytes(),
            ),
            Err(e) => !is_keyword(config_option.spec_bytes()) && e
                == ConnError::AuthenticatedConnError(AuthenticatedConnError::InvalidKeywordValue),
        },
{
    if !is_valid_keyword(config_option) {
        return Err(ConnError::AuthenticatedConnError(AuthenticatedConnError::InvalidKeywordValue));
    }
    let mut call: Vec<u8> = Vec::new();
    call.extend_from_slice("GETCONF ".as_bytes());
    call.extend_from_slice(config_option.as_bytes());
    call.push(CR);
    call.push(LF);
    Ok(call)
}

/// Appends the words with a space in front of each, as long as `check`
/// takes them.
fn push_spaced(call: &mut Vec<u8>, words: &[&str], keywords: bool) -> (res: bool)
    ensures
        res == if keywords {
            all_keywords(texts(words@))
        } else {
            all_options(texts(words@))
        },
        res ==> final(call)@ == old(call)@ + spaced(texts(words@)),
{
    let ghost model = texts(words@);
    let mut i: usize = 0;
    while i < words.len()
        invariant
            i <= words.len(),
            model == texts(words@),
            call@ == old(call)@ + spaced(model.take(i as int)),
            forall|j: int|
                0 <= j < i ==> if keywords {
                    is_keyword(#[trigger] model[j])
                } else {
                    is_option(#[trigger] model[j])
                },
        decreases words.len() - i,
    {
        let word = words[i];
        assert(model[i as int] == word.spec_bytes());
        let valid = if keywords {
            is_valid_event(word)
        } else {
            is_valid_option(word)
        };
        if !valid {
            return false;
        }
        call.push(SPACE);
        call.extend_from_slice(word.as_bytes());
        proof {
            assert(model.take(i + 1).drop_last() =~= model.take(i as int));
        }
        i += 1;
    }
    assert(model.take(i as int) =~= model);
    true
}

/// Writes the command `GETINFO`.
///
/// A key that is no option is refused. For no keys there is no command.
/// A key may come more than once.
pub fn get_info_request(options: &[&str]) -> (res: Result<Option<Vec<u8>>, ConnError>)
    ensures
        match res {
            Ok(Some(bytes)) => all_options(texts(options@)) && options@.len() > 0 && bytes@
                == get_info_command(texts(options@)),
            Ok(None) => options@.len() == 0,
            Err(e) => !all_options(texts(options@)) && e == ConnError::AuthenticatedConnError(
                AuthenticatedConnError::InvalidKeywordValue,
            ),
        },
{
    let mut call: Vec<u8> = Vec::new();
    call.extend_from_slice("GETINFO".as_bytes());
    if !push_spaced(&mut call, options, false) {
        return Err(ConnError::AuthenticatedConnError(AuthenticatedConnError::InvalidKeywordValue));
    }
    if options.len() == 0 {
        return Ok(None);
    }
    call.push(CR);
    call.push(LF);
    Ok(Some(call))
}

/// Writes the command `SETEVENTS`. A name that is no keyword is refused.
/// With no names the command ends every subscription.
pub fn set_events_request(extended: bool, kinds: &[&str]) -> (res: Result<Vec<u8>, ConnError>)
    ensures
        match res {
            Ok(bytes) => all_keywords(texts(kinds@)) && bytes@ == set_events_command(
                extended,
                texts(kinds@),
            ),
            Err(e) => !all_keywords(texts(kinds@)) && e == ConnError::AuthenticatedConnError(
                AuthenticatedConnError::InvalidEventName,
            ),
        },
{
    let mut call: Vec<u8> = Vec::new();
    call.extend_from_slice("SETEVENTS".as_bytes());
    if extended {
        call.extend_from_slice(" EXTENDED".as_bytes());
    }
    if !push_spaced(&mut call, kinds, true) {
        return Err(ConnError::AuthenticatedConnError(AuthenticatedConnError::InvalidEventName));
    }
    call.push(CR);
    call.push(LF);
    Ok(call)
}

/// Writes the command `RESOLVE`. A text that is no host name is refused.
pub fn resolve_request(hostname: &str) -> (res: Result<Vec<u8>, ConnError>)
    ensures
        match res {
            Ok(bytes) => is_hostname(hostname.spec_bytes()) && bytes@ == resolve_command(
                hostname.spec_bytes(),
            ),
            Err(e) => !is_hostname(hostname.spec_bytes()) && e == ConnError::AuthenticatedConnError(
                AuthenticatedConnError::InvalidHostnameValue,
            ),
        },
{
    if !is_valid_hostname(hostname) {
        return Err(
            ConnError::AuthenticatedConnError(AuthenticatedConnError::InvalidHostnameValue),
        );
    }
    let mut call: Vec<u8> = Vec::new();
    call.extend_from_slice("RESOLVE ".as_bytes());
    call.extend_from_slice(hostname.as_bytes());
    call.push(CR);
    call.push(LF);
    Ok(call)
}

/// Writes the command `RESOLVE` for the reverse lookup of an address of
/// IPv4.
pub fn reverse_resolve_request(address: [u8; 4]) -> (res: Vec<u8>)
    ensures
        res@ == reverse_resolve_command(address@),
{
    let mut call: Vec<u8> = Vec::new();
    call.extend_from_slice("RESOLVE mode=reverse ".as_bytes());
    push_decimal(&mut call, address[0] as u16);
    call.push(0x2e);
    push_decimal(&mut call, address[1] as u16);
    call.push(0x2e);
    push_decimal(&mut call, address[2] as u16);
    call.push(0x2e);
    push_decimal(&mut call, address[3] as u16);
    call.push(CR);
    call.push(LF);
    call
}

/// Writes the command `DEL_ONION`. An identifier with a byte that is no
/// letter, digit, `/` or `=` is refused.
pub fn del_onion_request(identifier_without_dot_onion: &str) -> (res: Result<Vec<u8>, ConnError>)
    ensures
        match res {
            Ok(bytes) => is_service_id(identifier_without_dot_onion.spec_bytes()) && bytes@
                == del_onion_command(identifier_without_dot_onion.spec_bytes()),
            Err(e) => !is_service_id(identifier_without_dot_onion.spec_bytes()) && e
                == ConnError::AuthenticatedConnError(
                AuthenticatedConnError::InvalidOnionServiceIdentifier,
            ),
        },
{
    if !is_valid_service_id(identifier_without_dot_onion) {
        return Err(
            ConnError::AuthenticatedConnError(
                AuthenticatedConnError::InvalidOnionServiceIdentifier,
            ),
        );
    }
    let mut call: Vec<u8> = Vec::new();
    call.extend_from_slice("DEL_ONION ".as_bytes());
    call.extend_from_slice(identifier_without_dot_onion.as_bytes());
    call.push(CR);
    call.push(LF);
    Ok(call)
}

/// Tells whether `text` can be sent as the address of a listener.
fn is_valid_target(text: &[u8]) -> (res: bool)
    ensures
        res == is_target(text@),
{
    if text.len() == 0 {
        return false;
    }
    let mut i: usize = 0;
    while i < text.len()
        invariant
            i <= text.len(),
            forall|j: int| 0 <= j < i ==> is_target_byte(#[trigger] text@[j]),
        decreases text.len() - i,
    {
        let b = text[i];
        if !(byte_is_alphanumeric(b) || b == 0x2e || b == 0x3a || b == 0x5b || b == 0x5d || b
            == 0x25) {
            return false;
        }
        i += 1;
    }
    true
}

/// Tells whether there is a listener, no port has two, and every address
/// is one.
fn check_listeners(listeners: &[(u16, String)]) -> (res: bool)
    ensures
        res == listeners_are_valid(listeners_of(listeners@)),
{
    broadcast use vstd::std_specs::hash::group_hash_axioms;

    let ghost model = listeners_of(listeners@);
    if listeners.len() == 0 {
        return false;
    }
    let mut ports: HashSet<u16> = HashSet::new();
    let mut i: usize = 0;
    while i < listeners.len()
        invariant
            i <= listeners.len(),
            model == listeners_of(listeners@),
            forall|a: int| 0 <= a < i ==> ports@.contains((#[trigger] model[a]).0),
            forall|p: u16|
                ports@.contains(p) ==> exists|a: int| 0 <= a < i && (#[trigger] model[a]).0 == p,
            forall|a: int, b: int|
                0 <= a < b < i ==> (#[trigger] model[a]).0 != (#[trigger] model[b]).0,
            forall|a: int| 0 <= a < i ==> is_target((#[trigger] model[a]).1),
        decreases listeners.len() - i,
    {
        let port = listeners[i].0;
        if !is_valid_target(listeners[i].1.as_str().as_bytes()) {
            assert(!is_target(model[i as int].1));
            return false;
        }
        let ghost seen = ports@;
        if !ports.insert(port) {
            proof {
                let a = choose|a: int| 0 <= a < i && (#[trigger] model[a]).0 == port;
                assert(model[a].0 == model[i as int].0);
            }
            return false;
        }
        assert forall|p: u16| ports@.contains(p) implies exists|a: int|
            0 <= a < i + 1 && (#[trigger] model[a]).0 == p by {
            if p == port {
                assert(model[i as int].0 == p);
            } else {
                assert(seen.contains(p));
                let a = choose|a: int| 0 <= a < i && (#[trigger] model[a]).0 == p;
                assert(model[a].0 == p);
            }
        }
        i += 1;
    }
    true
}

/// Appends the name of the kind of a key.
fn push_key_kind(out: &mut Vec<u8>, is_rsa: bool)
    ensures
        final(out)@ == old(out)@ + key_kind(is_rsa),
{
    if is_rsa {
        out.extend_from_slice("RSA1024".as_bytes());
    } else {
        out.extend_from_slice("ED25519-V3".as_bytes());
    }
}

/// Appends the flags.
fn push_flags(out: &mut Vec<u8>, detach: bool, non_anonymous: bool, max_streams_close_circuit: bool)
    ensures
        final(out)@ == old(out)@ + flags_text(detach, non_anonymous, max_streams_close_circuit),
{
    out.extend_from_slice("DiscardPK".as_bytes());
    if detach {
        out.extend_from_slice(",Detach".as_bytes());
    }
    if non_anonymous {
        out.extend_from_slice(",NonAnonymous".as_bytes());
    }
    if max_streams_close_circuit {
        out.extend_from_slice(",MaxStreamsCloseCircuit".as_bytes());
    }
}

/// Appends the greatest number of streams, if one is given.
fn push_max_streams(out: &mut Vec<u8>, max_num_streams: Option<u16>)
    ensures
        final(out)@ == old(out)@ + max_streams_text(max_num_streams),
{
    if let Some(n) = max_num_streams {
        out.extend_from_slice(" MaxStreams=".as_bytes());
        push_decimal(out, n);
    }
}

/// Writes the command `ADD_ONION`, without the end of the line.
///
/// The command is refused when there is no listener, when a port has two,
/// or when the address of a listener is none. The key is written as the
/// text that it is given as, which holds the characters of base64 only.
fn setup_onion_service_call(
    is_rsa: bool,
    key_blob: &str,
    detach: bool,
    non_anonymous: bool,
    max_streams_close_circuit: bool,
    max_num_streams: Option<u16>,
    listeners: &[(u16, String)],
) -> (res: Result<Vec<u8>, AuthenticatedConnError>)
    requires
        is_base64(key_blob.spec_bytes()),
    ensures
        match res {
            Ok(bytes) => listeners_are_valid(listeners_of(listeners@)) && bytes@ == add_onion_call(
                is_rsa,
                key_blob.spec_bytes(),
                detach,
                non_anonymous,
                max_streams_close_circuit,
                max_num_streams,
                listeners_of(listeners@),
            ),
            Err(e) => !listeners_are_valid(listeners_of(listeners@)) && e
                == AuthenticatedConnError::InvalidListenerSpecification,
        },
{
    if !check_listeners(listeners) {
        return Err(AuthenticatedConnError::InvalidListenerSpecification);
    }
    let ghost model = listeners_of(listeners@);
    let mut res: Vec<u8> = Vec::new();
    res.extend_from_slice("ADD_ONION ".as_bytes());
    push_key_kind(&mut res, is_rsa);
    res.push(0x3a);
    res.extend_from_slice(key_blob.as_bytes());
    res.extend_from_slice(" Flags=".as_bytes());
    push_flags(&mut res, detach, non_anonymous, max_streams_close_circuit);
    push_max_streams(&mut res, max_num_streams);
    let ghost head = res@;
    let mut i: usize = 0;
    while i < listeners.len()
        invariant
            i <= listeners.len(),
            model == listeners_of(listeners@),
            res@ == head + ports_text(model.take(i as int)),
        decreases listeners.len() - i,
    {
        res.extend_from_slice(" Port=".as_bytes());
        push_decimal(&mut res, listeners[i].0);
        res.push(0x2c);
        res.extend_from_slice(listeners[i].1.as_str().as_bytes());
        proof {
            assert(model.take(i + 1).drop_last() =~= model.take(i as int));
        }
        i += 1;
    }
    assert(model.take(i as int) =~= model);
    Ok(res)
}

/// The command `ADD_ONION` for a service of version 3 with the key `key`.
pub open spec fn add_onion_v3_command(
    key: Seq<u8>,
    detach: bool,
    non_anonymous: bool,
    max_streams_close_circuit: bool,
    max_num_streams: Option<u16>,
    listeners: Seq<Listener>,
) -> Seq<u8> {
    add_onion_call(
        false,
        base64_text(key),
        detach,
        non_anonymous,
        max_streams_close_circuit,
        max_num_streams,
        listeners,
    ) + crlf()
}

/// Writes the command `ADD_ONION` for a service of version 3.
///
/// `detach` keeps the service when the connection ends. `non_anonymous`
/// asks for a service of one hop. `max_streams_close_circuit` closes the
/// circuit when `max_num_streams` is reached. Each listener maps a port
/// of the service to an address. There must be a listener, and no port
/// may have two.
pub fn add_onion_v3_request(
    key: &TorSecretKeyV3,
    detach: bool,
    non_anonymous: bool,
    max_streams_close_circuit: bool,
    max_num_streams: Option<u16>,
    listeners: &[(u16, String)],
) -> (res: Result<Vec<u8>, ConnError>)
    ensures
        match res {
            Ok(bytes) => listeners_are_valid(listeners_of(listeners@)) && bytes@
                == add_onion_v3_command(
                key@,
                detach,
                non_anonymous,
                max_streams_close_circuit,
                max_num_streams,
                listeners_of(listeners@),
            ),
            Err(e) => !listeners_are_valid(listeners_of(listeners@)) && e
                == ConnError::AuthenticatedConnError(
                AuthenticatedConnError::InvalidListenerSpecification,
            ),
        },
{
    let blob = key.as_tor_proto_encoded();
    match setup_onion_service_call(
        false,
        blob.as_str(),
        detach,
        non_anonymous,
        max_streams_close_circuit,
        max_num_streams,
        listeners,
    ) {
        Ok(mut call) => {
            call.push(CR);
            call.push(LF);
            Ok(call)
        },
        Err(e) => Err(ConnError::AuthenticatedConnError(e)),
    }
}

/// The command `ADD_ONION` for a service of version 2 with the key `key`.
pub open spec fn add_onion_v2_command(
    key: Seq<u8>,
    detach: bool,
    non_anonymous: bool,
    max_streams_close_circuit: bool,
    max_num_streams: Option<u16>,
    listeners: Seq<Listener>,
) -> Seq<u8> {
    add_onion_call(
        true,
        base64_text(key),
        detach,
        non_anonymous,
        max_streams_close_circuit,
        max_num_streams,
        listeners,
    ) + crlf()
}

/// Writes the command `ADD_ONION` for a service of version 2. The
/// arguments are those of [`add_onion_v3_request`].
pub fn add_onion_v2_request(
    key: &TorSecretKeyV2,
    detach: bool,
    non_anonymous: bool,
    max_streams_close_circuit: bool,
    max_num_streams: Option<u16>,
    listeners: &[(u16, String)],
) -> (res: Result<Vec<u8>, ConnError>)
    ensures
        match res {
            Ok(bytes) => listeners_are_valid(listeners_of(listeners@)) && bytes@
                == add_onion_v2_command(
                key@,
                detach,
                non_anonymous,
                max_streams_close_circuit,
                max_num_streams,
                listeners_of(listeners@),
            ),
            Err(e) => !listeners_are_valid(listeners_of(listeners@)) && e
                == ConnError::AuthenticatedConnError(
                AuthenticatedConnError::InvalidListenerSpecification,
            ),
        },
{
    let blob = key.as_tor_proto_encoded();
    match setup_onion_service_call(
        true,
        blob.as_str(),
        detach,
        non_anonymous,
        max_streams_close_circuit,
        max_num_streams,
        listeners,
    ) {
        Ok(mut call) => {
            call.push(CR);
            call.push(LF);
            Ok(call)
        },
        Err(e) => Err(ConnError::AuthenticatedConnError(e)),
    }
}

} // verus!
