use crate::ble::dev::BlePeerDeviceAddress;
use crate::ble::{BlePeerDeviceSharedState, DeviceRegistry, find};
use crate::text::string_from_utf8;
use vstd::prelude::*;
use vstd::utf8::{decode_utf8, valid_utf8};

verus! {

/// The name a peer advertises: its complete local name when the
/// advertisement carries one that is valid UTF-8, the empty name otherwise.
pub open spec fn advertised_name_of(name_is_complete: bool, name: Seq<u8>) -> Seq<char> {
    if name_is_complete && valid_utf8(name) {
        decode_utf8(name)
    } else {
        Seq::empty()
    }
}

/// The name a peer advertises.
pub fn advertised_name(name_is_complete: bool, name: Vec<u8>) -> (r: String)
    ensures
        r@ == advertised_name_of(name_is_complete, name@),
{
    if !name_is_complete {
        return String::new();
    }
    match string_from_utf8(name) {
        Ok(s) => s,
        Err(_) => String::new(),
    }
}

/// Records an advertisement seen while scanning: the peer at `address`
/// gets a fresh entry under its advertised name, replacing any it had.
pub fn record_advertisement<R>(
    registry: &mut DeviceRegistry<R>,
    address: BlePeerDeviceAddress,
    name_is_complete: bool,
    name: Vec<u8>,
)
    requires
        old(registry).wf(),
    ensures
        final(registry).wf(),
        exists|n: String|
            n@ == advertised_name_of(name_is_complete, name@) && match find(old(registry)@, address) {
                Some(i) => final(registry)@ == old(registry)@.update(
                    i,
                    (address, BlePeerDeviceSharedState::discovered(n)),
                ),
                None => final(registry)@ == old(registry)@.push(
                    (address, BlePeerDeviceSharedState::discovered(n)),
                ),
            },
{
    let n = advertised_name(name_is_complete, name);
    registry.insert_discovered(address, n);
}

} // verus!
