use crate::ble::dev::BleConnHandle;
use crate::ble::uuid::{first_with_uuid, position_by_uuid, BleUUID, GattItem};
use crate::ble::{BleError, GattOperation};
use vstd::prelude::*;

verus! {

pub const BLE_GATT_CHR_PROP_BROADCAST: u8 = 0x01;

pub const BLE_GATT_CHR_PROP_READ: u8 = 0x02;

pub const BLE_GATT_CHR_PROP_WRITE_NO_RSP: u8 = 0x04;

pub const BLE_GATT_CHR_PROP_WRITE: u8 = 0x08;

pub const BLE_GATT_CHR_PROP_NOTIFY: u8 = 0x10;

pub const BLE_GATT_CHR_PROP_INDICATE: u8 = 0x20;

/// The 16-bit identifier of the client characteristic configuration
/// descriptor, 0x2902.
pub const CLIENT_CONFIG_UUID16: u16 = 0x2902;

/// Where a write goes and how: the connection, the attribute, the payload
/// length and whether the peer answers it.
#[derive(Clone, Copy, Debug, PartialEq, Eq, Structural)]
pub struct AttrWrite {
    pub conn_handle: BleConnHandle,
    pub attr_handle: u16,
    pub len: usize,
    pub with_response: bool,
}

/// The next thing a write does.
#[derive(Clone, Copy, Debug, PartialEq, Eq, Structural)]
pub enum WriteStep {
    /// Hand the request, with a payload of `len` bytes, to the host stack.
    Submit { len: u16 },
    /// Wait for the peer's status.
    AwaitStatus,
    /// The write went through.
    Succeeded,
    /// The write failed.
    Failed(BleError),
}

impl AttrWrite {
    /// The first step of a write once the connection's MTU is known.
    pub open spec fn first_step(self, mtu: u16) -> WriteStep {
        if self.len > mtu {
            WriteStep::Failed(BleError::PayloadTooLarge { len: self.len, mtu })
        } else {
            WriteStep::Submit { len: self.len as u16 }
        }
    }

    /// The first step once the connection's MTU is known: a payload longer
    /// than the MTU fails before anything is submitted.
    pub fn on_mtu(&self, mtu: u16) -> (r: WriteStep)
        ensures
            r == self.first_step(mtu),
    {
        if self.len > mtu as usize {
            WriteStep::Failed(BleError::PayloadTooLarge { len: self.len, mtu })
        } else {
            WriteStep::Submit { len: self.len as u16 }
        }
    }

    /// The step after the host stack took the request with return code `rc`.
    pub fn on_submitted(&self, rc: i32) -> (r: WriteStep)
        ensures
            rc != 0 ==> r == WriteStep::Failed(BleError::HostRequest(rc)),
            rc == 0 && self.with_response ==> r == WriteStep::AwaitStatus,
            rc == 0 && !self.with_response ==> r == WriteStep::Succeeded,
    {
        if rc != 0 {
            WriteStep::Failed(BleError::HostRequest(rc))
        } else if self.with_response {
            WriteStep::AwaitStatus
        } else {
            WriteStep::Succeeded
        }
    }

    /// The last step of a write with response, on the peer's status.
    pub fn on_status(&self, status: u16) -> (r: WriteStep)
        ensures
            status == 0 ==> r == WriteStep::Succeeded,
            status != 0 ==> r == WriteStep::Failed(BleError::Remote(status)),
    {
        if status == 0 {
            WriteStep::Succeeded
        } else {
            WriteStep::Failed(BleError::Remote(status))
        }
    }
}

/// A payload longer than the MTU is refused before any request is handed
/// to the stack, and one of exactly the MTU's length is handed over whole.
pub proof fn lemma_mtu_enforced(w: AttrWrite, mtu: u16)
    ensures
        w.len > mtu ==> w.first_step(mtu) == WriteStep::Failed(BleError::PayloadTooLarge { len: w.len, mtu }),
        w.len == mtu ==> w.first_step(mtu) == (WriteStep::Submit { len: mtu }),
{
}

/// A descriptor of a characteristic, on one connection.
#[derive(Clone, Copy, Debug)]
pub struct BlePeerDescriptor {
    pub conn_handle: BleConnHandle,
    pub chr_val_handle: u16,
    pub handle: u16,
    pub uuid: BleUUID,
}

impl BlePeerDescriptor {
    pub fn uuid(&self) -> (r: &BleUUID)
        ensures
            *r == self.uuid,
    {
        &self.uuid
    }

    /// A write of `len` bytes to this descriptor.
    pub fn write_request(&self, len: usize, with_response: bool) -> (r: AttrWrite)
        ensures
            r == (AttrWrite {
                conn_handle: self.conn_handle,
                attr_handle: self.handle,
                len,
                with_response,
            }),
    {
        AttrWrite { conn_handle: self.conn_handle, attr_handle: self.handle, len, with_response }
    }
}

impl GattItem for BlePeerDescriptor {
    open spec fn spec_uuid(&self) -> BleUUID {
        self.uuid
    }

    fn item_uuid(&self) -> (r: &BleUUID) {
        &self.uuid
    }
}

/// The value written to a client configuration descriptor: 1 turns
/// notifications on, 0 turns them off, as a 16-bit little-endian number.
pub open spec fn notify_config_value(enable: bool) -> Seq<u8> {
    if enable {
        seq![1u8, 0u8]
    } else {
        seq![0u8, 0u8]
    }
}

/// A characteristic of a service, on one connection. `end_handle` is the
/// last handle that belongs to it.
#[derive(Clone, Copy, Debug)]
pub struct BlePeerCharacteristic {
    pub conn_handle: BleConnHandle,
    pub def_handle: u16,
    pub val_handle: u16,
    pub end_handle: u16,
    pub properties: u8,
    pub uuid: BleUUID,
}

/// Whether the property bits `p` include `flag`.
pub open spec fn has_property(p: u8, flag: u8) -> bool {
    p & flag != 0
}

impl BlePeerCharacteristic {
    pub fn uuid(&self) -> (r: &BleUUID)
        ensures
            *r == self.uuid,
    {
        &self.uuid
    }

    pub fn can_broadcast(&self) -> (r: bool)
        ensures
            r == has_property(self.properties, BLE_GATT_CHR_PROP_BROADCAST),
    {
        self.properties & BLE_GATT_CHR_PROP_BROADCAST != 0
    }

    pub fn can_indicate(&self) -> (r: bool)
        ensures
            r == has_property(self.properties, BLE_GATT_CHR_PROP_INDICATE),
    {
        self.properties & BLE_GATT_CHR_PROP_INDICATE != 0
    }

    pub fn can_notify(&self) -> (r: bool)
        ensures
            r == has_property(self.properties, BLE_GATT_CHR_PROP_NOTIFY),
    {
        self.properties & BLE_GATT_CHR_PROP_NOTIFY != 0
    }

    pub fn can_read(&self) -> (r: bool)
        ensures
            r == has_property(self.properties, BLE_GATT_CHR_PROP_READ),
    {
        self.properties & BLE_GATT_CHR_PROP_READ != 0
    }

    pub fn can_write(&self) -> (r: bool)
        ensures
            r == has_property(self.properties, BLE_GATT_CHR_PROP_WRITE),
    {
        self.properties & BLE_GATT_CHR_PROP_WRITE != 0
    }

    pub fn can_write_no_response(&self) -> (r: bool)
        ensures
            r == has_property(self.properties, BLE_GATT_CHR_PROP_WRITE_NO_RSP),
    {
        self.properties & BLE_GATT_CHR_PROP_WRITE_NO_RSP != 0
    }

    /// A write of `len` bytes to the characteristic's value, if the
    /// characteristic allows that kind of write.
    pub fn write_request(&self, len: usize, with_response: bool) -> (r: Result<AttrWrite, BleError>)
        ensures
            with_response && !has_property(self.properties, BLE_GATT_CHR_PROP_WRITE) ==> r == Err::<
                AttrWrite,
                BleError,
            >(BleError::NotSupported(GattOperation::Write)),
            !with_response && !has_property(self.properties, BLE_GATT_CHR_PROP_WRITE_NO_RSP) ==> r
                == Err::<AttrWrite, BleError>(BleError::NotSupported(GattOperation::WriteNoResponse)),
            (if with_response {
                has_property(self.properties, BLE_GATT_CHR_PROP_WRITE)
            } else {
                has_property(self.properties, BLE_GATT_CHR_PROP_WRITE_NO_RSP)
            }) ==> r == Ok::<AttrWrite, BleError>(
                AttrWrite {
                    conn_handle: self.conn_handle,
                    attr_handle: self.val_handle,
                    len,
                    with_response,
                },
            ),
    {
        if with_response && !self.can_write() {
            return Err(BleError::NotSupported(GattOperation::Write));
        }
        if !with_response && !self.can_write_no_response() {
            return Err(BleError::NotSupported(GattOperation::WriteNoResponse));
        }
        Ok(
            AttrWrite {
                conn_handle: self.conn_handle,
                attr_handle: self.val_handle,
                len,
                with_response,
            },
        )
    }

    /// Refuses, before anything is asked of the peer, to configure
    /// notifications on a characteristic that cannot notify.
    pub fn check_notify(&self) -> (r: Result<(), BleError>)
        ensures
            r is Ok <==> has_property(self.properties, BLE_GATT_CHR_PROP_NOTIFY),
            r matches Err(e) ==> e == BleError::NotSupported(GattOperation::Notify),
    {
        if self.can_notify() {
            Ok(())
        } else {
            Err(BleError::NotSupported(GattOperation::Notify))
        }
    }

    /// The write that turns notifications on or off, given the
    /// characteristic's descriptors: the value for its client configuration
    /// descriptor, written with response to the first such descriptor.
    pub fn notify_config_write(&self, descriptors: &Vec<BlePeerDescriptor>, enable: bool) -> (r:
        Result<(AttrWrite, [u8; 2]), BleError>)
        ensures
            !has_property(self.properties, BLE_GATT_CHR_PROP_NOTIFY) ==> r == Err::<
                (AttrWrite, [u8; 2]),
                BleError,
            >(BleError::NotSupported(GattOperation::Notify)),
            has_property(self.properties, BLE_GATT_CHR_PROP_NOTIFY) ==> match first_with_uuid(
                descriptors@,
                BleUUID::Uuid16(CLIENT_CONFIG_UUID16),
            ) {
                None => r == Err::<(AttrWrite, [u8; 2]), BleError>(
                    BleError::MissingConfigDescriptor,
                ),
                Some(i) => r matches Ok((w, v)) && v@ == notify_config_value(enable) && w == (
                AttrWrite {
                    conn_handle: descriptors@[i].conn_handle,
                    attr_handle: descriptors@[i].handle,
                    len: 2,
                    with_response: true,
                }),
            },
    {
        self.check_notify()?;
        let cccd = BleUUID::Uuid16(CLIENT_CONFIG_UUID16);
        match position_by_uuid(descriptors, &cccd) {
            None => Err(BleError::MissingConfigDescriptor),
            Some(i) => {
                let value: [u8; 2] = if enable {
                    [1, 0]
                } else {
                    [0, 0]
                };
                assert(value@ =~= notify_config_value(enable));
                Ok((descriptors[i].write_request(2, true), value))
            },
        }
    }
}

impl GattItem for BlePeerCharacteristic {
    open spec fn spec_uuid(&self) -> BleUUID {
        self.uuid
    }

    fn item_uuid(&self) -> (r: &BleUUID) {
        &self.uuid
    }
}

} // verus!
