//! The rules by which the interfaces of the operating system are made into
//! devices.
//!
//! A device shows up as several HID interfaces that share one instance: one
//! to read from and one to write to, told apart by their usage page. What
//! is learnt of an instance is collected interface by interface; an
//! instance is a device once both interfaces and its name are known.

use vstd::prelude::*;

verus! {

/// The USB vendor of the devices.
pub const HINATA_VID: u16 = 0xF822;

/// The usage page of the interface that is read from.
pub const USAGE_PAGE_READ: u16 = 1;

/// The usage page of the interface that is written to.
pub const USAGE_PAGE_WRITE: u16 = 0x06;

/// What an interface is for.
#[derive(Copy, Clone, Debug, PartialEq, Eq, Structural)]
pub enum InterfaceRole {
    Read,
    Write,
    /// Neither: the interface takes no part.
    Other,
}

/// The role that a usage page stands for.
pub open spec fn role_of(usage_page: u16) -> InterfaceRole {
    if usage_page == USAGE_PAGE_READ {
        InterfaceRole::Read
    } else if usage_page == USAGE_PAGE_WRITE {
        InterfaceRole::Write
    } else {
        InterfaceRole::Other
    }
}

pub fn interface_role(usage_page: u16) -> (role: InterfaceRole)
    ensures
        role == role_of(usage_page),
{
    if usage_page == USAGE_PAGE_READ {
        InterfaceRole::Read
    } else if usage_page == USAGE_PAGE_WRITE {
        InterfaceRole::Write
    } else {
        InterfaceRole::Other
    }
}

/// The instances of `exclude`, as texts.
pub open spec fn texts(exclude: Seq<String>) -> Seq<Seq<char>> {
    Seq::new(exclude.len(), |i: int| exclude[i]@)
}

/// Whether an interface is looked at: it is of the vendor of the devices,
/// and its instance is not among those to leave out.
pub open spec fn is_wanted(vendor_id: u16, instance: Seq<char>, exclude: Seq<Seq<char>>) -> bool {
    vendor_id == HINATA_VID && !exclude.contains(instance)
}

pub fn wanted(vendor_id: u16, instance: &String, exclude: &Vec<String>) -> (yes: bool)
    ensures
        yes == is_wanted(vendor_id, instance@, texts(exclude@)),
{
    if vendor_id != HINATA_VID {
        return false;
    }
    let mut i: usize = 0;
    while i < exclude.len()
        invariant
            i <= exclude.len(),
            forall|j: int| 0 <= j < i ==> texts(exclude@)[j] != instance@,
        decreases exclude.len() - i,
    {
        if exclude[i] == *instance {
            assert(texts(exclude@)[i as int] == instance@);
            return false;
        }
        i += 1;
    }
    true
}

/// What is known so far of one instance. `T` is whatever opens an
/// interface.
pub struct PreDeviceBuilder<T> {
    pub read: Option<T>,
    pub write: Option<T>,
    pub device_name: Option<String>,
    pub pid: Option<u16>,
}

/// An instance of which all is known that makes a device.
pub struct PairedInterfaces<T> {
    pub read: T,
    pub write: T,
    pub device_name: String,
    pub pid: u16,
}

impl<T> PreDeviceBuilder<T> {
    /// What the first interface of an instance tells: the name and the
    /// product of the device.
    pub fn new(device_name: Option<String>, pid: u16) -> (builder: Self)
        ensures
            builder == (PreDeviceBuilder::<T> {
                read: None,
                write: None,
                device_name,
                pid: Some(pid),
            }),
    {
        PreDeviceBuilder { read: None, write: None, device_name, pid: Some(pid) }
    }

    /// Takes one more interface of the instance. It becomes the interface
    /// to read from or to write to after its usage page, in place of an
    /// earlier one of the same role; an interface of another usage page is
    /// left out.
    pub fn record(&mut self, usage_page: u16, interface: T)
        ensures
            *final(self) == match role_of(usage_page) {
                InterfaceRole::Read => PreDeviceBuilder { read: Some(interface), ..*old(self) },
                InterfaceRole::Write => PreDeviceBuilder { write: Some(interface), ..*old(self) },
                InterfaceRole::Other => *old(self),
            },
    {
        match interface_role(usage_page) {
            InterfaceRole::Read => {
                self.read = Some(interface);
            },
            InterfaceRole::Write => {
                self.write = Some(interface);
            },
            InterfaceRole::Other => {},
        }
    }

    /// Whether both interfaces, the name and the product are known.
    pub open spec fn complete(self) -> bool {
        self.read is Some && self.write is Some && self.device_name is Some && self.pid is Some
    }

    /// The device, if the instance is complete.
    pub fn finish(self) -> (paired: Option<PairedInterfaces<T>>)
        ensures
            match paired {
                Some(found) => self.complete() && self.read == Some(found.read) && self.write
                    == Some(found.write) && self.device_name == Some(found.device_name)
                    && self.pid == Some(found.pid),
                None => !self.complete(),
            },
    {
        match (self.read, self.write, self.device_name, self.pid) {
            (Some(read), Some(write), Some(device_name), Some(pid)) => Some(
                PairedInterfaces { read, write, device_name, pid },
            ),
            _ => None,
        }
    }
}

} // verus!
