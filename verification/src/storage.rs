//! The typed face of the persistent store: which entries there are, under which keys
//! they lie, and how their values turn into bytes and back.

use crate::text::text_of_utf8;
use std::marker::PhantomData;
use vstd::prelude::*;
use vstd::string::*;
use vstd::utf8::{encode_utf8, valid_utf8};

verus! {

/// A type whose values can lie in the store.
pub trait EntryType: Sized {
    /// The bytes that stand for a value.
    spec fn encoding(&self) -> Seq<u8>;

    /// Whether bytes stand for a value.
    spec fn decodable(bytes: Seq<u8>) -> bool;

    /// Whatever was encoded can be decoded.
    proof fn encoding_is_decodable(&self)
        ensures
            Self::decodable(self.encoding()),
    ;

    fn to_bytes(&self) -> (bytes: Vec<u8>)
        ensures
            bytes@ == self.encoding(),
    ;

    fn from_bytes(bytes: Vec<u8>) -> (value: Self)
        requires
            Self::decodable(bytes@),
        ensures
            value.encoding() == bytes@,
    ;
}

impl EntryType for String {
    open spec fn encoding(&self) -> Seq<u8> {
        encode_utf8(self@)
    }

    open spec fn decodable(bytes: Seq<u8>) -> bool {
        valid_utf8(bytes)
    }

    proof fn encoding_is_decodable(&self) {
        vstd::utf8::encode_utf8_valid_utf8(self@);
    }

    fn to_bytes(&self) -> (bytes: Vec<u8>) {
        self.as_str().as_bytes_vec()
    }

    fn from_bytes(bytes: Vec<u8>) -> (value: String) {
        proof {
            vstd::utf8::decode_utf8_encode_utf8(bytes@);
        }
        match text_of_utf8(bytes) {
            Some(text) => text,
            None => String::new(),
        }
    }
}

/// The entries of the store.
#[derive(Debug, Clone, Copy, PartialEq, Eq, Structural)]
pub enum StoreKey {
    WifiApSsid,
    WifiApPass,
    WifiClientSsid,
    WifiClientPass,
    NetsbloxServer,
    Peripherals,
    Project,
}

/// How many entries the store has.
pub const ENTRIES: usize = 7;

/// The entries in the order in which they are cleared.
pub open spec fn entry_at(i: int) -> StoreKey {
    if i == 0 {
        StoreKey::WifiApSsid
    } else if i == 1 {
        StoreKey::WifiApPass
    } else if i == 2 {
        StoreKey::WifiClientSsid
    } else if i == 3 {
        StoreKey::WifiClientPass
    } else if i == 4 {
        StoreKey::NetsbloxServer
    } else if i == 5 {
        StoreKey::Peripherals
    } else {
        StoreKey::Project
    }
}

/// What an entry is called.
pub open spec fn entry_name(key: StoreKey) -> Seq<char> {
    match key {
        StoreKey::WifiApSsid => "wifi_ap_ssid"@,
        StoreKey::WifiApPass => "wifi_ap_pass"@,
        StoreKey::WifiClientSsid => "wifi_client_ssid"@,
        StoreKey::WifiClientPass => "wifi_client_pass"@,
        StoreKey::NetsbloxServer => "netsblox_server"@,
        StoreKey::Peripherals => "peripherals"@,
        StoreKey::Project => "project"@,
    }
}

/// The key under which an entry lies in the flash namespace, whose keys are short.
pub open spec fn raw_key(key: StoreKey) -> Seq<char> {
    match key {
        StoreKey::WifiApSsid => "wapssid"@,
        StoreKey::WifiApPass => "wappass"@,
        StoreKey::WifiClientSsid => "wclssid"@,
        StoreKey::WifiClientPass => "wclpass"@,
        StoreKey::NetsbloxServer => "server"@,
        StoreKey::Peripherals => "periph"@,
        StoreKey::Project => "proj"@,
    }
}

impl StoreKey {
    /// What the entry is called.
    pub fn name(&self) -> (name: &'static str)
        ensures
            name@ == entry_name(*self),
    {
        match self {
            StoreKey::WifiApSsid => "wifi_ap_ssid",
            StoreKey::WifiApPass => "wifi_ap_pass",
            StoreKey::WifiClientSsid => "wifi_client_ssid",
            StoreKey::WifiClientPass => "wifi_client_pass",
            StoreKey::NetsbloxServer => "netsblox_server",
            StoreKey::Peripherals => "peripherals",
            StoreKey::Project => "project",
        }
    }

    /// The key under which the entry lies in the flash namespace.
    pub fn key(&self) -> (key: &'static str)
        ensures
            key@ == raw_key(*self),
    {
        match self {
            StoreKey::WifiApSsid => "wapssid",
            StoreKey::WifiApPass => "wappass",
            StoreKey::WifiClientSsid => "wclssid",
            StoreKey::WifiClientPass => "wclpass",
            StoreKey::NetsbloxServer => "server",
            StoreKey::Peripherals => "periph",
            StoreKey::Project => "proj",
        }
    }
}

/// Every entry once, in the order in which a wipe clears them.
pub fn all_entries() -> (keys: Vec<StoreKey>)
    ensures
        keys@.len() == ENTRIES,
        forall|i: int| 0 <= i < ENTRIES ==> keys@[i] == entry_at(i),
{
    let mut keys: Vec<StoreKey> = Vec::new();
    keys.push(StoreKey::WifiApSsid);
    keys.push(StoreKey::WifiApPass);
    keys.push(StoreKey::WifiClientSsid);
    keys.push(StoreKey::WifiClientPass);
    keys.push(StoreKey::NetsbloxServer);
    keys.push(StoreKey::Peripherals);
    keys.push(StoreKey::Project);
    keys
}

/// A value to be written to an entry.
#[derive(Debug)]
pub struct StoreWrite {
    pub key: StoreKey,
    pub value: String,
}

/// One entry of the store, holding values of the type `T`.
pub struct Entry<T: EntryType> {
    key: StoreKey,
    _phantom: PhantomData<T>,
}

impl<T: EntryType> Entry<T> {
    /// Which entry this is.
    pub closed spec fn which(&self) -> StoreKey {
        self.key
    }

    /// Which entry this is.
    pub fn key(&self) -> (key: StoreKey)
        ensures
            key == self.which(),
    {
        self.key
    }

    /// What reading the entry gives, from what the namespace held: nothing where the
    /// entry is not there (`len` is `None`), else the value that its bytes stand for.
    /// The namespace must have handed out as many bytes as it announced.
    pub fn get(&self, len: Option<usize>, raw: Vec<u8>) -> (value: Option<T>)
        requires
            len is Some ==> raw@.len() == len->0 && T::decodable(raw@),
        ensures
            match value {
                Some(value) => len is Some && value.encoding() == raw@,
                None => len is None,
            },
    {
        match len {
            Some(_) => Some(T::from_bytes(raw)),
            None => None,
        }
    }

    /// The bytes to write so that the entry holds `value`.
    pub fn set(&self, value: &T) -> (bytes: Vec<u8>)
        ensures
            bytes@ == value.encoding(),
    {
        value.to_bytes()
    }

    /// The entry to remove so that this one is cleared.
    pub fn clear(&self) -> (key: StoreKey)
        ensures
            key == self.which(),
    {
        self.key
    }
}

/// The key under which the self-test writes.
pub fn test_key() -> (key: &'static str)
    ensures
        key@ == "TEST_KEY"@,
{
    "TEST_KEY"
}

/// The bytes that the self-test writes.
pub open spec fn test_value() -> Seq<u8> {
    seq![6u8, 127u8, 3u8, 200u8, 0u8, 128u8, 7u8, 255u8]
}

/// One operation of the self-test on the namespace, at the test key.
#[derive(Debug, Clone, Copy, PartialEq, Eq, Structural)]
pub enum Probe {
    /// Remove the entry.
    Remove,
    /// Ask whether the entry is there.
    Contains,
    /// Ask for the length of the entry.
    Len,
    /// Read the entry into a buffer of sixteen bytes.
    Read,
    /// Write the test value.
    Write,
}

/// What the namespace answered to a probe.
#[derive(Debug)]
pub enum Observation {
    /// The operation was carried out; it has no answer.
    Carried,
    Present(bool),
    Length(Option<usize>),
    Content(Option<Vec<u8>>),
}

/// How many probes the self-test makes.
pub const PROBES: usize = 12;

/// The `step`-th probe of the self-test: the entry is removed and must be gone,
/// written and must be there, removed and must be gone again.
pub open spec fn probe_at(step: int) -> Probe {
    if step == 0 || step == 8 {
        Probe::Remove
    } else if step == 4 {
        Probe::Write
    } else if step % 4 == 1 {
        Probe::Contains
    } else if step % 4 == 2 {
        Probe::Len
    } else {
        Probe::Read
    }
}

/// Whether the entry must be there when the `step`-th probe is made.
pub open spec fn written_at(step: int) -> bool {
    4 < step < 8
}

/// Whether `seen` is what a sound namespace answers to the `step`-th probe.
pub open spec fn expected(step: int, seen: Observation) -> bool {
    match probe_at(step) {
        Probe::Remove => seen is Carried,
        Probe::Write => seen is Carried,
        Probe::Contains => seen == Observation::Present(written_at(step)),
        Probe::Len => seen == Observation::Length(
            if written_at(step) {
                Some(8usize)
            } else {
                None
            },
        ),
        Probe::Read => match seen {
            Observation::Content(Some(bytes)) => written_at(step) && bytes@ == test_value(),
            Observation::Content(None) => !written_at(step),
            _ => false,
        },
    }
}

/// The `step`-th probe of the self-test.
pub fn probe(step: usize) -> (probe: Probe)
    ensures
        probe == probe_at(step as int),
{
    if step == 0 || step == 8 {
        Probe::Remove
    } else if step == 4 {
        Probe::Write
    } else if step % 4 == 1 {
        Probe::Contains
    } else if step % 4 == 2 {
        Probe::Len
    } else {
        Probe::Read
    }
}

/// The bytes that the self-test writes.
pub fn test_bytes() -> (bytes: Vec<u8>)
    ensures
        bytes@ == test_value(),
{
    let mut bytes: Vec<u8> = Vec::new();
    bytes.push(6);
    bytes.push(127);
    bytes.push(3);
    bytes.push(200);
    bytes.push(0);
    bytes.push(128);
    bytes.push(7);
    bytes.push(255);
    assert(bytes@ =~= test_value());
    bytes
}

/// Checks the answer to the `step`-th probe. An answer that is not the expected one
/// shows a namespace that cannot be trusted.
pub fn check(step: usize, seen: &Observation) -> (sound: bool)
    ensures
        sound == expected(step as int, *seen),
{
    let written = 4 < step && step < 8;
    match probe(step) {
        Probe::Remove => match seen {
            Observation::Carried => true,
            _ => false,
        },
        Probe::Write => match seen {
            Observation::Carried => true,
            _ => false,
        },
        Probe::Contains => match seen {
            Observation::Present(there) => *there == written,
            _ => false,
        },
        Probe::Len => match seen {
            Observation::Length(Some(len)) => written && *len == 8,
            Observation::Length(None) => !written,
            _ => false,
        },
        Probe::Read => match seen {
            Observation::Content(Some(bytes)) => {
                let wanted = test_bytes();
                written && same_bytes(bytes, &wanted)
            },
            Observation::Content(None) => !written,
            _ => false,
        },
    }
}

fn same_bytes(a: &Vec<u8>, b: &Vec<u8>) -> (same: bool)
    ensures
        same == (a@ == b@),
{
    if a.len() != b.len() {
        return false;
    }
    let mut i: usize = 0;
    while i < a.len()
        invariant
            i <= a.len(),
            a@.len() == b@.len(),
            forall|j: int| 0 <= j < i ==> a@[j] == b@[j],
        decreases a.len() - i,
    {
        if a[i] != b[i] {
            return false;
        }
        i = i + 1;
    }
    assert(a@ =~= b@);
    true
}

/// Whether the first `n` of `seen` are what a sound namespace answers to the first `n`
/// probes of the self-test.
pub open spec fn all_expected(seen: Seq<Observation>, n: int) -> bool {
    forall|step: int| 0 <= step < n ==> expected(step, #[trigger] seen[step])
}

/// The face of the store: it hands out the entries.
#[derive(Debug)]
pub struct StorageController {
    /// How many probes the namespace has passed: all of them.
    passed: usize,
}

impl StorageController {
    /// Makes the face of a namespace that has passed the self-test: `seen` must hold
    /// the answers to all its probes, in order, and each must be the expected one. Any
    /// divergence shows a flash partition that cannot be used.
    pub fn new(seen: &Vec<Observation>) -> (controller: Option<StorageController>)
        ensures
            controller is Some <==> seen@.len() == PROBES && all_expected(seen@, PROBES as int),
    {
        if seen.len() != PROBES {
            return None;
        }
        let mut step: usize = 0;
        while step < PROBES
            invariant
                step <= PROBES,
                seen@.len() == PROBES,
                all_expected(seen@, step as int),
            decreases PROBES - step,
        {
            if !check(step, &seen[step]) {
                return None;
            }
            step = step + 1;
        }
        Some(StorageController { passed: step })
    }

    /// The name of the device's own access point.
    pub fn wifi_ap_ssid(&self) -> (entry: Entry<String>)
        ensures
            entry.which() == StoreKey::WifiApSsid,
    {
        Entry { key: StoreKey::WifiApSsid, _phantom: PhantomData }
    }

    /// The password of the device's own access point.
    pub fn wifi_ap_pass(&self) -> (entry: Entry<String>)
        ensures
            entry.which() == StoreKey::WifiApPass,
    {
        Entry { key: StoreKey::WifiApPass, _phantom: PhantomData }
    }

    /// The name of the network that the device joins.
    pub fn wifi_client_ssid(&self) -> (entry: Entry<String>)
        ensures
            entry.which() == StoreKey::WifiClientSsid,
    {
        Entry { key: StoreKey::WifiClientSsid, _phantom: PhantomData }
    }

    /// The password of the network that the device joins.
    pub fn wifi_client_pass(&self) -> (entry: Entry<String>)
        ensures
            entry.which() == StoreKey::WifiClientPass,
    {
        Entry { key: StoreKey::WifiClientPass, _phantom: PhantomData }
    }

    /// The address of the upstream service.
    pub fn netsblox_server(&self) -> (entry: Entry<String>)
        ensures
            entry.which() == StoreKey::NetsbloxServer,
    {
        Entry { key: StoreKey::NetsbloxServer, _phantom: PhantomData }
    }

    /// The layout of the peripherals.
    pub fn peripherals(&self) -> (entry: Entry<String>)
        ensures
            entry.which() == StoreKey::Peripherals,
    {
        Entry { key: StoreKey::Peripherals, _phantom: PhantomData }
    }

    /// The project that runs on the device.
    pub fn project(&self) -> (entry: Entry<String>)
        ensures
            entry.which() == StoreKey::Project,
    {
        Entry { key: StoreKey::Project, _phantom: PhantomData }
    }

    /// Every entry once, in the order in which a wipe clears them.
    pub fn clear_all(&self) -> (keys: Vec<StoreKey>)
        ensures
            keys@.len() == ENTRIES,
            forall|i: int| 0 <= i < ENTRIES ==> keys@[i] == entry_at(i),
    {
        all_entries()
    }
}

} // verus!
