//! How the radio is to be set up, decided from the stored credentials and from what a
//! scan has seen: the access point is always on, and the device is a client as well
//! where it has credentials for a network.

use crate::text::same_text;
use vstd::prelude::*;
use vstd::string::*;

verus! {

/// How a network is secured.
#[derive(Debug, Clone, Copy, PartialEq, Eq, Structural)]
pub enum AuthMethod {
    /// An open network.
    Open,
    WEP,
    WPA,
    WPA2Personal,
    WPAWPA2Personal,
    WPA2Enterprise,
    WPA3Personal,
    WPA2WPA3Personal,
    WAPIPersonal,
}

/// The settings of the device's own access point.
#[derive(Debug)]
pub struct AccessPointSettings {
    pub ssid: String,
    pub password: String,
    pub channel: u8,
    pub auth_method: AuthMethod,
}

/// The settings with which the device joins a network.
#[derive(Debug)]
pub struct ClientSettings {
    pub ssid: String,
    pub password: String,
    pub bssid: Option<[u8; 6]>,
    pub channel: Option<u8>,
    pub auth_method: AuthMethod,
}

/// A network that a scan has seen.
#[derive(Debug)]
pub struct Seen {
    pub ssid: String,
    pub bssid: [u8; 6],
    pub channel: u8,
    pub auth_method: Option<AuthMethod>,
}

/// How the radio is to be set up.
#[derive(Debug)]
pub enum Configuration {
    AccessPoint(AccessPointSettings),
    Mixed(ClientSettings, AccessPointSettings),
}

/// The name of the access point where none is stored.
pub open spec fn default_ssid() -> Seq<char> {
    "nb-esp32"@
}

/// The password of the access point where none is stored.
pub open spec fn default_password() -> Seq<char> {
    "netsblox"@
}

/// The method by which a network is joined that a scan has seen secured by `seen`: the
/// seen one, or WPA2 where nothing was seen; a network that takes both WPA and WPA2 is
/// joined by WPA2.
pub open spec fn joined_by(seen: Option<AuthMethod>) -> AuthMethod {
    match seen {
        None => AuthMethod::WPA2Personal,
        Some(AuthMethod::WPAWPA2Personal) => AuthMethod::WPA2Personal,
        Some(method) => method,
    }
}

/// The place of the first network named `ssid` among `scan[from..]`.
pub open spec fn seen_from(scan: Seq<Seen>, ssid: Seq<char>, from: int) -> Option<int>
    decreases scan.len() - from,
{
    if from < 0 || from >= scan.len() {
        None
    } else if scan[from].ssid@ == ssid {
        Some(from)
    } else {
        seen_from(scan, ssid, from + 1)
    }
}

/// Whether `settings` are those of the access point for the stored name and password.
pub open spec fn access_point_for(
    ssid: Option<String>,
    password: Option<String>,
    settings: AccessPointSettings,
) -> bool {
    &&& settings.ssid@ == (match ssid {
        Some(ssid) => ssid@,
        None => default_ssid(),
    })
    &&& settings.password@ == (match password {
        Some(password) => password@,
        None => default_password(),
    })
    &&& settings.channel == 1
    &&& settings.auth_method == AuthMethod::WPA2Personal
}

/// Whether `settings` are those for joining the network `ssid` with `password`, given
/// what a scan has seen.
pub open spec fn client_for(ssid: String, password: String, scan: Seq<Seen>, settings: ClientSettings)
    -> bool {
    &&& settings.ssid == ssid
    &&& settings.password == password
    &&& match seen_from(scan, ssid@, 0) {
        Some(at) => settings.bssid == Some(scan[at].bssid) && settings.channel == Some(
            scan[at].channel,
        ) && settings.auth_method == joined_by(scan[at].auth_method),
        None => settings.bssid is None && settings.channel is None && settings.auth_method
            == joined_by(None),
    }
}

/// Whether the device is to join a network, which it is where both the name and the
/// password of one are stored. Only then is a scan needed.
pub fn wants_client(client_ssid: &Option<String>, client_pass: &Option<String>) -> (wanted: bool)
    ensures
        wanted == (client_ssid is Some && client_pass is Some),
{
    client_ssid.is_some() && client_pass.is_some()
}

fn access_point(ssid: Option<String>, password: Option<String>) -> (settings: AccessPointSettings)
    ensures
        access_point_for(ssid, password, settings),
{
    AccessPointSettings {
        ssid: match ssid {
            Some(ssid) => ssid,
            None => String::from_str("nb-esp32"),
        },
        password: match password {
            Some(password) => password,
            None => String::from_str("netsblox"),
        },
        channel: 1,
        auth_method: AuthMethod::WPA2Personal,
    }
}

fn find_seen(scan: &Vec<Seen>, ssid: &str) -> (at: Option<usize>)
    ensures
        match at {
            Some(i) => seen_from(scan@, ssid@, 0) == Some(i as int) && i < scan@.len(),
            None => seen_from(scan@, ssid@, 0) is None,
        },
{
    let mut i: usize = 0;
    while i < scan.len()
        invariant
            i <= scan.len(),
            seen_from(scan@, ssid@, 0) == seen_from(scan@, ssid@, i as int),
        decreases scan.len() - i,
    {
        if same_text(scan[i].ssid.as_str(), ssid) {
            return Some(i);
        }
        i = i + 1;
    }
    None
}

/// Decides how the radio is set up. The access point gets the stored name and password,
/// or the defaults. With both credentials of a network stored the device joins it too,
/// and takes address, channel and method from the first network of that name that the
/// scan has seen.
pub fn configuration(
    ap_ssid: Option<String>,
    ap_pass: Option<String>,
    client_ssid: Option<String>,
    client_pass: Option<String>,
    scan: &Vec<Seen>,
) -> (setup: Configuration)
    ensures
        match setup {
            Configuration::AccessPoint(ap) => !(client_ssid is Some && client_pass is Some)
                && access_point_for(ap_ssid, ap_pass, ap),
            Configuration::Mixed(client, ap) => client_ssid is Some && client_pass is Some
                && access_point_for(ap_ssid, ap_pass, ap) && client_for(
                client_ssid->0,
                client_pass->0,
                scan@,
                client,
            ),
        },
{
    let ap = access_point(ap_ssid, ap_pass);
    match (client_ssid, client_pass) {
        (Some(ssid), Some(password)) => {
            let (bssid, channel, seen) = match find_seen(scan, ssid.as_str()) {
                Some(at) => (Some(scan[at].bssid), Some(scan[at].channel), scan[at].auth_method),
                None => (None, None, None),
            };
            let auth_method = match seen {
                None => AuthMethod::WPA2Personal,
                Some(AuthMethod::WPAWPA2Personal) => AuthMethod::WPA2Personal,
                Some(method) => method,
            };
            Configuration::Mixed(ClientSettings { ssid, password, bssid, channel, auth_method }, ap)
        },
        _ => Configuration::AccessPoint(ap),
    }
}

/// The address of the device as a client, where it has one: the address of all zeros
/// is none.
pub fn client_ip(ip: [u8; 4]) -> (address: Option<[u8; 4]>)
    ensures
        address == (if ip[0] == 0 && ip[1] == 0 && ip[2] == 0 && ip[3] == 0 {
            None
        } else {
            Some(ip)
        }),
{
    if ip[0] == 0 && ip[1] == 0 && ip[2] == 0 && ip[3] == 0 {
        None
    } else {
        Some(ip)
    }
}

} // verus!
