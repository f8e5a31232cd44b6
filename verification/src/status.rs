//! The start page of the device: what it says of the two addresses and of how binding
//! the peripherals went.

use crate::broker::{InitError, InitErrorView};
use crate::ledger::{PeripheralError, PeripheralErrorView};
use crate::text::{debug_text, decimal, decimal_text, quoted};
use vstd::prelude::*;
use vstd::string::*;

verus! {

/// A number as `Debug` shows it: with a minus sign where it is negative.
pub open spec fn code_text(code: i32) -> Seq<char> {
    if code < 0 {
        "-"@ + decimal_text((-code) as nat)
    } else {
        decimal_text(code as nat)
    }
}

/// An error as the start page shows it: its name, and its fields between braces.
pub open spec fn described(error: PeripheralErrorView) -> Seq<char> {
    match error {
        PeripheralErrorView::PinUnknown { pin } => "PinUnknown { pin: "@ + decimal_text(
            pin as nat,
        ) + " }"@,
        PeripheralErrorView::PinAlreadyTaken { pin } => "PinAlreadyTaken { pin: "@ + decimal_text(
            pin as nat,
        ) + " }"@,
        PeripheralErrorView::PinInsufficientCapability { pin } =>
            "PinInsufficientCapability { pin: "@ + decimal_text(pin as nat) + " }"@,
        PeripheralErrorView::NameUnknown { name } => "NameUnknown { name: "@ + debug_text(name)
            + " }"@,
        PeripheralErrorView::NameAlreadyTaken { name } => "NameAlreadyTaken { name: "@
            + debug_text(name) + " }"@,
        PeripheralErrorView::PwmOutOfChannels => "PwmOutOfChannels"@,
        PeripheralErrorView::I2cNotConfigured => "I2cNotConfigured"@,
        PeripheralErrorView::BusError { code } => "BusError { code: "@ + code_text(code) + " }"@,
        PeripheralErrorView::DriverProbe { cause } => "DriverProbe { cause: "@ + debug_text(cause)
            + " }"@,
    }
}

fn with_number(head: &str, number: u64) -> (text: String)
    ensures
        text@ == head@ + decimal_text(number as nat) + " }"@,
{
    let mut text = String::from_str(head);
    text.append(decimal(number).as_str());
    text.append(" }");
    text
}

fn with_text(head: &str, inner: &str) -> (text: String)
    ensures
        text@ == head@ + debug_text(inner@) + " }"@,
{
    let mut text = String::from_str(head);
    text.append(quoted(inner).as_str());
    text.append(" }");
    text
}

impl PeripheralError {
    /// Writes the error as the start page shows it.
    pub fn describe(&self) -> (text: String)
        ensures
            text@ == described(self.deep_view()),
    {
        match self {
            PeripheralError::PinUnknown { pin } => with_number("PinUnknown { pin: ", *pin as u64),
            PeripheralError::PinAlreadyTaken { pin } => with_number(
                "PinAlreadyTaken { pin: ",
                *pin as u64,
            ),
            PeripheralError::PinInsufficientCapability { pin } => with_number(
                "PinInsufficientCapability { pin: ",
                *pin as u64,
            ),
            PeripheralError::NameUnknown { name } => with_text(
                "NameUnknown { name: ",
                name.as_str(),
            ),
            PeripheralError::NameAlreadyTaken { name } => with_text(
                "NameAlreadyTaken { name: ",
                name.as_str(),
            ),
            PeripheralError::PwmOutOfChannels => String::from_str("PwmOutOfChannels"),
            PeripheralError::I2cNotConfigured => String::from_str("I2cNotConfigured"),
            PeripheralError::BusError { code } => {
                let mut text = String::from_str("BusError { code: ");
                if *code < 0 {
                    let magnitude: u64 = (-(*code as i64)) as u64;
                    text.append("-");
                    text.append(decimal(magnitude).as_str());
                } else {
                    text.append(decimal(*code as u64).as_str());
                }
                text.append(" }");
                assert(text@ =~= described(self.deep_view()));
                text
            },
            PeripheralError::DriverProbe { cause } => with_text(
                "DriverProbe { cause: ",
                cause.as_str(),
            ),
        }
    }
}

/// The lines of the start page for the first `n` of `errors`.
pub open spec fn error_lines(errors: Seq<InitErrorView>, n: int) -> Seq<char>
    decreases n,
{
    if n <= 0 {
        Seq::empty()
    } else {
        error_lines(errors, n - 1) + "<p>"@ + errors[n - 1].context + " -- "@ + described(
            errors[n - 1].error,
        ) + "</p>"@
    }
}

/// What the start page says of the peripherals: that the layout could not be read, for
/// the reason `unreadable`, where it could not; then that all were bound, or which were
/// not and why.
pub open spec fn peripherals_status_text(unreadable: Option<Seq<char>>, errors: Seq<InitErrorView>)
    -> Seq<char> {
    (match unreadable {
        Some(reason) => "<p>failed to parse peripherals config: "@ + reason + "</p>"@,
        None => Seq::empty(),
    }) + (if errors.len() == 0 {
        "<p>successfully loaded peripherals</p>"@
    } else {
        "<p>failed to initialize peripherals:</p>"@ + error_lines(errors, errors.len() as int)
    })
}

/// Writes what the start page says of the peripherals.
pub fn peripherals_status(unreadable: Option<&str>, errors: &Vec<InitError>) -> (html: String)
    ensures
        html@ == peripherals_status_text(
            match unreadable {
                Some(reason) => Some(reason@),
                None => None,
            },
            errors.deep_view(),
        ),
{
    let mut head = String::new();
    match unreadable {
        Some(reason) => {
            head.append("<p>failed to parse peripherals config: ");
            head.append(reason);
            head.append("</p>");
            assert(head@ =~= "<p>failed to parse peripherals config: "@ + reason@ + "</p>"@);
        },
        None => {},
    }
    assert(errors.deep_view().len() == errors@.len());
    if errors.len() == 0 {
        head.append("<p>successfully loaded peripherals</p>");
        return head;
    }
    let mut lines = String::new();
    let mut i: usize = 0;
    while i < errors.len()
        invariant
            i <= errors.len(),
            lines@ == error_lines(errors.deep_view(), i as int),
        decreases errors.len() - i,
    {
        assert(errors.deep_view()[i as int] == errors[i as int].deep_view());
        lines.append("<p>");
        lines.append(errors[i].context.as_str());
        lines.append(" -- ");
        lines.append(errors[i].error.describe().as_str());
        lines.append("</p>");
        i = i + 1;
    }
    let ghost before = head@;
    head.append("<p>failed to initialize peripherals:</p>");
    head.append(lines.as_str());
    assert(head@ =~= before + ("<p>failed to initialize peripherals:</p>"@ + lines@));
    head
}

/// An address as it is written: its four numbers with dots between them.
pub open spec fn dotted_text(ip: [u8; 4]) -> Seq<char> {
    decimal_text(ip[0] as nat) + "."@ + decimal_text(ip[1] as nat) + "."@ + decimal_text(
        ip[2] as nat,
    ) + "."@ + decimal_text(ip[3] as nat)
}

/// Writes an address with dots between its four numbers.
pub fn dotted(ip: [u8; 4]) -> (text: String)
    ensures
        text@ == dotted_text(ip),
{
    let mut text = decimal(ip[0] as u64);
    text.append(".");
    text.append(decimal(ip[1] as u64).as_str());
    text.append(".");
    text.append(decimal(ip[2] as u64).as_str());
    text.append(".");
    text.append(decimal(ip[3] as u64).as_str());
    text
}

/// The address of the upstream service where none is stored.
pub open spec fn default_server() -> Seq<char> {
    "https://editor.netsblox.org"@
}

/// The address of the upstream service: the stored one, or the default.
pub fn server_address(stored: Option<String>) -> (address: String)
    ensures
        address@ == (match stored {
            Some(address) => address@,
            None => default_server(),
        }),
{
    match stored {
        Some(address) => address,
        None => String::from_str("https://editor.netsblox.org"),
    }
}

/// What the start page says of the access point at `ip`.
pub open spec fn ap_info_text(ip: [u8; 4]) -> Seq<char> {
    "<p>IP: "@ + dotted_text(ip) + "</p>"@
}

/// The address at which the device serves the extension for the editor.
pub open spec fn device_url_text(ip: [u8; 4]) -> Seq<char> {
    "https://"@ + dotted_text(ip)
}

/// The link that opens the editor of the service at `server` with the extension of the
/// device at `ip`.
pub open spec fn editor_link_text(server: Seq<char>, ip: [u8; 4]) -> Seq<char> {
    server + "?extensions=[\"https://"@ + dotted_text(ip) + "/extension.js\"]"@
}

/// What the start page says of the device as a client: its address and the link to the
/// editor, or that it is not connected.
pub open spec fn client_info_text(ip: Option<[u8; 4]>, server: Seq<char>) -> Seq<char> {
    match ip {
        Some(ip) => "<p>IP: "@ + dotted_text(ip) + "</p><p><a target='_blank' href='"@
            + editor_link_text(server, ip) + "'>Open Editor</a></p>"@,
        None => "<p>Not Connected</p>"@,
    }
}

/// Writes what the start page says of the access point.
pub fn ap_info(ip: [u8; 4]) -> (html: String)
    ensures
        html@ == ap_info_text(ip),
{
    let mut html = String::from_str("<p>IP: ");
    html.append(dotted(ip).as_str());
    html.append("</p>");
    html
}

/// Writes the address at which the device serves the extension.
pub fn device_url(ip: [u8; 4]) -> (url: String)
    ensures
        url@ == device_url_text(ip),
{
    let mut url = String::from_str("https://");
    url.append(dotted(ip).as_str());
    url
}

/// Writes the link that opens the editor with the extension of the device.
pub fn editor_link(server: &str, ip: [u8; 4]) -> (link: String)
    ensures
        link@ == editor_link_text(server@, ip),
{
    let mut link = String::from_str(server);
    link.append("?extensions=[\"https://");
    link.append(dotted(ip).as_str());
    link.append("/extension.js\"]");
    link
}

/// Writes what the start page says of the device as a client.
pub fn client_info(ip: Option<[u8; 4]>, server: &str) -> (html: String)
    ensures
        html@ == client_info_text(ip, server@),
{
    match ip {
        Some(ip) => {
            let mut html = String::from_str("<p>IP: ");
            html.append(dotted(ip).as_str());
            html.append("</p><p><a target='_blank' href='");
            html.append(editor_link(server, ip).as_str());
            html.append("'>Open Editor</a></p>");
            html
        },
        None => String::from_str("<p>Not Connected</p>"),
    }
}

/// `text` with `to` in place of every `from`, found from the left and not overlapping.
pub open spec fn replaced(text: Seq<char>, from: Seq<char>, to: Seq<char>) -> Seq<char>
    decreases text.len(),
{
    if from.len() == 0 || text.len() < from.len() {
        text
    } else if text.subrange(0, from.len() as int) == from {
        to + replaced(text.skip(from.len() as int), from, to)
    } else {
        seq![text[0]] + replaced(text.skip(1), from, to)
    }
}

/// Replaces every match of a pattern that is not empty with `str::replace`, which finds
/// the matches from the left, none of them overlapping another.
#[verifier::external_body]
fn replace(text: &str, from: &str, to: &str) -> (result: String)
    requires
        from@.len() > 0,
    ensures
        result@ == replaced(text@, from@, to@),
{
    text.replace(from, to)
}

/// The mark in the page's template for what is said of the access point.
pub open spec fn ap_mark() -> Seq<char> {
    "%%%AP_INFO%%%"@
}

/// The mark for what is said of the device as a client.
pub open spec fn client_mark() -> Seq<char> {
    "%%%CLIENT_INFO%%%"@
}

/// The mark for what is said of the peripherals.
pub open spec fn peripherals_mark() -> Seq<char> {
    "%%%PERIPH_INFO%%%"@
}

/// Fills the template of the start page: each of its three marks gives way, in this
/// order, to what is said of the access point, of the client and of the peripherals.
pub fn root_page(
    template: &str,
    ap_ip: [u8; 4],
    client_ip: Option<[u8; 4]>,
    server: &str,
    peripherals: &str,
) -> (page: String)
    ensures
        page@ == replaced(
            replaced(
                replaced(template@, ap_mark(), ap_info_text(ap_ip)),
                client_mark(),
                client_info_text(client_ip, server@),
            ),
            peripherals_mark(),
            peripherals@,
        ),
{
    proof {
        reveal_strlit("%%%AP_INFO%%%");
        reveal_strlit("%%%CLIENT_INFO%%%");
        reveal_strlit("%%%PERIPH_INFO%%%");
    }
    let first = replace(template, "%%%AP_INFO%%%", ap_info(ap_ip).as_str());
    let second = replace(
        first.as_str(),
        "%%%CLIENT_INFO%%%",
        client_info(client_ip, server).as_str(),
    );
    replace(second.as_str(), "%%%PERIPH_INFO%%%", peripherals)
}

} // verus!
