//! The hardware observer: a microcontroller next to a PC that reads the PC's
//! power LED and presses its power button, serves both over HTTP, and answers
//! pings over USB.

use vstd::prelude::*;
use vstd::string::StringSliceAdditionalSpecFns;

use crate::decimal::{all_digits, decimal_bytes, digits_value, lemma_decimal_bytes};

verus! {

/// `konst`'s integer-parsing error.
#[verifier::external_type_specification]
#[verifier::external_body]
pub struct ExParseIntError(konst::primitive::ParseIntError);

/// Text that `konst::primitive::parse_u16` accepts: one or more ASCII digits,
/// leading zeros allowed, denoting at most `u16::MAX`.
pub open spec fn is_u16_text(bytes: Seq<u8>) -> bool {
    &&& bytes.len() > 0
    &&& all_digits(bytes)
    &&& digits_value(bytes) <= u16::MAX
}

/// Calls `konst::primitive::parse_u16`, which reads all of `text` as an
/// unsigned decimal number: it succeeds exactly on one or more ASCII digits
/// (no sign, no spaces, leading zeros allowed) whose value fits a `u16`, and
/// then gives that value.
#[verifier::external_body]
fn konst_parse_u16(text: &str) -> (r: Result<u16, konst::primitive::ParseIntError>)
    ensures
        r is Ok <==> is_u16_text(text.spec_bytes()),
        r matches Ok(n) ==> n == digits_value(text.spec_bytes()),
{
    konst::primitive::parse_u16(text)
}

/// The TCP port the web server listens on, from its configured text.
pub fn parse_port(text: &str) -> (port: Option<u16>)
    ensures
        match port {
            Some(p) => is_u16_text(text.spec_bytes()) && p == digits_value(text.spec_bytes()),
            None => !is_u16_text(text.spec_bytes()),
        },
{
    match konst_parse_u16(text) {
        Ok(p) => Some(p),
        Err(_) => None,
    }
}

/// The decimal text of every port is accepted as a port text and read back
/// as that port.
pub proof fn lemma_port_text_round_trip(port: u16)
    ensures
        is_u16_text(decimal_bytes(port as nat)),
        digits_value(decimal_bytes(port as nat)) == port,
{
    lemma_decimal_bytes(port as nat);
}

/// The answer to a ping: the request itself.
pub fn ping_reply(request: u64) -> (reply: u64)
    ensures
        reply == request,
{
    request
}

/// The body of the answer to `GET /get`: the LED reading, or 0 when reading failed.
pub fn led_reply<E>(reading: Result<u16, E>) -> (content: u16)
    ensures
        match reading {
            Ok(v) => content == v,
            Err(_) => content == 0,
        },
{
    match reading {
        Ok(v) => v,
        Err(_) => 0,
    }
}

/// The HTTP status of every answer of the web server.
pub const RESPONSE_STATUS: u16 = 200;

/// The CORS headers of every answer of the web server.
pub open spec fn cors_header_texts() -> Seq<(Seq<char>, Seq<char>)> {
    seq![
        ("access-control-allow-headers"@, "*"@),
        ("access-control-expose-headers"@, "*, Authorization"@),
        ("access-control-allow-origin"@, "*"@),
        ("access-control-allow-methods"@, "*"@),
        ("access-control-allow-credentials"@, "*"@),
    ]
}

/// The CORS headers that every answer carries: everything is allowed, from anywhere.
pub fn cors_headers() -> (headers: Vec<(&'static str, &'static str)>)
    ensures
        headers@.map_values(|h: (&str, &str)| (h.0@, h.1@)) == cors_header_texts(),
{
    let mut headers: Vec<(&'static str, &'static str)> = Vec::new();
    headers.push(("access-control-allow-headers", "*"));
    headers.push(("access-control-expose-headers", "*, Authorization"));
    headers.push(("access-control-allow-origin", "*"));
    headers.push(("access-control-allow-methods", "*"));
    headers.push(("access-control-allow-credentials", "*"));
    proof {
        assert(headers@.map_values(|h: (&str, &str)| (h.0@, h.1@)) =~= cors_header_texts());
    }
    headers
}

/// The device class of the observer's USB configuration.
pub struct UsbClass {
    pub device_class: u8,
    pub device_sub_class: u8,
    pub device_protocol: u8,
    pub composite_with_iads: bool,
}

/// The observer announces itself as a composite device with interface
/// association descriptors (class 0xEF, subclass 0x02, protocol 0x01), as
/// Windows needs to bind it.
pub fn usb_class() -> (class: UsbClass)
    ensures
        class.device_class == 0xEF,
        class.device_sub_class == 0x02,
        class.device_protocol == 0x01,
        class.composite_with_iads,
{
    UsbClass {
        device_class: 0xEF,
        device_sub_class: 0x02,
        device_protocol: 0x01,
        composite_with_iads: true,
    }
}

/// How the web server is run: how many connections it serves at once, and
/// its timeouts in seconds.
pub struct WebServerConfig {
    pub task_pool_size: usize,
    pub start_read_request_secs: u64,
    pub read_request_secs: u64,
    pub write_secs: u64,
}

/// Two connections at a time; five seconds for a request to start, one to
/// read it, one to write the answer.
pub fn web_server_config() -> (config: WebServerConfig)
    ensures
        config.task_pool_size == 2,
        config.start_read_request_secs == 5,
        config.read_request_secs == 1,
        config.write_secs == 1,
{
    WebServerConfig {
        task_pool_size: 2,
        start_read_request_secs: 5,
        read_request_secs: 1,
        write_secs: 1,
    }
}

/// How long the power button is held down for a click, in seconds.
pub const BUTTON_PRESS_SECS: u64 = 1;

/// The USB product string by which the host finds the observer.
pub open spec fn observer_product() -> Seq<char> {
    "homelab_system_controller_hardware_observer"@
}

/// Whether a USB device with this product string is the hardware observer.
pub fn is_hardware_observer(product: Option<&str>) -> (found: bool)
    ensures
        found == (product matches Some(p) && p@ == observer_product()),
{
    match product {
        Some(p) => p.to_owned() == "homelab_system_controller_hardware_observer".to_owned(),
        None => false,
    }
}

/// How many requests the host keeps outstanding to the observer.
pub const OUTGOING_DEPTH: usize = 8;

} // verus!
