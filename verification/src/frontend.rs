//! The status web page: which services it lists, how it probes them, and
//! what it shows for each outcome.

use vstd::prelude::*;
use vstd::string::StringSliceAdditionalSpecFns;

verus! {

/// `prefix` is the start of `s`, byte for byte, as `str::starts_with` tests.
pub open spec fn is_byte_prefix(prefix: Seq<u8>, s: Seq<u8>) -> bool {
    prefix.len() <= s.len() && s.subrange(0, prefix.len() as int) == prefix
}

/// Whether `s` starts with `prefix`.
pub fn starts_with(s: &str, prefix: &str) -> (r: bool)
    ensures
        r == is_byte_prefix(prefix.spec_bytes(), s.spec_bytes()),
{
    let sb = s.as_bytes();
    let pb = prefix.as_bytes();
    if pb.len() > sb.len() {
        return false;
    }
    let mut i: usize = 0;
    while i < pb.len()
        invariant
            sb@ == s.spec_bytes(),
            pb@ == prefix.spec_bytes(),
            pb.len() <= sb.len(),
            i <= pb.len(),
            forall|j: int| 0 <= j < i ==> sb@[j] == pb@[j],
        decreases pb.len() - i,
    {
        if sb[i] != pb[i] {
            proof {
                assert(sb@.subrange(0, pb@.len() as int)[i as int] != pb@[i as int]);
            }
            return false;
        }
        i = i + 1;
    }
    proof {
        assert(sb@.subrange(0, pb@.len() as int) =~= pb@);
    }
    true
}

/// How a service is probed.
#[derive(Debug, Clone, Copy, PartialEq, Eq, Structural)]
pub enum ProbeKind {
    /// Open a web socket to it.
    WebSocket,
    /// Send it an HTTP GET request.
    Http,
}

/// Services behind `wss://` addresses are probed by opening a web socket;
/// all others by an HTTP GET.
pub fn probe_kind(url: &str) -> (kind: ProbeKind)
    ensures
        kind == if is_byte_prefix("wss://".spec_bytes(), url.spec_bytes()) {
            ProbeKind::WebSocket
        } else {
            ProbeKind::Http
        },
{
    if starts_with(url, "wss://") {
        ProbeKind::WebSocket
    } else {
        ProbeKind::Http
    }
}

/// An HTTP status of the 5xx class: the server failed.
pub open spec fn is_server_error(status: u16) -> bool {
    500 <= status < 600
}

/// The server errors are exactly the statuses of the 5xx class, 500 through
/// 599: every one of them, and nothing else, marks a service down.
pub proof fn lemma_server_error_class(status: u16)
    ensures
        is_server_error(status) <==> status / 100 == 5,
        is_server_error(status) <==> (500 <= status && status <= 599),
{
}

/// An HTTP probe succeeds when the service answered with any status but a
/// server error; it fails when no answer came.
pub fn http_probe_ok<E>(answer: Result<u16, E>) -> (up: bool)
    ensures
        up == match answer {
            Ok(status) => !is_server_error(status),
            Err(_) => false,
        },
{
    match answer {
        Ok(status) => !(500 <= status && status < 600),
        Err(_) => false,
    }
}

/// A web socket probe succeeds when the connection was upgraded to a web socket.
pub fn websocket_probe_ok<E>(upgrade: Result<(), E>) -> (up: bool)
    ensures
        up == upgrade is Ok,
{
    upgrade.is_ok()
}

/// What is shown for a service while and after it is probed.
#[derive(Debug, Clone, Copy, PartialEq, Eq, Structural)]
pub enum StatusIcon {
    Checkmark,
    Error,
    Spinner,
}

/// A check mark for a service that is up, an error mark for one that is
/// down, a spinner while the probe runs.
pub fn status_icon(probe: Option<bool>) -> (icon: StatusIcon)
    ensures
        icon == match probe {
            Some(true) => StatusIcon::Checkmark,
            Some(false) => StatusIcon::Error,
            None => StatusIcon::Spinner,
        },
{
    match probe {
        Some(true) => StatusIcon::Checkmark,
        Some(false) => StatusIcon::Error,
        None => StatusIcon::Spinner,
    }
}

/// The text of the plain status line of a service.
pub open spec fn status_label_text(probe: Option<bool>) -> Seq<char> {
    match probe {
        Some(true) => "success"@,
        Some(false) => "failure"@,
        None => "loading"@,
    }
}

/// The plain status line of a service: `success`, `failure`, or `loading`
/// while the probe runs.
pub fn status_label(probe: Option<bool>) -> (label: &'static str)
    ensures
        label@ == status_label_text(probe),
{
    match probe {
        Some(true) => "success",
        Some(false) => "failure",
        None => "loading",
    }
}

/// The text shown for the hardware observer's LED reading: `loading` while
/// the request runs, the body of its answer when there was one, nothing otherwise.
pub fn hardware_status_text(fetched: Option<Option<String>>) -> (text: String)
    ensures
        text@ == match fetched {
            None => "loading"@,
            Some(Some(body)) => body@,
            Some(None) => Seq::<char>::empty(),
        },
{
    match fetched {
        None => "loading".to_owned(),
        Some(Some(body)) => body,
        Some(None) => String::new(),
    }
}

/// The address of the hardware observer's web server.
pub fn hardware_observer_url(domain: &str, port: &str) -> (url: String)
    ensures
        url@ == "http://hardware_observer."@ + domain@ + ":"@ + port@,
{
    let mut url = "http://hardware_observer.".to_owned();
    url.append(domain);
    url.append(":");
    url.append(port);
    url
}

/// The address from which the LED reading is fetched.
pub fn led_reading_url(base: &str) -> (url: String)
    ensures
        url@ == base@ + "/get"@,
{
    let mut url = base.to_owned();
    url.append("/get");
    url
}

/// The domain under which the services live, when none was configured.
pub open spec fn default_domain() -> Seq<char> {
    "localhost:1234"@
}

/// The configured domain of the services, or `localhost:1234`.
pub fn base_domain<'a>(configured: Option<&'a str>) -> (domain: &'a str)
    ensures
        domain@ == match configured {
            Some(d) => d@,
            None => default_domain(),
        },
{
    match configured {
        Some(d) => d,
        None => "localhost:1234",
    }
}

/// The picture of a service.
#[derive(Debug, Clone, Copy, PartialEq, Eq, Structural)]
pub enum ServiceIcon {
    Jellyfin,
    Sonarr,
    Radarr,
    Qbit,
    Bazarr,
    Foundry,
    Prowlarr,
    Servatrice,
}

/// A service on the status page: where it is, what it is called, its picture.
pub struct ServiceLink {
    pub url: String,
    pub name: &'static str,
    pub icon: ServiceIcon,
}

/// The web address `https://<sub>.<domain>/`.
pub open spec fn https_address(sub: Seq<char>, domain: Seq<char>) -> Seq<char> {
    "https://"@ + sub + "."@ + domain + "/"@
}

/// Every web service's address starts with `https://`, whatever the domain,
/// and ends with `.<domain>/`: the scheme and the service's name do not depend
/// on the domain, and the domain appears unchanged.
pub proof fn lemma_https_address_shape(sub: Seq<char>, d1: Seq<char>, d2: Seq<char>)
    ensures
        https_address(sub, d1).subrange(0, 8) == "https://"@,
        https_address(sub, d1).subrange(8, 8 + sub.len() as int) == sub,
        https_address(sub, d1).subrange(0, 8 + sub.len() as int + 1) == https_address(sub, d2).subrange(
            0,
            8 + sub.len() as int + 1,
        ),
        https_address(sub, d1).len() == 8 + sub.len() as int + 1 + d1.len() as int + 1,
        https_address(sub, d1).subrange(8 + sub.len() as int + 1, 8 + sub.len() as int + 1 + d1.len() as int) == d1,
        https_address(sub, d1).last() == '/',
{
    reveal_strlit("https://");
    reveal_strlit(".");
    reveal_strlit("/");
    let a = https_address(sub, d1);
    let b = https_address(sub, d2);
    assert(a.subrange(0, 8) =~= "https://"@);
    assert(a.subrange(8, 8 + sub.len() as int) =~= sub);
    assert(a.subrange(0, 8 + sub.len() as int + 1) =~= b.subrange(0, 8 + sub.len() as int + 1));
    assert(a.subrange(8 + sub.len() as int + 1, 8 + sub.len() as int + 1 + d1.len() as int) =~= d1);
}

/// The services of the status page under `domain`, in order: address, name, picture.
pub open spec fn service_table(domain: Seq<char>) -> Seq<(Seq<char>, Seq<char>, ServiceIcon)> {
    seq![
        (https_address("jellyfin"@, domain), "jellyfin"@, ServiceIcon::Jellyfin),
        (https_address("sonarr"@, domain), "sonarr"@, ServiceIcon::Sonarr),
        (https_address("radarr"@, domain), "radarr"@, ServiceIcon::Radarr),
        (https_address("qbit"@, domain), "qbittorrent"@, ServiceIcon::Qbit),
        (https_address("bazarr"@, domain), "bazarr"@, ServiceIcon::Bazarr),
        (https_address("foundry-a"@, domain), "foundry A"@, ServiceIcon::Foundry),
        (https_address("prowlarr"@, domain), "prowlarr"@, ServiceIcon::Prowlarr),
        ("wss://cockatrice."@ + domain + "/servatrice"@, "servatrice"@, ServiceIcon::Servatrice),
    ]
}

/// Each of the seven web services of the page is reached at
/// `https://<its subdomain>.<domain>/`, whatever the domain, the default one included.
pub proof fn lemma_web_services_use_https(domain: Seq<char>, i: int)
    requires
        0 <= i < 7,
    ensures
        service_table(domain)[i].0.subrange(0, 8) == "https://"@,
        service_table(domain)[i].0.last() == '/',
{
    let subs = seq!["jellyfin"@, "sonarr"@, "radarr"@, "qbit"@, "bazarr"@, "foundry-a"@, "prowlarr"@];
    assert(service_table(domain)[i].0 == https_address(subs[i], domain));
    lemma_https_address_shape(subs[i], domain, domain);
}

/// The service links as plain values.
pub open spec fn link_views(links: Seq<ServiceLink>) -> Seq<(Seq<char>, Seq<char>, ServiceIcon)> {
    links.map_values(|l: ServiceLink| (l.url@, l.name@, l.icon))
}

/// `https://<sub>.<domain>/`.
fn https_url(sub: &str, domain: &str) -> (url: String)
    ensures
        url@ == https_address(sub@, domain@),
{
    let mut url = "https://".to_owned();
    url.append(sub);
    url.append(".");
    url.append(domain);
    url.append("/");
    url
}

/// The services that the status page lists and probes.
pub fn services(domain: &str) -> (links: Vec<ServiceLink>)
    ensures
        link_views(links@) == service_table(domain@),
{
    let mut links: Vec<ServiceLink> = Vec::new();
    links.push(
        ServiceLink {
            url: https_url("jellyfin", domain),
            name: "jellyfin",
            icon: ServiceIcon::Jellyfin,
        },
    );
    links.push(
        ServiceLink { url: https_url("sonarr", domain), name: "sonarr", icon: ServiceIcon::Sonarr },
    );
    links.push(
        ServiceLink { url: https_url("radarr", domain), name: "radarr", icon: ServiceIcon::Radarr },
    );
    links.push(
        ServiceLink { url: https_url("qbit", domain), name: "qbittorrent", icon: ServiceIcon::Qbit },
    );
    links.push(
        ServiceLink { url: https_url("bazarr", domain), name: "bazarr", icon: ServiceIcon::Bazarr },
    );
    links.push(
        ServiceLink {
            url: https_url("foundry-a", domain),
            name: "foundry A",
            icon: ServiceIcon::Foundry,
        },
    );
    links.push(
        ServiceLink {
            url: https_url("prowlarr", domain),
            name: "prowlarr",
            icon: ServiceIcon::Prowlarr,
        },
    );
    let mut cockatrice = "wss://cockatrice.".to_owned();
    cockatrice.append(domain);
    cockatrice.append("/servatrice");
    links.push(
        ServiceLink { url: cockatrice, name: "servatrice", icon: ServiceIcon::Servatrice },
    );
    proof {
        assert(link_views(links@) =~= service_table(domain@));
    }
    links
}

} // verus!
