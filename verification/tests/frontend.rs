use homelab_system_controller::frontend::{
    base_domain, hardware_observer_url, hardware_status_text, http_probe_ok, led_reading_url,
    probe_kind, services, starts_with, status_icon, status_label, websocket_probe_ok, ProbeKind,
    ServiceIcon, StatusIcon,
};

#[test]
fn prefix_test() {
    assert!(starts_with("wss://x", "wss://"));
    assert!(starts_with("abc", ""));
    assert!(!starts_with("ws", "wss://"));
    assert!(!starts_with("https://x", "wss://"));
}

#[test]
fn websocket_services_are_probed_by_socket() {
    assert_eq!(probe_kind("wss://cockatrice.example.org/servatrice"), ProbeKind::WebSocket);
    assert_eq!(probe_kind("https://jellyfin.example.org/"), ProbeKind::Http);
    assert_eq!(probe_kind("ws://insecure.example.org/"), ProbeKind::Http);
}

#[test]
fn only_server_errors_mark_a_service_down() {
    assert!(http_probe_ok::<()>(Ok(200)));
    assert!(http_probe_ok::<()>(Ok(302)));
    assert!(http_probe_ok::<()>(Ok(404)));
    assert!(http_probe_ok::<()>(Ok(499)));
    assert!(!http_probe_ok::<()>(Ok(500)));
    assert!(!http_probe_ok::<()>(Ok(503)));
    assert!(!http_probe_ok::<()>(Ok(599)));
    assert!(http_probe_ok::<()>(Ok(600)));
    assert!(!http_probe_ok(Err(())));
    assert!(websocket_probe_ok::<()>(Ok(())));
    assert!(!websocket_probe_ok(Err(())));
}

#[test]
fn status_shown_for_each_outcome() {
    assert_eq!(status_icon(Some(true)), StatusIcon::Checkmark);
    assert_eq!(status_icon(Some(false)), StatusIcon::Error);
    assert_eq!(status_icon(None), StatusIcon::Spinner);
    assert_eq!(status_label(Some(true)), "success");
    assert_eq!(status_label(Some(false)), "failure");
    assert_eq!(status_label(None), "loading");
}

#[test]
fn hardware_status() {
    assert_eq!(hardware_status_text(None), "loading");
    assert_eq!(hardware_status_text(Some(Some("2048".to_string()))), "2048");
    assert_eq!(hardware_status_text(Some(None)), "");
    let base = hardware_observer_url("example.org", "8080");
    assert_eq!(base, "http://hardware_observer.example.org:8080");
    assert_eq!(led_reading_url(&base), "http://hardware_observer.example.org:8080/get");
}

#[test]
fn domain_defaults_to_localhost() {
    assert_eq!(base_domain(Some("example.org")), "example.org");
    assert_eq!(base_domain(None), "localhost:1234");
}

#[test]
fn listed_services() {
    let links = services("example.org");
    let got: Vec<(String, &str, ServiceIcon)> =
        links.into_iter().map(|l| (l.url, l.name, l.icon)).collect();
    let want = vec![
        ("https://jellyfin.example.org/".to_string(), "jellyfin", ServiceIcon::Jellyfin),
        ("https://sonarr.example.org/".to_string(), "sonarr", ServiceIcon::Sonarr),
        ("https://radarr.example.org/".to_string(), "radarr", ServiceIcon::Radarr),
        ("https://qbit.example.org/".to_string(), "qbittorrent", ServiceIcon::Qbit),
        ("https://bazarr.example.org/".to_string(), "bazarr", ServiceIcon::Bazarr),
        ("https://foundry-a.example.org/".to_string(), "foundry A", ServiceIcon::Foundry),
        ("https://prowlarr.example.org/".to_string(), "prowlarr", ServiceIcon::Prowlarr),
        ("wss://cockatrice.example.org/servatrice".to_string(), "servatrice", ServiceIcon::Servatrice),
    ];
    assert_eq!(got, want);
}
