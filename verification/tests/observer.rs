use homelab_system_controller::ipv4::{parse_ipv4, Ipv4Address};
use homelab_system_controller::logger::{log_chunks, log_enabled, LogLevel};
use homelab_system_controller::observer::{
    cors_headers, is_hardware_observer, led_reply, parse_port, ping_reply, usb_class,
    web_server_config,
};

#[test]
fn public_address_is_read() {
    assert_eq!(parse_ipv4("1.2.3.4"), Some(Ipv4Address(1, 2, 3, 4)));
    assert_eq!(parse_ipv4("0.0.0.0"), Some(Ipv4Address(0, 0, 0, 0)));
    assert_eq!(parse_ipv4("255.255.255.255"), Some(Ipv4Address(255, 255, 255, 255)));
    assert_eq!(parse_ipv4("203.0.113.10"), Some(Ipv4Address(203, 0, 113, 10)));
}

#[test]
fn malformed_addresses_are_refused() {
    for text in [
        "", "1.2.3", "1.2.3.4.5", "256.1.1.1", "1.2.3.256", "01.2.3.4", "1.2.3.04", "00.1.1.1",
        " 1.2.3.4", "1.2.3.4 ", "1..2.3", "1.2.3.", ".1.2.3", "+1.2.3.4", "1.2.3.-4", "1000.2.3.4",
        "0001.2.3.4", "a.b.c.d", "1,2,3,4", "١.2.3.4",
    ] {
        assert_eq!(parse_ipv4(text), None, "{text}");
    }
}

#[test]
fn leading_zeros_are_refused_like_the_standard_parser() {
    assert_eq!(parse_ipv4("10.0.0.1"), Some(Ipv4Address(10, 0, 0, 1)));
    assert_eq!(parse_ipv4("192.168.001.1"), None);
    assert_eq!(parse_ipv4("09.1.1.1"), None);
    assert_eq!(parse_ipv4("0.0.0.00"), None);
    assert_eq!(parse_ipv4("255.256.1.1"), None);
}

#[test]
fn info_and_more_severe_records_are_logged() {
    assert!(log_enabled(LogLevel::Error));
    assert!(log_enabled(LogLevel::Warn));
    assert!(log_enabled(LogLevel::Info));
    assert!(!log_enabled(LogLevel::Debug));
    assert!(!log_enabled(LogLevel::Trace));
}

#[test]
fn log_text_is_cut_into_sixteen_byte_pieces() {
    assert_eq!(log_chunks(""), vec![""]);
    assert_eq!(log_chunks("ping\n"), vec!["ping\n"]);
    assert_eq!(log_chunks("0123456789abcdef"), vec!["0123456789abcdef", ""]);
    assert_eq!(log_chunks("0123456789abcdefg"), vec!["0123456789abcdef", "g"]);
    assert_eq!(
        log_chunks("0123456789abcdef0123456789abcdef!"),
        vec!["0123456789abcdef", "0123456789abcdef", "!"]
    );
    assert_eq!(log_chunks("éééééééééé"), vec!["éééééééé", "éé"]);
}

#[test]
fn log_pieces_rejoin_to_the_text() {
    let text = "web task 1 spawning, everything initted\n";
    let pieces = log_chunks(text);
    assert_eq!(pieces.len(), text.len() / 16 + 1);
    assert!(pieces.iter().all(|p| p.len() <= 16));
    assert_eq!(pieces.concat(), text);
}

#[test]
fn port_is_read_from_its_text() {
    assert_eq!(parse_port("8080"), Some(8080));
    assert_eq!(parse_port("0"), Some(0));
    assert_eq!(parse_port("007"), Some(7));
    assert_eq!(parse_port("65535"), Some(65535));
    assert_eq!(parse_port("65536"), None);
    assert_eq!(parse_port(""), None);
    assert_eq!(parse_port("+80"), None);
    assert_eq!(parse_port("80 "), None);
    assert_eq!(parse_port("8o"), None);
}

#[test]
fn ping_is_echoed() {
    assert_eq!(ping_reply(1), 1);
    assert_eq!(ping_reply(u64::MAX), u64::MAX);
}

#[test]
fn led_reading_or_zero() {
    assert_eq!(led_reply::<()>(Ok(1234)), 1234);
    assert_eq!(led_reply(Err(())), 0);
}

#[test]
fn answers_allow_any_origin() {
    assert_eq!(
        cors_headers(),
        vec![
            ("access-control-allow-headers", "*"),
            ("access-control-expose-headers", "*, Authorization"),
            ("access-control-allow-origin", "*"),
            ("access-control-allow-methods", "*"),
            ("access-control-allow-credentials", "*"),
        ]
    );
}

#[test]
fn usb_and_web_configuration() {
    let class = usb_class();
    assert_eq!(
        (class.device_class, class.device_sub_class, class.device_protocol, class.composite_with_iads),
        (0xEF, 0x02, 0x01, true)
    );
    let web = web_server_config();
    assert_eq!(
        (web.task_pool_size, web.start_read_request_secs, web.read_request_secs, web.write_secs),
        (2, 5, 1, 1)
    );
}

#[test]
fn observer_is_found_by_its_product_string() {
    assert!(is_hardware_observer(Some("homelab_system_controller_hardware_observer")));
    assert!(!is_hardware_observer(Some("homelab_system_controller")));
    assert!(!is_hardware_observer(None));
}
