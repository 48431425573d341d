use homelab_system_controller::commands::{
    channel_mentions, guilds_to_leave, report_channels, subscribed_channels_reply,
};
use homelab_system_controller::db::{
    channel_ids_from_rows, channel_to_row, is_duplicate_subscription, row_to_channel,
    subscription_result,
};
use homelab_system_controller::decimal::decimal_string;
use homelab_system_controller::socket::{echo_step, keep_echoing, EchoStep};
use homelab_system_controller::status::status_attachment;
use homelab_system_controller::stream::ffmpeg_args;
use homelab_system_controller::systemd::{
    power_command, power_reply, systemd, systemd_restart, systemd_start, systemd_stop, PowerAction,
};

#[test]
fn decimal_text_of_numbers() {
    assert_eq!(decimal_string(0), "0");
    assert_eq!(decimal_string(7), "7");
    assert_eq!(decimal_string(10), "10");
    assert_eq!(decimal_string(1234567890), "1234567890");
    assert_eq!(decimal_string(u64::MAX), "18446744073709551615");
}

#[test]
fn channel_rows_keep_the_bit_pattern() {
    assert_eq!(channel_to_row(0), 0);
    assert_eq!(channel_to_row(42), 42);
    assert_eq!(channel_to_row(i64::MAX as u64), i64::MAX);
    assert_eq!(channel_to_row(1u64 << 63), i64::MIN);
    assert_eq!(channel_to_row(u64::MAX), -1);
    assert_eq!(row_to_channel(-1), u64::MAX);
    assert_eq!(row_to_channel(i64::MIN), 1u64 << 63);
    assert_eq!(row_to_channel(1234), 1234);
}

#[test]
fn channel_written_then_read_is_the_same_channel() {
    for c in [0u64, 1, 1085569437391474738, i64::MAX as u64, (i64::MAX as u64) + 1, u64::MAX - 5, u64::MAX] {
        assert_eq!(row_to_channel(channel_to_row(c)), c);
    }
    for r in [i64::MIN, -1, 0, 1, i64::MAX] {
        assert_eq!(channel_to_row(row_to_channel(r)), r);
    }
}

#[test]
fn rows_are_read_in_order() {
    assert_eq!(channel_ids_from_rows(&vec![]), Vec::<u64>::new());
    assert_eq!(channel_ids_from_rows(&vec![5, -1, i64::MIN]), vec![5, u64::MAX, 1u64 << 63]);
}

#[test]
fn duplicate_subscription_is_recognised() {
    assert!(is_duplicate_subscription("UNIQUE constraint failed: log_channels.channel_id"));
    assert!(!is_duplicate_subscription("UNIQUE constraint failed: other.channel_id"));
    assert!(!is_duplicate_subscription(""));
}

#[test]
fn subscribing_twice_is_done() {
    let ok: Result<(), &str> = Ok(());
    assert_eq!(subscription_result(ok, None), Ok(()));
    let dup: Result<(), &str> = Err("db");
    assert_eq!(
        subscription_result(dup, Some("UNIQUE constraint failed: log_channels.channel_id")),
        Ok(())
    );
    let other: Result<(), &str> = Err("db");
    assert_eq!(subscription_result(other, Some("database is locked")), Err("db"));
    let io: Result<(), &str> = Err("io");
    assert_eq!(subscription_result(io, None), Err("io"));
}

#[test]
fn subscribed_channels_are_mentioned() {
    assert_eq!(channel_mentions(&vec![]), "");
    assert_eq!(channel_mentions(&vec![1, 22]), "<#1><#22>");
    assert_eq!(subscribed_channels_reply(&vec![]), "none");
    assert_eq!(subscribed_channels_reply(&vec![1085569437391474738]), "<#1085569437391474738>");
    assert_eq!(subscribed_channels_reply(&vec![3, 2, 1]), "<#3><#2><#1>");
}

#[test]
fn only_the_allowed_guild_is_kept() {
    assert_eq!(guilds_to_leave(&vec![1, 2, 3, 2], 2), vec![1, 3]);
    assert_eq!(guilds_to_leave(&vec![2], 2), Vec::<u64>::new());
    assert_eq!(guilds_to_leave(&vec![], 2), Vec::<u64>::new());
    assert_eq!(guilds_to_leave(&vec![9, 8], 2), vec![9, 8]);
}

#[test]
fn reports_go_to_listed_channels() {
    let listed: Result<Vec<u64>, ()> = Ok(vec![4, 5]);
    assert_eq!(report_channels(listed), vec![4, 5]);
    let failed: Result<Vec<u64>, ()> = Err(());
    assert_eq!(report_channels(failed), Vec::<u64>::new());
}

#[test]
fn systemctl_arguments() {
    assert_eq!(systemd("reload", "nginx"), vec!["reload", "nginx.service"]);
    assert_eq!(systemd_start("jellyfin"), vec!["start", "jellyfin.service"]);
    assert_eq!(systemd_stop("jellyfin"), vec!["stop", "jellyfin.service"]);
    assert_eq!(systemd_restart("jellyfin"), vec!["restart", "jellyfin.service"]);
}

#[test]
fn power_commands() {
    assert_eq!(power_reply(PowerAction::Reboot), "rebooting");
    assert_eq!(power_reply(PowerAction::Shutdown), "shutting down");
    assert_eq!(power_command(PowerAction::Reboot), vec!["start", "systemd-reboot.service"]);
    assert_eq!(power_command(PowerAction::Shutdown), vec!["start", "systemd-poweroff.service"]);
}

#[test]
fn status_is_attached_as_yaml() {
    let file = status_attachment(Some("public_ip: 1.2.3.4\n".to_string()));
    assert_eq!(file.data, b"public_ip: 1.2.3.4\n".to_vec());
    assert_eq!(file.filename, "status.yaml");
    let failed = status_attachment(None);
    assert!(failed.data.is_empty());
    assert_eq!(failed.filename, "failed to make.yaml");
}

#[test]
fn ffmpeg_streams_the_source() {
    assert_eq!(
        ffmpeg_args("rtsp://camera/stream"),
        vec![
            "-re",
            "-i",
            "rtsp://camera/stream",
            "-g",
            "52",
            "-f",
            "mpegts",
            "-codec:v",
            "libx264",
            "-movflags",
            "frag_keyframe+empty_moov",
            "-",
        ]
    );
}

#[test]
fn echo_replies_with_what_it_got() {
    let got: Option<Result<String, ()>> = Some(Ok("hi".to_string()));
    match echo_step(got) {
        EchoStep::Reply(m) => assert_eq!(m, "hi"),
        EchoStep::Stop => panic!("expected a reply"),
    }
    let failed: Option<Result<String, ()>> = Some(Err(()));
    assert!(matches!(echo_step(failed), EchoStep::Stop));
    let closed: Option<Result<String, ()>> = None;
    assert!(matches!(echo_step(closed), EchoStep::Stop));
    assert!(keep_echoing::<()>(&Ok(())));
    assert!(!keep_echoing(&Err(())));
}
