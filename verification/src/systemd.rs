//! The `systemctl` invocations that manage services and power on the host.

use vstd::prelude::*;

verus! {

/// The arguments as text.
pub open spec fn arg_texts(args: Seq<String>) -> Seq<Seq<char>> {
    args.map_values(|a: String| a@)
}

/// The arguments of `systemctl <command> <service>.service`.
pub fn systemd(command: &str, service: &str) -> (args: Vec<String>)
    ensures
        arg_texts(args@) == seq![command@, service@ + ".service"@],
{
    let mut unit = service.to_owned();
    unit.append(".service");
    let mut args: Vec<String> = Vec::new();
    args.push(command.to_owned());
    args.push(unit);
    proof {
        assert(arg_texts(args@) =~= seq![command@, service@ + ".service"@]);
    }
    args
}

/// The arguments that start a service.
pub fn systemd_start(service: &str) -> (args: Vec<String>)
    ensures
        arg_texts(args@) == seq!["start"@, service@ + ".service"@],
{
    systemd("start", service)
}

/// The arguments that stop a service.
pub fn systemd_stop(service: &str) -> (args: Vec<String>)
    ensures
        arg_texts(args@) == seq!["stop"@, service@ + ".service"@],
{
    systemd("stop", service)
}

/// The arguments that restart a service.
pub fn systemd_restart(service: &str) -> (args: Vec<String>)
    ensures
        arg_texts(args@) == seq!["restart"@, service@ + ".service"@],
{
    systemd("restart", service)
}

/// The power commands of the bot.
#[derive(Debug, Clone, Copy, PartialEq, Eq, Structural)]
pub enum PowerAction {
    Reboot,
    Shutdown,
}

/// The systemd unit that performs a power action, without its `.service` suffix.
pub open spec fn power_service(action: PowerAction) -> Seq<char> {
    match action {
        PowerAction::Reboot => "systemd-reboot"@,
        PowerAction::Shutdown => "systemd-poweroff"@,
    }
}

/// What the bot answers before it performs a power action.
pub open spec fn power_reply_text(action: PowerAction) -> Seq<char> {
    match action {
        PowerAction::Reboot => "rebooting"@,
        PowerAction::Shutdown => "shutting down"@,
    }
}

/// The bot's answer to a power command.
pub fn power_reply(action: PowerAction) -> (reply: &'static str)
    ensures
        reply@ == power_reply_text(action),
{
    match action {
        PowerAction::Reboot => "rebooting",
        PowerAction::Shutdown => "shutting down",
    }
}

/// The `systemctl` arguments of a power command: it starts the unit that
/// reboots or powers off the host.
pub fn power_command(action: PowerAction) -> (args: Vec<String>)
    ensures
        arg_texts(args@) == seq!["start"@, power_service(action) + ".service"@],
{
    match action {
        PowerAction::Reboot => systemd_start("systemd-reboot"),
        PowerAction::Shutdown => systemd_start("systemd-poweroff"),
    }
}

} // verus!
