# homelab_system_controller

The decision logic of a home-lab controller, verified with Verus.

The controller is a Discord bot that reports the host's status (public
address, memory, uptime, CPU load, mounts), manages services and power through
`systemctl`, and posts a status report to subscribed channels every five
minutes; a hardware observer, a microcontroller that reads a PC's power LED
and presses its power button over HTTP and answers pings over USB; and a
status web page that probes the home-lab services.

- `src/` is the library: the channel store's encoding, the public-address
  reader, the logger's record cutting, the bot's replies and `systemctl`
  invocations, the observer's configuration and answers, and the web page's
  probes and service list, each with its contract.
- `app/` is the host program around it: Discord, SQLite, HTTP, the web
  socket server and process spawning.
- `tests/` runs the library on concrete values.
