# sshtun

An SSH tunnel manager for Linux with local, remote and SOCKS5 forwarding, layer-3
TUN tunnels, and automatic reconnection.

The library under `src/` decides; the program under `app/` carries out. The
library is verified with Verus: each function states in its contract what it
returns, as a function of what it is given. It reads no file, opens no socket and
runs no command.

## How the two meet

- Where the library needs to know something about the machine, it is given the
  answers known so far (`facts::Facts`) and returns the first question whose
  answer is missing. The program looks it up, adds it, and asks again. That added
  answers change nothing that was settled without them, and that no known answer
  is asked for, is proved in `answers`.
- Where work on the outside and decisions alternate, the library offers a state
  with two methods: `action` says what to do next, and `advance` takes how it
  went. This is how a user is authenticated (`auth`), the tunnels are started
  (`tunnels`), a TUN tunnel is set up (`tun_setup`), a SOCKS5 client is served
  (`socks`), and a run is supervised (`supervisor`).

## Modules

| module | what it holds |
| --- | --- |
| `text`, `number`, `addr`, `paths` | texts, numbers, IP addresses and paths |
| `forward`, `written` | forwardings and marks, and the forms that they are written in |
| `facts`, `answers` | what is known of the machine, and what is asked |
| `ssh_config`, `scan`, `host` | the OpenSSH client configuration, and the connection to a host |
| `auto_tun`, `resolve` | automatic TUN tunnels, and the configuration of a run |
| `auth`, `tunnels`, `tun_setup`, `frame`, `socks`, `hooks` | what a connection does |
| `monitor`, `supervisor` | the health of the link, and the life of a run |
| `outside` | what is taken from other crates and the standard library without proof |
