# wifi_hotspot

A Linux Wi-Fi hotspot manager (an access point beside an existing station
connection, built on `iw`, `hostapd`, `dnsmasq`, `nmcli` and `iptables`),
written in Verus.

- `src/` is the verified library: the parsers of the tools' output, the
  channel and DFS decisions, the list of connected devices, the ban list,
  the hostapd and dnsmasq configuration, the steps of the start (a state
  machine that `app/` drives, one outside action per step), the watch that follows the station
  to a new channel, and the judgements behind the window's labels. Each
  public function has a contract over `Seq<char>` models of the texts
  involved; `text.rs` and `numeric.rs` state line splitting, trimming,
  whitespace splitting and integer parsing and printing as the standard
  library defines them.
- `app/` is the egui window and the plumbing: it runs the commands, reads
  and writes the files under `/tmp`, keeps the worker threads, and hands
  the texts it gets to the library.
- `tests/` run the library on sample outputs and compare the text
  primitives and the byte formatting with the standard library.
