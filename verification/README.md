# netscanner

Finds the hosts of a network from a terminal: it pings the addresses of a CIDR range, asks for the names
and hardware addresses of the hosts that answer, and lists them in a table.

`src/` is the library, written and proved in Verus:

- `text`, `ipv4`: texts, decimal numbers, addresses and networks
- `shell`: the arguments and outputs of `ping`, `dig`, `nslookup` and `arp`
- `scanner`, `pool`: the plan of a scan, the steps of a worker, and what holds of several workers at one
  queue
- `rows`, `vendor`, `input`: the hosts and their order, the vendors of hardware addresses, the input line
- `action`: the messages that the components exchange, and what they ask their surroundings to do
- `discovery`, `discovery::screen`: the discovery tab and how it is drawn
- `tabs`: the bar of tabs
- `ui`: styled texts, titles and areas
- `laws`: what holds of the discovery tab as a whole

`app/` is the terminal around it: the threads and commands of a scan, the channel of messages and the
widgets.
