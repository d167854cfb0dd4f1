# utensil-bs

A battery-status daemon for Android. It listens at the abstract socket
`coreshift_batterystats`, sends each consumer the battery level when it connects
and again whenever the level changes, one line of decimal digits at a time, and
publishes the charge state as the system property `debug.tracing.charge_state`.

The library under `src/` decides everything and calls nothing: each command is a
value that names the system call to make next, and a verified function takes the
outcome of that call to the next value. The program under `app/` makes the calls.

| module        | what it holds                                                    |
|---------------|------------------------------------------------------------------|
| `config`      | names and places that the parts agree on                         |
| `text`        | trimming, and whole numbers in decimal                           |
| `battery`     | the level and the charge state out of what files and properties hold |
| `source`      | opening and draining the source of battery news                  |
| `startup`     | how the daemon comes up                                          |
| `daemon`      | one wakeup of the daemon after the other                         |
| `daemon_laws` | what the daemon keeps to, whatever its calls answer              |
| `supervisor`  | keeping the daemon alive, and giving up on it                    |
| `client`      | the commands `watch`, `status` and `stop`                        |
| `uevent`      | the command `uevent-dump`                                        |
| `cli`         | the command line and the command `restart`                       |
| `errors`      | why a command fails                                              |
| `outside`     | what the library takes on trust                                  |
