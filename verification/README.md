# justrun

Just run it: a simple service supervisor. The daemon `justrund` starts the
services whose directories are registered in `/etc/justrund/config.yaml` (each
directory holds a `justrun.yaml` with at least `name` and `start`); the tool
`justrun` registers directories and sends the daemon requests over a Unix
socket.

Layout:

- `src/` is the library, verified with Verus:
  - `text.rs`: white space, trimming, words, decimal numerals;
  - `paths.rs`: the daemon's files and path joining;
  - `yaml.rs`: YAML nodes as plain values, and the calls into `yaml_rust2`;
  - `service.rs`: one service's configuration, life cycle, log and status;
  - `maintainer.rs`: loading the services and starting them all;
  - `control.rs`: request messages and the registration of directories;
  - `startup.rs`: the daemon's start-up check and clean-up;
  - `laws.rs`: properties that span these functions.
- `tests/` runs the library on concrete values.
- `app/` is the program around it: processes, files, sockets, signals and the
  command line. Run under the name `justrund`, it is the daemon.
