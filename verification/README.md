# ipeenv

Ipeenv is a local web development environment for Windows: it keeps PHP,
Apache and MySQL runtimes under one root folder, creates projects from
templates, gives each project a `.test` domain with its own Apache virtual
host, local certificate and `php-cgi` process, and installs components and
portable tools from a catalog.

The crate is written in Verus. `src/` is the verified library: every decision
of the program (names and paths, catalogs, ini files, version order, service
start and stop, the Apache configuration, the hosts file, firewall rules,
downloads and zip extraction) is a function with a `requires`/`ensures`
contract, and the properties that span functions are stated as public proof
functions named `law_*`.

- `src/text.rs`, `version.rs`, `order.rs`: text operations, version order and
  a stable sort used by every listing.
- `src/catalog.rs`, `ini.rs`, `naming.rs`, `paths.rs`, `config.rs`: catalogs,
  `php.ini` editing, slugs and domains, the folder layout and the settings.
- `src/packages.rs`, `download.rs`, `archive.rs`, `runtime.rs`: installing
  components, the download state machine, unpacking archives (through the
  `zip` crate) and the PHP runtimes with their Visual C++ dependencies.
- `src/services.rs`, `apache.rs`, `hosts.rs`, `tools.rs`, `project.rs`,
  `environment.rs`, `firewall.rs`: services, configuration files, projects,
  tools and the replies shown to the user.
- `src/dependencies.rs`, `starting.rs`, `creating.rs`, `opening.rs`: the
  multi-step operations (completing a PHP runtime, starting a service,
  creating and opening a project) as step functions from a state and what
  the last outside action gave to the next state and action; `app/` runs
  the loop and does the outside work.

`app/` is the Tauri program around the library: windows, tray, file and
process I/O, network downloads and the serde types exchanged with the
interface. `tests/` exercises the library on concrete values.
