# drt-tools

Tools for Debian release team work: processing `excuses.yaml` for binNMUs
and unblocks, preparing binNMUs for transitions, for outdated `Built-Using`
fields, for version skew in `Multi-Arch: same` packages, for lists of
packages and for buildinfo files.

The library in `src/` is written in Verus: package versions and their
order, architectures, archive suites, package relationships, `wanna-build`
commands, and the decisions of each tool, each with a contract that Verus
proves. `app/` holds the program around it: command line parsing, downloads
into the cache, reading the YAML and deb822 files, and running `wb` over SSH.
`tests/` holds the tests of the library.
