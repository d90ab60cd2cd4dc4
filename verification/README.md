# webdav-server

A webdav server that allows access to a user's home directory, just like an ancient FTP server
would. It does not implement TLS or logging: put a reverse proxy in front of it.

The decisions of the server are a library that is verified with Verus; the program around it does
the input and output.

- `src/` is the library. `server` takes a request step by step, `model` says what each step is,
  `webpath`, `request`, `response`, `dav`, `config` and `text` hold what it works on, and `laws`
  states what holds of the server as a whole. `outside` holds the contracts of the functions of
  other crates that the library calls; they are the only ones that are not proved.
- `tests/` runs the library on concrete requests, paths and configurations.
- `app/` is the program: sockets, the configuration file, accounts, passwords and file systems. It
  carries out what the library asks for and hands the answers back.
