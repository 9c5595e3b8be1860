# safe-authd

The SAFE Authenticator daemon takes requests of clients over QUIC (`GET /login/<secret>/<password>`
and the like), asks the authenticator, and answers.

- `src/` is the verified library. It decides what a request is for, what is answered, how the daemon
  is started, stopped and restarted, which credentials, options and address it is started with, and
  how errors are shown. It leaves input and output to others: its two state machines, `exchange` and
  `daemon`, name the next action and take what came of it. Only the file to which TLS keys are logged,
  if they are, is opened from within, by quinn.
- `app/` carries the actions out: the command line, files, processes, connections. It is generic in
  the authenticator that it serves.
- `tests/` runs the library.
