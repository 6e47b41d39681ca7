# tchat

The library of a terminal client for Google Chat: its data, its codecs and its rules, written
in Verus and proved against their contracts.

## What is proved

- `types`, `event`, `store`: spaces, messages and users, the events that change them, and the
  store that takes the events in.
- `googlechat`: the pblite and protobuf codecs with and without a schema, the frames of the
  event channel, the calls that commands become, the events that replies and the channel are
  told as, sign-in, cookies, searches, loading the spaces, and when to poll again.
- `agent`: the daemon for other programs, its routes and answers, the stream of events, its
  client and its command line.
- `tui`: keys, the line that is written, the layout, and the lines that the window shows.
- `json`, `text`, `percent`, `assoc`, `config`, `error`, `platform`: what the others stand on.

Contracts speak of mathematical views of the data. Functions whose names begin with `law_`
state what holds of several functions together; `googlechat/laws.rs` and `agent/laws.rs` hold
those that span modules, such as that a message comes back from its wire form as it was.

The library calls `aes`, `base64`, `bytes`, `cbc`, `pbkdf2`, `ratatui`, `serde_json` and `sha1`.
Each call stands behind a small function whose contract says what is taken of the outside crate
without proof.

Time, random numbers, the process id, files and the network are read by the program in `app/`
and handed to the library as plain values.

## Layout

    src/      the library
    tests/    its tests
    app/      the program: the terminal, the browser, HTTP, files, threads

The program reads the service's `.proto` file when it starts.
