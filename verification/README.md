# alex

A daemon-based music player for the command line, whose logic is verified with Verus.

`alex daemon <folder>` indexes the `ogg` files of a music folder and waits for
requests on a local TCP port; the other subcommands (`status`, `reload`, `search`,
`play`, `push`, `next`, `pause`, `resume`, `clear`) send one request to it and print
the answer.

## Layout

- `src/` is the verified library:
  - `utils`: identifiers and search tokens made from file names (sanitizing,
    tokenizing, trimming), with the laws that relate them;
  - `player::storage`: the scan of the music folder, the stored audios and the token
    index they are searched by, whose well-formedness every operation keeps;
  - `player`: the play queue and the audio being played, and the playback tick;
  - `handlers`: the answer to each request, as a step for the caller to carry out on
    the audio device;
  - `cli`, `protocol`: the subcommands and the request each one sends;
  - `client`: the text the command line prints for each answer;
  - `request`, `response`, `daemon`: the line-based protocol and its daemon's index.
- `app/` is the program: argument parsing, the TCP server and client, the audio
  device, reading the music folder, and ranking search results by similarity.
- `tests/` runs the library on concrete values.
