# tcap

Capture the last command and its output from your terminal, ready to pipe into
an LLM.

The library under `src/` holds what tcap decides and computes: which blocks and
lines are selected, how screen text is cleaned, cut to a budget and rendered,
which terminal is asked and what for, what the replies mean, what the history
log holds, and what the diagnosis says. Every function has a contract over
sequences of characters, and Verus proves it of every body but those of the few
wrappers named below. Most modules end with the laws that relate their
functions.

Nothing in the library reads a file, an environment variable or a terminal. A
backend says what it needs as a step, and is told the reply; `session::Walk`
carries a whole capture that way. `app/` is the program around it: the command
line, the config file's TOML, the state files, and the programs that are run.

| Module | What it is about |
|---|---|
| `text` | the vocabulary of text: pieces, lines, words, numbers |
| `ansi` | escape sequences and screen text |
| `capture` | one captured command block |
| `cli`, `config` | what is asked for, and how flags and config file combine |
| `state` | the records of a session, its log and its names |
| `backend` | tmux, kitty, WezTerm and iTerm2 |
| `gather`, `session` | a capture from beginning to end |
| `render`, `json` | captures as text |
| `hints`, `clipboard`, `doctor` | warnings, copying, diagnosis |
| `failure` | why something could not be done |

What is taken on trust: `String::push` and `str::to_lowercase` of the standard
library (`text`), and the constructors and the printer of `serde_json` (`json`).
Their contracts are believed, not proved.
