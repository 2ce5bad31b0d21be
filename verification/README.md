# comms

A command-line front end for any provider that speaks the OpenAI chat protocol:
single questions, saved sessions, an agent that may use tools, and a
full-screen interface.

- `src/` is the library. Everything in it is verified with Verus: the requests
  and how streamed replies are put together, the agent's turns and which tool
  calls ask first, the sandbox, sealed storage, sessions and what of them is
  saved, the commands that a line can hold, and every row that is shown.
- `app/` is the program around it: arguments, files, the keychain, the
  database, the network, the terminal.
- `tests/` runs the library.

What the library takes from other crates goes through a few functions whose
contracts are taken on trust; each says which outside function it calls and
what it claims of it.
