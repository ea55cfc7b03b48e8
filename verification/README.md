# Cord server, verified

The Cord server shares one Discord Rich Presence connection between every
editor that connects to it. This crate holds its logic, checked with Verus:

- `protocol`: the MessagePack codec the editors speak and the JSON codec
  Discord speaks, each against a specification of the bytes or text, with the
  MessagePack round trip proved.
- `messages`: the events and how the server reacts to each. A reaction is a
  function from the server's state and an event to the next state and a list
  of actions (write to an editor, talk to Discord, start a worker); its
  contract says which.
- `presence`: activities, the activity manager that keeps Discord in sync
  without flooding it, and the commands sent to Discord.
- `session`: the connected editors, and which activity wins when one goes
  idle, clears or leaves.
- `types`, `util`, `utils`: settings, logging, padding and the texts an editor
  shows.

`app/` is the program around it: the lock file, the editors' socket, the
Discord IPC socket, the clock and the worker threads. It runs the actions the
library hands back.
