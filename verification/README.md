# Van-Goal

The logic of a chat client for coding agents, written in Verus: what is in the library is
proved, and what the library promises stands in its contracts.

- `src/` is the library. It holds the application's state and the rules by which it moves
  (`state`, `connecting`, `sending`, `events`, `management`), the client behind the phone's
  C interface (`client`, `command`, `queue`, `open_session`, `settings`), the text editor
  (`text`, `graphemes`, `rows`, `editor`), and what is drawn of a conversation (`chat`,
  `transcript`, `composer`, `selection`, `blocks`, `markdown`, `menu`, `theme`).
  What holds across several operations is stated in proof functions, beside the functions
  they speak of and in `editor_laws` and `state_laws`.
- `tests/` runs the library on concrete values.
- `app/` is the shell: windows, files, the network and floating-point geometry. It hands
  plain values to the library and carries out the effects that the library asks for.

An operation of the state does nothing itself. It returns what is to be done, in order, and
the answers come back as operations of their own.
