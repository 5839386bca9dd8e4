# warp

A verified library for conversations and communities between decentralised identities. Every item
of `src/` is checked by Verus: what a function returns or changes is stated in its `ensures`, and
what holds across functions is stated by public proof functions.

- `conversation`: the document of a conversation, its messages, members, keys and queue; the task of
  one conversation and the store of all of them. `conversation::laws` states what holds across
  operations.
- `community`: communities with channels, roles, permissions and invites, and who may do what.
- `shuttle`: the mailboxes of a node that keeps messages for absent members, its requests, and its
  settings.
- `audio`: the settings of an encoder, the frames that samples are gathered into, the ring buffer
  between two devices, the tracks of a recording, and the commands of a call.
- `image`: conversions of captured frames.
- `encoding`, `ordered`, `community::tables`, `audio::ring`: the calls into other crates, each with
  the contract that the proofs rest on.

What a network, a disk or a device has to do comes in and goes out as plain values: a change of a
conversation returns `Effects`, which say what is left to do, and what came of it is handed back.

`tests/` runs the library on concrete values. `app/` is a command line around it: the sound tool,
the settings of a shuttle node, and the conversion of a frame.
