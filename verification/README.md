# assist

The assist panel of a text editor: a session with a coding agent that speaks the
[Agent Client Protocol](https://agentclientprotocol.com). The agent talks in the panel, reads
and writes files through the editor, and proposes edits that land in the real buffers, where
the user accepts them, rejects them, or corrects them by hand.

`src/` is the library, written in Verus: everything that the panel decides and computes, with
contracts that Verus proves. `app/` is what stands around it: the agent's process, the
protocol's types, the files on disk, and a trait for the editor that hosts the panel. The
library hands out effects; the host performs them.

| module | what it holds |
| --- | --- |
| `text`, `lines` | blankness, decimal numbers, windows of lines |
| `changes`, `proposal` | from a proposed diff to an edit, and the span that it touches |
| `permission` | which of the agent's options answers a verdict |
| `effect`, `editor` | what the panel asks of its host, and what it reads of the editor |
| `session`, `panel`, `command` | the session, the panel around it, and its commands |
| `review` | a proposal from the request to the verdict |
| `update`, `layout` | the transcript, and where it is drawn |
| `connection` | one connection to an agent, as a state machine |
| `files` | the agent's file requests |
| `model`, `laws`, `answers`, `talk` | what holds of all this together |

Among the laws: rejecting a proposal restores the buffers exactly; accepting one makes a single
undo revision; a proposal applies as a whole or not at all; every permission request is
answered, and none twice; as long as its connection lives, no message that a session queues is
lost; a read gives back what a write wrote.

What is trusted: `String::push`, tokio's unbounded channel, and the parser
of agent commands in `agent-client-protocol`. Each is described where it is declared.
