# coop_gateway

The verified core of a personal agent gateway: sessions, turns, compaction,
scheduled tasks, group conversations, commands, and the check of the
configuration. The library in `src/` is written in Verus. It decides what is to
be done, and leaves doing it (asking models, sending messages, reading and
writing files) to the program around it.

## Layout

- `src/text.rs`, `src/message.rs`, `src/session.rs`, `src/usage.rs`,
  `src/keyed.rs`, `src/json.rs`: the values that everything else is made of.
- `src/gateway.rs`, `src/repair.rs`, `src/group_history.rs`: the state of a
  gateway and its conversations.
- `src/turn.rs`, `src/stream.rs`, `src/final_reply.rs`, `src/turn_laws.rs`: a
  turn as a state machine, calls of a provider, and what holds of every turn.
- `src/compaction.rs`, `src/compact_session.rs`, `src/compaction_store.rs`:
  summaries in the place of long histories.
- `src/cron_runner.rs`, `src/cron_delivery.rs`, `src/cron_timezone.rs`,
  `src/cron_tool.rs`, `src/heartbeat.rs`: scheduled tasks.
- `src/group_trigger.rs`, `src/prompt.rs`, `src/models.rs`, `src/commands.rs`,
  `src/image_tools.rs`: what the agent is told, and what users and tools ask.
- `src/config.rs`, `src/config_check.rs`, `src/check_*.rs`,
  `src/config_tool.rs`, `src/config_watcher.rs`, `src/config_write.rs`: the
  configuration, when it is sound, and how it changes.
- `app/`: the `coop` program. It reads and writes files, talks to providers and
  channels, and carries out what the library decides.
- `tests/`: tests of the library.

## How the state machines work

A turn, a scheduled run, a compaction and a write of the configuration each
advance by steps. A step takes what came of the last action and returns the
next action. The contracts say exactly which state and which action follow, and
the proofs in the same files say what holds of every run: histories sent to a
provider have every tool call answered, a failed turn leaves no trace, and a
configuration is written only where it is sound.

## What is not proved

The functions marked `external_body`, and the specification of `String::push`
in `src/text.rs`, are believed: each names the function of the standard library
or of another crate that it stands for, and says what it claims of it.
