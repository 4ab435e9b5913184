# ruststeve

A Minecraft speedrun bot: it works its way from bare hands through wood, stone and
iron toward the Ender Dragon, one step at a time.

`src/` is the library: what the bot decides. Its functions are verified with Verus, all
but those of `store` that hand statements to SQLite through `rusqlite`: what these promise
is trusted.

- `text`, `items`, `world`, `scan`: names, inventory slots, copies of the world around
  the bot, and searches in them.
- `types`, `state`, `steps`, `session`: the state of the game, the ordered steps, and
  the loop that runs them.
- `memory`, `store`: the map of points of interest and the event log, kept in a SQLite
  database that one memory holds at a time. A database whose tables are not those that
  `store` makes is refused.
- `bot_utils`, `survival`, `tasks`: the tasks. Each task is a machine: from its state
  and from what the bot sees, the next state and the next action.

What a machine does next is a spec function named after it (`chop` and `chop_next`);
the laws that hold of it stand below it.

`app/` is the program around the library. It connects to the server through
`rustcraft`, hands the library copies of what the bot sees, and carries its actions
out.

`tests/` runs the library on concrete worlds, inventories and databases.
