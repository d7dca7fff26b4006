# cfcli

A command line client for the Crazyflie family of drones. The library in `src/`
holds the decisions of the program, and Verus proves them; `app/` parses the
command line, asks, prints, waits, keeps files and talks to devices. What is
computed with floating point numbers stays in `app/` too: the trims of the
configuration memory and the flight commands.

| Module | What it decides |
| --- | --- |
| `error` | classified errors, chains of causes, exit codes |
| `lifecycle`, `session` | how a command ends, how its connection is closed |
| `cli` | commands, missing arguments, streaming, use of a connection |
| `console` | console sources |
| `config` | the stored configuration and the cache of device tables |
| `address`, `eeprom` | radio addresses and radio settings |
| `memory` | memory types, references to memories, lists |
| `scan`, `select` | scanning, and selecting a Crazyflie |
| `flash`, `flash_run`, `deck` | firmware targets, one run of flashing, deck controllers |
| `completion` | shell completion |
| `platform` | what is told of a platform |
| `text`, `number`, `text_map` | strings, numbers in text, maps from strings |

Most modules end with their laws: public proof functions that relate several of
their functions, or speak of every state of a run.
