# coolabah

The vocabulary and the decisions of a macOS status bar: what a config may say,
what it means, which event sources have to run for it, and what each of them
reports. The library under `src/` is verified with Verus; `app/` is the program
around it.

## The library

| Modules | What they hold |
| --- | --- |
| `text`, `measure`, `vars`, `assoc` | Text, measurements and ordered maps |
| `align`, `display`, `flag`, `name`, `place`, `query`, `style`, `info` | Words a config writes, each printed and read |
| `event`, `project` | Events, their kinds, and the environment a script sees |
| `json` | Free-form data, over `serde_json` |
| `changes`, `state`, `component`, `request` | State, its patches, components and requests |
| `claims`, `feed`, `source`, `kindset`, `providers`, `declared`, `registry` | Who wants which event, and what has to run for it |
| `sources` and below | What each source reports |
| `lua`, `convert`, `merge`, `stray`, `api`, `show`, `modules`, `ipc` | What a Lua config says and is told |
| `spelling`, `patching`, `declaring` | What declarations of words, patches and events stand for |
| `cli`, `naming`, `error` | The command line, names and errors |

Contracts are stated over views: text is a `Seq<char>`, a set of kinds a `Set`,
the registry a `RegistryView`. A measurement is held as the bits of a double
and the text it prints as; the library compares them and never computes with
them.

Functions named `law_*` state what holds across several functions.

What the library takes from `serde_json` and from std without a specification
stands in `json.rs`, `text.rs` and `event.rs`, with a contract and a comment
each.

## The program

`app/` parses the command line, talks to the daemon, runs Lua configs, watches
files, drives the platform's frameworks and renders the code that declarations
expand to. It hands the library plain values and does what the library says.
