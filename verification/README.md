# podping_tray

A Windows tray application around the podping gossip watcher, and the web pages that the watcher
serves. The rules that the application goes by are a library whose functions carry contracts that
Verus proves; what touches the screen, the disk, the network or the registry is ordinary Rust around
it.

## Layout

- `src/` is the verified library.
  - `config`: settings, the paths of the application's files, the environment of the watcher.
  - `watcher`: the watcher's executable and process, and stripping escape sequences from its output.
  - `health`: the latest health snapshot, and what the poller tells the log.
  - `http`, `wire`, `http_laws`: reading a reply to a request, step by step, and what holds of it.
  - `app`, `app_state`: what the window shows and remembers, and how settings are saved.
  - `win_window`, `startup`: the window's visibility, the tray menu, starting at sign-in.
  - `sse`: which events a listener gets, and the status pages.
  - `text`, `number`, `text_map`: texts, numbers in texts, and maps from text to text.
- `tests/` runs the library on concrete values.
- `app/` is the program: the window, the tray icon, the processes and the connections.

Proof functions whose names begin with `law_` state what holds over several functions.
