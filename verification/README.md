# maxima

The logic of a game launcher as a verified library: starting a game, the Wine prefix and
Proton around it, the registration of the launcher, and the sign-in.

- `src/` is the library. Every function states what it does, and Verus proves it.
  - `launch`: a launch step by step, the game's environment and arguments, and the order of
    the Wine setup.
  - `wine`: commands under Wine, the choice and routing of Proton, the runtimes, the registry
    of the prefix, and the Steam Deck.
  - `registry`: where the launcher and games are registered, on Linux, macOS and Windows.
  - `github`, `login`, `background_service`, `host_namespace`, `achievements`: downloads, the
    sign-in, the helper under Wine, the namespace of a hosting game, and achievements.
  - `text`, `number`, `path`, `pattern`, `unicode`, `encoding`: what the rest is stated over.
- `tests/` runs the library on concrete values.
- `app/` does the work that the library decides on: files, processes, the network.

Steps that need the outside world are state machines: the library takes what came of the last
action and returns the next one, and `app/` carries it out. Paths are texts with `/` between
the components; where the launcher runs on Windows, `\` parts them too, and a path may begin
with a drive, a share or another prefix.
