# contrib-inbox

An inbox of one's external contributions on GitHub (pull requests and issues
in repositories where one is not a member, owner or collaborator), as a
browser app drawn with gpui.

- `src/` is the verified library, checked with Verus: text and URL handling,
  the shapes of the GitHub and OAuth requests and the reading of their
  replies, the CI summary and badges, the inbox's state machine (filters,
  selection, seen markers, comments, closing, token and device-flow
  sign-in) and what each pane shows.
- `app/` is the program around it: localStorage, `fetch`, the DOM prompt,
  the gpui view and key bindings. It performs what the library asks for and
  hands back the replies.
- `tests/` runs the library on concrete values.

Keys: `j`/`k` or arrows move, `enter` opens on GitHub, `r` refreshes, `c`
comments, `x` closes an open item, `t` edits the token, `s` signs in with
the OAuth device flow (or out), `1`-`4` pick the open / merged / closed /
stale filter.
