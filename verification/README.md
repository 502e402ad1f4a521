# spec-windows

A tray monitor for coding sessions on Windows. Before a session runs a tool, a hook asks the tray,
and the user allows or denies the call with a click. The tray also shows how much of the account's
quotas is used up.

    session -- hook --> spec-hook -- named pipe --> specd
            <-- allow / deny ----------------------- click in the tray

If the tray is not there, fails or takes too long, the hook ends without a word and the session
asks the user itself.

## Layout

`src/` is the verified library. It does no input or output; each part takes what happened and says
what to do next.

- `protocol`: the messages of the pipe, and what a line that comes in is
- `hook`: the steps of the hook, from the session's input to the printed decision
- `session`: the steps of a connection to the tray, from request to decision
- `tray`: a turn of the tray's event loop
- `menu`, `usage`, `statusline`, `icon`: what is shown
- `http`: the headers of usage reports from other machines
- `promote`: the program's own entry among the tray icons
- `guarantees`: what holds across these parts
- `binary64`, `rounding`, `decimal`, `text`, `json`: numbers, texts and JSON values

`app/` holds the programs around it: pipe, sockets, tray icon, notifications, registry. `tests/`
runs the library.

A percentage is a double-precision number, and the library holds it as its bits. Order, rounding
and the length of a bar are stated and proved on whole numbers.

## What is not proved

The contracts of the calls into `serde_json`, in `json`, and of `String::from_utf8` and
`str::to_lowercase`, in `http` and `promote`, are taken from their documentation and source. So is
everything in `app/`, where messages turn into JSON and back.
