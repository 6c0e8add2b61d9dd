# muri

Tray icons and styled popup menus with nested flyouts, for the Linux, Windows and macOS desktops.

`src/` is the library: the menu model, keyboard and pointer navigation, the stack of open flyouts,
the commands to a tray, the pixel formats of the surfaces, and the decisions of each backend. All of
it is verified with Verus. It does no input or output: handlers take what happened as plain values,
update the session, and return the effects the windowing system has to perform, in order.

| Module | What it holds |
| --- | --- |
| `menu`, `flyout`, `keynav`, `keymap` | menus and paths into them, the flyout stack, keys |
| `session`, `outcome` | the open menu, its events and effects, and what performing them leads to |
| `tray`, `sni`, `linux`, `x11`, `wayland` | the tray and the Linux surfaces |
| `windows`, `gdi`, `utf16` | the Windows surfaces |
| `mac` | the macOS surfaces |
| `pixels`, `style`, `theme`, `platform`, `text`, `error` | what they share |

`app/` is the host side: it talks to the session bus, the display servers and the shells, hands their
events to the library and carries the effects out. Everything measured in floating point, such as
logical coordinates and font sizes, stays there.

`tests/` runs the library on concrete values.
