# tabbar

The tab bar of a terminal multiplexer, verified with Verus.

The library decides what each tab says, how many columns it takes, which tabs
show, where the pointer can hit them, and what is painted. It works on plain
values and on the cells of a `ratatui` buffer.

| Module | Contents |
| --- | --- |
| `rect` | rectangles of terminal cells |
| `strip` | tabs side by side: places, scrolling, centering |
| `bar` | the bar: tabs and the controls beside them |
| `text` | display width, cutting, padding, numerals, settled titles |
| `state` | workspaces, tabs, terminals, settings, colors |
| `tabs` | labels of tabs, layout for labels, drop indicator |
| `render` | the steps of painting, and the painting |
| `surface` | the cells of a `ratatui` buffer |
| `laws` | what holds of every bar |

`surface` and `text` hold the functions that call `ratatui`; their contracts
are believed, not proved. Everything else is proved from them. `app/` puts the
bar into a `ratatui` frame.
