# terki_panes

The core of a terminal wiki reader, verified with Verus.

Pages are shown in panes next to each other. One pane is active: it scrolls,
moves its highlight from link to link, and answers clicks on links. A command
line opens and closes panes.

- `text`: searching, cutting and centering text by byte positions
- `link`: links between double brackets and the page names they lead to
- `screen`: what is sent to the terminal, in order
- `pane`: one page, its scrolling and its highlight
- `terki`: the wikis, the panes, and the commands
- `input`: what one event does, and what it leaves to do
- `laws`: what holds of the reader as a whole
- `outside`: what is taken from other crates and believed without proof

Nothing in the library touches the terminal, the disk or the network. The
program in `app/` reads the events, fetches the pages, and performs what the
library has queued.
