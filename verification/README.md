# nvim_gtk

The model behind a graphical front end for neovim, verified with Verus.

`src/` is the library. It keeps the screen model (grids of cells, highlights,
the cursor, scrolling), works out what must be repainted after a batch of
redraw events, decodes neovim's UI protocol (redraw calls, GUI notifications
and requests) and applies each redraw call to the front end's state, turns key presses into neovim's key notation, lays out the
command line, and keeps the plugin and project lists with the files they are
written to. Every function there carries a contract that Verus proves; the
calls into `fnv`, `regex`, `percent-encoding`, `htmlescape`,
`unicode-segmentation` and a few std functions (paths, upper case) go through small trusted
wrappers whose contracts say what the outside code is taken to do.

`tests/` runs the library on concrete values.

`app/` is a headless front end around the library: it parses the command
line, starts neovim over `neovim-lib`, converts MessagePack values, reads and
writes the settings files, and feeds every notification through the
library's decoders into its grids.
