# bettershot

A screenshot and annotation tool. `src/` is its verified core, `app/` the
program around it.

- Capturing: `geometry`, `frame`, `monitor`, `window`, `target`, `pixels`,
  `cursor`, `grabs`, and one module for each system (`x11`, `portal`, `macos` and
  `sck`, `win32`, `stub`), chosen by `env` and `backend`.
- The program: `capture`, `picture`, `codec`, `output`, `history`, `overlay`,
  `editor`, `effects`, `settings`, `daemon`, `app`, `notify`, `i18n`, `crash`.
- Shared: `error`, `order`, `single`, `text`.

Coordinates are whole physical pixels. A scale factor is carried by its bits
(`single`), and all arithmetic with it is in `app/`.

What is believed of other code stands in `text` (strings), `codec` (image files)
and `daemon` (hotkey texts), each with what is claimed of it.

The functions whose names begin with `law_` state what holds across several
functions.
