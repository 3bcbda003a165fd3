# escpresso

A virtual ESC/POS thermal receipt printer. It listens on a TCP port, takes the
bytes that a point-of-sale program sends to its printer, and shows the receipt
in a window.

`src/` is the printer itself, verified with Verus:

- `framing`: where each command of the byte stream ends
- `model`: what each command means, as functions on mathematical values
- `state`, `element`: formatting, settings, sensors, and what a receipt holds
- `renderer`: the printer of one connection, proved to do what the model says
- `codepage`: from the bytes of a line to its text
- `raster`, `bitmap`, `symbol`: images, barcodes and two-dimensional symbols
- `layout`, `paper`: sizes, shades and places on the paper
- `app_state`: what the window shows and the connections change
- `pbm`: files that raster images are dumped to
- `invariants`: what every stream keeps, as long as no command overruns it
- `chunking`: bytes may arrive in pieces, as long as no command is cut off from
  parameters that it does not wait for
- `laws`, `output`, `image_laws`, `symbol_laws`: what streams of commands do

Text decoding and symbol encoding are done by `oem_cp`, `encoding_rs`, `rxing`
and `qrcode`. The functions that call them are marked
`#[verifier::external_body]`, and say what is relied on.

`app/` is the program around it: the command line, the TCP server and the
window. `tests/` runs the library on concrete bytes.
