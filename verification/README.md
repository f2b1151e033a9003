# opensprig_rs

Firmware pieces for the Sprig handheld (RP2040), with the logic verified by
Verus.

- `src/` is the verified library: colour packing (`colour`), the 160 by 128
  framebuffer with its drawing primitives and glyph rendering (`screen`), the
  on-screen keyboard (`keyboard`) and d-pad indicator (`dpad_indicator`) that
  draw into it, the hold detection of a button (`button`), tone and PCM sample
  computation and double-buffered playback bookkeeping (`speaker`), path
  resolution, the directory walk and chunked reading for the SD card
  (`storage`), the program loader's erase length and start-up decision
  (`loader`), the chat program's choice of action per pass of its loop
  (`chat`), the error selection of a shared-bus SPI transaction
  (`mutex_device`), and the C driver's enums and constants (`bridge`).
- `app/` holds the drivers that talk to the hardware through embassy-rp and
  embedded-sdmmc and hand plain values to the library, and the loops of the
  chat, hardware-checker and firmware programs (`programs`), which read the
  buttons and registers, ask the library what to do, and do it.
- `tests/` runs the library on concrete values.
