# rikos

The core of rikOS, a small x86_64 teaching kernel, as a library verified with
Verus, and the kernel around it.

- `src/` is the verified library:
  - `io::vga`: the 80x25 text screen — cell encoding, the cursor, writing,
    scrolling and line editing;
  - `io::keyboard`, `task::keyboard`: the queue of keyboard scancodes;
  - `os`: the keys the shell knows, scancode decoding with `pc_keyboard`, how
    a decoded key press edits the screen, the greeting and key echo, and the
    self-test lists;
  - `mem::frame`: the boot frame allocator over the multiboot memory map, and
    the frame-source trait it shares with the pool;
  - `mem::remap`: a three-frame pool filled from any frame source;
  - `task::executor`: the task table and queue of woken tasks;
  - `interrupt::apic`: the interrupt vectors;
  - `test`: the kernel self-tests.
- `app/` is the kernel around it: boot, the VGA hardware buffer, the serial
  port, interrupt and descriptor tables, the decoders kept between key
  presses, polling of task futures, and the QEMU launcher.
- `tests/` exercise the library on concrete values.
