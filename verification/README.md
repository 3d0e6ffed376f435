# sandbox

A user-space loader for 64-bit Mach-O images on arm64.

`src/` is the verified library:

- `fat` finds the slice of a (possibly fat) file that holds the image.
- `macho` reads the load commands through the `object` crate.
- `scan` turns the load commands into a plan: the segments to map, the
  address span they cover and the entry point, with the checks the loader
  makes (only `/usr/lib/dyld` as dynamic loader, `__TEXT` first in memory).
- `image` sizes the reservation, places each segment and computes where
  execution starts.
- `disasm` lists instruction words with their addresses and the text the
  `disarm64` crate decodes them to; `text` shows addresses and images as
  hexadecimal text.
- `ptr` and `init` hold addresses with wrapping arithmetic and the initial
  stack handed to the dynamic loader.

`app/` performs the file reads, memory mappings, debugger notification,
printing and the jump into the loader.
