# mathtex

mathtex typesets TeX math into a renderer neutral layout IR. This crate is its verified
library: the IR and source maps, engine profiles and primitive tables, formats and their
packaged images, resource requests and the TeX Live index, font systems and the font table
the engine sees, the lowering of engine nodes into the IR, transcripts, and the parts of SVG
drawing that are not floating point. Every function in `src/` carries a contract that Verus
proves; calls into `ttf-parser` and `miniz_oxide` go through small trusted wrappers whose
contracts name what those crates compute.

```
src/      the verified library (Verus)
tests/    tests of the library
app/      the host side: file reading, font faces and shaping measured in floating point,
          and SVG text output
```
