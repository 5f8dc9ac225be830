# art_tool

The verified core of a desktop batch image tool: trimming transparent
edges, format conversion, compression, repair, resolution changes, manual
crops, renaming, and the batch jobs that run them over many files.

- `src/` is the library, verified with Verus: every decision of the tool
  (which files, which names, which parameters are accepted, what each step
  of each file leads to, what is reported) with its contract, the
  pixel-level operations that need no floating point, and the decoding and
  encoding of image files, from bytes to pixels and back, through the
  `image` crate.
- `app/` is ordinary Rust around it: JSON forms of the types, reading and
  writing the bytes of files, running processes, the floating-point filters (resampling, denoising,
  sharpening), the threads of a batch job, and the commands offered to the
  front end.
- `tests/` runs the library on concrete inputs.
