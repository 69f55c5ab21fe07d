# image

Image buffers and the integer side of image sampling, verified with Verus.

- `src/buffer.rs`: `Primitive`, the channel types (`u8`, `u16`) with their
  maximum, and `ImageBuf`, a row-major buffer of four-channel pixels, with
  reads and writes specified over its width, height and pixels.
- `src/imageops/sample.rs`: filter types, `clamp`, the sampling window, the
  lines of an image, the sampling passes, `sample_separable` and `resize`
  (which hand each output position its source line and drive a per-pixel
  sampler over every output position), the 3x3 filter's region and
  neighbourhoods, and the unsharp mask.
- `app/lib.rs`: the floating-point kernels and weighted sums, and `resize`,
  `blur`, `unsharpen` and `filter3x3` with float parameters, built on the
  verified drivers.
