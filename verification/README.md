# image_viewer

An image viewer for AVIF, WebP and GIF files. The verified library (`src/`) holds the
logic that decides what ends up on screen; `app/` holds the window, the GPU textures,
the async playback loops and the floating-point steps.

- `src/image/avif/yuv.rs`: conversion of decoded 8-bit YUV planes (4:0:0, 4:2:0, 4:2:2,
  4:4:4; YCbCr, YCgCo and identity matrices; limited and full range) to RGBA, with each
  output byte specified, and the dispatch of a decoded frame to its conversion.
- `src/image/avif.rs`: the AVIF container, read through `zenavif-parse`
  (`avif/container.rs` holds the trusted calls).
- `src/image/gif.rs`: placement of GIF frames, blending of transparent pixels over the
  previous frame, the GIF decoder (`gif`, trusted calls in `gif/decoder.rs`), and the
  GIF playback state machine.
- `src/image/webp.rs`: the WebP decoder (`image-webp`, trusted calls in
  `webp/decoder.rs`): header, frames and still images, and the check that no alpha frame
  holds a VP8 picture larger than itself.
- `src/image/animation.rs`: the playback state machine shared by WebP and AVIF
  animations: frames are decoded once, cached, then replayed in a loop.
- `app/`: `main`, winit/egui/wgpu plumbing, file dialogs, tokio tasks that run the
  playback state machines, AV1 decoding, alpha premultiplication and the
  fixed-point colour coefficients (computed in `f32`).
