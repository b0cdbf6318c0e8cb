# Optra

A GPU-accelerated image viewer for high dynamic range work (EXR and Radiance
HDR kept as linear float data), built on `wgpu` and `egui`.

- `src/` is the verified library: numbered-sequence keys, digit runs and the
  numeric frame order; which folder entries the file tree shows; laying a
  decoded image out for the GPU (float sources stay linear float, the rest
  become 8-bit RGBA); the decoded image cache and the claims on decodes
  running in the background; what the viewer shows (the loaded image's
  sequence and place in it, when the view resets, when the texture is made
  anew); the state
  of a remote (SFTP) connection and the requests it queues for its worker;
  the steps of setting up that connection (which key to offer next, what to
  tell the user when a step fails) and what the worker does next; where the
  file tree is rooted as the user moves between machines; the open-file queue; stepping, preloading windows, the port field and
  arrow-key scrubbing. Paths are carried as UTF-8 text; what `std::path::Path`
  makes of them, and what the `image` crate decodes, are obtained from those
  crates through small trusted wrappers.
  Maps keyed by path (folder listings, fetched files, decoded images) are a
  small verified `TextMap`, a vector of distinct keys: with a `String` key,
  the contracts vstd gives `std::collections::HashMap` prove nothing about
  what a lookup returns.
- `tests/` exercises the library on concrete values.
- `app/` is the program: the window, the GPU rendering, file system access,
  decoding threads and the SSH worker, all deciding through the library.
  The window icon is not set, since no icon file ships with the sources.
