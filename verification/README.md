# raster_nodes

Nodes that work on raster images: reducing an image to the size at which it is shown, mapping
its pixels, inserting a channel, masking, blending, extending, and remembering generated
images. The library is written in Verus. Its functions carry contracts, and Verus proves them,
save for the calls into `glam` and `rustc-hash`: what these return is stated in `src/vector.rs`
and `src/fingerprint.rs`, and believed. The methods of `Alpha`, `Luminance`, `LinearChannel` and
`Sample` have no contract of their own: a pixel type or a source of pixels decides what they
return, and the nodes' contracts speak of whatever that is.

- `src/image.rs`, `src/pixel.rs`: images and pixels. The walks over rows and columns are here;
  `map.rs` and `fingerprint.rs` go through the stored pixels one by one.
- `src/vector.rs`, `src/bbox.rs`, `src/frame.rs`: the plane. The arithmetic of coordinates is
  that of `glam`; `vector.rs` names what each of its operations returns.
- `src/downres.rs`, `map.rs`, `channel.rs`, `mask.rs`, `blend.rs`, `extend.rs`, `empty.rs`,
  `merge.rs`, `imaginate.rs`: the nodes, each with the laws that hold of it.
- `src/fingerprint.rs`: keys for images, made with `rustc-hash`.
- `app/`: the nodes that read files, log, or wait for a generator.

Where a node decides from coordinates what to do, the decision is a value of its own
(`BlendPlan`, `BoundsPlan`), and a function carries out any such value.
