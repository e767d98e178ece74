//! What runs on the graphics card: the attention paths, the layout of the
//! weights, and which kernels are launched over which buffers.
pub mod decode;
pub mod device;
pub mod forward;
pub mod launch;
pub mod load;
pub mod matmul;
pub mod meaning;
pub mod model;
pub mod moe_pack;
pub mod repack;
pub mod kv;
pub mod layer;
