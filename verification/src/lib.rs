use vstd::prelude::*;

pub mod codec;
pub mod engine;
pub mod json_models;
pub mod managers;
pub mod schema;
pub mod values;

pub use codec::align_to_multiple_of_four;
pub use engine::list_gltf_metadata;
pub use engine::PacketApplied;

verus! {

} // verus!
