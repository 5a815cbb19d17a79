pub mod asset;
pub mod extension;
pub mod gltf;
pub mod khr_xmp;
pub mod khr_xmp_json_ld;
