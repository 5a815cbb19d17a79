use vstd::prelude::*;

verus! {

/// The per-entity payload of the legacy packet-reference schema
/// (extension key `KHR_xmp`): an optional index into the root packet
/// collection.
#[derive(Clone, Copy)]
pub struct KhrXmpPacket {
    pub packet: Option<u64>,
}

/// The root extension payload of the legacy schema: a context value plus
/// the ordered packet collection. Both are opaque JSON values.
pub struct KhrXmp {
    pub context: serde_json::Value,
    pub packets: Vec<serde_json::Value>,
}

#[verifier::ext_equal]
pub ghost struct KhrXmpView {
    pub context: serde_json::Value,
    pub packets: Seq<serde_json::Value>,
}

impl View for KhrXmp {
    type V = KhrXmpView;

    open spec fn view(&self) -> KhrXmpView {
        KhrXmpView { context: self.context, packets: self.packets@ }
    }
}

} // verus!
