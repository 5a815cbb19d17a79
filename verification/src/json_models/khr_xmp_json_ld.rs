use vstd::prelude::*;

verus! {

/// The per-entity payload of the structured packet-reference schema
/// (extension key `KHR_xmp_json_ld`): an optional index into the root
/// packet collection.
#[derive(Clone, Copy)]
pub struct KhrXmpJsonLdPacket {
    pub packet: Option<u64>,
}

/// The root extension payload of the structured schema: the ordered
/// packet collection of opaque JSON values.
pub struct KhrXmpJsonLd {
    pub packets: Vec<serde_json::Value>,
}

#[verifier::ext_equal]
pub ghost struct KhrXmpJsonLdView {
    pub packets: Seq<serde_json::Value>,
}

impl View for KhrXmpJsonLd {
    type V = KhrXmpJsonLdView;

    open spec fn view(&self) -> KhrXmpJsonLdView {
        KhrXmpJsonLdView { packets: self.packets@ }
    }
}

/// One packet of a structured metadata source document: a context value
/// plus arbitrary further fields, all carried through opaquely.
pub struct KhrXmpJsonLdPacketList {
    pub context: serde_json::Value,
    pub metadata: Vec<(String, serde_json::Value)>,
}

} // verus!
