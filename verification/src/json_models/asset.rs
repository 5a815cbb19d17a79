use vstd::prelude::*;

use crate::json_models::extension::{bag_view, PacketExtension, PacketExtensionView};

verus! {

/// The document's required root entity: its version string, an optional
/// extension bag, and every other field carried through unchanged.
pub struct Asset {
    pub version: String,
    pub extensions: Option<PacketExtension>,
    pub other_fields: Vec<(String, serde_json::Value)>,
}

#[verifier::ext_equal]
pub ghost struct AssetView {
    pub version: Seq<char>,
    pub extensions: Option<PacketExtensionView>,
    pub other_fields: Seq<(String, serde_json::Value)>,
}

impl View for Asset {
    type V = AssetView;

    open spec fn view(&self) -> AssetView {
        AssetView {
            version: self.version@,
            extensions: bag_view(self.extensions),
            other_fields: self.other_fields@,
        }
    }
}

} // verus!
