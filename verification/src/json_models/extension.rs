use vstd::prelude::*;

use crate::json_models::khr_xmp::{KhrXmp, KhrXmpPacket, KhrXmpView};
use crate::json_models::khr_xmp_json_ld::{KhrXmpJsonLd, KhrXmpJsonLdPacket, KhrXmpJsonLdView};

verus! {

/// The root document's extension bag: at most one payload per
/// packet-reference schema, plus every unrecognized extension carried
/// through unchanged as an opaque (name, value) list.
pub struct Extension {
    pub khr_xmp: Option<KhrXmp>,
    pub khr_xmp_json_ld: Option<KhrXmpJsonLd>,
    pub other_extensions: Vec<(String, serde_json::Value)>,
}

#[verifier::ext_equal]
pub ghost struct ExtensionView {
    pub khr_xmp: Option<KhrXmpView>,
    pub khr_xmp_json_ld: Option<KhrXmpJsonLdView>,
    pub other_extensions: Seq<(String, serde_json::Value)>,
}

impl View for Extension {
    type V = ExtensionView;

    open spec fn view(&self) -> ExtensionView {
        ExtensionView {
            khr_xmp: match self.khr_xmp {
                Some(x) => Some(x@),
                None => None,
            },
            khr_xmp_json_ld: match self.khr_xmp_json_ld {
                Some(x) => Some(x@),
                None => None,
            },
            other_extensions: self.other_extensions@,
        }
    }
}

/// A taggable entity's extension bag: at most one packet-reference
/// payload per schema, plus unrecognized extensions carried through.
pub struct PacketExtension {
    pub khr_xmp: Option<KhrXmpPacket>,
    pub khr_xmp_json_ld: Option<KhrXmpJsonLdPacket>,
    pub other_extensions: Vec<(String, serde_json::Value)>,
}

/// In the view a packet-reference payload is its optional index: the
/// outer `Option` is the payload's presence, the inner one the index.
#[verifier::ext_equal]
pub ghost struct PacketExtensionView {
    pub khr_xmp: Option<Option<u64>>,
    pub khr_xmp_json_ld: Option<Option<u64>>,
    pub other_extensions: Seq<(String, serde_json::Value)>,
}

impl View for PacketExtension {
    type V = PacketExtensionView;

    open spec fn view(&self) -> PacketExtensionView {
        PacketExtensionView {
            khr_xmp: match self.khr_xmp {
                Some(p) => Some(p.packet),
                None => None,
            },
            khr_xmp_json_ld: match self.khr_xmp_json_ld {
                Some(p) => Some(p.packet),
                None => None,
            },
            other_extensions: self.other_extensions@,
        }
    }
}

/// The view of an optional extension bag.
pub open spec fn bag_view(b: Option<PacketExtension>) -> Option<PacketExtensionView> {
    match b {
        Some(p) => Some(p@),
        None => None,
    }
}

/// An entity where only the extension bag is interpreted; every other
/// field is carried through unchanged.
pub struct ExtensionsOnly {
    pub extensions: Option<PacketExtension>,
    pub other_fields: Vec<(String, serde_json::Value)>,
}

#[verifier::ext_equal]
pub ghost struct ExtensionsOnlyView {
    pub extensions: Option<PacketExtensionView>,
    pub other_fields: Seq<(String, serde_json::Value)>,
}

impl View for ExtensionsOnly {
    type V = ExtensionsOnlyView;

    open spec fn view(&self) -> ExtensionsOnlyView {
        ExtensionsOnlyView { extensions: bag_view(self.extensions), other_fields: self.other_fields@ }
    }
}

} // verus!
