use vstd::prelude::*;

use crate::json_models::extension::{PacketExtension, PacketExtensionView};
use crate::json_models::khr_xmp::KhrXmpPacket;
use crate::json_models::khr_xmp_json_ld::KhrXmpJsonLdPacket;

verus! {

/// Selects one of the two parallel packet-reference schemas. They share
/// one engine and differ only in the extension key and the shape of the
/// root extension payload.
#[derive(Clone, Copy, PartialEq, Eq, Structural, Debug)]
pub enum Schema {
    /// The legacy schema, extension key `KHR_xmp`.
    Legacy,
    /// The structured schema, extension key `KHR_xmp_json_ld`.
    JsonLd,
}

/// The `extensionsUsed` token of a schema.
pub open spec fn token_spec(s: Schema) -> Seq<char> {
    match s {
        Schema::Legacy => "KHR_xmp"@,
        Schema::JsonLd => "KHR_xmp_json_ld"@,
    }
}

/// The `extensionsUsed` token of a schema.
pub fn token(s: Schema) -> (r: &'static str)
    ensures
        r@ == token_spec(s),
{
    match s {
        Schema::Legacy => "KHR_xmp",
        Schema::JsonLd => "KHR_xmp_json_ld",
    }
}

/// The packet-reference payload a bag holds for a schema: the outer
/// `Option` is the payload's presence, the inner one its index.
pub open spec fn payload_view(b: Option<PacketExtensionView>, s: Schema) -> Option<Option<u64>> {
    match b {
        None => None,
        Some(p) => match s {
            Schema::Legacy => p.khr_xmp,
            Schema::JsonLd => p.khr_xmp_json_ld,
        },
    }
}

/// The bag with the schema's payload removed; an absent bag stays absent.
pub open spec fn clear_bag_view(b: Option<PacketExtensionView>, s: Schema) -> Option<
    PacketExtensionView,
> {
    match b {
        None => None,
        Some(p) => Some(
            match s {
                Schema::Legacy => PacketExtensionView { khr_xmp: None, ..p },
                Schema::JsonLd => PacketExtensionView { khr_xmp_json_ld: None, ..p },
            },
        ),
    }
}

/// The bag with the schema's payload set to index `i`; an absent bag is
/// created with no other content.
pub open spec fn set_bag_view(b: Option<PacketExtensionView>, s: Schema, i: u64) -> Option<
    PacketExtensionView,
> {
    let p = match b {
        None => PacketExtensionView {
            khr_xmp: None,
            khr_xmp_json_ld: None,
            other_extensions: Seq::empty(),
        },
        Some(p) => p,
    };
    Some(
        match s {
            Schema::Legacy => PacketExtensionView { khr_xmp: Some(Some(i)), ..p },
            Schema::JsonLd => PacketExtensionView { khr_xmp_json_ld: Some(Some(i)), ..p },
        },
    )
}

/// Removes the schema's payload from an entity's bag, in place.
pub fn clear_bag(b: &mut Option<PacketExtension>, s: Schema)
    ensures
        crate::json_models::extension::bag_view(*final(b)) == clear_bag_view(
            crate::json_models::extension::bag_view(*old(b)),
            s,
        ),
{
    let taken = b.take();
    match taken {
        None => {},
        Some(mut p) => {
            match s {
                Schema::Legacy => {
                    p.khr_xmp = None;
                },
                Schema::JsonLd => {
                    p.khr_xmp_json_ld = None;
                },
            }
            *b = Some(p);
        },
    }
}

/// Sets the schema's payload in an entity's bag to index `i`, in place,
/// creating the bag if it is absent and preserving everything else.
pub fn set_bag(b: &mut Option<PacketExtension>, s: Schema, i: u64)
    ensures
        crate::json_models::extension::bag_view(*final(b)) == set_bag_view(
            crate::json_models::extension::bag_view(*old(b)),
            s,
            i,
        ),
{
    let taken = b.take();
    let mut p = match taken {
        None => PacketExtension { khr_xmp: None, khr_xmp_json_ld: None, other_extensions: Vec::new() },
        Some(p) => p,
    };
    match s {
        Schema::Legacy => {
            p.khr_xmp = Some(KhrXmpPacket { packet: Some(i) });
        },
        Schema::JsonLd => {
            p.khr_xmp_json_ld = Some(KhrXmpJsonLdPacket { packet: Some(i) });
        },
    }
    *b = Some(p);
}

} // verus!
