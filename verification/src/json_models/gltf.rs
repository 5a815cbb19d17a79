use vstd::prelude::*;

use crate::json_models::asset::{Asset, AssetView};
use crate::json_models::extension::{Extension, ExtensionView, ExtensionsOnly, ExtensionsOnlyView};

verus! {

/// The view of an optional entity list.
pub open spec fn list_view(l: Option<Vec<ExtensionsOnly>>) -> Option<Seq<ExtensionsOnlyView>> {
    match l {
        Some(v) => Some(v@.map_values(|e: ExtensionsOnly| e@)),
        None => None,
    }
}

/// The views of a list of strings.
pub open spec fn strings_view(v: Seq<String>) -> Seq<Seq<char>> {
    v.map_values(|s: String| s@)
}

/// The view of the optional `extensionsUsed` token list.
pub open spec fn tokens_view(l: Option<Vec<String>>) -> Option<Seq<Seq<char>>> {
    match l {
        Some(v) => Some(strings_view(v@)),
        None => None,
    }
}

/// The whole scene-description document: the required asset, the
/// optional per-category entity lists, the declared-extensions tokens,
/// the root extension bag, and every other root field carried through.
pub struct Gltf {
    pub asset: Asset,
    pub extensions_used: Option<Vec<String>>,
    pub accessors: Option<Vec<ExtensionsOnly>>,
    pub animations: Option<Vec<ExtensionsOnly>>,
    pub buffers: Option<Vec<ExtensionsOnly>>,
    pub buffer_views: Option<Vec<ExtensionsOnly>>,
    pub cameras: Option<Vec<ExtensionsOnly>>,
    pub images: Option<Vec<ExtensionsOnly>>,
    pub materials: Option<Vec<ExtensionsOnly>>,
    pub meshes: Option<Vec<ExtensionsOnly>>,
    pub nodes: Option<Vec<ExtensionsOnly>>,
    pub samplers: Option<Vec<ExtensionsOnly>>,
    pub scene: Option<u64>,
    pub scenes: Option<Vec<ExtensionsOnly>>,
    pub skins: Option<Vec<ExtensionsOnly>>,
    pub textures: Option<Vec<ExtensionsOnly>>,
    pub extensions: Option<Extension>,
    pub other_fields: Vec<(String, serde_json::Value)>,
}

#[verifier::ext_equal]
pub ghost struct GltfView {
    pub asset: AssetView,
    pub extensions_used: Option<Seq<Seq<char>>>,
    pub accessors: Option<Seq<ExtensionsOnlyView>>,
    pub animations: Option<Seq<ExtensionsOnlyView>>,
    pub buffers: Option<Seq<ExtensionsOnlyView>>,
    pub buffer_views: Option<Seq<ExtensionsOnlyView>>,
    pub cameras: Option<Seq<ExtensionsOnlyView>>,
    pub images: Option<Seq<ExtensionsOnlyView>>,
    pub materials: Option<Seq<ExtensionsOnlyView>>,
    pub meshes: Option<Seq<ExtensionsOnlyView>>,
    pub nodes: Option<Seq<ExtensionsOnlyView>>,
    pub samplers: Option<Seq<ExtensionsOnlyView>>,
    pub scene: Option<u64>,
    pub scenes: Option<Seq<ExtensionsOnlyView>>,
    pub skins: Option<Seq<ExtensionsOnlyView>>,
    pub textures: Option<Seq<ExtensionsOnlyView>>,
    pub extensions: Option<ExtensionView>,
    pub other_fields: Seq<(String, serde_json::Value)>,
}

impl View for Gltf {
    type V = GltfView;

    open spec fn view(&self) -> GltfView {
        GltfView {
            asset: self.asset@,
            extensions_used: tokens_view(self.extensions_used),
            accessors: list_view(self.accessors),
            animations: list_view(self.animations),
            buffers: list_view(self.buffers),
            buffer_views: list_view(self.buffer_views),
            cameras: list_view(self.cameras),
            images: list_view(self.images),
            materials: list_view(self.materials),
            meshes: list_view(self.meshes),
            nodes: list_view(self.nodes),
            samplers: list_view(self.samplers),
            scene: self.scene,
            scenes: list_view(self.scenes),
            skins: list_view(self.skins),
            textures: list_view(self.textures),
            extensions: match self.extensions {
                Some(e) => Some(e@),
                None => None,
            },
            other_fields: self.other_fields@,
        }
    }
}

} // verus!
