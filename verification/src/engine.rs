use vstd::prelude::*;

use crate::json_models::extension::{
    bag_view, Extension, ExtensionView, ExtensionsOnly, ExtensionsOnlyView, PacketExtension,
};
use crate::json_models::gltf::{list_view, strings_view, tokens_view, Gltf, GltfView};
use crate::json_models::asset::AssetView;
use crate::json_models::khr_xmp::{KhrXmp, KhrXmpView};
use crate::json_models::khr_xmp_json_ld::{KhrXmpJsonLd, KhrXmpJsonLdView};
use crate::schema::{
    clear_bag, clear_bag_view, payload_view, set_bag, set_bag_view, token, token_spec, Schema,
};
use crate::values::{clone_value, clone_values};

verus! {

/// A taggable part of the document: the root asset or one of the six
/// per-category entity lists, in the fixed walking order.
#[derive(Clone, Copy, PartialEq, Eq, Structural, Debug)]
pub enum Category {
    Asset,
    Animations,
    Images,
    Materials,
    Meshes,
    Nodes,
    Scenes,
}

/// One tagging assignment: apply the packet with the given index to
/// every entity of the category.
#[derive(Clone, Copy, PartialEq, Eq, Structural, Debug)]
pub enum PacketApplied {
    Asset(u64),
    Animations(u64),
    Images(u64),
    Materials(u64),
    Meshes(u64),
    Nodes(u64),
    Scenes(u64),
}

/// The category an assignment addresses.
pub open spec fn category_of(a: PacketApplied) -> Category {
    match a {
        PacketApplied::Asset(_) => Category::Asset,
        PacketApplied::Animations(_) => Category::Animations,
        PacketApplied::Images(_) => Category::Images,
        PacketApplied::Materials(_) => Category::Materials,
        PacketApplied::Meshes(_) => Category::Meshes,
        PacketApplied::Nodes(_) => Category::Nodes,
        PacketApplied::Scenes(_) => Category::Scenes,
    }
}

/// Applying a packet can fail only when an assignment addresses a
/// category whose entity list is absent from the document.
#[derive(Clone, Copy, PartialEq, Eq, Structural, Debug)]
pub enum ApplyError {
    MissingEntityList(Category),
}

// ------------------------------------------------------------------
// Clearing: remove the schema's payload from every entity.
// ------------------------------------------------------------------

/// The entity with the schema's payload removed.
pub open spec fn clear_entity_view(e: ExtensionsOnlyView, s: Schema) -> ExtensionsOnlyView {
    ExtensionsOnlyView { extensions: clear_bag_view(e.extensions, s), ..e }
}

/// The entity list with the schema's payload removed everywhere; an
/// absent list stays absent.
pub open spec fn clear_list_view(l: Option<Seq<ExtensionsOnlyView>>, s: Schema) -> Option<
    Seq<ExtensionsOnlyView>,
> {
    match l {
        None => None,
        Some(v) => Some(v.map_values(|e: ExtensionsOnlyView| clear_entity_view(e, s))),
    }
}

/// The document with the schema's payload removed from the asset and
/// from every entity of every category; nothing else changes.
pub open spec fn clear_doc_view(d: GltfView, s: Schema) -> GltfView {
    GltfView {
        asset: AssetView { extensions: clear_bag_view(d.asset.extensions, s), ..d.asset },
        animations: clear_list_view(d.animations, s),
        images: clear_list_view(d.images, s),
        materials: clear_list_view(d.materials, s),
        meshes: clear_list_view(d.meshes, s),
        nodes: clear_list_view(d.nodes, s),
        scenes: clear_list_view(d.scenes, s),
        ..d
    }
}

/// Removes the schema's payload from every entity of one list.
fn clear_entities(v: &mut Vec<ExtensionsOnly>, s: Schema)
    ensures
        final(v)@.len() == old(v)@.len(),
        forall|j: int|
            0 <= j < old(v)@.len() ==> final(v)@[j]@ == clear_entity_view(old(v)@[j]@, s),
{
    let mut i: usize = 0;
    while i < v.len()
        invariant
            i <= v@.len(),
            v@.len() == old(v)@.len(),
            forall|j: int| 0 <= j < i ==> v@[j]@ == clear_entity_view(old(v)@[j]@, s),
            forall|j: int| i <= j < v@.len() ==> v@[j] == old(v)@[j],
        decreases v@.len() - i,
    {
        let e = &mut v[i];
        clear_bag(&mut e.extensions, s);
        i += 1;
    }
}

/// Removes the schema's payload from every entity of an optional list.
fn clear_opt_list(l: &mut Option<Vec<ExtensionsOnly>>, s: Schema)
    ensures
        list_view(*final(l)) == clear_list_view(list_view(*old(l)), s),
{
    let taken = l.take();
    match taken {
        None => {},
        Some(mut v) => {
            clear_entities(&mut v, s);
            proof {
                assert(v@.map_values(|e: ExtensionsOnly| e@) =~= list_view(*old(l))->0.map_values(
                    |e: ExtensionsOnlyView| clear_entity_view(e, s),
                ));
            }
            *l = Some(v);
        },
    }
}

/// Removes the schema's packet-reference payload from the asset and from
/// every entity of every category, leaving every other extension, every
/// other field and the declared-extensions tokens untouched. Clearing a
/// second time changes nothing (`lemma_clear_idempotent`).
pub fn clear_metadata(doc: &mut Gltf, s: Schema)
    ensures
        final(doc)@ == clear_doc_view(old(doc)@, s),
{
    clear_bag(&mut doc.asset.extensions, s);
    clear_opt_list(&mut doc.animations, s);
    clear_opt_list(&mut doc.images, s);
    clear_opt_list(&mut doc.materials, s);
    clear_opt_list(&mut doc.meshes, s);
    clear_opt_list(&mut doc.nodes, s);
    clear_opt_list(&mut doc.scenes, s);
    proof {
        assert(doc@ =~~= clear_doc_view(old(doc)@, s));
    }
}

/// Clearing is idempotent: a second clear changes nothing.
pub proof fn lemma_clear_idempotent(d: GltfView, s: Schema)
    ensures
        clear_doc_view(clear_doc_view(d, s), s) == clear_doc_view(d, s),
{
    assert(clear_doc_view(clear_doc_view(d, s), s) =~~= clear_doc_view(d, s));
}

// ------------------------------------------------------------------
// Applying: set the schema's payload on every entity of a category.
// ------------------------------------------------------------------

/// The entity with the schema's payload set to index `i`.
pub open spec fn tag_entity_view(e: ExtensionsOnlyView, s: Schema, i: u64) -> ExtensionsOnlyView {
    ExtensionsOnlyView { extensions: set_bag_view(e.extensions, s, i), ..e }
}

/// The entity list with the schema's payload set everywhere; an absent
/// list stays absent.
pub open spec fn tag_list_view(l: Option<Seq<ExtensionsOnlyView>>, s: Schema, i: u64) -> Option<
    Seq<ExtensionsOnlyView>,
> {
    match l {
        None => None,
        Some(v) => Some(v.map_values(|e: ExtensionsOnlyView| tag_entity_view(e, s, i))),
    }
}

/// The document after one assignment: every entity of the assignment's
/// category carries the assignment's index; an absent list is left as it
/// is (callers reject such assignments before mutating).
pub open spec fn apply_one_view(d: GltfView, a: PacketApplied, s: Schema) -> GltfView {
    match a {
        PacketApplied::Asset(i) => GltfView {
            asset: AssetView { extensions: set_bag_view(d.asset.extensions, s, i), ..d.asset },
            ..d
        },
        PacketApplied::Animations(i) => GltfView { animations: tag_list_view(d.animations, s, i), ..d },
        PacketApplied::Images(i) => GltfView { images: tag_list_view(d.images, s, i), ..d },
        PacketApplied::Materials(i) => GltfView { materials: tag_list_view(d.materials, s, i), ..d },
        PacketApplied::Meshes(i) => GltfView { meshes: tag_list_view(d.meshes, s, i), ..d },
        PacketApplied::Nodes(i) => GltfView { nodes: tag_list_view(d.nodes, s, i), ..d },
        PacketApplied::Scenes(i) => GltfView { scenes: tag_list_view(d.scenes, s, i), ..d },
    }
}

/// The document after a whole assignment sequence, applied left to right.
pub open spec fn apply_all_view(d: GltfView, assigns: Seq<PacketApplied>, s: Schema) -> GltfView
    decreases assigns.len(),
{
    if assigns.len() == 0 {
        d
    } else {
        apply_one_view(apply_all_view(d, assigns.drop_last(), s), assigns.last(), s)
    }
}

/// Whether the document has the entity list an assignment addresses.
pub open spec fn assign_ok(d: GltfView, a: PacketApplied) -> bool {
    match a {
        PacketApplied::Asset(_) => true,
        PacketApplied::Animations(_) => d.animations is Some,
        PacketApplied::Images(_) => d.images is Some,
        PacketApplied::Materials(_) => d.materials is Some,
        PacketApplied::Meshes(_) => d.meshes is Some,
        PacketApplied::Nodes(_) => d.nodes is Some,
        PacketApplied::Scenes(_) => d.scenes is Some,
    }
}

pub open spec fn all_assigns_ok(d: GltfView, assigns: Seq<PacketApplied>) -> bool {
    forall|j: int| 0 <= j < assigns.len() ==> assign_ok(d, #[trigger] assigns[j])
}

/// The category of the first assignment whose entity list is absent.
pub open spec fn first_missing(d: GltfView, assigns: Seq<PacketApplied>) -> Category
    recommends
        !all_assigns_ok(d, assigns),
    decreases assigns.len(),
{
    if assigns.len() == 0 {
        Category::Asset
    } else if !assign_ok(d, assigns[0]) {
        category_of(assigns[0])
    } else {
        first_missing(d, assigns.subrange(1, assigns.len() as int))
    }
}

proof fn lemma_first_missing(d: GltfView, assigns: Seq<PacketApplied>, i: int)
    requires
        0 <= i < assigns.len(),
        forall|j: int| 0 <= j < i ==> assign_ok(d, #[trigger] assigns[j]),
        !assign_ok(d, assigns[i]),
    ensures
        first_missing(d, assigns) == category_of(assigns[i]),
    decreases i,
{
    if i > 0 {
        let rest = assigns.subrange(1, assigns.len() as int);
        assert(forall|j: int| 0 <= j < i - 1 ==> assign_ok(d, #[trigger] rest[j]));
        assert(rest[i - 1] == assigns[i]);
        lemma_first_missing(d, rest, i - 1);
    }
}

/// Whether an assignment tags at least one entity: the asset always
/// exists; a list assignment tags something only if the list is present
/// and non-empty.
pub open spec fn assignment_hits(d: GltfView, a: PacketApplied) -> bool {
    match a {
        PacketApplied::Asset(_) => true,
        PacketApplied::Animations(_) => d.animations matches Some(l) && l.len() > 0,
        PacketApplied::Images(_) => d.images matches Some(l) && l.len() > 0,
        PacketApplied::Materials(_) => d.materials matches Some(l) && l.len() > 0,
        PacketApplied::Meshes(_) => d.meshes matches Some(l) && l.len() > 0,
        PacketApplied::Nodes(_) => d.nodes matches Some(l) && l.len() > 0,
        PacketApplied::Scenes(_) => d.scenes matches Some(l) && l.len() > 0,
    }
}

pub open spec fn any_assignment_hits(d: GltfView, assigns: Seq<PacketApplied>) -> bool {
    exists|j: int| 0 <= j < assigns.len() && assignment_hits(d, #[trigger] assigns[j])
}

/// Whether a token sequence contains `t`.
pub open spec fn seq_has(v: Seq<Seq<char>>, t: Seq<char>) -> bool {
    exists|j: int| 0 <= j < v.len() && (#[trigger] v[j]) == t
}

/// Whether the token list declares `t`. An absent list declares nothing.
pub open spec fn has_token(eu: Option<Seq<Seq<char>>>, t: Seq<char>) -> bool {
    eu is Some && seq_has(eu->0, t)
}

/// The token list with `t` declared: unchanged when already present,
/// appended once otherwise. Tokens are never removed.
pub open spec fn add_token(eu: Option<Seq<Seq<char>>>, t: Seq<char>) -> Option<Seq<Seq<char>>> {
    if has_token(eu, t) {
        eu
    } else {
        match eu {
            None => Some(seq![t]),
            Some(v) => Some(v.push(t)),
        }
    }
}

/// The document after a successful apply: the assignments tag their
/// entities in order, and if any entity was tagged the schema's token is
/// declared in `extensionsUsed`.
pub open spec fn apply_result_view(d: GltfView, assigns: Seq<PacketApplied>, s: Schema) -> GltfView {
    let applied = apply_all_view(d, assigns, s);
    if any_assignment_hits(d, assigns) {
        GltfView { extensions_used: add_token(d.extensions_used, token_spec(s)), ..applied }
    } else {
        applied
    }
}

/// Sets the schema's payload on every entity of one list.
fn tag_entities(v: &mut Vec<ExtensionsOnly>, s: Schema, idx: u64)
    ensures
        final(v)@.len() == old(v)@.len(),
        forall|j: int|
            0 <= j < old(v)@.len() ==> final(v)@[j]@ == tag_entity_view(old(v)@[j]@, s, idx),
{
    let mut i: usize = 0;
    while i < v.len()
        invariant
            i <= v@.len(),
            v@.len() == old(v)@.len(),
            forall|j: int| 0 <= j < i ==> v@[j]@ == tag_entity_view(old(v)@[j]@, s, idx),
            forall|j: int| i <= j < v@.len() ==> v@[j] == old(v)@[j],
        decreases v@.len() - i,
    {
        let e = &mut v[i];
        set_bag(&mut e.extensions, s, idx);
        i += 1;
    }
}

/// Sets the schema's payload on every entity of an optional list; an
/// absent list is left absent.
fn tag_opt_list(l: &mut Option<Vec<ExtensionsOnly>>, s: Schema, idx: u64)
    ensures
        list_view(*final(l)) == tag_list_view(list_view(*old(l)), s, idx),
{
    let taken = l.take();
    match taken {
        None => {},
        Some(mut v) => {
            tag_entities(&mut v, s, idx);
            proof {
                assert(v@.map_values(|e: ExtensionsOnly| e@) =~= list_view(*old(l))->0.map_values(
                    |e: ExtensionsOnlyView| tag_entity_view(e, s, idx),
                ));
            }
            *l = Some(v);
        },
    }
}

/// The category an assignment addresses.
fn assignment_category(a: PacketApplied) -> (r: Category)
    ensures
        r == category_of(a),
{
    match a {
        PacketApplied::Asset(_) => Category::Asset,
        PacketApplied::Animations(_) => Category::Animations,
        PacketApplied::Images(_) => Category::Images,
        PacketApplied::Materials(_) => Category::Materials,
        PacketApplied::Meshes(_) => Category::Meshes,
        PacketApplied::Nodes(_) => Category::Nodes,
        PacketApplied::Scenes(_) => Category::Scenes,
    }
}

/// Whether the token list contains `tok`.
fn contains_token(v: &Vec<String>, tok: &str) -> (r: bool)
    ensures
        r == (exists|j: int| 0 <= j < v@.len() && v@[j]@ == tok@),
{
    let t = tok.to_owned();
    let mut i: usize = 0;
    while i < v.len()
        invariant
            i <= v@.len(),
            t@ == tok@,
            forall|j: int| 0 <= j < i ==> v@[j]@ != tok@,
        decreases v@.len() - i,
    {
        if v[i].eq(&t) {
            return true;
        }
        i += 1;
    }
    false
}

/// The spec token list of an exec one declares a token exactly when some
/// element's view is that token.
proof fn lemma_token_bridge(v: Seq<String>, t: Seq<char>)
    ensures
        has_token(Some(strings_view(v)), t) == (exists|j: int| 0 <= j < v.len() && v[j]@ == t),
{
    let m = strings_view(v);
    assert(m.len() == v.len());
    if exists|j: int| 0 <= j < v.len() && v[j]@ == t {
        let j = choose|j: int| 0 <= j < v.len() && v[j]@ == t;
        assert(m[j] == v[j]@);
        assert(seq_has(m, t));
    }
    if has_token(Some(m), t) {
        let j = choose|j: int| 0 <= j < m.len() && (#[trigger] m[j]) == t;
        assert(m[j] == v[j]@);
        assert(0 <= j < v.len() && v[j]@ == t);
    }
}

/// Declares `tok` in the token list: appends it once if absent, creates
/// the list if there is none, and never removes anything.
fn declare_token(eu: &mut Option<Vec<String>>, tok: &str)
    ensures
        tokens_view(*final(eu)) == add_token(tokens_view(*old(eu)), tok@),
{
    let taken = eu.take();
    match taken {
        None => {
            let mut v: Vec<String> = Vec::new();
            v.push(tok.to_owned());
            proof {
                assert(strings_view(v@) =~= seq![tok@]);
            }
            *eu = Some(v);
        },
        Some(mut v) => {
            proof {
                lemma_token_bridge(v@, tok@);
            }
            if !contains_token(&v, tok) {
                let ghost before = v@;
                v.push(tok.to_owned());
                proof {
                    assert(strings_view(v@) =~= strings_view(before).push(tok@));
                }
            }
            *eu = Some(v);
        },
    }
}

/// Applying assignments never changes the declared-extensions tokens;
/// only the token step itself does.
proof fn lemma_apply_all_keeps_tokens(d: GltfView, assigns: Seq<PacketApplied>, s: Schema)
    ensures
        apply_all_view(d, assigns, s).extensions_used == d.extensions_used,
    decreases assigns.len(),
{
    if assigns.len() > 0 {
        lemma_apply_all_keeps_tokens(d, assigns.drop_last(), s);
    }
}

/// Checks the assignments against the document without changing it:
/// `None` when every addressed entity list is present, otherwise the
/// category of the first assignment whose list is absent.
pub fn check_assignments(doc: &Gltf, apply_to: &Vec<PacketApplied>) -> (r: Option<Category>)
    ensures
        r is None <==> all_assigns_ok(doc@, apply_to@),
        r matches Some(c) ==> c == first_missing(doc@, apply_to@),
{
    let mut i: usize = 0;
    while i < apply_to.len()
        invariant
            i <= apply_to@.len(),
            forall|j: int| 0 <= j < i ==> assign_ok(doc@, #[trigger] apply_to@[j]),
        decreases apply_to@.len() - i,
    {
        let ok = match apply_to[i] {
            PacketApplied::Asset(_) => true,
            PacketApplied::Animations(_) => doc.animations.is_some(),
            PacketApplied::Images(_) => doc.images.is_some(),
            PacketApplied::Materials(_) => doc.materials.is_some(),
            PacketApplied::Meshes(_) => doc.meshes.is_some(),
            PacketApplied::Nodes(_) => doc.nodes.is_some(),
            PacketApplied::Scenes(_) => doc.scenes.is_some(),
        };
        if !ok {
            proof {
                lemma_first_missing(doc@, apply_to@, i as int);
            }
            return Some(assignment_category(apply_to[i]));
        }
        i += 1;
    }
    None
}

/// Applies each assignment in order: for every entity of the assignment's
/// category, the schema's payload is set to the assignment's index,
/// preserving every other extension. If any assignment addresses a
/// category whose entity list is absent, nothing is changed and the
/// first such category is reported as `MissingEntityList`. If at least
/// one entity was tagged, the schema's token is declared in
/// `extensionsUsed`.
pub fn apply_metadata(doc: &mut Gltf, s: Schema, apply_to: Vec<PacketApplied>) -> (r: Result<
    (),
    ApplyError,
>)
    ensures
        r is Ok <==> all_assigns_ok(old(doc)@, apply_to@),
        r is Ok ==> final(doc)@ == apply_result_view(old(doc)@, apply_to@, s),
        r is Err ==> final(doc)@ == old(doc)@ && r == Err::<(), ApplyError>(
            ApplyError::MissingEntityList(first_missing(old(doc)@, apply_to@)),
        ),
{
    // Reject every assignment set that addresses an absent list before
    // touching the document.
    match check_assignments(doc, &apply_to) {
        Some(c) => {
            return Err(ApplyError::MissingEntityList(c));
        },
        None => {},
    }
    // Record, against the untouched document, whether any entity will be
    // tagged at all.
    let mut tagged = false;
    let mut h: usize = 0;
    while h < apply_to.len()
        invariant
            h <= apply_to@.len(),
            doc@ == old(doc)@,
            tagged == any_assignment_hits(doc@, apply_to@.take(h as int)),
        decreases apply_to@.len() - h,
    {
        let hit = match apply_to[h] {
            PacketApplied::Asset(_) => true,
            PacketApplied::Animations(_) => match &doc.animations {
                Some(l) => l.len() > 0,
                None => false,
            },
            PacketApplied::Images(_) => match &doc.images {
                Some(l) => l.len() > 0,
                None => false,
            },
            PacketApplied::Materials(_) => match &doc.materials {
                Some(l) => l.len() > 0,
                None => false,
            },
            PacketApplied::Meshes(_) => match &doc.meshes {
                Some(l) => l.len() > 0,
                None => false,
            },
            PacketApplied::Nodes(_) => match &doc.nodes {
                Some(l) => l.len() > 0,
                None => false,
            },
            PacketApplied::Scenes(_) => match &doc.scenes {
                Some(l) => l.len() > 0,
                None => false,
            },
        };
        proof {
            assert(apply_to@.take(h + 1).drop_last() =~= apply_to@.take(h as int));
            assert(apply_to@.take(h + 1).last() == apply_to@[h as int]);
            assert(hit == assignment_hits(doc@, apply_to@[h as int]));
            if tagged || hit {
                assert(any_assignment_hits(doc@, apply_to@.take(h + 1)));
            } else {
                assert(forall|j: int|
                    0 <= j < h + 1 ==> !assignment_hits(doc@, #[trigger] apply_to@.take(h + 1)[j]));
            }
        }
        tagged = tagged || hit;
        h += 1;
    }
    proof {
        assert(apply_to@.take(apply_to@.len() as int) =~= apply_to@);
    }
    // Tag the entities, assignment by assignment.
    let mut k: usize = 0;
    while k < apply_to.len()
        invariant
            k <= apply_to@.len(),
            doc@ == apply_all_view(old(doc)@, apply_to@.take(k as int), s),
            tagged == any_assignment_hits(old(doc)@, apply_to@),
        decreases apply_to@.len() - k,
    {
        match apply_to[k] {
            PacketApplied::Asset(i) => set_bag(&mut doc.asset.extensions, s, i),
            PacketApplied::Animations(i) => tag_opt_list(&mut doc.animations, s, i),
            PacketApplied::Images(i) => tag_opt_list(&mut doc.images, s, i),
            PacketApplied::Materials(i) => tag_opt_list(&mut doc.materials, s, i),
            PacketApplied::Meshes(i) => tag_opt_list(&mut doc.meshes, s, i),
            PacketApplied::Nodes(i) => tag_opt_list(&mut doc.nodes, s, i),
            PacketApplied::Scenes(i) => tag_opt_list(&mut doc.scenes, s, i),
        }
        proof {
            assert(apply_to@.take(k + 1).drop_last() =~= apply_to@.take(k as int));
            assert(apply_to@.take(k + 1).last() == apply_to@[k as int]);
            assert(doc@ =~~= apply_all_view(old(doc)@, apply_to@.take(k + 1), s));
        }
        k += 1;
    }
    proof {
        assert(apply_to@.take(apply_to@.len() as int) =~= apply_to@);
    }
    // Declare the schema's token if anything was tagged.
    if tagged {
        declare_token(&mut doc.extensions_used, token(s));
    }
    proof {
        lemma_apply_all_keeps_tokens(old(doc)@, apply_to@, s);
        assert(doc@ =~~= apply_result_view(old(doc)@, apply_to@, s));
    }
    Ok(())
}

// ------------------------------------------------------------------
// Reporting: the root packet collection and every tagged entity.
// ------------------------------------------------------------------

/// Reporting fails only when the document's root extension bag has no
/// entry for the requested schema.
#[derive(Clone, Copy, PartialEq, Eq, Structural, Debug)]
pub enum ReportError {
    NoMetadataFound,
}

impl ReportError {
    /// The user-visible message for this error.
    pub fn message(&self) -> (r: String)
        ensures
            r@ == "No metadata found."@,
    {
        "No metadata found.".to_owned()
    }
}

/// One report line: the entity at `entity_index` of `category` carries
/// the packet at `packet_index` of the root packet collection.
#[derive(Clone, Copy, PartialEq, Eq, Structural, Debug)]
pub struct ReportEntry {
    pub category: Category,
    pub entity_index: usize,
    pub packet_index: u64,
}

/// What reporting yields: the root extension's packet collection as it
/// stands (with the legacy schema's context value, if that schema was
/// asked for), and the tagged entities in the fixed walking order.
pub struct Report {
    pub context: Option<serde_json::Value>,
    pub packets: Vec<serde_json::Value>,
    pub entries: Vec<ReportEntry>,
}

/// Whether the document's root extension bag has an entry for the schema.
pub open spec fn root_present(d: GltfView, s: Schema) -> bool {
    match d.extensions {
        None => false,
        Some(e) => match s {
            Schema::Legacy => e.khr_xmp is Some,
            Schema::JsonLd => e.khr_xmp_json_ld is Some,
        },
    }
}

/// The root packet collection the schema's root extension holds.
pub open spec fn root_packets(d: GltfView, s: Schema) -> Seq<serde_json::Value>
    recommends
        root_present(d, s),
{
    match s {
        Schema::Legacy => d.extensions->0.khr_xmp->0.packets,
        Schema::JsonLd => d.extensions->0.khr_xmp_json_ld->0.packets,
    }
}

/// The context value of the schema's root extension: only the legacy
/// schema carries one.
pub open spec fn root_context(d: GltfView, s: Schema) -> Option<serde_json::Value>
    recommends
        root_present(d, s),
{
    match s {
        Schema::Legacy => Some(d.extensions->0.khr_xmp->0.context),
        Schema::JsonLd => None,
    }
}

/// The report lines of one entity list, in list order: an entity appears
/// exactly when it carries the schema's payload with an index.
pub open spec fn entity_entries(l: Seq<ExtensionsOnlyView>, c: Category, s: Schema) -> Seq<
    ReportEntry,
>
    decreases l.len(),
{
    if l.len() == 0 {
        Seq::empty()
    } else {
        entity_entries(l.drop_last(), c, s) + match payload_view(l.last().extensions, s) {
            Some(Some(i)) => seq![
                ReportEntry {
                    category: c,
                    entity_index: (l.len() - 1) as usize,
                    packet_index: i,
                },
            ],
            _ => Seq::empty(),
        }
    }
}

pub open spec fn opt_entries(l: Option<Seq<ExtensionsOnlyView>>, c: Category, s: Schema) -> Seq<
    ReportEntry,
> {
    match l {
        None => Seq::empty(),
        Some(v) => entity_entries(v, c, s),
    }
}

/// The asset's report line, if it is tagged.
pub open spec fn asset_entries(d: GltfView, s: Schema) -> Seq<ReportEntry> {
    match payload_view(d.asset.extensions, s) {
        Some(Some(i)) => seq![
            ReportEntry { category: Category::Asset, entity_index: 0, packet_index: i },
        ],
        _ => Seq::empty(),
    }
}

/// Every report line of the document, walking Asset, Animations, Images,
/// Materials, Meshes, Nodes, Scenes, and each list in list order.
pub open spec fn report_entries(d: GltfView, s: Schema) -> Seq<ReportEntry> {
    asset_entries(d, s) + opt_entries(d.animations, Category::Animations, s) + opt_entries(
        d.images,
        Category::Images,
        s,
    ) + opt_entries(d.materials, Category::Materials, s) + opt_entries(
        d.meshes,
        Category::Meshes,
        s,
    ) + opt_entries(d.nodes, Category::Nodes, s) + opt_entries(d.scenes, Category::Scenes, s)
}

/// The index the schema's payload of a bag carries, if the payload is
/// present and holds one.
pub fn get_packet_value(extension: &Option<PacketExtension>, s: Schema) -> (r: Option<u64>)
    ensures
        r == (match payload_view(bag_view(*extension), s) {
            Some(Some(i)) => Some(i),
            _ => None::<u64>,
        }),
{
    match extension {
        None => None,
        Some(p) => match s {
            Schema::Legacy => match &p.khr_xmp {
                None => None,
                Some(x) => x.packet,
            },
            Schema::JsonLd => match &p.khr_xmp_json_ld {
                None => None,
                Some(x) => x.packet,
            },
        },
    }
}

/// Appends the report lines of one entity list to `out`.
fn scan_entities(v: &Vec<ExtensionsOnly>, c: Category, s: Schema, out: &mut Vec<ReportEntry>)
    ensures
        final(out)@ == old(out)@ + entity_entries(
            v@.map_values(|e: ExtensionsOnly| e@),
            c,
            s,
        ),
{
    let ghost lv = v@.map_values(|e: ExtensionsOnly| e@);
    let mut i: usize = 0;
    while i < v.len()
        invariant
            i <= v@.len(),
            lv == v@.map_values(|e: ExtensionsOnly| e@),
            lv.len() == v@.len(),
            out@ == old(out)@ + entity_entries(lv.take(i as int), c, s),
        decreases v@.len() - i,
    {
        match get_packet_value(&v[i].extensions, s) {
            Some(idx) => {
                out.push(ReportEntry { category: c, entity_index: i, packet_index: idx });
            },
            None => {},
        }
        proof {
            assert(lv.take(i + 1).drop_last() =~= lv.take(i as int));
            assert(lv.take(i + 1).last() == lv[i as int]);
            assert(lv[i as int] == v@[i as int]@);
            assert(out@ =~= old(out)@ + entity_entries(lv.take(i + 1), c, s));
        }
        i += 1;
    }
    proof {
        assert(lv.take(lv.len() as int) =~= lv);
    }
}

/// Appends the report lines of an optional entity list to `out`.
fn scan_opt_list(l: &Option<Vec<ExtensionsOnly>>, c: Category, s: Schema, out: &mut Vec<
    ReportEntry,
>)
    ensures
        final(out)@ == old(out)@ + opt_entries(list_view(*l), c, s),
{
    match l {
        None => {
            proof {
                assert(out@ =~= out@ + Seq::<ReportEntry>::empty());
            }
        },
        Some(v) => {
            scan_entities(v, c, s, out);
        },
    }
}

/// Renders the schema's metadata of a document: fails with
/// `NoMetadataFound` exactly when the schema's root extension is absent
/// (tags on individual entities alone do not count); otherwise yields
/// the root packet collection as it stands and one line for every tagged
/// entity, walking Asset, Animations, Images, Materials, Meshes, Nodes,
/// Scenes, and each list in list order.
pub fn render_report(doc: &Gltf, s: Schema) -> (r: Result<Report, ReportError>)
    ensures
        r is Ok <==> root_present(doc@, s),
        r is Err ==> r == Err::<Report, ReportError>(ReportError::NoMetadataFound),
        r matches Ok(rep) ==> rep.context == root_context(doc@, s) && rep.packets@ == root_packets(
            doc@,
            s,
        ) && rep.entries@ == report_entries(doc@, s),
{
    let (context, packets): (Option<serde_json::Value>, Vec<serde_json::Value>) = match &doc
        .extensions {
        None => {
            return Err(ReportError::NoMetadataFound);
        },
        Some(ext) => match s {
            Schema::Legacy => match &ext.khr_xmp {
                None => {
                    return Err(ReportError::NoMetadataFound);
                },
                Some(x) => (Some(clone_value(&x.context)), clone_values(&x.packets)),
            },
            Schema::JsonLd => match &ext.khr_xmp_json_ld {
                None => {
                    return Err(ReportError::NoMetadataFound);
                },
                Some(x) => (None, clone_values(&x.packets)),
            },
        },
    };
    let mut entries: Vec<ReportEntry> = Vec::new();
    match get_packet_value(&doc.asset.extensions, s) {
        Some(i) => {
            entries.push(ReportEntry { category: Category::Asset, entity_index: 0, packet_index: i });
        },
        None => {},
    }
    proof {
        assert(entries@ =~= asset_entries(doc@, s));
    }
    scan_opt_list(&doc.animations, Category::Animations, s, &mut entries);
    scan_opt_list(&doc.images, Category::Images, s, &mut entries);
    scan_opt_list(&doc.materials, Category::Materials, s, &mut entries);
    scan_opt_list(&doc.meshes, Category::Meshes, s, &mut entries);
    scan_opt_list(&doc.nodes, Category::Nodes, s, &mut entries);
    scan_opt_list(&doc.scenes, Category::Scenes, s, &mut entries);
    proof {
        assert(entries@ =~= report_entries(doc@, s));
    }
    Ok(Report { context, packets, entries })
}

/// Renders the report for the schema the flag selects: the legacy schema
/// when `is_legacy` holds, the structured one otherwise.
pub fn list_gltf_metadata(doc: &Gltf, is_legacy: bool) -> (r: Result<Report, ReportError>)
    ensures
        ({
            let s = if is_legacy {
                Schema::Legacy
            } else {
                Schema::JsonLd
            };
            &&& r is Ok <==> root_present(doc@, s)
            &&& r is Err ==> r == Err::<Report, ReportError>(ReportError::NoMetadataFound)
            &&& r matches Ok(rep) ==> rep.context == root_context(doc@, s) && rep.packets@
                == root_packets(doc@, s) && rep.entries@ == report_entries(doc@, s)
        }),
{
    let s = if is_legacy {
        Schema::Legacy
    } else {
        Schema::JsonLd
    };
    render_report(doc, s)
}

// ------------------------------------------------------------------
// Installing a packet collection at the root extension, and the whole
// update flow: install, clear, apply.
// ------------------------------------------------------------------

/// The root extension bag with the structured schema's payload replaced
/// by the given packet collection; other entries stay, and an absent bag
/// is created empty. The schema's token is declared.
pub open spec fn install_jsonld_view(d: GltfView, packets: Seq<serde_json::Value>) -> GltfView {
    let e = match d.extensions {
        None => ExtensionView { khr_xmp: None, khr_xmp_json_ld: None, other_extensions: Seq::empty() },
        Some(e) => e,
    };
    GltfView {
        extensions: Some(
            ExtensionView { khr_xmp_json_ld: Some(KhrXmpJsonLdView { packets }), ..e },
        ),
        extensions_used: add_token(d.extensions_used, token_spec(Schema::JsonLd)),
        ..d
    }
}

/// As `install_jsonld_view`, for the legacy schema: its root payload is
/// the context value plus the packet collection.
pub open spec fn install_legacy_view(d: GltfView, context: serde_json::Value, packets: Seq<
    serde_json::Value,
>) -> GltfView {
    let e = match d.extensions {
        None => ExtensionView { khr_xmp: None, khr_xmp_json_ld: None, other_extensions: Seq::empty() },
        Some(e) => e,
    };
    GltfView {
        extensions: Some(ExtensionView { khr_xmp: Some(KhrXmpView { context, packets }), ..e }),
        extensions_used: add_token(d.extensions_used, token_spec(Schema::Legacy)),
        ..d
    }
}

/// Replaces the structured schema's root extension payload with the
/// given metadata and declares its token, preserving every other
/// extension and field.
pub fn install_packets(doc: &mut Gltf, metadata: KhrXmpJsonLd)
    ensures
        final(doc)@ == install_jsonld_view(old(doc)@, metadata@.packets),
{
    let taken = doc.extensions.take();
    let mut e = match taken {
        None => Extension { khr_xmp: None, khr_xmp_json_ld: None, other_extensions: Vec::new() },
        Some(e) => e,
    };
    e.khr_xmp_json_ld = Some(metadata);
    doc.extensions = Some(e);
    declare_token(&mut doc.extensions_used, token(Schema::JsonLd));
    proof {
        assert(doc@ =~~= install_jsonld_view(old(doc)@, metadata@.packets));
    }
}

/// As `install_packets`, for the legacy schema.
pub fn install_packets_legacy(doc: &mut Gltf, metadata: KhrXmp)
    ensures
        final(doc)@ == install_legacy_view(old(doc)@, metadata@.context, metadata@.packets),
{
    let ghost m = metadata@;
    let taken = doc.extensions.take();
    let mut e = match taken {
        None => Extension { khr_xmp: None, khr_xmp_json_ld: None, other_extensions: Vec::new() },
        Some(e) => e,
    };
    e.khr_xmp = Some(metadata);
    doc.extensions = Some(e);
    declare_token(&mut doc.extensions_used, token(Schema::Legacy));
    proof {
        assert(doc@ =~~= install_legacy_view(old(doc)@, m.context, m.packets));
    }
}

/// Neither installing, clearing nor the token step changes which entity
/// lists are present, so an assignment set stays valid (or invalid, with
/// the same first missing category) across them.
proof fn lemma_assigns_same_lists(d1: GltfView, d2: GltfView, assigns: Seq<PacketApplied>)
    requires
        (d1.animations is Some) == (d2.animations is Some),
        (d1.images is Some) == (d2.images is Some),
        (d1.materials is Some) == (d2.materials is Some),
        (d1.meshes is Some) == (d2.meshes is Some),
        (d1.nodes is Some) == (d2.nodes is Some),
        (d1.scenes is Some) == (d2.scenes is Some),
    ensures
        all_assigns_ok(d1, assigns) == all_assigns_ok(d2, assigns),
        first_missing(d1, assigns) == first_missing(d2, assigns),
    decreases assigns.len(),
{
    assert(forall|j: int|
        0 <= j < assigns.len() ==> assign_ok(d1, #[trigger] assigns[j]) == assign_ok(
            d2,
            assigns[j],
        ));
    if assigns.len() > 0 {
        lemma_assigns_same_lists(d1, d2, assigns.subrange(1, assigns.len() as int));
    }
}

/// The document after a whole structured-schema update: the packet
/// collection installed at the root, every stale tag cleared, and the
/// assignments applied.
pub open spec fn update_jsonld_view(d: GltfView, packets: Seq<serde_json::Value>, assigns: Seq<
    PacketApplied,
>) -> GltfView {
    apply_result_view(
        clear_doc_view(install_jsonld_view(d, packets), Schema::JsonLd),
        assigns,
        Schema::JsonLd,
    )
}

/// The document after a whole legacy-schema update.
pub open spec fn update_legacy_view(d: GltfView, context: serde_json::Value, packets: Seq<
    serde_json::Value,
>, assigns: Seq<PacketApplied>) -> GltfView {
    apply_result_view(
        clear_doc_view(install_legacy_view(d, context, packets), Schema::Legacy),
        assigns,
        Schema::Legacy,
    )
}

/// The whole structured-schema update: installs the packet collection at
/// the root extension, clears every stale entity tag, then applies the
/// assignments. If any assignment addresses an absent entity list the
/// document is left untouched and the first such category is reported.
pub fn update_document(doc: &mut Gltf, metadata: KhrXmpJsonLd, apply_to: Vec<PacketApplied>) -> (r:
    Result<(), ApplyError>)
    ensures
        r is Ok <==> all_assigns_ok(old(doc)@, apply_to@),
        r is Ok ==> final(doc)@ == update_jsonld_view(old(doc)@, metadata@.packets, apply_to@),
        r is Err ==> final(doc)@ == old(doc)@ && r == Err::<(), ApplyError>(
            ApplyError::MissingEntityList(first_missing(old(doc)@, apply_to@)),
        ),
{
    match check_assignments(doc, &apply_to) {
        Some(c) => {
            return Err(ApplyError::MissingEntityList(c));
        },
        None => {},
    }
    let ghost packets = metadata@.packets;
    install_packets(doc, metadata);
    clear_metadata(doc, Schema::JsonLd);
    proof {
        lemma_assigns_same_lists(old(doc)@, doc@, apply_to@);
    }
    let r = apply_metadata(doc, Schema::JsonLd, apply_to);
    proof {
        assert(r is Ok);
    }
    Ok(())
}

/// The whole legacy-schema update.
pub fn update_document_legacy(doc: &mut Gltf, metadata: KhrXmp, apply_to: Vec<PacketApplied>) -> (r:
    Result<(), ApplyError>)
    ensures
        r is Ok <==> all_assigns_ok(old(doc)@, apply_to@),
        r is Ok ==> final(doc)@ == update_legacy_view(
            old(doc)@,
            metadata@.context,
            metadata@.packets,
            apply_to@,
        ),
        r is Err ==> final(doc)@ == old(doc)@ && r == Err::<(), ApplyError>(
            ApplyError::MissingEntityList(first_missing(old(doc)@, apply_to@)),
        ),
{
    match check_assignments(doc, &apply_to) {
        Some(c) => {
            return Err(ApplyError::MissingEntityList(c));
        },
        None => {},
    }
    let ghost m = metadata@;
    install_packets_legacy(doc, metadata);
    clear_metadata(doc, Schema::Legacy);
    proof {
        lemma_assigns_same_lists(old(doc)@, doc@, apply_to@);
    }
    let r = apply_metadata(doc, Schema::Legacy, apply_to);
    proof {
        assert(r is Ok);
    }
    Ok(())
}

// ------------------------------------------------------------------
// Laws relating the operations.
// ------------------------------------------------------------------

/// Declaring a token always leaves it declared.
pub proof fn lemma_add_token_declares(eu: Option<Seq<Seq<char>>>, t: Seq<char>)
    ensures
        has_token(add_token(eu, t), t),
{
    if !has_token(eu, t) {
        match eu {
            None => {
                assert(seq![t][0] == t);
                assert(seq_has(seq![t], t));
            },
            Some(v) => {
                assert(v.push(t)[v.len() as int] == t);
                assert(seq_has(v.push(t), t));
            },
        }
    }
}

/// Declared tokens are never removed: every token the list declares it
/// still declares after another token is added.
pub proof fn lemma_tokens_only_grow(eu: Option<Seq<Seq<char>>>, t: Seq<char>, t2: Seq<char>)
    requires
        has_token(eu, t),
    ensures
        has_token(add_token(eu, t2), t),
{
    if !has_token(eu, t2) {
        match eu {
            None => {},
            Some(v) => {
                let j = choose|j: int| 0 <= j < v.len() && (#[trigger] v[j]) == t;
                assert(v.push(t2)[j] == t);
                assert(seq_has(v.push(t2), t));
            },
        }
    }
}

/// Applying a packet to the asset and then clearing leaves the asset
/// carrying no payload for the schema, while the schema's token is still
/// declared: clearing removes tags, never declarations.
pub proof fn lemma_apply_then_clear_asset(d: GltfView, i: u64, s: Schema)
    ensures
        ({
            let applied = apply_result_view(d, seq![PacketApplied::Asset(i)], s);
            let cleared = clear_doc_view(applied, s);
            &&& payload_view(cleared.asset.extensions, s) is None
            &&& has_token(cleared.extensions_used, token_spec(s))
        }),
{
    let assigns = seq![PacketApplied::Asset(i)];
    assert(assigns.drop_last() =~= Seq::<PacketApplied>::empty());
    assert(assignment_hits(d, assigns[0]));
    assert(any_assignment_hits(d, assigns));
    lemma_add_token_declares(d.extensions_used, token_spec(s));
}

/// The two schemas never interact: setting or clearing one schema's
/// payload leaves the other schema's payload and the bag's unrecognized
/// extensions untouched.
pub proof fn lemma_schemas_never_interact(
    b: Option<crate::json_models::extension::PacketExtensionView>,
    s1: Schema,
    s2: Schema,
    i: u64,
)
    requires
        s1 != s2,
    ensures
        payload_view(set_bag_view(b, s1, i), s2) == payload_view(b, s2),
        payload_view(clear_bag_view(b, s1), s2) == payload_view(b, s2),
{
}

/// The two schema engines behave identically up to the schema-specific
/// field: for either schema, setting leaves exactly that schema's
/// payload with the given index, clearing removes exactly it, and both
/// carry the bag's unrecognized extensions through unchanged.
pub proof fn lemma_schemas_parallel(
    b: Option<crate::json_models::extension::PacketExtensionView>,
    s: Schema,
    i: u64,
)
    ensures
        payload_view(set_bag_view(b, s, i), s) == Some(Some(i)),
        payload_view(clear_bag_view(b, s), s) is None,
        set_bag_view(b, s, i)->0.other_extensions == (match b {
            None => Seq::<(String, serde_json::Value)>::empty(),
            Some(p) => p.other_extensions,
        }),
        b is Some ==> clear_bag_view(b, s)->0.other_extensions == b->0.other_extensions,
{
}

} // verus!
