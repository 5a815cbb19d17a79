use vstd::prelude::*;

use crate::engine::{
    all_assigns_ok, apply_metadata, apply_result_view, check_assignments, clear_doc_view,
    clear_metadata, first_missing, render_report, report_entries, root_context, root_packets,
    root_present, ApplyError, PacketApplied, Report, ReportError,
};
use crate::json_models::gltf::Gltf;
use crate::schema::Schema;

verus! {

/// Drives the packet-application engine for the structured schema
/// (extension key `KHR_xmp_json_ld`) over one document.
pub struct KhrXmpJsonLdManager {
    pub gltf: Gltf,
}

impl KhrXmpJsonLdManager {
    /// Wraps a document.
    pub fn new(g: Gltf) -> (r: Self)
        ensures
            r.gltf@ == g@,
    {
        KhrXmpJsonLdManager { gltf: g }
    }

    /// The document as it currently stands.
    pub fn get_gltf(&self) -> (r: &Gltf)
        ensures
            r@ == self.gltf@,
    {
        &self.gltf
    }

    /// Renders the structured schema's metadata of the document; fails
    /// with `NoMetadataFound` exactly when the schema's root extension
    /// is absent.
    pub fn render_report(&self) -> (r: Result<Report, ReportError>)
        ensures
            r is Ok <==> root_present(self.gltf@, Schema::JsonLd),
            r is Err ==> r == Err::<Report, ReportError>(ReportError::NoMetadataFound),
            r matches Ok(rep) ==> rep.context == root_context(self.gltf@, Schema::JsonLd)
                && rep.packets@ == root_packets(self.gltf@, Schema::JsonLd) && rep.entries@
                == report_entries(self.gltf@, Schema::JsonLd),
    {
        render_report(&self.gltf, Schema::JsonLd)
    }

    /// Removes the structured schema's payload from every entity.
    pub fn clear_applied_packets(&mut self)
        ensures
            final(self).gltf@ == clear_doc_view(old(self).gltf@, Schema::JsonLd),
    {
        clear_metadata(&mut self.gltf, Schema::JsonLd);
    }

    /// Applies each assignment to every entity of its category; if any
    /// assignment addresses an absent entity list, the document is left
    /// untouched and the first such category is reported.
    pub fn set_applied_packets(&mut self, apply_to: Vec<PacketApplied>) -> (r: Result<
        (),
        ApplyError,
    >)
        ensures
            r is Ok <==> all_assigns_ok(old(self).gltf@, apply_to@),
            r is Ok ==> final(self).gltf@ == apply_result_view(
                old(self).gltf@,
                apply_to@,
                Schema::JsonLd,
            ),
            r is Err ==> final(self).gltf@ == old(self).gltf@ && r == Err::<(), ApplyError>(
                ApplyError::MissingEntityList(first_missing(old(self).gltf@, apply_to@)),
            ),
    {
        apply_metadata(&mut self.gltf, Schema::JsonLd, apply_to)
    }

    /// Checks the assignments without changing the document: `None` when
    /// every addressed entity list is present.
    pub fn check_assignments(&self, apply_to: &Vec<PacketApplied>) -> (r: Option<
        crate::engine::Category,
    >)
        ensures
            r is None <==> all_assigns_ok(self.gltf@, apply_to@),
            r matches Some(c) ==> c == first_missing(self.gltf@, apply_to@),
    {
        check_assignments(&self.gltf, apply_to)
    }
}

} // verus!
