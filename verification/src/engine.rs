use vstd::prelude::*;

use oicana::Template;
use oicana_files::packed::PackedTemplate;

verus! {

/// A live template instance: the opaque, internally mutable engine
/// handle produced by loading a packaged template archive. Every
/// compile call mutates its internal state, so access during a compile
/// must be exclusive.
#[verifier::external_body]
pub struct EngineInstance {
    inner: Template<PackedTemplate>,
}

#[verifier::external_type_specification]
#[verifier::external_body]
pub struct ExTemplateInputs(oicana_input::TemplateInputs);

#[verifier::external_type_specification]
#[verifier::external_body]
pub struct ExCompiledDocument(oicana_world::CompiledDocument);

/// Whether the loader accepts a packaged archive. On the packed path
/// Template::init reads nothing beyond the supplied bytes — the
/// template's fonts come from the archive and the remaining fonts are
/// embedded — so its verdict is a function of the archive alone.
pub uninterp spec fn load_ok(archive: Seq<u8>) -> bool;

/// Relies on oicana::Template::init: loads a packaged template archive
/// into a fresh instance, or reports why it cannot.
#[verifier::external_body]
pub(crate) fn load_instance(archive: Vec<u8>) -> (r: Result<EngineInstance, String>)
    ensures
        r is Ok <==> load_ok(archive@),
{
    match Template::init(std::io::Cursor::new(archive)) {
        Ok(inner) => Ok(EngineInstance { inner }),
        Err(error) => Err(error.to_string()),
    }
}

/// Relies on oicana::Template::set_diagnostic_color: turns colored
/// diagnostic output off for this instance.
#[verifier::external_body]
pub(crate) fn disable_diagnostic_color(instance: &mut EngineInstance) {
    instance.inner.set_diagnostic_color(oicana::DiagnosticColor::None);
}

/// The JSON inputs an input collection holds: each key with its
/// serialized text. JSON and blob inputs share one namespace, so an
/// insertion of either kind displaces the other kind's entry.
pub uninterp spec fn engine_json_map(inputs: oicana_input::TemplateInputs) -> Map<
    Seq<char>,
    Seq<char>,
>;

/// The blob inputs an input collection holds: each key with its bytes.
pub uninterp spec fn engine_blob_map(inputs: oicana_input::TemplateInputs) -> Map<
    Seq<char>,
    Seq<u8>,
>;

/// Whether the collection selects the development compilation profile.
pub uninterp spec fn engine_development(inputs: oicana_input::TemplateInputs) -> bool;

/// A JSON namespace with no inputs.
pub open spec fn no_engine_json() -> Map<Seq<char>, Seq<char>> {
    Map::<Seq<char>, Seq<char>>::empty()
}

/// A blob namespace with no inputs.
pub open spec fn no_engine_blob() -> Map<Seq<char>, Seq<u8>> {
    Map::<Seq<char>, Seq<u8>>::empty()
}

/// Relies on oicana_input::TemplateInputs::new: a fresh input
/// collection with no inputs, under the production profile.
#[verifier::external_body]
pub(crate) fn inputs_new() -> (r: oicana_input::TemplateInputs)
    ensures
        engine_json_map(r) == no_engine_json(),
        engine_blob_map(r) == no_engine_blob(),
        !engine_development(r),
{
    oicana_input::TemplateInputs::new()
}

/// Relies on oicana_input::TemplateInputs::with_config: selects the
/// development compilation profile and touches no input.
#[verifier::external_body]
pub(crate) fn inputs_set_development(inputs: &mut oicana_input::TemplateInputs)
    ensures
        engine_json_map(*final(inputs)) == engine_json_map(*old(inputs)),
        engine_blob_map(*final(inputs)) == engine_blob_map(*old(inputs)),
        engine_development(*final(inputs)),
{
    inputs.with_config(oicana_input::CompilationConfig::development());
}

/// Relies on oicana_input::TemplateInputs::with_input: maps the key to
/// this JSON text in the shared namespace, displacing whatever entry of
/// either kind the key had.
#[verifier::external_body]
pub(crate) fn inputs_add_json(
    inputs: &mut oicana_input::TemplateInputs,
    key: &String,
    text: &String,
)
    ensures
        engine_json_map(*final(inputs)) == engine_json_map(*old(inputs)).insert(key@, text@),
        engine_blob_map(*final(inputs)) == engine_blob_map(*old(inputs)).remove(key@),
        engine_development(*final(inputs)) == engine_development(*old(inputs)),
{
    inputs.with_input(oicana_input::JsonInput::new(key.as_str(), text.clone()));
}

/// Relies on oicana_input::TemplateInputs::with_input: maps the key to
/// these blob bytes in the shared namespace, displacing whatever entry
/// of either kind the key had.
#[verifier::external_body]
pub(crate) fn inputs_add_blob(
    inputs: &mut oicana_input::TemplateInputs,
    key: &String,
    data: &Vec<u8>,
)
    ensures
        engine_blob_map(*final(inputs)) == engine_blob_map(*old(inputs)).insert(key@, data@),
        engine_json_map(*final(inputs)) == engine_json_map(*old(inputs)).remove(key@),
        engine_development(*final(inputs)) == engine_development(*old(inputs)),
{
    inputs.with_input(
        oicana_input::BlobInput::new(key.as_str(), oicana::typst::Bytes::new(data.clone())),
    );
}

/// Relies on oicana::Template::compile: compiles the instance with the
/// given inputs, mutating the instance's internal state either way, and
/// on failure reports the primary message with optional warnings. This
/// service drives the engine only under its fixed development profile.
#[verifier::external_body]
pub(crate) fn engine_compile(
    instance: &mut EngineInstance,
    inputs: oicana_input::TemplateInputs,
) -> Result<oicana_world::CompiledDocument, (String, Option<String>)>
    requires
        engine_development(inputs),
{
    match instance.inner.compile(inputs) {
        Ok(document) => Ok(document),
        Err(oicana::CompileError::CompilationFailed(failure)) => Err(
            (failure.error, failure.warnings),
        ),
        Err(oicana::CompileError::ValidationFailed(error)) => Err((error.to_string(), None)),
    }
}

/// Relies on oicana_export::pdf::export_pdf: encodes the compiled
/// document as PDF under the standards and tagging the template's
/// manifest configures, or reports why it cannot.
#[verifier::external_body]
pub(crate) fn export_document(
    document: &oicana_world::CompiledDocument,
    instance: &EngineInstance,
) -> Result<Vec<u8>, String> {
    match oicana_export::pdf::export_pdf(
        &document.document,
        &instance.inner,
        instance.inner.manifest().pdf_standards(),
        instance.inner.manifest().pdf_tagged(),
        None,
    ) {
        Ok(bytes) => Ok(bytes),
        Err(error) => Err(error.to_string()),
    }
}

/// Relies on oicana_export::png::export_png: renders the compiled
/// document as one merged PNG at the given scale in pixels per point,
/// or reports why it cannot.
#[verifier::external_body]
pub(crate) fn export_image(document: &oicana_world::CompiledDocument, pixels_per_pt: u32) -> Result<Vec<u8>, String> {
    match oicana_export::png::export_png(&document.document, pixels_per_pt as _, None) {
        Ok(bytes) => Ok(bytes),
        Err(error) => Err(error.to_string()),
    }
}

} // verus!
