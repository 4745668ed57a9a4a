use vstd::prelude::*;
use vstd::string::StringExecFns;

use crate::engine::EngineInstance;
use crate::engine::disable_diagnostic_color;
use crate::engine::engine_blob_map;
use crate::engine::engine_compile;
use crate::engine::engine_development;
use crate::engine::engine_json_map;
use crate::engine::export_document;
use crate::engine::export_image;
use crate::engine::inputs_add_blob;
use crate::engine::inputs_add_json;
use crate::engine::inputs_new;
use crate::engine::inputs_set_development;
use crate::engine::load_instance;
use crate::engine::load_ok;
use crate::engine::no_engine_blob;
use crate::engine::no_engine_json;
use crate::errors::ServiceError;
use crate::ids::BlobId;
use crate::inputs::InputSet;
use crate::inputs::InputValue;
use crate::inputs::InputValueModel;
use crate::registry::TemplateRegistry;
use crate::store::BlobStore;

verus! {

/// Which artifact an orchestration produces.
#[derive(Clone, Copy, PartialEq, Eq, Structural, Debug)]
pub enum OutputKind {
    /// The full document artifact (PDF).
    Document,
    /// A preview image (PNG).
    Preview,
}

/// The content type the artifact is served with.
pub open spec fn content_type_of(kind: OutputKind) -> Seq<char> {
    match kind {
        OutputKind::Document => "application/pdf"@,
        OutputKind::Preview => "image/png"@,
    }
}

/// The suffix of the suggested filename.
pub open spec fn file_suffix_of(kind: OutputKind) -> Seq<char> {
    match kind {
        OutputKind::Document => ".pdf"@,
        OutputKind::Preview => ".png"@,
    }
}

/// How the artifact is presented: documents are served as downloads,
/// previews are shown in place.
pub open spec fn disposition_of(kind: OutputKind) -> Seq<char> {
    match kind {
        OutputKind::Document => "attachment"@,
        OutputKind::Preview => "inline"@,
    }
}

/// One JSON input of a compile request: serialized JSON text under a
/// key.
#[derive(Debug)]
pub struct JsonEntry {
    pub key: String,
    pub value: String,
}

/// One blob input of a compile request: a blob-store reference under a
/// key.
#[derive(Debug)]
pub struct BlobEntry {
    pub key: String,
    pub blob_id: BlobId,
}

/// A rendered artifact with its content metadata.
#[derive(Debug)]
pub struct Artifact {
    pub bytes: Vec<u8>,
    pub content_type: String,
    pub disposition: String,
    pub filename: String,
}

/// The input set a request denotes once every blob reference has been
/// resolved against the durable tier: the JSON inputs in list order,
/// then the blob inputs in list order.
pub open spec fn requested_entries(
    json: Seq<JsonEntry>,
    blobs: Seq<BlobEntry>,
    durable: Map<u128, Seq<u8>>,
) -> Seq<(Seq<char>, InputValueModel)> {
    json.map(|i: int, e: JsonEntry| (e.key@, InputValueModel::Json(e.value@))) + blobs.map(
        |i: int, e: BlobEntry| (e.key@, InputValueModel::Blob(durable[e.blob_id.value])),
    )
}

/// The position of the first blob reference that the durable tier
/// cannot resolve, if any.
pub open spec fn first_missing_blob(blobs: Seq<BlobEntry>, durable: Map<u128, Seq<u8>>) -> Option<
    int,
>
    decreases blobs.len(),
{
    if blobs.len() == 0 {
        None
    } else if !durable.contains_key(blobs.first().blob_id.value) {
        Some(0)
    } else {
        match first_missing_blob(blobs.drop_first(), durable) {
            None => None,
            Some(i) => Some(i + 1),
        }
    }
}

proof fn lemma_first_missing_at(blobs: Seq<BlobEntry>, durable: Map<u128, Seq<u8>>, i: int)
    requires
        0 <= i < blobs.len(),
        forall|j: int| 0 <= j < i ==> durable.contains_key(blobs[j].blob_id.value),
        !durable.contains_key(blobs[i].blob_id.value),
    ensures
        first_missing_blob(blobs, durable) == Some(i),
    decreases blobs.len(),
{
    if i > 0 {
        assert(durable.contains_key(blobs[0].blob_id.value));
        assert forall|j: int| 0 <= j < i - 1 implies durable.contains_key(
            blobs.drop_first()[j].blob_id.value,
        ) by {
            assert(blobs.drop_first()[j] == blobs[j + 1]);
        }
        assert(blobs.drop_first()[i - 1] == blobs[i]);
        lemma_first_missing_at(blobs.drop_first(), durable, i - 1);
    }
}

proof fn lemma_first_missing_none(blobs: Seq<BlobEntry>, durable: Map<u128, Seq<u8>>)
    requires
        forall|j: int| 0 <= j < blobs.len() ==> durable.contains_key(blobs[j].blob_id.value),
    ensures
        first_missing_blob(blobs, durable) is None,
    decreases blobs.len(),
{
    if blobs.len() > 0 {
        assert forall|j: int| 0 <= j < blobs.len() - 1 implies durable.contains_key(
            blobs.drop_first()[j].blob_id.value,
        ) by {
            assert(blobs.drop_first()[j] == blobs[j + 1]);
        }
        lemma_first_missing_none(blobs.drop_first(), durable);
    }
}

/// The engine-side namespaces that an input set denotes once applied
/// in list order: the JSON inputs and the blob inputs, sharing one
/// space of keys, each entry displacing whatever the key held before.
pub open spec fn engine_maps_of(entries: Seq<(Seq<char>, InputValueModel)>) -> (
    Map<Seq<char>, Seq<char>>,
    Map<Seq<char>, Seq<u8>>,
)
    decreases entries.len(),
{
    if entries.len() == 0 {
        (no_engine_json(), no_engine_blob())
    } else {
        let rest = engine_maps_of(entries.drop_last());
        let last = entries.last();
        match last.1 {
            InputValueModel::Json(text) => (rest.0.insert(last.0, text), rest.1.remove(last.0)),
            InputValueModel::Blob(data) => (rest.0.remove(last.0), rest.1.insert(last.0, data)),
        }
    }
}

/// Hand an input set over to the engine's input collection: every
/// entry in list order, under the fixed development profile this
/// service always compiles with.
pub fn to_engine_inputs(set: &InputSet) -> (r: oicana_input::TemplateInputs)
    ensures
        engine_development(r),
        engine_json_map(r) == engine_maps_of(set@).0,
        engine_blob_map(r) == engine_maps_of(set@).1,
{
    let mut r = inputs_new();
    inputs_set_development(&mut r);
    let n: usize = set.len();
    let mut i: usize = 0;
    while i < n
        invariant
            n == set@.len(),
            i <= n,
            engine_development(r),
            engine_json_map(r) == engine_maps_of(set@.subrange(0, i as int)).0,
            engine_blob_map(r) == engine_maps_of(set@.subrange(0, i as int)).1,
        decreases n - i,
    {
        let entry = set.entry_at(i);
        match &entry.value {
            InputValue::Json(text) => inputs_add_json(&mut r, &entry.key, text),
            InputValue::Blob(data) => inputs_add_blob(&mut r, &entry.key, data),
        }
        proof {
            assert(set@.subrange(0, i + 1).drop_last() =~= set@.subrange(0, i as int));
            assert(set@.subrange(0, i + 1).last() == set@[i as int]);
        }
        i += 1;
    }
    proof {
        assert(set@.subrange(0, n as int) =~= set@);
    }
    r
}

/// Wrap exported bytes with their content type and the filename the
/// template identifier suggests.
pub fn success_artifact(kind: OutputKind, template_id: &String, bytes: Vec<u8>) -> (a: Artifact)
    ensures
        a.bytes@ == bytes@,
        a.content_type@ == content_type_of(kind),
        a.disposition@ == disposition_of(kind),
        a.filename@ == template_id@ + file_suffix_of(kind),
{
    match kind {
        OutputKind::Document => {
            let mut filename = template_id.clone();
            filename.append(".pdf");
            Artifact {
                bytes,
                content_type: String::from_str("application/pdf"),
                disposition: String::from_str("attachment"),
                filename,
            }
        },
        OutputKind::Preview => {
            let mut filename = template_id.clone();
            filename.append(".png");
            Artifact {
                bytes,
                content_type: String::from_str("image/png"),
                disposition: String::from_str("inline"),
                filename,
            }
        },
    }
}

/// Begin a compile request: acquire the template instance exclusively,
/// then build the input set, appending the JSON inputs in list order
/// and resolving each blob reference through the store in list order.
/// The first unresolvable blob reference aborts the whole request
/// before any compile is attempted and hands the instance back. On
/// success the instance stays out, exclusively held by the caller,
/// until it is handed back with `insert_instance`.
pub fn begin_compile<T>(
    registry: &mut TemplateRegistry<T>,
    store: &mut BlobStore,
    template_id: &String,
    json_inputs: &Vec<JsonEntry>,
    blob_inputs: &Vec<BlobEntry>,
) -> (r: Result<(T, InputSet), ServiceError>)
    requires
        old(registry).wf(),
        old(store).wf(),
    ensures
        final(registry).wf(),
        final(store).wf(),
        final(store).durable_view() == old(store).durable_view(),
        match r {
            Ok(p) => old(registry).live().contains(template_id@) && p.0 == old(
                registry,
            ).instances()[template_id@] && final(registry).instances() == old(
                registry,
            ).instances().remove(template_id@)
                && final(registry).live() == old(registry).live().remove(template_id@)
                && first_missing_blob(
                blob_inputs@,
                old(store).durable_view(),
            ) is None && p.1@ == requested_entries(
                json_inputs@,
                blob_inputs@,
                old(store).durable_view(),
            ),
            Err(e) => final(registry).instances() == old(registry).instances()
                && final(registry).live() == old(registry).live() && match e {
                ServiceError::TemplateNotFound { template_id: t } => t@ == template_id@ && !old(
                    registry,
                ).live().contains(template_id@),
                ServiceError::BlobNotFound { template_id: t, blob_id } => t@ == template_id@
                    && old(registry).live().contains(template_id@) && (first_missing_blob(
                    blob_inputs@,
                    old(store).durable_view(),
                ) matches Some(i) && blob_id == blob_inputs@[i].blob_id),
                _ => false,
            },
        },
{
    let instance = match registry.take(template_id) {
        Some(t) => t,
        None => {
            return Err(ServiceError::TemplateNotFound { template_id: template_id.clone() });
        },
    };
    let ghost json_model = json_inputs@.map(
        |i: int, e: JsonEntry| (e.key@, InputValueModel::Json(e.value@)),
    );
    let mut set = InputSet::new();
    let n: usize = json_inputs.len();
    let mut i: usize = 0;
    while i < n
        invariant
            old(registry).live().contains(template_id@),
            registry.wf(),
            registry.instances() == old(registry).instances().remove(template_id@),
            *store == *old(store),
            old(store).wf(),
            n == json_inputs@.len(),
            i <= n,
            json_model == json_inputs@.map(
                |k: int, e: JsonEntry| (e.key@, InputValueModel::Json(e.value@)),
            ),
            set@ == json_model.subrange(0, i as int),
        decreases n - i,
    {
        let entry = &json_inputs[i];
        set.push_json(entry.key.clone(), entry.value.clone());
        proof {
            assert(set@ =~= json_model.subrange(0, i + 1));
        }
        i += 1;
    }
    proof {
        assert(set@ =~= json_model);
    }
    let ghost durable = old(store).durable_view();
    let ghost blob_model = blob_inputs@.map(
        |k: int, e: BlobEntry| (e.key@, InputValueModel::Blob(durable[e.blob_id.value])),
    );
    let m: usize = blob_inputs.len();
    let mut b: usize = 0;
    while b < m
        invariant
            old(registry).live().contains(template_id@),
            registry.wf(),
            registry.instances() == old(registry).instances().remove(template_id@),
            instance == old(registry).instances()[template_id@],
            store.wf(),
            store.durable_view() == old(store).durable_view(),
            old(store).wf(),
            durable == old(store).durable_view(),
            m == blob_inputs@.len(),
            b <= m,
            json_model == json_inputs@.map(
                |k: int, e: JsonEntry| (e.key@, InputValueModel::Json(e.value@)),
            ),
            blob_model == blob_inputs@.map(
                |k: int, e: BlobEntry| (e.key@, InputValueModel::Blob(durable[e.blob_id.value])),
            ),
            forall|j: int| 0 <= j < b ==> durable.contains_key(blob_inputs@[j].blob_id.value),
            set@ == json_model + blob_model.subrange(0, b as int),
        decreases m - b,
    {
        let entry = &blob_inputs[b];
        match store.get(entry.blob_id) {
            Some(data) => {
                set.push_blob(entry.key.clone(), data);
                proof {
                    assert(set@ =~= json_model + blob_model.subrange(0, b + 1));
                }
                b += 1;
            },
            None => {
                proof {
                    lemma_first_missing_at(blob_inputs@, durable, b as int);
                }
                registry.insert_instance(template_id.clone(), instance);
                proof {
                    assert(registry.instances() =~= old(registry).instances());
                }
                return Err(
                    ServiceError::BlobNotFound {
                        template_id: template_id.clone(),
                        blob_id: entry.blob_id,
                    },
                );
            },
        }
    }
    proof {
        lemma_first_missing_none(blob_inputs@, durable);
        assert(blob_model.subrange(0, m as int) =~= blob_model);
        assert(set@ == requested_entries(json_inputs@, blob_inputs@, old(store).durable_view()));
        assert(registry.live() =~= old(registry).live().remove(template_id@));
    }
    Ok((instance, set))
}

/// Compile a template with the given inputs and export the artifact:
/// the whole request pipeline against the engine. The instance is held
/// exclusively for the duration and handed back whatever the engine
/// decides, mutated but never evicted: the live set ends as it began.
pub fn run_compile(
    registry: &mut TemplateRegistry<EngineInstance>,
    store: &mut BlobStore,
    template_id: &String,
    json_inputs: &Vec<JsonEntry>,
    blob_inputs: &Vec<BlobEntry>,
    kind: OutputKind,
) -> (r: Result<Artifact, ServiceError>)
    requires
        old(registry).wf(),
        old(store).wf(),
    ensures
        final(registry).wf(),
        final(store).wf(),
        final(store).durable_view() == old(store).durable_view(),
        final(registry).live() == old(registry).live(),
        final(registry).instances().remove(template_id@) == old(registry).instances().remove(
            template_id@,
        ),
        match r {
            Ok(a) => old(registry).live().contains(template_id@) && first_missing_blob(
                blob_inputs@,
                old(store).durable_view(),
            ) is None && a.content_type@ == content_type_of(kind) && a.disposition@
                == disposition_of(kind) && a.filename@ == template_id@ + file_suffix_of(kind),
            Err(e) => match e {
                ServiceError::TemplateNotFound { template_id: t } => t@ == template_id@ && !old(
                    registry,
                ).live().contains(template_id@),
                ServiceError::BlobNotFound { template_id: t, blob_id } => t@ == template_id@
                    && old(registry).live().contains(template_id@) && (first_missing_blob(
                    blob_inputs@,
                    old(store).durable_view(),
                ) matches Some(i) && blob_id == blob_inputs@[i].blob_id),
                ServiceError::CompilationFailure { template_id: t, .. } => t@ == template_id@
                    && old(registry).live().contains(template_id@) && first_missing_blob(
                    blob_inputs@,
                    old(store).durable_view(),
                ) is None,
                ServiceError::ExportFailure { template_id: t, .. } => t@ == template_id@ && old(
                    registry,
                ).live().contains(template_id@) && first_missing_blob(
                    blob_inputs@,
                    old(store).durable_view(),
                ) is None,
                _ => false,
            },
        },
{
    let begun = begin_compile(registry, store, template_id, json_inputs, blob_inputs);
    let (mut instance, set) = match begun {
        Ok(p) => p,
        Err(e) => {
            return Err(e);
        },
    };
    let engine_inputs = to_engine_inputs(&set);
    proof {
        // The engine receives exactly the resolved entries of this
        // request, under the development profile.
        assert(engine_development(engine_inputs));
        assert(engine_json_map(engine_inputs) == engine_maps_of(
            requested_entries(json_inputs@, blob_inputs@, old(store).durable_view()),
        ).0);
        assert(engine_blob_map(engine_inputs) == engine_maps_of(
            requested_entries(json_inputs@, blob_inputs@, old(store).durable_view()),
        ).1);
    }
    match engine_compile(&mut instance, engine_inputs) {
        Ok(document) => {
            let exported = match kind {
                OutputKind::Document => export_document(&document, &instance),
                OutputKind::Preview => export_image(&document, 1),
            };
            registry.insert_instance(template_id.clone(), instance);
            proof {
                assert(registry.live() =~= old(registry).live());
                assert(registry.instances().remove(template_id@) =~= old(
                    registry,
                ).instances().remove(template_id@));
            }
            match exported {
                Ok(bytes) => Ok(success_artifact(kind, template_id, bytes)),
                Err(error) => Err(
                    ServiceError::ExportFailure { template_id: template_id.clone(), error },
                ),
            }
        },
        Err(failure) => {
            registry.insert_instance(template_id.clone(), instance);
            proof {
                assert(registry.live() =~= old(registry).live());
                assert(registry.instances().remove(template_id@) =~= old(
                    registry,
                ).instances().remove(template_id@));
            }
            Err(
                ServiceError::CompilationFailure {
                    template_id: template_id.clone(),
                    error: failure.0,
                    warnings: failure.1,
                },
            )
        },
    }
}

/// The fixed certificate flow: compile the one certificate template
/// with a single JSON input under its expected key and export the
/// document artifact. The request arrives already serialized by the
/// caller's encoder; an encoding failure surfaces as such.
pub fn run_certificate(
    registry: &mut TemplateRegistry<EngineInstance>,
    serialized: Result<String, String>,
) -> (r: Result<Artifact, ServiceError>)
    requires
        old(registry).wf(),
    ensures
        final(registry).wf(),
        final(registry).live() == old(registry).live(),
        final(registry).instances().remove("certificate"@) == old(registry).instances().remove(
            "certificate"@,
        ),
        match r {
            Ok(a) => serialized is Ok && old(registry).live().contains("certificate"@)
                && a.content_type@ == "application/pdf"@ && a.disposition@ == "attachment"@
                && a.filename@ == "certificate"@ + ".pdf"@,
            Err(e) => match e {
                ServiceError::SerializationFailure { detail } => (serialized matches Err(d)
                    && detail@ == d@),
                ServiceError::TemplateNotFound { template_id: t } => serialized is Ok && t@
                    == "certificate"@ && !old(registry).live().contains("certificate"@),
                ServiceError::CompilationFailure { template_id: t, .. } => serialized is Ok && t@
                    == "certificate"@ && old(registry).live().contains("certificate"@),
                ServiceError::ExportFailure { template_id: t, .. } => serialized is Ok && t@
                    == "certificate"@ && old(registry).live().contains("certificate"@),
                _ => false,
            },
        },
{
    let json = match serialized {
        Ok(j) => j,
        Err(detail) => {
            return Err(ServiceError::SerializationFailure { detail });
        },
    };
    let template_id = String::from_str("certificate");
    let mut instance = match registry.take(&template_id) {
        Some(t) => t,
        None => {
            return Err(ServiceError::TemplateNotFound { template_id });
        },
    };
    let ghost json_view = json@;
    let mut set = InputSet::new();
    set.push_json(String::from_str("certificate"), json);
    let engine_inputs = to_engine_inputs(&set);
    proof {
        // The engine receives exactly one JSON input, keyed
        // "certificate", carrying the serialized request, under the
        // development profile.
        assert(set@.drop_last() =~= Seq::<(Seq<char>, InputValueModel)>::empty());
        assert(engine_maps_of(Seq::<(Seq<char>, InputValueModel)>::empty()) == (
            no_engine_json(),
            no_engine_blob(),
        ));
        assert(engine_maps_of(set@.drop_last()) == (no_engine_json(), no_engine_blob()));
        assert(set@.last() == ("certificate"@, InputValueModel::Json(json_view)));
        assert(engine_development(engine_inputs));
        assert(engine_json_map(engine_inputs) == no_engine_json().insert(
            "certificate"@,
            json_view,
        ));
        assert(no_engine_blob().remove("certificate"@) =~= no_engine_blob());
        assert(engine_blob_map(engine_inputs) == no_engine_blob());
    }
    match engine_compile(&mut instance, engine_inputs) {
        Ok(document) => {
            let exported = export_document(&document, &instance);
            registry.insert_instance(template_id, instance);
            proof {
                assert(registry.live() =~= old(registry).live());
                assert(registry.instances().remove("certificate"@) =~= old(
                    registry,
                ).instances().remove("certificate"@));
            }
            match exported {
                Ok(bytes) => {
                    let name = String::from_str("certificate");
                    Ok(success_artifact(OutputKind::Document, &name, bytes))
                },
                Err(error) => Err(
                    ServiceError::ExportFailure {
                        template_id: String::from_str("certificate"),
                        error,
                    },
                ),
            }
        },
        Err(failure) => {
            registry.insert_instance(template_id, instance);
            proof {
                assert(registry.live() =~= old(registry).live());
                assert(registry.instances().remove("certificate"@) =~= old(
                    registry,
                ).instances().remove("certificate"@));
            }
            Err(
                ServiceError::CompilationFailure {
                    template_id: String::from_str("certificate"),
                    error: failure.0,
                    warnings: failure.1,
                },
            )
        },
    }
}

/// Bulk, best-effort warm-up: an identifier comes alive exactly when
/// some supplied entry carries an archive the loader accepts. A failed
/// load never prevents the remaining entries, so the service starts
/// with whatever loaded, possibly nothing. Each archive the loader
/// rejects leaves a diagnostic, the loader's own words under the
/// entry's identifier, for the caller to log.
#[verifier::rlimit(80)]
pub fn warm_up(archives: Vec<(String, Option<Vec<u8>>)>) -> (r: (
    TemplateRegistry<EngineInstance>,
    Vec<(String, String)>,
))
    ensures
        r.0.wf(),
        forall|id: Seq<char>|
            r.0.live().contains(id) <==> exists|i: int|
                0 <= i < archives@.len() && archives@[i].0@ == id && (archives@[i].1 matches Some(
                    a,
                ) && load_ok(a@)),
{
    let ghost all = archives@;
    let mut registry = TemplateRegistry::<EngineInstance>::new();
    let mut diagnostics: Vec<(String, String)> = Vec::new();
    let mut remaining = archives;
    while remaining.len() > 0
        invariant
            registry.wf(),
            remaining@.len() <= all.len(),
            remaining@ == all.subrange(0, remaining@.len() as int),
            forall|id: Seq<char>|
                registry.live().contains(id) <==> exists|i: int|
                    remaining@.len() <= i < all.len() && all[i].0@ == id && (all[i].1 matches Some(
                        a,
                    ) && load_ok(a@)),
        decreases remaining@.len(),
    {
        let ghost pre = remaining@;
        let ghost live_before = registry.live();
        let popped = remaining.pop();
        match popped {
            Some(entry) => {
                let (id, maybe_archive) = entry;
                let ghost id_view = id@;
                let ghost position = pre.len() - 1;
                proof {
                    assert(entry == pre[position]);
                    assert(pre[position] == all[position]);
                    assert(remaining@ =~= all.subrange(0, position));
                    assert(remaining@.len() == position);
                }
                match maybe_archive {
                    Some(archive) => {
                        let ghost archive_view = archive@;
                        proof {
                            assert(all[position].1 == Some(archive));
                        }
                        match load_instance(archive) {
                            Ok(mut instance) => {
                                disable_diagnostic_color(&mut instance);
                                if !registry.contains(&id) {
                                    registry.insert_instance(id, instance);
                                }
                                proof {
                                    assert(load_ok(archive_view));
                                    assert(registry.live().contains(id_view));
                                    assert forall|idq: Seq<char>|
                                        registry.live().contains(idq) implies exists|i: int|
                                        remaining@.len() <= i < all.len() && all[i].0@ == idq && (
                                        all[i].1 matches Some(a) && load_ok(a@)) by {
                                        if idq == id_view {
                                            assert(all[position].0@ == idq && (
                                            all[position].1 matches Some(a) && load_ok(a@)));
                                        } else {
                                            assert(live_before.contains(idq));
                                            let i = choose|i: int|
                                                pre.len() <= i < all.len() && all[i].0@ == idq
                                                    && (all[i].1 matches Some(a) && load_ok(a@));
                                            assert(remaining@.len() <= i < all.len() && all[i].0@
                                                == idq && (all[i].1 matches Some(a) && load_ok(
                                                a@,
                                            )));
                                        }
                                    }
                                    assert forall|idq: Seq<char>|
                                        (exists|i: int|
                                            remaining@.len() <= i < all.len() && all[i].0@ == idq
                                                && (all[i].1 matches Some(a) && load_ok(
                                                a@,
                                            ))) implies registry.live().contains(idq) by {
                                        let i = choose|i: int|
                                            remaining@.len() <= i < all.len() && all[i].0@ == idq
                                                && (all[i].1 matches Some(a) && load_ok(a@));
                                        if i == position {
                                            assert(idq == id_view);
                                        } else {
                                            assert(live_before.contains(idq));
                                        }
                                    }
                                }
                            },
                            Err(message) => {
                                diagnostics.push((id, message));
                                proof {
                                    assert(!load_ok(archive_view));
                                    assert forall|idq: Seq<char>|
                                        registry.live().contains(idq) implies exists|i: int|
                                        remaining@.len() <= i < all.len() && all[i].0@ == idq && (
                                        all[i].1 matches Some(a) && load_ok(a@)) by {
                                        let i = choose|i: int|
                                            pre.len() <= i < all.len() && all[i].0@ == idq && (
                                            all[i].1 matches Some(a) && load_ok(a@));
                                        assert(remaining@.len() <= i < all.len() && all[i].0@
                                            == idq && (all[i].1 matches Some(a) && load_ok(a@)));
                                    }
                                    assert forall|idq: Seq<char>|
                                        (exists|i: int|
                                            remaining@.len() <= i < all.len() && all[i].0@ == idq
                                                && (all[i].1 matches Some(a) && load_ok(
                                                a@,
                                            ))) implies registry.live().contains(idq) by {
                                        let i = choose|i: int|
                                            remaining@.len() <= i < all.len() && all[i].0@ == idq
                                                && (all[i].1 matches Some(a) && load_ok(a@));
                                        if i == position {
                                            assert(false);
                                        } else {
                                            assert(live_before.contains(idq));
                                        }
                                    }
                                }
                            },
                        }
                    },
                    None => {
                        proof {
                            assert(all[position].1 is None);
                            assert forall|idq: Seq<char>|
                                registry.live().contains(idq) implies exists|i: int|
                                remaining@.len() <= i < all.len() && all[i].0@ == idq && (
                                all[i].1 matches Some(a) && load_ok(a@)) by {
                                let i = choose|i: int|
                                    pre.len() <= i < all.len() && all[i].0@ == idq && (
                                    all[i].1 matches Some(a) && load_ok(a@));
                                assert(remaining@.len() <= i < all.len() && all[i].0@ == idq && (
                                all[i].1 matches Some(a) && load_ok(a@)));
                            }
                            assert forall|idq: Seq<char>|
                                (exists|i: int|
                                    remaining@.len() <= i < all.len() && all[i].0@ == idq && (
                                    all[i].1 matches Some(a) && load_ok(
                                        a@,
                                    ))) implies registry.live().contains(idq) by {
                                let i = choose|i: int|
                                    remaining@.len() <= i < all.len() && all[i].0@ == idq && (
                                    all[i].1 matches Some(a) && load_ok(a@));
                                if i == position {
                                    assert(false);
                                } else {
                                    assert(live_before.contains(idq));
                                }
                            }
                        }
                    },
                }
            },
            None => {},
        }
    }
    (registry, diagnostics)
}

} // verus!
