use oicana_server::errors::ServiceError;
use oicana_server::ids::BlobId;
use oicana_server::inputs::InputValue;
use oicana_server::orchestrate::Artifact;
use oicana_server::orchestrate::BlobEntry;
use oicana_server::orchestrate::JsonEntry;
use oicana_server::orchestrate::OutputKind;
use oicana_server::orchestrate::begin_compile;
use oicana_server::orchestrate::success_artifact;
use oicana_server::registry::TemplateRegistry;
use oicana_server::registry::list_catalog;
use oicana_server::store::BlobStore;

/// A deterministic stand-in for the engine: counts its compile calls
/// and echoes fixed artifact bytes.
struct StubEngine {
    compile_calls: usize,
    artifact: Vec<u8>,
}

/// Drive one request against the stub engine exactly as the real
/// pipeline drives the engine: acquire and resolve first, compile only
/// on success, and always hand the instance back.
fn stub_compile(
    registry: &mut TemplateRegistry<StubEngine>,
    store: &mut BlobStore,
    template_id: &String,
    json_inputs: &Vec<JsonEntry>,
    blob_inputs: &Vec<BlobEntry>,
    kind: OutputKind,
) -> Result<Artifact, ServiceError> {
    match begin_compile(registry, store, template_id, json_inputs, blob_inputs) {
        Ok((mut stub, _set)) => {
            stub.compile_calls += 1;
            let bytes = stub.artifact.clone();
            registry.insert_instance(template_id.clone(), stub);
            Ok(success_artifact(kind, template_id, bytes))
        }
        Err(e) => Err(e),
    }
}

fn stub_registry(id: &str, artifact: Vec<u8>) -> TemplateRegistry<StubEngine> {
    let mut registry = TemplateRegistry::new();
    registry.insert_instance(id.to_string(), StubEngine { compile_calls: 0, artifact });
    registry
}

#[test]
fn upload_then_compile_returns_the_artifact() {
    let mut store = BlobStore::new();
    let uploaded = match store.put(vec![1, 2, 3], true) {
        Ok(id) => id,
        Err(_) => panic!("accepted upload must succeed"),
    };
    let mut registry = stub_registry("table", vec![7, 7, 7]);
    let blobs = vec![BlobEntry { key: "logo".to_string(), blob_id: uploaded }];
    let result = stub_compile(
        &mut registry,
        &mut store,
        &"table".to_string(),
        &vec![],
        &blobs,
        OutputKind::Document,
    );
    match result {
        Ok(artifact) => {
            assert_eq!(artifact.bytes, vec![7, 7, 7]);
            assert_eq!(artifact.content_type, "application/pdf".to_string());
            assert_eq!(artifact.disposition, "attachment".to_string());
            assert_eq!(artifact.filename, "table.pdf".to_string());
        }
        Err(_) => panic!("the stub engine always succeeds"),
    }
    // The engine ran exactly once and the instance is live again.
    match registry.take(&"table".to_string()) {
        Some(stub) => assert_eq!(stub.compile_calls, 1),
        None => panic!("the instance must be handed back"),
    }
}

#[test]
fn unresolved_blob_aborts_before_any_compile() {
    let mut store = BlobStore::new();
    let mut registry = stub_registry("table", vec![1]);
    let missing = BlobId { value: 77 };
    let blobs = vec![
        BlobEntry { key: "logo".to_string(), blob_id: missing },
    ];
    let result = stub_compile(
        &mut registry,
        &mut store,
        &"table".to_string(),
        &vec![JsonEntry { key: "data".to_string(), value: "{}".to_string() }],
        &blobs,
        OutputKind::Document,
    );
    match result {
        Err(ServiceError::BlobNotFound { template_id, blob_id }) => {
            assert_eq!(template_id, "table".to_string());
            assert_eq!(blob_id, missing);
        }
        _ => panic!("an unresolved blob reference must abort the request"),
    }
    // The compile capability was never invoked.
    match registry.take(&"table".to_string()) {
        Some(stub) => assert_eq!(stub.compile_calls, 0),
        None => panic!("the instance must still be live"),
    }
}

#[test]
fn unknown_template_is_not_found() {
    let mut store = BlobStore::new();
    let mut registry = stub_registry("table", vec![1]);
    let result = stub_compile(
        &mut registry,
        &mut store,
        &"does-not-exist".to_string(),
        &vec![],
        &vec![],
        OutputKind::Document,
    );
    match result {
        Err(e) => {
            assert_eq!(e.status(), 404);
            match e {
                ServiceError::TemplateNotFound { template_id } => {
                    assert_eq!(template_id, "does-not-exist".to_string());
                }
                _ => panic!("an unknown template must be reported as not found"),
            }
        }
        Ok(_) => panic!("an unknown template cannot compile"),
    }
}

#[test]
fn reset_is_not_auto_reloaded_and_keeps_the_catalog() {
    let mut store = BlobStore::new();
    let mut registry = stub_registry("table", vec![1]);
    assert!(registry.remove(&"table".to_string()));
    let result = stub_compile(
        &mut registry,
        &mut store,
        &"table".to_string(),
        &vec![],
        &vec![],
        OutputKind::Document,
    );
    match result {
        Err(ServiceError::TemplateNotFound { .. }) => {}
        _ => panic!("a reset template must be gone until re-warmed"),
    }
    // A second reset finds nothing; the catalog still lists the id.
    assert!(!registry.remove(&"table".to_string()));
    let catalog = list_catalog();
    assert!(catalog.contains(&"table".to_string()));
}

#[test]
fn later_json_input_wins_for_its_key() {
    let mut store = BlobStore::new();
    let mut registry = stub_registry("table", vec![1]);
    let json = vec![
        JsonEntry { key: "data".to_string(), value: "1".to_string() },
        JsonEntry { key: "other".to_string(), value: "5".to_string() },
        JsonEntry { key: "data".to_string(), value: "2".to_string() },
    ];
    let set = match begin_compile(
        &mut registry,
        &mut store,
        &"table".to_string(),
        &json,
        &vec![],
    ) {
        Ok((_stub, set)) => set,
        Err(_) => panic!("nothing can fail without blob references"),
    };
    match set.effective_value(&"data".to_string()) {
        Some(InputValue::Json(text)) => assert_eq!(text, "2"),
        _ => panic!("the later value must win"),
    }
    match set.effective_value(&"other".to_string()) {
        Some(InputValue::Json(text)) => assert_eq!(text, "5"),
        _ => panic!("other keys keep their value"),
    }
    assert!(set.effective_value(&"absent".to_string()).is_none());
}

#[test]
fn resolved_blob_bytes_reach_the_input_set() {
    let mut store = BlobStore::new();
    let uploaded = match store.put(vec![8, 6], true) {
        Ok(id) => id,
        Err(_) => panic!("accepted upload must succeed"),
    };
    let mut registry = stub_registry("invoice", vec![1]);
    let blobs = vec![BlobEntry { key: "logo".to_string(), blob_id: uploaded }];
    let set = match begin_compile(
        &mut registry,
        &mut store,
        &"invoice".to_string(),
        &vec![],
        &blobs,
    ) {
        Ok((_stub, set)) => set,
        Err(_) => panic!("the blob is resolvable"),
    };
    match set.effective_value(&"logo".to_string()) {
        Some(InputValue::Blob(data)) => assert_eq!(data, &vec![8, 6]),
        _ => panic!("the blob input must carry the stored bytes"),
    }
}

#[test]
fn taken_instance_is_exclusive_until_handed_back() {
    let mut registry = stub_registry("fonts", vec![1]);
    let id = "fonts".to_string();
    let held = match registry.take(&id) {
        Some(stub) => stub,
        None => panic!("the instance is live"),
    };
    // While held, nobody else can acquire or even see it.
    assert!(!registry.contains(&id));
    assert!(registry.take(&id).is_none());
    registry.insert_instance(id.clone(), held);
    assert!(registry.contains(&id));
}

#[test]
fn preview_artifacts_are_inline_png() {
    let artifact = success_artifact(OutputKind::Preview, &"table".to_string(), vec![3, 1]);
    assert_eq!(artifact.content_type, "image/png".to_string());
    assert_eq!(artifact.disposition, "inline".to_string());
    assert_eq!(artifact.filename, "table.png".to_string());
    assert_eq!(artifact.bytes, vec![3, 1]);
}

#[test]
fn the_catalog_lists_every_configured_template() {
    let catalog = list_catalog();
    let expected = vec![
        "accessibility",
        "certificate",
        "dependency",
        "fonts",
        "invoice",
        "invoice_zugferd",
        "minimal",
        "table",
        "multi_input",
    ];
    assert_eq!(catalog.len(), expected.len());
    for (have, want) in catalog.iter().zip(expected.iter()) {
        assert_eq!(have, want);
    }
}

#[test]
fn distinct_templates_do_not_exclude_each_other() {
    let mut registry = TemplateRegistry::new();
    registry.insert_instance(
        "table".to_string(),
        StubEngine { compile_calls: 0, artifact: vec![1] },
    );
    registry.insert_instance(
        "invoice".to_string(),
        StubEngine { compile_calls: 0, artifact: vec![2] },
    );
    // Both instances can be held exclusively at the same time, and
    // each identifier hands out exactly the instance bound to it.
    let table = registry.take(&"table".to_string());
    let invoice = registry.take(&"invoice".to_string());
    match (&table, &invoice) {
        (Some(t), Some(i)) => {
            assert_eq!(t.artifact, vec![1]);
            assert_eq!(i.artifact, vec![2]);
        }
        _ => panic!("both instances are live"),
    }
    registry.insert_instance("table".to_string(), table.unwrap());
    registry.insert_instance("invoice".to_string(), invoice.unwrap());
    assert!(registry.contains(&"table".to_string()));
    assert!(registry.contains(&"invoice".to_string()));
}
