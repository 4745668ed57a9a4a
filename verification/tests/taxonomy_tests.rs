use oicana_server::errors::ServiceError;
use oicana_server::ids::BlobId;
use oicana_server::orchestrate::OutputKind;
use oicana_server::orchestrate::run_certificate;
use oicana_server::orchestrate::run_compile;
use oicana_server::orchestrate::warm_up;
use oicana_server::registry::TemplateRegistry;
use oicana_server::registry::archive_file_name;
use oicana_server::store::BlobStore;

#[test]
fn template_not_found_is_a_404_with_its_message() {
    let e = ServiceError::TemplateNotFound { template_id: "table".to_string() };
    assert_eq!(e.status(), 404);
    assert_eq!(e.message(), "Template 'table' not found!".to_string());
}

#[test]
fn blob_not_found_is_a_400_naming_the_id() {
    let e = ServiceError::BlobNotFound {
        template_id: "table".to_string(),
        blob_id: BlobId { value: 0x550e_8400_e29b_41d4_a716_4466_5544_0000 },
    };
    assert_eq!(e.status(), 400);
    assert_eq!(
        e.message(),
        "Blob with id 550e8400-e29b-41d4-a716-446655440000 not found. \
         Please use an ID of a blob that was previously uploaded."
            .to_string()
    );
}

#[test]
fn serialization_failure_is_a_400_with_the_cause() {
    let e = ServiceError::SerializationFailure { detail: "boom".to_string() };
    assert_eq!(e.status(), 400);
    assert_eq!(e.message(), "Failed to serialize input: boom".to_string());
}

#[test]
fn compilation_failure_appends_optional_warnings() {
    let without = ServiceError::CompilationFailure {
        template_id: "table".to_string(),
        error: "bad input".to_string(),
        warnings: None,
    };
    assert_eq!(without.status(), 400);
    assert_eq!(
        without.message(),
        "Template 'table' failed to compile with given inputs: bad input".to_string()
    );
    let with = ServiceError::CompilationFailure {
        template_id: "table".to_string(),
        error: "bad input".to_string(),
        warnings: Some("beware".to_string()),
    };
    assert_eq!(
        with.message(),
        "Template 'table' failed to compile with given inputs: bad input\n\nbeware".to_string()
    );
}

#[test]
fn export_failure_is_a_500_with_its_message() {
    let e = ServiceError::ExportFailure {
        template_id: "table".to_string(),
        error: "no encoder".to_string(),
    };
    assert_eq!(e.status(), 500);
    assert_eq!(
        e.message(),
        "Template 'table' failed to export!\nno encoder".to_string()
    );
}

#[test]
fn certificate_flow_reports_encoding_failures() {
    let mut registry = TemplateRegistry::new();
    match run_certificate(&mut registry, Err("bad json".to_string())) {
        Err(ServiceError::SerializationFailure { detail }) => {
            assert_eq!(detail, "bad json".to_string());
        }
        _ => panic!("an encoding failure must surface as such"),
    }
}

#[test]
fn certificate_flow_without_a_live_template_is_not_found() {
    let mut registry = TemplateRegistry::new();
    match run_certificate(&mut registry, Ok("{\"name\":\"Jane Doe\"}".to_string())) {
        Err(e) => {
            assert_eq!(e.status(), 404);
            match e {
                ServiceError::TemplateNotFound { template_id } => {
                    assert_eq!(template_id, "certificate".to_string());
                }
                _ => panic!("the certificate template is absent"),
            }
        }
        Ok(_) => panic!("no template can compile in an empty registry"),
    }
}

#[test]
fn warm_up_skips_missing_and_unloadable_archives() {
    let (registry, diagnostics) = warm_up(vec![
        ("table".to_string(), None),
        ("minimal".to_string(), Some(vec![1, 2, 3])),
    ]);
    // Neither a missing archive nor one the loader rejects becomes
    // live, and the failures do not prevent start-up. The rejected
    // archive leaves a diagnostic under its identifier.
    assert!(!registry.contains(&"table".to_string()));
    assert!(!registry.contains(&"minimal".to_string()));
    assert_eq!(diagnostics.len(), 1);
    assert_eq!(diagnostics[0].0, "minimal".to_string());
    assert!(!diagnostics[0].1.is_empty());
}

#[test]
fn archive_file_names_follow_the_fixed_namespace() {
    assert_eq!(
        archive_file_name(&"table".to_string(), &"0.1.0".to_string()),
        "templates/table-0.1.0.zip".to_string()
    );
}

#[test]
fn full_pipeline_reports_unknown_templates() {
    let mut registry = TemplateRegistry::new();
    let mut store = BlobStore::new();
    match run_compile(
        &mut registry,
        &mut store,
        &"does-not-exist".to_string(),
        &vec![],
        &vec![],
        OutputKind::Document,
    ) {
        Err(e) => {
            assert_eq!(e.status(), 404);
            assert_eq!(
                e.message(),
                "Template 'does-not-exist' not found!".to_string()
            );
        }
        Ok(_) => panic!("an empty registry has nothing to compile"),
    }
}
