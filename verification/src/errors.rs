use vstd::prelude::*;
use vstd::string::StringExecFns;

use crate::ids::BlobId;
use crate::ids::blob_id_text;
use crate::ids::uuid_text_of;

verus! {

/// The failure kinds of the service, mapped centrally to a transport
/// status and a user-facing message, whichever path produced them.
#[derive(Debug)]
pub enum ServiceError {
    /// The identifier has no live template instance.
    TemplateNotFound { template_id: String },
    /// A referenced blob is in neither tier of the blob store.
    BlobNotFound { template_id: String, blob_id: BlobId },
    /// A structured input could not be encoded.
    SerializationFailure { detail: String },
    /// The engine rejected the inputs or the template.
    CompilationFailure { template_id: String, error: String, warnings: Option<String> },
    /// The engine failed to encode the compiled document.
    ExportFailure { template_id: String, error: String },
    /// The durable tier failed to accept a write.
    StorageFailure,
}

/// The transport status of each failure kind.
pub open spec fn status_of(e: ServiceError) -> u16 {
    match e {
        ServiceError::TemplateNotFound { .. } => 404,
        ServiceError::BlobNotFound { .. } => 400,
        ServiceError::SerializationFailure { .. } => 400,
        ServiceError::CompilationFailure { .. } => 400,
        ServiceError::ExportFailure { .. } => 500,
        ServiceError::StorageFailure => 500,
    }
}

/// The user-facing message of each failure kind.
pub open spec fn message_of(e: ServiceError) -> Seq<char> {
    match e {
        ServiceError::TemplateNotFound { template_id } => {
            "Template '"@ + template_id@ + "' not found!"@
        },
        ServiceError::BlobNotFound { template_id, blob_id } => {
            "Blob with id "@ + uuid_text_of(blob_id.value)
                + " not found. Please use an ID of a blob that was previously uploaded."@
        },
        ServiceError::SerializationFailure { detail } => {
            "Failed to serialize input: "@ + detail@
        },
        ServiceError::CompilationFailure { template_id, error, warnings } => {
            "Template '"@ + template_id@ + "' failed to compile with given inputs: "@ + error@
                + match warnings {
                    Some(w) => "\n\n"@ + w@,
                    None => Seq::<char>::empty(),
                }
        },
        ServiceError::ExportFailure { template_id, error } => {
            "Template '"@ + template_id@ + "' failed to export!\n"@ + error@
        },
        ServiceError::StorageFailure => "Failed to save file"@,
    }
}

impl ServiceError {
    /// The HTTP status this failure surfaces as.
    pub fn status(&self) -> (r: u16)
        ensures
            r == status_of(*self),
    {
        match self {
            ServiceError::TemplateNotFound { .. } => 404,
            ServiceError::BlobNotFound { .. } => 400,
            ServiceError::SerializationFailure { .. } => 400,
            ServiceError::CompilationFailure { .. } => 400,
            ServiceError::ExportFailure { .. } => 500,
            ServiceError::StorageFailure => 500,
        }
    }

    /// The human-readable message this failure surfaces as.
    pub fn message(&self) -> (r: String)
        ensures
            r@ == message_of(*self),
    {
        match self {
            ServiceError::TemplateNotFound { template_id } => {
                let mut m = String::from_str("Template '");
                m.append(template_id.as_str());
                m.append("' not found!");
                m
            },
            ServiceError::BlobNotFound { template_id: _, blob_id } => {
                let mut m = String::from_str("Blob with id ");
                let id_text = blob_id_text(*blob_id);
                m.append(id_text.as_str());
                m.append(" not found. Please use an ID of a blob that was previously uploaded.");
                m
            },
            ServiceError::SerializationFailure { detail } => {
                let mut m = String::from_str("Failed to serialize input: ");
                m.append(detail.as_str());
                m
            },
            ServiceError::CompilationFailure { template_id, error, warnings } => {
                let mut m = String::from_str("Template '");
                m.append(template_id.as_str());
                m.append("' failed to compile with given inputs: ");
                m.append(error.as_str());
                match warnings {
                    Some(w) => {
                        m.append("\n\n");
                        m.append(w.as_str());
                    },
                    None => {},
                }
                m
            },
            ServiceError::ExportFailure { template_id, error } => {
                let mut m = String::from_str("Template '");
                m.append(template_id.as_str());
                m.append("' failed to export!\n");
                m.append(error.as_str());
                m
            },
            ServiceError::StorageFailure => String::from_str("Failed to save file"),
        }
    }
}

} // verus!
