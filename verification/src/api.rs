//! The rules of the HTTP boundary: validation of submitted fields and the
//! status and detail that answer each service error.
use vstd::prelude::*;
use vstd::string::*;

use crate::application::ServiceError;
use crate::repository::repository_message;
use crate::domain::models::{Metadata, ModelRelease};
use crate::domain::policy::PolicyEvaluation;
use crate::domain::policy::text_of;
use crate::text::{fits_utf8, trim, trimmed, utf8_len};

verus! {

broadcast use vstd::string::group_string_axioms;

pub const STATUS_OK: u16 = 200;

pub const STATUS_CREATED: u16 = 201;

pub const STATUS_NOT_FOUND: u16 = 404;

pub const STATUS_CONFLICT: u16 = 409;

pub const STATUS_UNPROCESSABLE_ENTITY: u16 = 422;

pub const STATUS_INTERNAL_SERVER_ERROR: u16 = 500;

/// An error answer: an HTTP status and the detail shown to the client.
#[derive(Debug)]
pub struct ApiError {
    pub status: u16,
    pub detail: String,
}

impl ApiError {
    pub fn unprocessable(detail: String) -> (e: ApiError)
        ensures
            e.status == STATUS_UNPROCESSABLE_ENTITY,
            e.detail == detail,
    {
        ApiError { status: STATUS_UNPROCESSABLE_ENTITY, detail }
    }

    pub fn internal(detail: &str) -> (e: ApiError)
        ensures
            e.status == STATUS_INTERNAL_SERVER_ERROR,
            e.detail@ == detail@,
    {
        ApiError { status: STATUS_INTERNAL_SERVER_ERROR, detail: String::from_str(detail) }
    }

    /// The answer to a service error: 404 for a missing release, 409 for a
    /// refused transition, 422 for a malformed policy or metric and 500 for
    /// a persistence failure, with the error's message as the detail.
    pub fn from_service_error(error: ServiceError) -> (e: ApiError)
        ensures
            match error {
                ServiceError::NotFound(inner) => e.status == STATUS_NOT_FOUND && e.detail@
                    == "Release '"@ + inner.0@ + "' was not found."@,
                ServiceError::InvalidTransition(inner) => e.status == STATUS_CONFLICT && e.detail@
                    == "Cannot transition release from "@ + inner.current@ + " to "@
                    + inner.target@ + "."@,
                ServiceError::PolicyValidation(inner) => e.status == STATUS_UNPROCESSABLE_ENTITY
                    && e.detail@ == inner.0@,
                ServiceError::Repository(inner) => e.status == STATUS_INTERNAL_SERVER_ERROR
                    && e.detail@ == repository_message(inner),
            },
    {
        let detail = error.to_string();
        match error {
            ServiceError::NotFound(_) => ApiError { status: STATUS_NOT_FOUND, detail },
            ServiceError::InvalidTransition(_) => ApiError { status: STATUS_CONFLICT, detail },
            ServiceError::PolicyValidation(_) => ApiError::unprocessable(detail),
            ServiceError::Repository(_) => ApiError {
                status: STATUS_INTERNAL_SERVER_ERROR,
                detail,
            },
        }
    }
}

/// Whether a field value is acceptable once trimmed: not empty, and no
/// longer than `maximum` bytes of UTF-8.
pub open spec fn acceptable_field(value: Seq<char>, maximum: usize) -> bool {
    trim(value).len() != 0 && utf8_len(trim(value)) <= maximum
}

/// The trimmed value when it is acceptable; otherwise a 422 answer
/// `Invalid <field>.`
pub fn validate_string(value: String, field: &str, maximum: usize) -> (r: Result<String, ApiError>)
    ensures
        if acceptable_field(value@, maximum) {
            r matches Ok(t) && t@ == trim(value@)
        } else {
            r matches Err(e) && e.status == STATUS_UNPROCESSABLE_ENTITY && e.detail@ == "Invalid "@
                + field@ + "."@
        },
{
    let t = trimmed(value.as_str());
    if t.as_str().unicode_len() == 0 || !fits_utf8(t.as_str(), maximum) {
        let mut detail = String::from_str("Invalid ");
        detail.append(field);
        detail.append(".");
        return Err(ApiError::unprocessable(detail));
    }
    Ok(t)
}

/// The first field of a registration request, in the order they are
/// checked, whose value is not acceptable.
pub open spec fn first_invalid_field(
    model_name: Seq<char>,
    version: Seq<char>,
    image_uri: Seq<char>,
    artifact_uri: Option<Seq<char>>,
) -> Option<Seq<char>> {
    if !acceptable_field(model_name, 255) {
        Some("model_name"@)
    } else if !acceptable_field(version, 255) {
        Some("version"@)
    } else if !acceptable_field(image_uri, 2048) {
        Some("image_uri"@)
    } else if artifact_uri matches Some(uri) && !acceptable_field(uri, 2048) {
        Some("artifact_uri"@)
    } else {
        None
    }
}

/// An optional text, trimmed.
pub open spec fn trimmed_text(value: Option<Seq<char>>) -> Option<Seq<char>> {
    match value {
        Some(v) => Some(trim(v)),
        None => None,
    }
}

/// A request to register a release.
#[derive(Debug)]
pub struct ReleaseCreateRequest {
    pub model_name: String,
    pub version: String,
    pub image_uri: String,
    pub artifact_uri: Option<String>,
    pub metadata: Metadata,
}

impl ReleaseCreateRequest {
    /// The request with its fields trimmed, when each is acceptable: names
    /// and versions up to 255 bytes, URIs up to 2048. The first field that
    /// is not answers 422.
    pub fn validate_and_trim(self) -> (r: Result<ReleaseCreateRequest, ApiError>)
        ensures
            match first_invalid_field(
                self.model_name@,
                self.version@,
                self.image_uri@,
                text_of(self.artifact_uri),
            ) {
                None => r matches Ok(request) && request.model_name@ == trim(self.model_name@)
                    && request.version@ == trim(self.version@) && request.image_uri@ == trim(
                    self.image_uri@,
                ) && text_of(request.artifact_uri) == trimmed_text(text_of(self.artifact_uri))
                    && request.metadata == self.metadata,
                Some(field) => r matches Err(e) && e.status == STATUS_UNPROCESSABLE_ENTITY
                    && e.detail@ == "Invalid "@ + field + "."@,
            },
    {
        let model_name = validate_string(self.model_name, "model_name", 255)?;
        let version = validate_string(self.version, "version", 255)?;
        let image_uri = validate_string(self.image_uri, "image_uri", 2048)?;
        let artifact_uri = match self.artifact_uri {
            Some(uri) => Some(validate_string(uri, "artifact_uri", 2048)?),
            None => None,
        };
        Ok(
            ReleaseCreateRequest {
                model_name,
                version,
                image_uri,
                artifact_uri,
                metadata: self.metadata,
            },
        )
    }
}

/// The evaluation recorded on an evaluated release; a 500 answer when none
/// was recorded.
pub fn persisted_evaluation(release: ModelRelease) -> (r: Result<PolicyEvaluation, ApiError>)
    ensures
        match release.evaluation {
            Some(evaluation) => r matches Ok(e) && e == evaluation,
            None => r matches Err(e) && e.status == STATUS_INTERNAL_SERVER_ERROR && e.detail@
                == "Release evaluation was not persisted."@,
        },
{
    match release.evaluation {
        Some(evaluation) => Ok(evaluation),
        None => Err(ApiError::internal("Release evaluation was not persisted.")),
    }
}

} // verus!
