//! The application error type and the classification of its variants into
//! a metrics type name and a response code.

use vstd::prelude::*;

verus! {

/// Errors raised throughout the control plane.
#[derive(Debug, Clone, PartialEq, Eq)]
pub enum AppError {
    DatabaseError(String),
    ValidationError(String),
    AuthenticationError(String),
    AuthorizationError(String),
    NotFound(String),
    InternalServerError(String),
    BadRequest(String),
    ServiceUnavailable(String),
    ConfigError(String),
    ExternalServiceError(String),
    TimeoutError(String),
    RateLimitExceeded { message: String },
    AuthError(String),
    Forbidden(String),
    FileUploadError(String),
    FileSizeExceeded { message: String },
    UnsupportedFileType(String),
    GitHubApiError(String),
    DockerValidationError(String),
    ProjectTypeDetectionFailed(String),
    DockerfileGenerationFailed(String),
    EncryptionError(String),
    WorkspaceNotFound,
    RepositoryNotFound(String),
    PermissionDenied(String),
    KubernetesError(String),
    ConnectorConfigError(String),
    Unimplemented(String),
    CommandExecutionError { message: String },
    QueryExecutionError { message: String },
    SagaCompensationError { message: String },
    RepositoryError { message: String },
    DependencyNotFound { service: String },
    EventHandlingError { message: String },
    ConfigurationError { message: String },
    ResourceExhausted(String),
    ConcurrencyError(String),
    NotImplemented(String),
    RateLimitExceededSimple(String),
}

/// The lower-case name under which errors of this variant are counted.
pub open spec fn error_type_name(e: AppError) -> Seq<char> {
    match e {
        AppError::DatabaseError(_) => "database_error"@,
        AppError::ValidationError(_) => "validation_error"@,
        AppError::AuthenticationError(_) => "authentication_error"@,
        AppError::AuthorizationError(_) => "authorization_error"@,
        AppError::NotFound(_) => "not_found"@,
        AppError::InternalServerError(_) => "internal_server_error"@,
        AppError::BadRequest(_) => "bad_request"@,
        AppError::ServiceUnavailable(_) => "service_unavailable"@,
        AppError::ConfigError(_) => "config_error"@,
        AppError::ExternalServiceError(_) => "external_service_error"@,
        AppError::TimeoutError(_) => "timeout_error"@,
        AppError::RateLimitExceeded { .. } => "rate_limit_exceeded"@,
        AppError::AuthError(_) => "auth_error"@,
        AppError::Forbidden(_) => "forbidden"@,
        AppError::FileUploadError(_) => "file_upload_error"@,
        AppError::FileSizeExceeded { .. } => "file_size_exceeded"@,
        AppError::UnsupportedFileType(_) => "unsupported_file_type"@,
        AppError::GitHubApiError(_) => "github_api_error"@,
        AppError::DockerValidationError(_) => "docker_validation_error"@,
        AppError::ProjectTypeDetectionFailed(_) => "project_type_detection_failed"@,
        AppError::DockerfileGenerationFailed(_) => "dockerfile_generation_failed"@,
        AppError::EncryptionError(_) => "encryption_error"@,
        AppError::WorkspaceNotFound => "workspace_not_found"@,
        AppError::RepositoryNotFound(_) => "repository_not_found"@,
        AppError::PermissionDenied(_) => "permission_denied"@,
        AppError::KubernetesError(_) => "kubernetes_error"@,
        AppError::ConnectorConfigError(_) => "connector_config_error"@,
        AppError::Unimplemented(_) => "unimplemented"@,
        AppError::CommandExecutionError { .. } => "command_execution_error"@,
        AppError::QueryExecutionError { .. } => "query_execution_error"@,
        AppError::SagaCompensationError { .. } => "saga_compensation_error"@,
        AppError::RepositoryError { .. } => "repository_error"@,
        AppError::DependencyNotFound { .. } => "dependency_not_found"@,
        AppError::EventHandlingError { .. } => "event_handling_error"@,
        AppError::ConfigurationError { .. } => "configuration_error"@,
        AppError::ResourceExhausted(_) => "resource_exhausted"@,
        AppError::ConcurrencyError(_) => "concurrency_error"@,
        AppError::NotImplemented(_) => "not_implemented"@,
        AppError::RateLimitExceededSimple(_) => "rate_limit_exceeded"@,
    }
}

/// The upper-case code that an error response carries for this variant.
pub open spec fn error_code_name(e: AppError) -> Seq<char> {
    match e {
        AppError::DatabaseError(_) => "DB_ERROR"@,
        AppError::ValidationError(_) => "VALIDATION_ERROR"@,
        AppError::AuthenticationError(_) => "AUTH_ERROR"@,
        AppError::AuthorizationError(_) => "AUTHZ_ERROR"@,
        AppError::NotFound(_) => "NOT_FOUND"@,
        AppError::InternalServerError(_) => "INTERNAL_ERROR"@,
        AppError::BadRequest(_) => "BAD_REQUEST"@,
        AppError::ServiceUnavailable(_) => "SERVICE_UNAVAILABLE"@,
        AppError::ConfigError(_) => "CONFIG_ERROR"@,
        AppError::ExternalServiceError(_) => "EXTERNAL_SERVICE_ERROR"@,
        AppError::TimeoutError(_) => "TIMEOUT_ERROR"@,
        AppError::RateLimitExceeded { .. } => "RATE_LIMIT_ERROR"@,
        AppError::AuthError(_) => "AUTH_ERROR"@,
        AppError::Forbidden(_) => "FORBIDDEN"@,
        AppError::FileUploadError(_) => "FILE_UPLOAD_ERROR"@,
        AppError::FileSizeExceeded { .. } => "FILE_SIZE_EXCEEDED"@,
        AppError::UnsupportedFileType(_) => "UNSUPPORTED_FILE_TYPE"@,
        AppError::GitHubApiError(_) => "GITHUB_API_ERROR"@,
        AppError::DockerValidationError(_) => "DOCKER_VALIDATION_ERROR"@,
        AppError::ProjectTypeDetectionFailed(_) => "PROJECT_TYPE_DETECTION_FAILED"@,
        AppError::DockerfileGenerationFailed(_) => "DOCKERFILE_GENERATION_FAILED"@,
        AppError::EncryptionError(_) => "ENCRYPTION_ERROR"@,
        AppError::WorkspaceNotFound => "WORKSPACE_NOT_FOUND"@,
        AppError::RepositoryNotFound(_) => "REPOSITORY_NOT_FOUND"@,
        AppError::PermissionDenied(_) => "PERMISSION_DENIED"@,
        AppError::KubernetesError(_) => "KUBERNETES_ERROR"@,
        AppError::ConnectorConfigError(_) => "CONNECTOR_CONFIG_ERROR"@,
        AppError::Unimplemented(_) => "UNIMPLEMENTED"@,
        AppError::CommandExecutionError { .. } => "COMMAND_EXECUTION_ERROR"@,
        AppError::QueryExecutionError { .. } => "QUERY_EXECUTION_ERROR"@,
        AppError::SagaCompensationError { .. } => "SAGA_COMPENSATION_ERROR"@,
        AppError::RepositoryError { .. } => "REPOSITORY_ERROR"@,
        AppError::DependencyNotFound { .. } => "DEPENDENCY_NOT_FOUND"@,
        AppError::EventHandlingError { .. } => "EVENT_HANDLING_ERROR"@,
        AppError::ConfigurationError { .. } => "CONFIGURATION_ERROR"@,
        AppError::ResourceExhausted(_) => "RESOURCE_EXHAUSTED"@,
        AppError::ConcurrencyError(_) => "CONCURRENCY_ERROR"@,
        AppError::NotImplemented(_) => "NOT_IMPLEMENTED"@,
        AppError::RateLimitExceededSimple(_) => "RATE_LIMIT_EXCEEDED"@,
    }
}

/// The type name of an error, as counted in the error statistics.
pub fn error_type_of(error: &AppError) -> (name: String)
    ensures
        name@ == error_type_name(*error),
{
    match error {
        AppError::DatabaseError(_) => String::from_str("database_error"),
        AppError::ValidationError(_) => String::from_str("validation_error"),
        AppError::AuthenticationError(_) => String::from_str("authentication_error"),
        AppError::AuthorizationError(_) => String::from_str("authorization_error"),
        AppError::NotFound(_) => String::from_str("not_found"),
        AppError::InternalServerError(_) => String::from_str("internal_server_error"),
        AppError::BadRequest(_) => String::from_str("bad_request"),
        AppError::ServiceUnavailable(_) => String::from_str("service_unavailable"),
        AppError::ConfigError(_) => String::from_str("config_error"),
        AppError::ExternalServiceError(_) => String::from_str("external_service_error"),
        AppError::TimeoutError(_) => String::from_str("timeout_error"),
        AppError::RateLimitExceeded { .. } => String::from_str("rate_limit_exceeded"),
        AppError::AuthError(_) => String::from_str("auth_error"),
        AppError::Forbidden(_) => String::from_str("forbidden"),
        AppError::FileUploadError(_) => String::from_str("file_upload_error"),
        AppError::FileSizeExceeded { .. } => String::from_str("file_size_exceeded"),
        AppError::UnsupportedFileType(_) => String::from_str("unsupported_file_type"),
        AppError::GitHubApiError(_) => String::from_str("github_api_error"),
        AppError::DockerValidationError(_) => String::from_str("docker_validation_error"),
        AppError::ProjectTypeDetectionFailed(_) => String::from_str("project_type_detection_failed"),
        AppError::DockerfileGenerationFailed(_) => String::from_str("dockerfile_generation_failed"),
        AppError::EncryptionError(_) => String::from_str("encryption_error"),
        AppError::WorkspaceNotFound => String::from_str("workspace_not_found"),
        AppError::RepositoryNotFound(_) => String::from_str("repository_not_found"),
        AppError::PermissionDenied(_) => String::from_str("permission_denied"),
        AppError::KubernetesError(_) => String::from_str("kubernetes_error"),
        AppError::ConnectorConfigError(_) => String::from_str("connector_config_error"),
        AppError::Unimplemented(_) => String::from_str("unimplemented"),
        AppError::CommandExecutionError { .. } => String::from_str("command_execution_error"),
        AppError::QueryExecutionError { .. } => String::from_str("query_execution_error"),
        AppError::SagaCompensationError { .. } => String::from_str("saga_compensation_error"),
        AppError::RepositoryError { .. } => String::from_str("repository_error"),
        AppError::DependencyNotFound { .. } => String::from_str("dependency_not_found"),
        AppError::EventHandlingError { .. } => String::from_str("event_handling_error"),
        AppError::ConfigurationError { .. } => String::from_str("configuration_error"),
        AppError::ResourceExhausted(_) => String::from_str("resource_exhausted"),
        AppError::ConcurrencyError(_) => String::from_str("concurrency_error"),
        AppError::NotImplemented(_) => String::from_str("not_implemented"),
        AppError::RateLimitExceededSimple(_) => String::from_str("rate_limit_exceeded"),
    }
}

/// The response code of an error.
pub fn error_code_of(error: &AppError) -> (code: String)
    ensures
        code@ == error_code_name(*error),
{
    match error {
        AppError::DatabaseError(_) => String::from_str("DB_ERROR"),
        AppError::ValidationError(_) => String::from_str("VALIDATION_ERROR"),
        AppError::AuthenticationError(_) => String::from_str("AUTH_ERROR"),
        AppError::AuthorizationError(_) => String::from_str("AUTHZ_ERROR"),
        AppError::NotFound(_) => String::from_str("NOT_FOUND"),
        AppError::InternalServerError(_) => String::from_str("INTERNAL_ERROR"),
        AppError::BadRequest(_) => String::from_str("BAD_REQUEST"),
        AppError::ServiceUnavailable(_) => String::from_str("SERVICE_UNAVAILABLE"),
        AppError::ConfigError(_) => String::from_str("CONFIG_ERROR"),
        AppError::ExternalServiceError(_) => String::from_str("EXTERNAL_SERVICE_ERROR"),
        AppError::TimeoutError(_) => String::from_str("TIMEOUT_ERROR"),
        AppError::RateLimitExceeded { .. } => String::from_str("RATE_LIMIT_ERROR"),
        AppError::AuthError(_) => String::from_str("AUTH_ERROR"),
        AppError::Forbidden(_) => String::from_str("FORBIDDEN"),
        AppError::FileUploadError(_) => String::from_str("FILE_UPLOAD_ERROR"),
        AppError::FileSizeExceeded { .. } => String::from_str("FILE_SIZE_EXCEEDED"),
        AppError::UnsupportedFileType(_) => String::from_str("UNSUPPORTED_FILE_TYPE"),
        AppError::GitHubApiError(_) => String::from_str("GITHUB_API_ERROR"),
        AppError::DockerValidationError(_) => String::from_str("DOCKER_VALIDATION_ERROR"),
        AppError::ProjectTypeDetectionFailed(_) => String::from_str("PROJECT_TYPE_DETECTION_FAILED"),
        AppError::DockerfileGenerationFailed(_) => String::from_str("DOCKERFILE_GENERATION_FAILED"),
        AppError::EncryptionError(_) => String::from_str("ENCRYPTION_ERROR"),
        AppError::WorkspaceNotFound => String::from_str("WORKSPACE_NOT_FOUND"),
        AppError::RepositoryNotFound(_) => String::from_str("REPOSITORY_NOT_FOUND"),
        AppError::PermissionDenied(_) => String::from_str("PERMISSION_DENIED"),
        AppError::KubernetesError(_) => String::from_str("KUBERNETES_ERROR"),
        AppError::ConnectorConfigError(_) => String::from_str("CONNECTOR_CONFIG_ERROR"),
        AppError::Unimplemented(_) => String::from_str("UNIMPLEMENTED"),
        AppError::CommandExecutionError { .. } => String::from_str("COMMAND_EXECUTION_ERROR"),
        AppError::QueryExecutionError { .. } => String::from_str("QUERY_EXECUTION_ERROR"),
        AppError::SagaCompensationError { .. } => String::from_str("SAGA_COMPENSATION_ERROR"),
        AppError::RepositoryError { .. } => String::from_str("REPOSITORY_ERROR"),
        AppError::DependencyNotFound { .. } => String::from_str("DEPENDENCY_NOT_FOUND"),
        AppError::EventHandlingError { .. } => String::from_str("EVENT_HANDLING_ERROR"),
        AppError::ConfigurationError { .. } => String::from_str("CONFIGURATION_ERROR"),
        AppError::ResourceExhausted(_) => String::from_str("RESOURCE_EXHAUSTED"),
        AppError::ConcurrencyError(_) => String::from_str("CONCURRENCY_ERROR"),
        AppError::NotImplemented(_) => String::from_str("NOT_IMPLEMENTED"),
        AppError::RateLimitExceededSimple(_) => String::from_str("RATE_LIMIT_EXCEEDED"),
    }
}

/// The text an error carries.
pub open spec fn error_message(e: AppError) -> Seq<char> {
    match e {
        AppError::DatabaseError(m) => m@,
        AppError::ValidationError(m) => m@,
        AppError::AuthenticationError(m) => m@,
        AppError::AuthorizationError(m) => m@,
        AppError::NotFound(m) => m@,
        AppError::InternalServerError(m) => m@,
        AppError::BadRequest(m) => m@,
        AppError::ServiceUnavailable(m) => m@,
        AppError::ConfigError(m) => m@,
        AppError::ExternalServiceError(m) => m@,
        AppError::TimeoutError(m) => m@,
        AppError::RateLimitExceeded { message } => message@,
        AppError::AuthError(m) => m@,
        AppError::Forbidden(m) => m@,
        AppError::FileUploadError(m) => m@,
        AppError::FileSizeExceeded { message } => message@,
        AppError::UnsupportedFileType(m) => m@,
        AppError::GitHubApiError(m) => m@,
        AppError::DockerValidationError(m) => m@,
        AppError::ProjectTypeDetectionFailed(m) => m@,
        AppError::DockerfileGenerationFailed(m) => m@,
        AppError::EncryptionError(m) => m@,
        AppError::WorkspaceNotFound => "Workspace not found"@,
        AppError::RepositoryNotFound(m) => m@,
        AppError::PermissionDenied(m) => m@,
        AppError::KubernetesError(m) => m@,
        AppError::ConnectorConfigError(m) => m@,
        AppError::Unimplemented(m) => m@,
        AppError::CommandExecutionError { message } => message@,
        AppError::QueryExecutionError { message } => message@,
        AppError::SagaCompensationError { message } => message@,
        AppError::RepositoryError { message } => message@,
        AppError::DependencyNotFound { service } => service@,
        AppError::EventHandlingError { message } => message@,
        AppError::ConfigurationError { message } => message@,
        AppError::ResourceExhausted(m) => m@,
        AppError::ConcurrencyError(m) => m@,
        AppError::NotImplemented(m) => m@,
        AppError::RateLimitExceededSimple(m) => m@,
    }
}

/// The text an error carries.
pub fn error_text(error: &AppError) -> (text: String)
    ensures
        text@ == error_message(*error),
{
    match error {
        AppError::DatabaseError(m) => m.clone(),
        AppError::ValidationError(m) => m.clone(),
        AppError::AuthenticationError(m) => m.clone(),
        AppError::AuthorizationError(m) => m.clone(),
        AppError::NotFound(m) => m.clone(),
        AppError::InternalServerError(m) => m.clone(),
        AppError::BadRequest(m) => m.clone(),
        AppError::ServiceUnavailable(m) => m.clone(),
        AppError::ConfigError(m) => m.clone(),
        AppError::ExternalServiceError(m) => m.clone(),
        AppError::TimeoutError(m) => m.clone(),
        AppError::RateLimitExceeded { message } => message.clone(),
        AppError::AuthError(m) => m.clone(),
        AppError::Forbidden(m) => m.clone(),
        AppError::FileUploadError(m) => m.clone(),
        AppError::FileSizeExceeded { message } => message.clone(),
        AppError::UnsupportedFileType(m) => m.clone(),
        AppError::GitHubApiError(m) => m.clone(),
        AppError::DockerValidationError(m) => m.clone(),
        AppError::ProjectTypeDetectionFailed(m) => m.clone(),
        AppError::DockerfileGenerationFailed(m) => m.clone(),
        AppError::EncryptionError(m) => m.clone(),
        AppError::WorkspaceNotFound => String::from_str("Workspace not found"),
        AppError::RepositoryNotFound(m) => m.clone(),
        AppError::PermissionDenied(m) => m.clone(),
        AppError::KubernetesError(m) => m.clone(),
        AppError::ConnectorConfigError(m) => m.clone(),
        AppError::Unimplemented(m) => m.clone(),
        AppError::CommandExecutionError { message } => message.clone(),
        AppError::QueryExecutionError { message } => message.clone(),
        AppError::SagaCompensationError { message } => message.clone(),
        AppError::RepositoryError { message } => message.clone(),
        AppError::DependencyNotFound { service } => service.clone(),
        AppError::EventHandlingError { message } => message.clone(),
        AppError::ConfigurationError { message } => message.clone(),
        AppError::ResourceExhausted(m) => m.clone(),
        AppError::ConcurrencyError(m) => m.clone(),
        AppError::NotImplemented(m) => m.clone(),
        AppError::RateLimitExceededSimple(m) => m.clone(),
    }
}

/// How an error reads: its type name, a colon, and its text.
pub open spec fn error_display(e: AppError) -> Seq<char> {
    error_type_name(e) + ": "@ + error_message(e)
}

/// How an error reads: its type name, a colon, and its text.
pub fn error_string(error: &AppError) -> (s: String)
    ensures
        s@ == error_display(*error),
{
    let mut s = error_type_of(error);
    s.append(": ");
    let m = error_text(error);
    s.append(m.as_str());
    s
}

} // verus!
