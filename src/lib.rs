//! Request documents in YAML or JSON: their model and validation rules, the
//! choice of decoding, per-file and batch validation results, and the
//! substitution of environment variables into `{{identifier}}` placeholders.
pub mod environment;
pub mod models;
pub mod parsing;
pub mod text;
pub mod validator;

pub use environment::{Environment, EnvironmentResolver};
pub use models::{
    ApiKeyLocation, AuthConfig, ErrorKind, HttpMethod, JsonValue, RequestBody, RequestDefinition,
    TestAssertion, ValidationError,
};
pub use parsing::{
    determine_format_from_path, find_request_files, format_for, is_request_file, FileFormat,
};
pub use validator::{LoadedFile, RequestValidator, ValidationResult, ValidationSummary};
