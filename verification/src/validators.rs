//! The stateless validators.

pub mod validate_file;
pub mod validate_url;
pub mod validate_uuid;

pub use validate_file::validate_file;
pub use validate_url::validate_url;
pub use validate_uuid::validate_uuid;
