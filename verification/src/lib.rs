//! A configuration-value provider: adapts an already-structured value into a
//! profile-scoped dictionary, expanding an optional dot-delimited key path
//! into nested dictionaries and validating that the result is
//! dictionary-shaped.

pub mod error;
pub mod path;
pub mod profile;
pub mod serialized;
pub mod value;

pub use error::Error;
pub use error::Metadata;
pub use profile::Profile;
pub use profile::ProfileMap;
pub use serialized::Serialized;
pub use value::Dict;
pub use value::Num;
pub use value::Val;
pub use value::Value;
