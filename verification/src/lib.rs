pub mod collection;
pub mod encode;
pub mod errors;
pub mod ingest;
pub mod paths;
pub mod session;
