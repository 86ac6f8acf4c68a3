pub mod json;
pub mod mmp;
pub mod version;
pub mod wire;
pub mod session;
