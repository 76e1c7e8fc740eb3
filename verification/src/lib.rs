pub mod text;
pub mod paths;
pub mod sanitize;
pub mod json;
pub mod training;
pub mod session;
pub mod inference;
pub mod dataset;
pub mod system_info;
pub mod search;
