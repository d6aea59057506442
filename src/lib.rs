pub mod assemble;
pub mod container;
pub mod extract;
pub mod progress;
pub mod sanitize;
pub mod scan;
pub mod text;
pub mod validation;
