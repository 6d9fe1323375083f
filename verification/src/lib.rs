//! Detects the minimum runtime versions that a JavaScript or TypeScript
//! codebase needs, and the verified rules behind that report.

pub mod text;
pub mod number;
pub mod version;
pub mod cli;
pub mod engines;
pub mod data;
pub mod scanner;
pub mod fast;
pub mod labels;
pub mod report;
pub mod pipeline;
pub mod syntax;
pub mod analysis;
pub mod visitor;
pub mod panel;
pub mod order;
pub mod groups;
pub mod help;
pub mod bcd;
