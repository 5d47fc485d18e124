//! Post-build audit rules for static HTML sites: SEO metadata, accessibility,
//! images, links, structured data and `<head>` ordering.

pub mod models;
pub mod text;
pub mod html;
pub mod seo;
pub mod a11y;
pub mod images;
pub mod pattern;
pub mod capo;
pub mod json;
pub mod schema;
pub mod paths;
pub mod links;
pub mod crawler;
pub mod report;

pub use crawler::{AuditOptions, audit_html_file};
pub use models::{Category, Issue, PageAuditReport, Severity};
pub use report::ReportFormat;
