//! An issue tracker's core: sanitised issue records, an issues table with the
//! semantics of its SQL statements, ticket numbering, form validation and the
//! token check that guards every mutating form.
pub mod sanitize;
pub mod text;
pub mod ids;
pub mod issue;
pub mod table;
pub mod routes;
pub mod laws;
