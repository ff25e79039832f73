pub mod abuse;
pub mod accounts;
pub mod boards;
pub mod errors;
pub mod ident;
pub mod images;
pub mod invariants;
pub mod markup;
pub mod models;
pub mod net;
pub mod posts;
pub mod routes;
pub mod store;
pub mod text;
pub mod threads;
pub mod validate;
