//! The request-handling logic of a pastebin's archive, authentication,
//! edit and QR endpoints, stated over plain values.

mod text;
pub mod pasta;
pub mod page;
pub mod form;
pub mod update;
pub mod auth;
pub mod edit;
pub mod qr;
pub mod archive;
pub mod zipper;
