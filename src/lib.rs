pub mod method;
pub mod text;
pub mod fields;
pub mod request;
pub mod status;
pub mod response;
pub mod route;
pub mod connection;
pub mod app;
