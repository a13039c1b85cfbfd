//! Verified core of a minimal HTTP/1.1 server.
//!
//! The library covers everything between the socket reads and writes: deciding
//! whether a buffer of raw bytes is well-formed text, extracting the request
//! line and the `Host` and `User-Agent` headers, routing on the request path,
//! and rendering the exact response bytes.  A thin unverified shell owns the
//! listener and hands each connection's bytes to [`response::handle_request`].

pub mod encoding;
pub mod httpfile;
pub mod laws;
pub mod request;
pub mod response;
pub mod split;
pub mod text;

pub use httpfile::parse;
pub use httpfile::HttpFile;
pub use httpfile::HttpMethod;
pub use httpfile::HttpRequest;
pub use httpfile::ParseError;
pub use request::parse_request;
pub use request::RequestData;
pub use response::format_response;
pub use response::generate_response;
pub use response::handle_request;
