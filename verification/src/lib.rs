//! Opening a workspace in an editor: opener templates, command line, client
//! launch and the server's bookkeeping of requests that wait for a client.

pub mod cli;
pub mod cli_laws;
pub mod client;
pub mod client_laws;
pub mod json;
pub mod model_laws;
pub mod opener_laws;
pub mod openers;
pub mod paths;
pub mod pending;
pub mod pending_laws;
pub mod protocol;
pub mod schema;
pub mod server;
pub mod server_laws;
pub mod text;
pub mod text_laws;
