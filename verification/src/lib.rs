//! Routing and lifecycle engine of a multiplexing proxy for the Language
//! Server Protocol: one editor on one side, one language server per Python
//! virtual environment on the other.

pub mod backend;
pub mod backend_pool;
pub mod backend_state;
pub mod error;
pub mod framing;
pub mod json;
pub mod message;
pub mod proxy;
pub mod state;
pub mod table;
pub mod uri;
pub mod venv;
pub mod text_edit;
