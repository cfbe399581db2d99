pub mod auth;
pub mod classify;
pub mod errors;
pub mod forward;
pub mod pipeline;
pub mod strict;
pub mod tokens;

pub use auth::AuthError;
pub use auth::AuthGate;
pub use classify::RelayMode;
pub use errors::ProxyError;
pub use forward::ResponseHead;
pub use pipeline::Admission;
pub use tokens::Token;
pub use tokens::TokensBalencer;
