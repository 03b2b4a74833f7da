//! Voice resolution and request handling for a service that speaks phonetic
//! transcriptions through a cloud speech provider.

pub mod cors;
pub mod inventory;
pub mod language;
pub mod limit;
pub mod membership;
pub mod routes;
pub mod selector;
pub mod speech;
pub mod text;

pub use cors::CORS;
pub use limit::RateLimitGuard;
pub use speech::RequestData;
