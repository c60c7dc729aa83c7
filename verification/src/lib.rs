//! Verified core of a connectivity inspector: service addresses, framing of
//! the analytics answers, the state of an inspection run and how each answer
//! updates it, throw-away host names, and the router of the static site.
pub mod text;
pub mod error;
pub mod jsonp;
pub mod latency;
pub mod model;
pub mod inspect;
pub mod urls;
pub mod perfmap;
pub mod pages;
