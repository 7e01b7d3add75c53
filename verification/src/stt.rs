//! Speech-to-text providers.

pub mod lm_studio;
