//! Retry harness generator for flaky tests.
//!
//! Given a test declaration and a small attribute configuration, the library
//! produces a replacement test declaration whose body re-runs the original
//! body up to a bounded number of attempts, succeeding as soon as one attempt
//! succeeds and re-raising the final attempt's failure when every attempt
//! fails.

pub mod config;
pub mod run;
pub mod synth;

pub use config::ConfigError;
pub use config::ConfigErrorKind;
pub use config::ErrSpan;
pub use config::ExecModel;
pub use config::RetryConfig;
pub use config::Token;
pub use synth::Expansion;
pub use synth::GeneratedTest;
pub use synth::TestDeclaration;
pub use synth::flaky_test;
