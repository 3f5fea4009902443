//! The wrapper synthesizer: from a parsed configuration and the original
//! test declaration to the replacement declaration, or to the original
//! declaration with a diagnostic attached when the configuration is wrong.

use vstd::prelude::*;

use crate::config::ConfigError;
use crate::config::ConfigErrorKind;
use crate::config::ErrSpan;
use crate::config::ExecModel;
use crate::config::RetryConfig;
use crate::config::Token;
use crate::config::parse_attr;
use crate::config::spec_parse_attr;

verus! {

/// The original test declaration, as the host build step hands it over: a
/// name, the ordered pass-through markers attached to it, the body kept
/// verbatim, and whether the function is declared `async`.
#[derive(Debug, PartialEq, Eq)]
pub struct TestDeclaration {
    pub name: String,
    /// Markers carried over to the generated test unchanged and in order,
    /// such as a failure-expectation marker.
    pub attrs: Vec<String>,
    /// The body's text; never interpreted here.
    pub body: String,
    pub is_async: bool,
}

/// The test entry point the generated declaration registers with.
#[derive(Debug, PartialEq, Eq)]
pub enum EntryKind {
    /// The plain synchronous test entry point.
    SyncTest,
    /// The asynchronous test entry point, with an opaque option list
    /// forwarded to it verbatim when one was configured.
    AsyncTest(Option<String>),
}

/// The synthesized replacement declaration: under the original name and
/// markers, a body that defines the original declaration privately and runs
/// it up to `attempts` times.
#[derive(Debug, PartialEq, Eq)]
pub struct GeneratedTest {
    pub entry: EntryKind,
    /// Upper bound on the attempts of the generated retry loop.
    pub attempts: u64,
    /// The original declaration, embedded whole; the generated test keeps
    /// its name, markers and asynchrony.
    pub inner: TestDeclaration,
}

/// The outcome of one expansion.
#[derive(Debug, PartialEq, Eq)]
pub enum Expansion {
    /// The configuration was accepted: this replaces the original
    /// declaration.
    Wrapped(GeneratedTest),
    /// The configuration was rejected: the original declaration, untouched,
    /// together with the diagnostic to attach to it, so that the rest of
    /// the build stays valid and exactly one error is reported.
    Fallback { original: TestDeclaration, diagnostic: ConfigError },
}

/// The synchronous wrapper for a declaration.
pub open spec fn spec_sync(input_fn: TestDeclaration, times: u64) -> GeneratedTest {
    GeneratedTest { entry: EntryKind::SyncTest, attempts: times, inner: input_fn }
}

/// Wraps a declaration for the synchronous execution model.
pub fn sync(input_fn: TestDeclaration, times: u64) -> (g: GeneratedTest)
    requires
        times >= 1,
    ensures
        g == spec_sync(input_fn, times),
{
    GeneratedTest { entry: EntryKind::SyncTest, attempts: times, inner: input_fn }
}

/// The asynchronous wrapper for a declaration, or the declaration back with
/// a diagnostic when it is not `async`.
pub open spec fn spec_asynchronous(input_fn: TestDeclaration, times: u64, opts: Option<String>) -> Result<
    GeneratedTest,
    (TestDeclaration, ConfigError),
> {
    if !input_fn.is_async {
        Err(
            (
                input_fn,
                ConfigError { span: ErrSpan::Declaration, kind: ConfigErrorKind::NotAsyncFn },
            ),
        )
    } else {
        Ok(GeneratedTest { entry: EntryKind::AsyncTest(opts), attempts: times, inner: input_fn })
    }
}

/// Wraps a declaration for the asynchronous execution model; the model is
/// legal only on an `async` declaration, which otherwise comes back
/// untouched with the diagnostic.
pub fn asynchronous(input_fn: TestDeclaration, times: u64, opts: Option<String>) -> (r: Result<
    GeneratedTest,
    (TestDeclaration, ConfigError),
>)
    requires
        times >= 1,
    ensures
        r == spec_asynchronous(input_fn, times, opts),
{
    if !input_fn.is_async {
        return Err(
            (
                input_fn,
                ConfigError { span: ErrSpan::Declaration, kind: ConfigErrorKind::NotAsyncFn },
            ),
        );
    }
    Ok(GeneratedTest { entry: EntryKind::AsyncTest(opts), attempts: times, inner: input_fn })
}

/// Parsing and wrapping in one step: the generated declaration, or the
/// original declaration with the first diagnostic.
pub open spec fn spec_inner(t: Seq<Token>, input: TestDeclaration, async_ok: bool) -> Result<
    GeneratedTest,
    (TestDeclaration, ConfigError),
> {
    match spec_parse_attr(t, async_ok) {
        Err(e) => Err((input, e)),
        Ok(cfg) => match cfg.model {
            ExecModel::Sync => Ok(spec_sync(input, cfg.attempts)),
            ExecModel::Async(opts) => spec_asynchronous(input, cfg.attempts, opts),
        },
    }
}

/// Parses the configuration tokens and dispatches on the execution model.
pub fn inner(tokens: &Vec<Token>, input: TestDeclaration, async_ok: bool) -> (r: Result<
    GeneratedTest,
    (TestDeclaration, ConfigError),
>)
    ensures
        r == spec_inner(tokens@, input, async_ok),
{
    let cfg = match parse_attr(tokens, async_ok) {
        Ok(cfg) => cfg,
        Err(e) => {
            return Err((input, e));
        }
    };
    proof {
        crate::config::lemma_config_attempts_positive(tokens@, async_ok, cfg);
    }
    match cfg.model {
        ExecModel::Sync => Ok(sync(input, cfg.attempts)),
        ExecModel::Async(opts) => asynchronous(input, cfg.attempts, opts),
    }
}

/// One whole expansion, as a value.
pub open spec fn spec_flaky_test(t: Seq<Token>, input: TestDeclaration, async_ok: bool) -> Expansion {
    match spec_inner(t, input, async_ok) {
        Ok(g) => Expansion::Wrapped(g),
        Err((original, diagnostic)) => Expansion::Fallback { original, diagnostic },
    }
}

/// Expands one annotated test declaration: on a well-formed configuration,
/// the replacement declaration wrapping the original in a retry loop; on a
/// rejected configuration, the original declaration untouched together with
/// the diagnostic to embed. `async_ok` says whether asynchronous execution
/// support is available in this build.
pub fn flaky_test(tokens: &Vec<Token>, input: TestDeclaration, async_ok: bool) -> (r: Expansion)
    ensures
        r == spec_flaky_test(tokens@, input, async_ok),
{
    match inner(tokens, input, async_ok) {
        Ok(g) => Expansion::Wrapped(g),
        Err((original, diagnostic)) => Expansion::Fallback { original, diagnostic },
    }
}

/// Expansion is deterministic: two expansions of the same declaration under
/// the same configuration tokens and the same capability flag are the same
/// declaration, observably and in every field.
pub proof fn lemma_expansion_deterministic(
    t: Seq<Token>,
    input: TestDeclaration,
    async_ok: bool,
    r1: Expansion,
    r2: Expansion,
)
    requires
        r1 == spec_flaky_test(t, input, async_ok),
        r2 == spec_flaky_test(t, input, async_ok),
    ensures
        r1 == r2,
{
}

/// What every expansion guarantees: a wrapped result embeds the declaration
/// unchanged (same name, markers and body), keeps at least one attempt, and
/// chose the asynchronous entry point only for an `async` declaration; a
/// fallback returns the declaration untouched.
pub proof fn lemma_expansion_well_formed(t: Seq<Token>, input: TestDeclaration, async_ok: bool)
    ensures
        (match spec_flaky_test(t, input, async_ok) {
            Expansion::Wrapped(g) => {
                &&& g.inner == input
                &&& g.attempts >= 1
                &&& (g.entry is AsyncTest ==> input.is_async)
                &&& (g.entry is AsyncTest ==> async_ok)
            },
            Expansion::Fallback { original, diagnostic } => original == input,
        }),
{
    let p = spec_parse_attr(t, async_ok);
    if p is Ok {
        crate::config::lemma_config_attempts_positive(t, async_ok, p->Ok_0);
        if !async_ok {
            crate::config::lemma_config_sync_without_support(t, p->Ok_0);
        }
    }
}

} // verus!
