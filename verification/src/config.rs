//! The attribute grammar attached to a retried test and its parser.
//!
//! The configuration is a comma-separated list of items following the retry
//! marker. An item is a bare positive integer literal, the named form
//! `times = <int>`, the marker `tokio` selecting the asynchronous execution
//! model, or `tokio(<options>)` carrying an opaque option list for the
//! asynchronous entry point. Parsing either yields a [`RetryConfig`] or a
//! structured [`ConfigError`] pointing at the offending token.

use vstd::prelude::*;
use vstd::string::StrSliceExecFns;

verus! {

/// One token of the configuration sequence, as handed over by the host
/// build step's tokenizer.
#[derive(Debug, PartialEq, Eq)]
pub enum Token {
    /// An identifier such as `times` or `tokio`.
    Ident(String),
    /// An integer literal; the text may carry a leading `-` sign.
    IntLit(String),
    /// The punctuation `=`.
    Equals,
    /// The punctuation `,`.
    Comma,
    /// A parenthesized group; the text between the parentheses is kept
    /// verbatim and never interpreted here.
    Group(String),
    /// Any other token; never part of a well-formed configuration.
    Other(String),
}

/// Where a configuration error points.
#[derive(Debug, Clone, Copy, PartialEq, Eq, Structural)]
pub enum ErrSpan {
    /// The error lies at this index of the configuration token sequence.
    AttrToken(usize),
    /// The error lies at the annotated declaration itself.
    Declaration,
}

/// What went wrong with a configuration.
#[derive(Debug, Clone, Copy, PartialEq, Eq, Structural)]
pub enum ConfigErrorKind {
    /// An option name other than `times` or `tokio`.
    UnknownOption,
    /// A `times` value that is not a well-formed integer in range.
    InvalidTimesValue,
    /// A `times` value of zero or less.
    NonPositiveTimes,
    /// The `tokio` marker while asynchronous execution support is absent.
    AsyncUnsupported,
    /// The asynchronous execution model on a declaration that is not `async`.
    NotAsyncFn,
    /// A token sequence outside the configuration grammar.
    Unparseable,
}

/// A structured configuration diagnostic: never raised, always returned, so
/// that the caller can embed it at the right source location.
#[derive(Debug, Clone, Copy, PartialEq, Eq, Structural)]
pub struct ConfigError {
    pub span: ErrSpan,
    pub kind: ConfigErrorKind,
}

/// The expected-forms message each kind of error carries.
pub open spec fn spec_message(kind: ConfigErrorKind) -> Seq<char> {
    match kind {
        ConfigErrorKind::UnknownOption => "expected `times = <int>` or `tokio`"@,
        ConfigErrorKind::InvalidTimesValue => "expected an integer value for `times`"@,
        ConfigErrorKind::NonPositiveTimes => "`times` must be at least 1"@,
        ConfigErrorKind::AsyncUnsupported => "`tokio` requires asynchronous execution support"@,
        ConfigErrorKind::NotAsyncFn => "must be `async fn`"@,
        ConfigErrorKind::Unparseable => "expected `times = <int>` or `tokio`"@,
    }
}

impl ConfigError {
    /// The expected-forms message to embed beside the offending span.
    pub fn message(&self) -> (m: &'static str)
        ensures
            m@ == spec_message(self.kind),
    {
        match self.kind {
            ConfigErrorKind::UnknownOption => "expected `times = <int>` or `tokio`",
            ConfigErrorKind::InvalidTimesValue => "expected an integer value for `times`",
            ConfigErrorKind::NonPositiveTimes => "`times` must be at least 1",
            ConfigErrorKind::AsyncUnsupported => "`tokio` requires asynchronous execution support",
            ConfigErrorKind::NotAsyncFn => "must be `async fn`",
            ConfigErrorKind::Unparseable => "expected `times = <int>` or `tokio`",
        }
    }
}

/// The execution model the generated test registers with.
#[derive(Debug, PartialEq, Eq)]
pub enum ExecModel {
    /// Attempts run synchronously under the plain test entry point.
    Sync,
    /// Attempts run under the asynchronous test entry point; the optional
    /// text is an opaque option list forwarded to that entry point verbatim.
    Async(Option<String>),
}

/// A parsed retry configuration.
#[derive(Debug, PartialEq, Eq)]
pub struct RetryConfig {
    /// Upper bound on the number of attempts; always at least one.
    pub attempts: u64,
    /// The execution model selected for the generated test.
    pub model: ExecModel,
}

/// The configuration an empty attribute denotes.
pub open spec fn spec_default_config() -> RetryConfig {
    RetryConfig { attempts: 3, model: ExecModel::Sync }
}

impl Default for RetryConfig {
    /// Three synchronous attempts.
    fn default() -> (c: Self)
        ensures
            c == spec_default_config(),
    {
        RetryConfig { attempts: 3, model: ExecModel::Sync }
    }
}

/// One grammatical item of the configuration list, before its meaning is
/// checked.
#[derive(Debug, PartialEq, Eq)]
pub enum Meta {
    /// A bare identifier, such as the `tokio` marker.
    Path { at: usize, name: String },
    /// A bare integer literal.
    Bare { at: usize, lit: String },
    /// The form `<name> = <integer literal>`; `lit_at` is the index of the
    /// literal's token.
    NameValue { at: usize, lit_at: usize, name: String, lit: String },
    /// The form `<name>(<options>)` with the options kept verbatim.
    List { at: usize, name: String, args: String },
}

/// How an integer literal's text is classified.
#[derive(Debug, Clone, Copy, PartialEq, Eq, Structural)]
pub enum LitClass {
    /// Not an optionally signed, non-empty run of decimal digits.
    Malformed,
    /// A well-formed literal whose value is zero or negative.
    NonPositive,
    /// A well-formed positive literal whose value does not fit in `u64`.
    TooLarge,
    /// A well-formed literal with this positive value.
    Value(u64),
}

/// True for the ten decimal digit characters.
pub open spec fn is_digit(c: char) -> bool {
    48 <= c as u32 <= 57
}

/// The value of a single decimal digit character.
pub open spec fn digit_val(c: char) -> nat {
    (c as u32 - 48) as nat
}

/// The base-10 value of a digit string.
pub open spec fn digits_val(s: Seq<char>) -> nat
    decreases s.len(),
{
    if s.len() == 0 {
        0
    } else {
        digits_val(s.drop_last()) * 10 + digit_val(s.last())
    }
}

/// True when the literal text starts with a `-` sign.
pub open spec fn lit_is_negative(s: Seq<char>) -> bool {
    s.len() > 0 && s[0] == '-'
}

/// The digit part of the literal text, the sign stripped.
pub open spec fn lit_digits(s: Seq<char>) -> Seq<char> {
    if lit_is_negative(s) {
        s.skip(1)
    } else {
        s
    }
}

/// True when the text is an integer literal: an optional `-` sign followed
/// by one or more decimal digits.
pub open spec fn is_int_lit(s: Seq<char>) -> bool {
    &&& lit_digits(s).len() > 0
    &&& forall|i: int| 0 <= i < lit_digits(s).len() ==> is_digit(#[trigger] lit_digits(s)[i])
}

/// The classification [`classify_lit`] computes.
pub open spec fn spec_classify_lit(s: Seq<char>) -> LitClass {
    if !is_int_lit(s) {
        LitClass::Malformed
    } else if lit_is_negative(s) {
        LitClass::NonPositive
    } else if digits_val(s) > u64::MAX {
        LitClass::TooLarge
    } else if digits_val(s) == 0 {
        LitClass::NonPositive
    } else {
        LitClass::Value(digits_val(s) as u64)
    }
}

/// A digit string's value only grows as more of its digits are read.
proof fn lemma_digits_val_take_le(s: Seq<char>, j: int)
    requires
        0 <= j <= s.len(),
    ensures
        digits_val(s.take(j)) <= digits_val(s),
    decreases s.len() - j,
{
    if j == s.len() {
        assert(s.take(j) =~= s);
    } else {
        assert(s.take(j + 1).drop_last() =~= s.take(j));
        assert(digits_val(s.take(j + 1)) == digits_val(s.take(j)) * 10 + digit_val(s.take(j + 1).last()));
        lemma_digits_val_take_le(s, j + 1);
    }
}

/// Classifies an integer literal's text: the sign, digit and range checks
/// behind both the bare-integer and the `times = <int>` forms.
pub fn classify_lit(lit: &String) -> (c: LitClass)
    ensures
        c == spec_classify_lit(lit@),
{
    let s = lit.as_str();
    let n = s.unicode_len();
    if n == 0 {
        return LitClass::Malformed;
    }
    let neg = s.get_char(0) == '-';
    let start: usize = if neg { 1 } else { 0 };
    if start == n {
        // the text is just a sign, with no digits behind it
        return LitClass::Malformed;
    }
    let mut i: usize = start;
    while i < n
        invariant
            s@ == lit@,
            start <= i <= n,
            n == s@.len(),
            neg == lit_is_negative(s@),
            start == (if neg { 1int } else { 0int }),
            start < n,
            forall|k: int| start <= k < i ==> is_digit(#[trigger] s@[k]),
        decreases n - i,
    {
        let d = s.get_char(i) as u32;
        if d < 48 || d > 57 {
            proof {
                let bad = i - start;
                assert(lit_digits(s@)[bad] == s@[i as int]);
            }
            return LitClass::Malformed;
        }
        i = i + 1;
    }
    proof {
        assert(forall|k: int| 0 <= k < lit_digits(s@).len() ==> is_digit(#[trigger] lit_digits(s@)[k]))
            by {
            assert(forall|k: int| 0 <= k < lit_digits(s@).len() ==> lit_digits(s@)[k] == s@[k + start]);
        }
        assert(is_int_lit(s@));
    }
    if neg {
        return LitClass::NonPositive;
    }
    let mut v: u64 = 0;
    i = 0;
    while i < n
        invariant
            s@ == lit@,
            0 <= i <= n,
            n == s@.len(),
            !lit_is_negative(s@),
            is_int_lit(s@),
            forall|k: int| 0 <= k < n ==> is_digit(#[trigger] s@[k]),
            v == digits_val(s@.take(i as int)),
        decreases n - i,
    {
        let d = (s.get_char(i) as u32 - 48) as u64;
        if v > (u64::MAX - d) / 10 {
            proof {
                let t = s@.take(i + 1);
                assert(t.drop_last() =~= s@.take(i as int));
                assert(digits_val(t) == v * 10 + digit_val(s@[i as int]));
                assert(v * 10 + d > u64::MAX) by (nonlinear_arith)
                    requires
                        v > (u64::MAX - d) / 10,
                        d <= 9,
                {}
                lemma_digits_val_take_le(s@, i + 1);
            }
            return LitClass::TooLarge;
        }
        proof {
            let t = s@.take(i + 1);
            assert(t.drop_last() =~= s@.take(i as int));
            assert(digits_val(t) == v * 10 + digit_val(s@[i as int]));
            assert(v * 10 + d <= u64::MAX) by (nonlinear_arith)
                requires
                    v <= (u64::MAX - d) / 10,
                    d <= 9,
            {}
        }
        v = v * 10 + d;
        i = i + 1;
    }
    proof {
        assert(s@.take(n as int) =~= s@);
    }
    if v == 0 {
        LitClass::NonPositive
    } else {
        LitClass::Value(v)
    }
}

/// The grammatical items of the token sequence from index `i` on, after the
/// items already gathered in `acc`: a comma-separated list of items, a
/// trailing comma allowed.
pub open spec fn spec_split_from(t: Seq<Token>, i: int, acc: Seq<Meta>) -> Result<Seq<Meta>, ConfigError>
    decreases t.len() - i, 1int,
{
    if i >= t.len() {
        Ok(acc)
    } else {
        match t[i] {
            Token::Ident(name) => if i + 1 < t.len() && t[i + 1] is Equals {
                if i + 2 >= t.len() {
                    Err(ConfigError {
                        span: ErrSpan::AttrToken((i + 1) as usize),
                        kind: ConfigErrorKind::Unparseable,
                    })
                } else {
                    match t[i + 2] {
                        Token::IntLit(lit) => spec_split_cont(
                            t,
                            i + 3,
                            acc.push(Meta::NameValue {
                                at: i as usize,
                                lit_at: (i + 2) as usize,
                                name: name,
                                lit: lit,
                            }),
                        ),
                        _ => Err(ConfigError {
                            span: ErrSpan::AttrToken((i + 2) as usize),
                            kind: ConfigErrorKind::InvalidTimesValue,
                        }),
                    }
                }
            } else if i + 1 < t.len() && t[i + 1] is Group {
                spec_split_cont(
                    t,
                    i + 2,
                    acc.push(Meta::List { at: i as usize, name: name, args: t[i + 1]->Group_0 }),
                )
            } else {
                spec_split_cont(t, i + 1, acc.push(Meta::Path { at: i as usize, name: name }))
            },
            Token::IntLit(lit) => spec_split_cont(
                t,
                i + 1,
                acc.push(Meta::Bare { at: i as usize, lit: lit }),
            ),
            _ => Err(ConfigError {
                span: ErrSpan::AttrToken(i as usize),
                kind: ConfigErrorKind::Unparseable,
            }),
        }
    }
}

/// After one item, the list either ends, or a comma separates the next item.
pub open spec fn spec_split_cont(t: Seq<Token>, j: int, acc: Seq<Meta>) -> Result<Seq<Meta>, ConfigError>
    decreases t.len() - j, 0int,
{
    if j >= t.len() {
        Ok(acc)
    } else if t[j] is Comma {
        spec_split_from(t, j + 1, acc)
    } else {
        Err(ConfigError { span: ErrSpan::AttrToken(j as usize), kind: ConfigErrorKind::Unparseable })
    }
}

/// Splits the configuration tokens into grammatical items, or reports the
/// first token at which the sequence leaves the grammar.
pub fn split_metas(tokens: &Vec<Token>) -> (r: Result<Vec<Meta>, ConfigError>)
    ensures
        (match (r, spec_split_from(tokens@, 0, Seq::<Meta>::empty())) {
            (Ok(v), Ok(ms)) => v@ == ms,
            (Err(e), Err(se)) => e == se,
            _ => false,
        }),
{
    let ghost t = tokens@;
    let mut acc: Vec<Meta> = Vec::new();
    let mut i: usize = 0;
    while i < tokens.len()
        invariant
            t == tokens@,
            i <= t.len(),
            spec_split_from(t, 0, Seq::<Meta>::empty()) == spec_split_from(t, i as int, acc@),
        decreases t.len() - i,
    {
        let at = i;
        let m: Meta;
        let j: usize;
        match &tokens[i] {
            Token::Ident(name) => {
                if i + 1 < tokens.len() && matches!(&tokens[i + 1], Token::Equals) {
                    if i + 2 >= tokens.len() {
                        return Err(ConfigError {
                            span: ErrSpan::AttrToken(i + 1),
                            kind: ConfigErrorKind::Unparseable,
                        });
                    }
                    match &tokens[i + 2] {
                        Token::IntLit(lit) => {
                            m = Meta::NameValue {
                                at,
                                lit_at: i + 2,
                                name: name.clone(),
                                lit: lit.clone(),
                            };
                            j = i + 3;
                        }
                        _ => {
                            return Err(ConfigError {
                                span: ErrSpan::AttrToken(i + 2),
                                kind: ConfigErrorKind::InvalidTimesValue,
                            });
                        }
                    }
                } else if i + 1 < tokens.len() {
                    match &tokens[i + 1] {
                        Token::Group(args) => {
                            m = Meta::List { at, name: name.clone(), args: args.clone() };
                            j = i + 2;
                        }
                        _ => {
                            m = Meta::Path { at, name: name.clone() };
                            j = i + 1;
                        }
                    }
                } else {
                    m = Meta::Path { at, name: name.clone() };
                    j = i + 1;
                }
            }
            Token::IntLit(lit) => {
                m = Meta::Bare { at, lit: lit.clone() };
                j = i + 1;
            }
            _ => {
                return Err(ConfigError {
                    span: ErrSpan::AttrToken(i),
                    kind: ConfigErrorKind::Unparseable,
                });
            }
        }
        acc.push(m);
        if j >= tokens.len() {
            return Ok(acc);
        }
        match &tokens[j] {
            Token::Comma => {
                i = j + 1;
            }
            _ => {
                return Err(ConfigError {
                    span: ErrSpan::AttrToken(j),
                    kind: ConfigErrorKind::Unparseable,
                });
            }
        }
    }
    Ok(acc)
}

/// The configuration denoted by the items from index `i` on, folded over the
/// configuration gathered so far, or the first semantic error among them.
/// A repeated option overwrites the earlier one, as the last write of a field
/// would.
pub open spec fn spec_apply_from(ms: Seq<Meta>, i: int, cfg: RetryConfig, async_ok: bool) -> Result<
    RetryConfig,
    ConfigError,
>
    decreases ms.len() - i,
{
    if i >= ms.len() {
        Ok(cfg)
    } else {
        match ms[i] {
            Meta::Path { at, name } => if name@ == "tokio"@ {
                if async_ok {
                    spec_apply_from(
                        ms,
                        i + 1,
                        RetryConfig { attempts: cfg.attempts, model: ExecModel::Async(None) },
                        async_ok,
                    )
                } else {
                    Err(ConfigError {
                        span: ErrSpan::AttrToken(at),
                        kind: ConfigErrorKind::AsyncUnsupported,
                    })
                }
            } else {
                Err(ConfigError { span: ErrSpan::AttrToken(at), kind: ConfigErrorKind::UnknownOption })
            },
            Meta::List { at, name, args } => if name@ == "tokio"@ {
                if async_ok {
                    spec_apply_from(
                        ms,
                        i + 1,
                        RetryConfig { attempts: cfg.attempts, model: ExecModel::Async(Some(args)) },
                        async_ok,
                    )
                } else {
                    Err(ConfigError {
                        span: ErrSpan::AttrToken(at),
                        kind: ConfigErrorKind::AsyncUnsupported,
                    })
                }
            } else {
                Err(ConfigError { span: ErrSpan::AttrToken(at), kind: ConfigErrorKind::UnknownOption })
            },
            Meta::NameValue { at, lit_at, name, lit } => if name@ == "times"@ {
                match spec_classify_lit(lit@) {
                    LitClass::Value(v) => spec_apply_from(
                        ms,
                        i + 1,
                        RetryConfig { attempts: v, model: cfg.model },
                        async_ok,
                    ),
                    LitClass::NonPositive => Err(ConfigError {
                        span: ErrSpan::AttrToken(lit_at),
                        kind: ConfigErrorKind::NonPositiveTimes,
                    }),
                    _ => Err(ConfigError {
                        span: ErrSpan::AttrToken(lit_at),
                        kind: ConfigErrorKind::InvalidTimesValue,
                    }),
                }
            } else {
                Err(ConfigError { span: ErrSpan::AttrToken(at), kind: ConfigErrorKind::UnknownOption })
            },
            Meta::Bare { at, lit } => match spec_classify_lit(lit@) {
                LitClass::Value(v) => spec_apply_from(
                    ms,
                    i + 1,
                    RetryConfig { attempts: v, model: cfg.model },
                    async_ok,
                ),
                LitClass::NonPositive => Err(ConfigError {
                    span: ErrSpan::AttrToken(at),
                    kind: ConfigErrorKind::NonPositiveTimes,
                }),
                _ => Err(ConfigError {
                    span: ErrSpan::AttrToken(at),
                    kind: ConfigErrorKind::InvalidTimesValue,
                }),
            },
        }
    }
}

/// Compares an identifier against an expected option name.
fn is_named(name: &String, expected: &str) -> (r: bool)
    ensures
        r == (name@ == expected@),
{
    let e: String = expected.to_owned();
    *name == e
}

/// Interprets the grammatical items: folds them over the default
/// configuration, or reports the first item whose meaning is wrong.
pub fn apply_metas(metas: &Vec<Meta>, async_ok: bool) -> (r: Result<RetryConfig, ConfigError>)
    ensures
        r == spec_apply_from(metas@, 0, spec_default_config(), async_ok),
{
    let ghost ms = metas@;
    let mut cfg = RetryConfig::default();
    let mut i: usize = 0;
    while i < metas.len()
        invariant
            ms == metas@,
            i <= ms.len(),
            spec_apply_from(ms, 0, spec_default_config(), async_ok) == spec_apply_from(
                ms,
                i as int,
                cfg,
                async_ok,
            ),
        decreases ms.len() - i,
    {
        match &metas[i] {
            Meta::Path { at, name } => {
                if is_named(name, "tokio") {
                    if async_ok {
                        cfg = RetryConfig { attempts: cfg.attempts, model: ExecModel::Async(None) };
                    } else {
                        return Err(ConfigError {
                            span: ErrSpan::AttrToken(*at),
                            kind: ConfigErrorKind::AsyncUnsupported,
                        });
                    }
                } else {
                    return Err(ConfigError {
                        span: ErrSpan::AttrToken(*at),
                        kind: ConfigErrorKind::UnknownOption,
                    });
                }
            }
            Meta::List { at, name, args } => {
                if is_named(name, "tokio") {
                    if async_ok {
                        cfg = RetryConfig {
                            attempts: cfg.attempts,
                            model: ExecModel::Async(Some(args.clone())),
                        };
                    } else {
                        return Err(ConfigError {
                            span: ErrSpan::AttrToken(*at),
                            kind: ConfigErrorKind::AsyncUnsupported,
                        });
                    }
                } else {
                    return Err(ConfigError {
                        span: ErrSpan::AttrToken(*at),
                        kind: ConfigErrorKind::UnknownOption,
                    });
                }
            }
            Meta::NameValue { at, lit_at, name, lit } => {
                if is_named(name, "times") {
                    match classify_lit(lit) {
                        LitClass::Value(v) => {
                            cfg = RetryConfig { attempts: v, model: cfg.model };
                        }
                        LitClass::NonPositive => {
                            return Err(ConfigError {
                                span: ErrSpan::AttrToken(*lit_at),
                                kind: ConfigErrorKind::NonPositiveTimes,
                            });
                        }
                        _ => {
                            return Err(ConfigError {
                                span: ErrSpan::AttrToken(*lit_at),
                                kind: ConfigErrorKind::InvalidTimesValue,
                            });
                        }
                    }
                } else {
                    return Err(ConfigError {
                        span: ErrSpan::AttrToken(*at),
                        kind: ConfigErrorKind::UnknownOption,
                    });
                }
            }
            Meta::Bare { at, lit } => {
                match classify_lit(lit) {
                    LitClass::Value(v) => {
                        cfg = RetryConfig { attempts: v, model: cfg.model };
                    }
                    LitClass::NonPositive => {
                        return Err(ConfigError {
                            span: ErrSpan::AttrToken(*at),
                            kind: ConfigErrorKind::NonPositiveTimes,
                        });
                    }
                    _ => {
                        return Err(ConfigError {
                            span: ErrSpan::AttrToken(*at),
                            kind: ConfigErrorKind::InvalidTimesValue,
                        });
                    }
                }
            }
        }
        i = i + 1;
    }
    Ok(cfg)
}

/// The configuration a token sequence denotes, or its first error: the
/// grammar first, then the meaning of each item.
pub open spec fn spec_parse_attr(t: Seq<Token>, async_ok: bool) -> Result<RetryConfig, ConfigError> {
    match spec_split_from(t, 0, Seq::<Meta>::empty()) {
        Ok(ms) => spec_apply_from(ms, 0, spec_default_config(), async_ok),
        Err(e) => Err(e),
    }
}

/// Parses the token sequence following the retry marker into a
/// [`RetryConfig`], or returns the structured diagnostic for its first
/// error. `async_ok` says whether asynchronous execution support is
/// available in this build.
pub fn parse_attr(tokens: &Vec<Token>, async_ok: bool) -> (r: Result<RetryConfig, ConfigError>)
    ensures
        r == spec_parse_attr(tokens@, async_ok),
{
    let metas = match split_metas(tokens) {
        Ok(ms) => ms,
        Err(e) => {
            return Err(e);
        }
    };
    apply_metas(&metas, async_ok)
}

/// A configuration accepted by the fold keeps a positive attempt bound if it
/// starts from one: every write of `attempts` stores a classified positive
/// literal value.
proof fn lemma_apply_keeps_positive(ms: Seq<Meta>, i: int, cfg: RetryConfig, async_ok: bool, c: RetryConfig)
    requires
        0 <= i,
        cfg.attempts >= 1,
        spec_apply_from(ms, i, cfg, async_ok) == Ok::<RetryConfig, ConfigError>(c),
    ensures
        c.attempts >= 1,
    decreases ms.len() - i,
{
    if i >= ms.len() {
    } else {
        match ms[i] {
            Meta::Path { at, name } => {
                lemma_apply_keeps_positive(
                    ms,
                    i + 1,
                    RetryConfig { attempts: cfg.attempts, model: ExecModel::Async(None) },
                    async_ok,
                    c,
                );
            }
            Meta::List { at, name, args } => {
                lemma_apply_keeps_positive(
                    ms,
                    i + 1,
                    RetryConfig { attempts: cfg.attempts, model: ExecModel::Async(Some(args)) },
                    async_ok,
                    c,
                );
            }
            Meta::NameValue { at, lit_at, name, lit } => {
                match spec_classify_lit(lit@) {
                    LitClass::Value(v) => {
                        lemma_apply_keeps_positive(
                            ms,
                            i + 1,
                            RetryConfig { attempts: v, model: cfg.model },
                            async_ok,
                            c,
                        );
                    }
                    _ => {}
                }
            }
            Meta::Bare { at, lit } => {
                match spec_classify_lit(lit@) {
                    LitClass::Value(v) => {
                        lemma_apply_keeps_positive(
                            ms,
                            i + 1,
                            RetryConfig { attempts: v, model: cfg.model },
                            async_ok,
                            c,
                        );
                    }
                    _ => {}
                }
            }
        }
    }
}

/// Without asynchronous support the fold never switches the execution
/// model: the `tokio` arms reject instead.
proof fn lemma_apply_keeps_sync(ms: Seq<Meta>, i: int, cfg: RetryConfig, c: RetryConfig)
    requires
        0 <= i,
        cfg.model is Sync,
        spec_apply_from(ms, i, cfg, false) == Ok::<RetryConfig, ConfigError>(c),
    ensures
        c.model is Sync,
    decreases ms.len() - i,
{
    if i >= ms.len() {
    } else {
        match ms[i] {
            Meta::Path { at, name } => {}
            Meta::List { at, name, args } => {}
            Meta::NameValue { at, lit_at, name, lit } => {
                match spec_classify_lit(lit@) {
                    LitClass::Value(v) => {
                        lemma_apply_keeps_sync(
                            ms,
                            i + 1,
                            RetryConfig { attempts: v, model: cfg.model },
                            c,
                        );
                    }
                    _ => {}
                }
            }
            Meta::Bare { at, lit } => {
                match spec_classify_lit(lit@) {
                    LitClass::Value(v) => {
                        lemma_apply_keeps_sync(
                            ms,
                            i + 1,
                            RetryConfig { attempts: v, model: cfg.model },
                            c,
                        );
                    }
                    _ => {}
                }
            }
        }
    }
}

/// A configuration the parser accepts while asynchronous execution support
/// is absent always selects the synchronous model.
pub proof fn lemma_config_sync_without_support(tokens: Seq<Token>, c: RetryConfig)
    requires
        spec_parse_attr(tokens, false) == Ok::<RetryConfig, ConfigError>(c),
    ensures
        c.model is Sync,
{
    let split = spec_split_from(tokens, 0, Seq::<Meta>::empty());
    if split is Ok {
        lemma_apply_keeps_sync(split->Ok_0, 0, spec_default_config(), c);
    }
}

/// Every configuration the parser accepts asks for at least one attempt: a
/// request for zero or negative attempts is rejected while the
/// configuration is built.
pub proof fn lemma_config_attempts_positive(tokens: Seq<Token>, async_ok: bool, c: RetryConfig)
    requires
        spec_parse_attr(tokens, async_ok) == Ok::<RetryConfig, ConfigError>(c),
    ensures
        c.attempts >= 1,
{
    let split = spec_split_from(tokens, 0, Seq::<Meta>::empty());
    if split is Ok {
        lemma_apply_keeps_positive(split->Ok_0, 0, spec_default_config(), async_ok, c);
    }
}

} // verus!
