//! Error types for turning LLM output into typed values, with the messages
//! they render to.

use vstd::prelude::*;
use crate::text::{decimal, push_char, push_decimal};

verus! {

#[verifier::external_type_specification]
#[verifier::external_body]
pub struct ExJsonError(serde_json::Error);

/// Message for an enum variant that was not recognised.
pub open spec fn unknown_variant_text(
    enum_name: Seq<char>,
    variant: Seq<char>,
    suggestion: Option<Seq<char>>,
) -> Seq<char> {
    let base = "Unknown variant '"@ + variant + "' for enum "@ + enum_name;
    match suggestion {
        Some(s) => base + ". Did you mean '"@ + s + "'?"@,
        None => base,
    }
}

/// Message for a struct field that was not recognised.
pub open spec fn unknown_field_text(
    struct_name: Seq<char>,
    field: Seq<char>,
    suggestion: Option<Seq<char>>,
) -> Seq<char> {
    let base = "Unknown field '"@ + field + "' in struct "@ + struct_name;
    match suggestion {
        Some(s) => base + ". Did you mean '"@ + s + "'?"@,
        None => base,
    }
}

/// The view of an optional owned string.
pub open spec fn opt_view(o: Option<String>) -> Option<Seq<char>> {
    match o {
        Some(s) => Some(s@),
        None => None,
    }
}

fn format_unknown_variant_error(
    enum_name: &str,
    variant: &str,
    suggestion: &Option<String>,
) -> (r: String)
    ensures
        r@ == unknown_variant_text(enum_name@, variant@, opt_view(*suggestion)),
{
    let mut s = String::new();
    s.append("Unknown variant '");
    s.append(variant);
    s.append("' for enum ");
    s.append(enum_name);
    match suggestion {
        Some(sug) => {
            s.append(". Did you mean '");
            s.append(sug.as_str());
            s.append("'?");
        },
        None => {},
    }
    s
}

fn format_unknown_field_error(
    struct_name: &str,
    field: &str,
    suggestion: &Option<String>,
) -> (r: String)
    ensures
        r@ == unknown_field_text(struct_name@, field@, opt_view(*suggestion)),
{
    let mut s = String::new();
    s.append("Unknown field '");
    s.append(field);
    s.append("' in struct ");
    s.append(struct_name);
    match suggestion {
        Some(sug) => {
            s.append(". Did you mean '");
            s.append(sug.as_str());
            s.append("'?");
        },
        None => {},
    }
    s
}

/// Errors that occur during deserialization.
#[derive(Debug)]
pub enum DeserializeError {
    /// Type mismatch between expected and found types.
    TypeMismatch {
        /// Expected type name.
        expected: &'static str,
        /// Found type name.
        found: String,
    },
    /// Required field is missing from the input.
    MissingField {
        /// Name of the missing field.
        field: String,
    },
    /// Invalid value encountered.
    InvalidValue {
        /// Description of why the value is invalid.
        message: String,
    },
    /// Unknown variant for enum.
    UnknownVariant {
        /// Enum type name.
        enum_name: String,
        /// The variant that was not recognized.
        variant: String,
        /// Suggested similar variant, if any.
        suggestion: Option<String>,
    },
    /// Unknown field in struct.
    UnknownField {
        /// Struct type name.
        struct_name: String,
        /// The field that was not recognized.
        field: String,
        /// Suggested similar field, if any.
        suggestion: Option<String>,
    },
    /// Custom error message.
    Custom(String),
    /// Depth limit exceeded during recursive deserialization.
    DepthLimitExceeded {
        /// Current depth.
        depth: usize,
        /// Maximum allowed depth.
        max_depth: usize,
    },
    /// Circular reference detected during deserialization.
    CircularReference {
        /// Type name where the cycle was detected.
        type_label: String,
    },
}

impl DeserializeError {
    /// The message this error renders to.
    pub open spec fn text(&self) -> Seq<char> {
        match self {
            DeserializeError::TypeMismatch { expected, found } =>
                "Type mismatch: expected "@ + expected@ + ", found "@ + found@,
            DeserializeError::MissingField { field } =>
                "Missing required field: "@ + field@,
            DeserializeError::InvalidValue { message } =>
                "Invalid value: "@ + message@,
            DeserializeError::UnknownVariant { enum_name, variant, suggestion } =>
                unknown_variant_text(enum_name@, variant@, opt_view(*suggestion)),
            DeserializeError::UnknownField { struct_name, field, suggestion } =>
                unknown_field_text(struct_name@, field@, opt_view(*suggestion)),
            DeserializeError::Custom(message) => message@,
            DeserializeError::DepthLimitExceeded { depth, max_depth } =>
                "Depth limit exceeded: "@ + decimal(*depth as nat) + " >= "@ + decimal(
                    *max_depth as nat,
                ),
            DeserializeError::CircularReference { type_label } =>
                "Circular reference detected for type: "@ + type_label@,
        }
    }

    /// Creates a type mismatch error.
    pub fn type_mismatch(expected: &'static str, found: &str) -> (e: Self)
        ensures
            e matches DeserializeError::TypeMismatch { expected: x, found: f } && x@ == expected@
                && f@ == found@,
    {
        DeserializeError::TypeMismatch { expected, found: found.to_owned() }
    }

    /// Creates a missing field error.
    pub fn missing_field(field: &str) -> (e: Self)
        ensures
            e matches DeserializeError::MissingField { field: f } && f@ == field@,
    {
        DeserializeError::MissingField { field: field.to_owned() }
    }

    /// Creates an invalid value error.
    pub fn invalid_value(message: &str) -> (e: Self)
        ensures
            e matches DeserializeError::InvalidValue { message: m } && m@ == message@,
    {
        DeserializeError::InvalidValue { message: message.to_owned() }
    }

    /// Renders the error message.
    pub fn to_string(&self) -> (s: String)
        ensures
            s@ == self.text(),
    {
        let mut s = String::new();
        match self {
            DeserializeError::TypeMismatch { expected, found } => {
                s.append("Type mismatch: expected ");
                s.append(*expected);
                s.append(", found ");
                s.append(found.as_str());
            },
            DeserializeError::MissingField { field } => {
                s.append("Missing required field: ");
                s.append(field.as_str());
            },
            DeserializeError::InvalidValue { message } => {
                s.append("Invalid value: ");
                s.append(message.as_str());
            },
            DeserializeError::UnknownVariant { enum_name, variant, suggestion } => {
                s = format_unknown_variant_error(enum_name.as_str(), variant.as_str(), suggestion);
            },
            DeserializeError::UnknownField { struct_name, field, suggestion } => {
                s = format_unknown_field_error(struct_name.as_str(), field.as_str(), suggestion);
            },
            DeserializeError::Custom(message) => {
                s.append(message.as_str());
            },
            DeserializeError::DepthLimitExceeded { depth, max_depth } => {
                s.append("Depth limit exceeded: ");
                push_decimal(&mut s, *depth as u64);
                s.append(" >= ");
                push_decimal(&mut s, *max_depth as u64);
            },
            DeserializeError::CircularReference { type_label } => {
                s.append("Circular reference detected for type: ");
                s.append(type_label.as_str());
            },
        }
        s
    }
}


/// Details of a failed candidate deserialization attempt.
#[derive(Debug)]
pub struct CandidateError {
    /// Source of the candidate (e.g., "direct", "markdown", "yaml").
    pub source: String,
    /// Score of the candidate (lower is better).
    pub score: u32,
    /// Preview of the candidate value (first 100 chars).
    pub preview: String,
    /// The deserialization error.
    pub error: DeserializeError,
}

impl CandidateError {
    /// The message this attempt renders to: `[source] (score: N): error`.
    pub open spec fn text(&self) -> Seq<char> {
        "["@ + self.source@ + "] (score: "@ + decimal(self.score as nat) + "): "@
            + self.error.text()
    }

    /// Renders the attempt.
    pub fn to_string(&self) -> (s: String)
        ensures
            s@ == self.text(),
    {
        let mut s = String::new();
        s.append("[");
        s.append(self.source.as_str());
        s.append("] (score: ");
        push_decimal(&mut s, self.score as u64);
        s.append("): ");
        let e = self.error.to_string();
        s.append(e.as_str());
        s
    }
}

/// One line of the detailed report: the attempt's 1-based position, then the
/// attempt as it renders.
pub open spec fn detail_line(i: int, a: CandidateError) -> Seq<char> {
    "  "@ + decimal((i + 1) as nat) + ". "@ + a.text()
}

/// The first `n` detail lines of `attempts`, joined by newlines.
pub open spec fn detail_lines(attempts: Seq<CandidateError>, n: nat) -> Seq<char>
    decreases n,
{
    if n == 0 {
        Seq::empty()
    } else if n == 1 {
        detail_line(0, attempts[0])
    } else {
        detail_lines(attempts, (n - 1) as nat) + "\n"@ + detail_line(n - 1, attempts[n - 1])
    }
}

/// Details about all failed deserialization attempts.
#[derive(Debug)]
pub struct AllCandidatesError {
    /// Each candidate that was tried and its error.
    pub attempts: Vec<CandidateError>,
}

impl AllCandidatesError {
    /// The message this error renders to: `N candidates`.
    pub open spec fn text(&self) -> Seq<char> {
        decimal(self.attempts@.len()) + " candidates"@
    }

    /// Returns the number of failed attempts.
    pub fn len(&self) -> (n: usize)
        ensures
            n == self.attempts@.len(),
    {
        self.attempts.len()
    }

    /// Returns true if there are no attempts.
    pub fn is_empty(&self) -> (b: bool)
        ensures
            b <==> self.attempts@.len() == 0,
    {
        self.attempts.len() == 0
    }

    /// Returns the first error, if any.
    pub fn first_error(&self) -> (r: Option<&DeserializeError>)
        ensures
            self.attempts@.len() == 0 ==> r is None,
            self.attempts@.len() > 0 ==> (r matches Some(e) && *e == self.attempts@[0].error),
    {
        if self.attempts.len() == 0 {
            None
        } else {
            Some(&self.attempts[0].error)
        }
    }

    /// Returns detailed information about all attempts, one line per attempt.
    pub fn details(&self) -> (s: String)
        ensures
            s@ == detail_lines(self.attempts@, self.attempts@.len()),
    {
        let mut s = String::new();
        let n = self.attempts.len();
        let mut i: usize = 0;
        while i < n
            invariant
                n == self.attempts@.len(),
                i <= n,
                s@ == detail_lines(self.attempts@, i as nat),
            decreases n - i,
        {
            if i > 0 {
                s.append("\n");
            }
            s.append("  ");
            push_decimal(&mut s, i as u64 + 1);
            s.append(". ");
            let line = self.attempts[i].to_string();
            s.append(line.as_str());
            i = i + 1;
        }
        s
    }

    /// Renders the error.
    pub fn to_string(&self) -> (s: String)
        ensures
            s@ == self.text(),
    {
        let mut s = String::new();
        push_decimal(&mut s, self.attempts.len() as u64);
        s.append(" candidates");
        s
    }
}

/// Details of a failed parsing strategy attempt.
#[derive(Debug, Clone)]
pub struct StrategyError {
    /// Name of the strategy that failed.
    pub strategy: &'static str,
    /// Error message describing why it failed.
    pub error: String,
}

impl StrategyError {
    /// The message this error renders to: `strategy: error`.
    pub open spec fn text(&self) -> Seq<char> {
        self.strategy@ + ": "@ + self.error@
    }

    /// Creates a new strategy error.
    pub fn new(strategy: &'static str, error: &str) -> (e: Self)
        ensures
            e.strategy@ == strategy@,
            e.error@ == error@,
    {
        StrategyError { strategy, error: error.to_owned() }
    }

    /// Renders the error.
    pub fn to_string(&self) -> (s: String)
        ensures
            s@ == self.text(),
    {
        let mut s = String::new();
        s.append(self.strategy);
        s.append(": ");
        s.append(self.error.as_str());
        s
    }
}

/// Errors that can occur during parsing.
#[derive(Debug)]
pub enum ParseError {
    /// No valid candidates were found after trying all parsing strategies.
    NoCandidates,
    /// All parsing strategies failed.
    AllStrategiesFailed {
        /// Details of each failed strategy attempt.
        attempts: Vec<StrategyError>,
    },
    /// Deserialization failed for all candidates.
    DeserializeFailed(DeserializeError),
    /// All candidates failed to deserialize.
    AllCandidatesFailed(AllCandidatesError),
    /// JSON parsing error from serde_json.
    JsonError(serde_json::Error),
    /// Configuration error.
    InvalidConfig(String),
}

impl ParseError {
    /// The message this error renders to, for every variant but `JsonError`,
    /// whose message comes from serde_json.
    pub open spec fn text(&self) -> Seq<char> {
        match self {
            ParseError::NoCandidates => "No valid candidates found in response"@,
            ParseError::AllStrategiesFailed { .. } => "All parsing strategies failed"@,
            ParseError::DeserializeFailed(e) => "Deserialization failed: "@ + e.text(),
            ParseError::AllCandidatesFailed(a) => "All "@ + a.text()
                + " candidates failed to deserialize"@,
            ParseError::JsonError(_) => "JSON error: "@,
            ParseError::InvalidConfig(m) => "Invalid configuration: "@ + m@,
        }
    }

    /// Renders the error.
    pub fn to_string(&self) -> (s: String)
        ensures
            !(self is JsonError) ==> s@ == self.text(),
            self matches ParseError::JsonError(e) ==> exists|m: String|
                vstd::string::to_string_from_display_ensures::<serde_json::Error>(e, m) && s@
                    == self.text() + m@,
    {
        let mut s = String::new();
        match self {
            ParseError::NoCandidates => {
                s.append("No valid candidates found in response");
            },
            ParseError::AllStrategiesFailed { .. } => {
                s.append("All parsing strategies failed");
            },
            ParseError::DeserializeFailed(e) => {
                s.append("Deserialization failed: ");
                let m = e.to_string();
                s.append(m.as_str());
            },
            ParseError::AllCandidatesFailed(a) => {
                s.append("All ");
                let m = a.to_string();
                s.append(m.as_str());
                s.append(" candidates failed to deserialize");
            },
            ParseError::JsonError(e) => {
                s.append("JSON error: ");
                let m = e.to_string();
                s.append(m.as_str());
            },
            ParseError::InvalidConfig(m) => {
                s.append("Invalid configuration: ");
                s.append(m.as_str());
            },
        }
        s
    }
}

impl From<DeserializeError> for ParseError {
    fn from(e: DeserializeError) -> (r: Self) {
        ParseError::DeserializeFailed(e)
    }
}

impl vstd::std_specs::convert::FromSpecImpl<DeserializeError> for ParseError {
    open spec fn obeys_from_spec() -> bool {
        true
    }

    open spec fn from_spec(e: DeserializeError) -> Self {
        ParseError::DeserializeFailed(e)
    }
}

impl From<serde_json::Error> for ParseError {
    fn from(e: serde_json::Error) -> (r: Self) {
        ParseError::JsonError(e)
    }
}

impl vstd::std_specs::convert::FromSpecImpl<serde_json::Error> for ParseError {
    open spec fn obeys_from_spec() -> bool {
        true
    }

    open spec fn from_spec(e: serde_json::Error) -> Self {
        ParseError::JsonError(e)
    }
}


/// With a suggestion, the unknown-variant message is the message without one,
/// followed by `. Did you mean 'S'?`.
pub proof fn lemma_variant_suggestion_appends(
    enum_name: Seq<char>,
    variant: Seq<char>,
    suggestion: Seq<char>,
)
    ensures
        unknown_variant_text(enum_name, variant, Some(suggestion)) == unknown_variant_text(
            enum_name,
            variant,
            None,
        ) + ". Did you mean '"@ + suggestion + "'?"@,
        unknown_variant_text(enum_name, variant, None) == "Unknown variant '"@ + variant
            + "' for enum "@ + enum_name,
{
}

/// With a suggestion, the unknown-field message is the message without one,
/// followed by `. Did you mean 'S'?`.
pub proof fn lemma_field_suggestion_appends(
    struct_name: Seq<char>,
    field: Seq<char>,
    suggestion: Seq<char>,
)
    ensures
        unknown_field_text(struct_name, field, Some(suggestion)) == unknown_field_text(
            struct_name,
            field,
            None,
        ) + ". Did you mean '"@ + suggestion + "'?"@,
        unknown_field_text(struct_name, field, None) == "Unknown field '"@ + field
            + "' in struct "@ + struct_name,
{
}

/// Converting a deserialization error into a parse error wraps it, and the
/// wrapped error's message follows `Deserialization failed: `.
pub proof fn lemma_from_deserialize_error(e: DeserializeError)
    ensures
        <ParseError as vstd::std_specs::convert::FromSpec<DeserializeError>>::from_spec(e)
            == ParseError::DeserializeFailed(e),
        ParseError::DeserializeFailed(e).text() == "Deserialization failed: "@ + e.text(),
{
}

} // verus!
