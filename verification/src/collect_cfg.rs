//! Configuration of what a collection gathers, and from where.
use vstd::prelude::*;

use crate::properties::Properties;

verus! {

/// Arguments of the `collect` command.
#[derive(Debug, Clone, Copy, PartialEq, Eq, Structural)]
pub struct CollectArguments {
    /// Replace previously collected content even if its stored hash equals the new one.
    pub replace_hashed: bool,
}

/// Environment variables read by the `collect` command (none yet).
#[derive(Debug, Clone, Copy, PartialEq, Eq, Structural)]
pub struct CollectEnvironmentVariables {}

/// Supported source variants to define requirements.
#[derive(Debug, Clone, Copy, PartialEq, Eq, Structural)]
pub enum RequirementSourceVariant {
    /// Specific markup syntax in supported markup languages, e.g. Markdown.
    Markup,
    /// The JSON schema.
    Schema,
}

impl Default for RequirementSourceVariant {
    fn default() -> (res: Self)
        ensures
            res == RequirementSourceVariant::Markup,
    {
        RequirementSourceVariant::Markup
    }
}

/// Where requirements are collected from.
pub struct CollectRequirementsConfig {
    pub path: String,
    pub source: RequirementSourceVariant,
    pub origin: Option<serde_json::Value>,
    pub properties: Option<Properties>,
    /// Pattern a filepath must match to be considered as requirement source.
    pub pattern: Option<String>,
}

/// Supported source variants to retrieve annotations.
#[derive(Debug, Clone, Copy, PartialEq, Eq, Structural)]
pub enum AnnotationSourceVariant {
    /// Annotations extracted from file content.
    Content,
    /// The JSON schema.
    Schema,
}

impl Default for AnnotationSourceVariant {
    fn default() -> (res: Self)
        ensures
            res == AnnotationSourceVariant::Content,
    {
        AnnotationSourceVariant::Content
    }
}

/// Supported well-known test formats.
#[derive(Debug, Clone, Copy, PartialEq, Eq, Structural)]
pub enum WellKnownTestFormat {
    /// The Jenkins JUnit format.
    Junit,
}

impl Default for WellKnownTestFormat {
    fn default() -> (res: Self)
        ensures
            res == WellKnownTestFormat::Junit,
    {
        WellKnownTestFormat::Junit
    }
}

/// Supported well-known coverage formats.
#[derive(Debug, Clone, Copy, PartialEq, Eq, Structural)]
pub enum WellKnownCoverageFormat {
    /// The Cobertura loose format.
    CoberturaLoose,
}

impl Default for WellKnownCoverageFormat {
    fn default() -> (res: Self)
        ensures
            res == WellKnownCoverageFormat::CoberturaLoose,
    {
        WellKnownCoverageFormat::CoberturaLoose
    }
}

/// Test output in a well-known format.
#[derive(Debug, Clone, PartialEq, Eq)]
pub struct WellKnownTest {
    pub format: WellKnownTestFormat,
    /// Pattern a filepath must match to be considered as test output source.
    pub pattern: String,
}

/// Coverage data in a well-known format.
#[derive(Debug, Clone, PartialEq, Eq)]
pub struct WellKnownCoverage {
    pub format: WellKnownCoverageFormat,
    /// Pattern a filepath must match to be considered as coverage source.
    pub pattern: String,
}

/// Supported source variants to retrieve test runs.
#[derive(Debug, Clone, PartialEq, Eq)]
pub enum TestRunSourceVariant {
    /// Well-known formats for test and code coverage results.
    WellKnown { test: WellKnownTest, coverage: WellKnownCoverage },
    /// The JSON schema.
    Schema,
}

impl Default for TestRunSourceVariant {
    fn default() -> (res: Self)
        ensures
            res is Schema,
    {
        TestRunSourceVariant::Schema
    }
}

/// Supported source variants to define reviews.
#[derive(Debug, Clone, Copy, PartialEq, Eq, Structural)]
pub enum ReviewSourceVariant {
    /// Specific markup syntax in supported markup languages.
    Markup,
    /// The JSON schema.
    Schema,
}

impl Default for ReviewSourceVariant {
    fn default() -> (res: Self)
        ensures
            res == ReviewSourceVariant::Markup,
    {
        ReviewSourceVariant::Markup
    }
}

} // verus!
