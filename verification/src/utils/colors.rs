//! The style classes that colour severities and health scores.
use crate::diagnostics::result::{status_css, status_of_score, HealthStatus};
use crate::models::log_entry::{severity_css, severity_of_priority, Severity};
use vstd::prelude::*;

verus! {

/// The style class of a severity.
pub fn severity_to_css_class(severity: &Severity) -> (res: &'static str)
    ensures
        res@ == severity_css(*severity),
{
    severity.css_class()
}

/// The style class of the severity that a syslog priority maps to.
pub fn priority_to_css_class(priority: u8) -> (res: &'static str)
    ensures
        res@ == severity_css(severity_of_priority(priority)),
{
    Severity::from_priority(priority).css_class()
}

/// The style class of the health status that a score maps to.
pub fn score_to_css_class(score: u8) -> (res: &'static str)
    ensures
        res@ == status_css(status_of_score(score)),
{
    HealthStatus::from_score(score).css_class()
}

} // verus!
