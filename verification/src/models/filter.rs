//! What the user asked the log view to show.
use crate::models::log_entry::Severity;
use crate::ui::navigation::SidebarSection;
use vstd::prelude::*;

verus! {

/// The active filters of the log view.
pub struct FilterState {
    pub query: String,
    pub severity: Option<Severity>,
    pub process: Option<String>,
    pub unit: Option<String>,
    pub hostname: Option<String>,
    pub section: SidebarSection,
    pub regex_mode: bool,
}

/// The filters, their texts taken as character sequences.
pub struct FilterStateView {
    pub query: Seq<char>,
    pub severity: Option<Severity>,
    pub process: Option<Seq<char>>,
    pub unit: Option<Seq<char>>,
    pub hostname: Option<Seq<char>>,
    pub section: SidebarSection,
    pub regex_mode: bool,
}

impl View for FilterState {
    type V = FilterStateView;

    open spec fn view(&self) -> FilterStateView {
        FilterStateView {
            query: self.query@,
            severity: self.severity,
            process: self.process.deep_view(),
            unit: self.unit.deep_view(),
            hostname: self.hostname.deep_view(),
            section: self.section,
            regex_mode: self.regex_mode,
        }
    }
}

impl Default for FilterState {
    fn default() -> (f: Self)
        ensures
            f@.query.len() == 0,
            f.severity is None,
            f.process is None,
            f.unit is None,
            f.hostname is None,
            f.section == SidebarSection::AllLogs,
            !f.regex_mode,
    {
        FilterState {
            query: String::new(),
            severity: None,
            process: None,
            unit: None,
            hostname: None,
            section: SidebarSection::AllLogs,
            regex_mode: false,
        }
    }
}

impl FilterState {
    /// No query and no field filter is set (the section and the regex switch are not filters here).
    pub fn is_empty(&self) -> (b: bool)
        ensures
            b == (self.query@.len() == 0 && self.severity is None && self.process is None
                && self.unit is None && self.hostname is None),
    {
        self.query.as_str().is_empty() && self.severity.is_none() && self.process.is_none()
            && self.unit.is_none() && self.hostname.is_none()
    }
}

} // verus!
