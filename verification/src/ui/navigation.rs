//! The sections of the sidebar.
use vstd::prelude::*;

verus! {

/// A sidebar section: which slice of the log the main view shows.
#[derive(Debug, Clone, Copy, PartialEq, Eq, Structural)]
pub enum SidebarSection {
    AllLogs,
    LiveLogs,
    BootLogs,
    Kernel,
    Security,
    Services,
    Storage,
    Networking,
    Critical,
    PowerAudit,
}

/// The sections in sidebar order.
pub open spec fn section_order() -> Seq<SidebarSection> {
    seq![
        SidebarSection::AllLogs,
        SidebarSection::LiveLogs,
        SidebarSection::BootLogs,
        SidebarSection::Kernel,
        SidebarSection::Security,
        SidebarSection::Services,
        SidebarSection::Storage,
        SidebarSection::Networking,
        SidebarSection::Critical,
        SidebarSection::PowerAudit,
    ]
}

/// The position of a section in sidebar order.
pub open spec fn section_index(s: SidebarSection) -> int {
    match s {
        SidebarSection::AllLogs => 0,
        SidebarSection::LiveLogs => 1,
        SidebarSection::BootLogs => 2,
        SidebarSection::Kernel => 3,
        SidebarSection::Security => 4,
        SidebarSection::Services => 5,
        SidebarSection::Storage => 6,
        SidebarSection::Networking => 7,
        SidebarSection::Critical => 8,
        SidebarSection::PowerAudit => 9,
    }
}

pub open spec fn section_label(s: SidebarSection) -> Seq<char> {
    match s {
        SidebarSection::AllLogs => "All Logs"@,
        SidebarSection::LiveLogs => "Live Logs"@,
        SidebarSection::BootLogs => "Boot Logs"@,
        SidebarSection::Kernel => "Kernel"@,
        SidebarSection::Security => "Security"@,
        SidebarSection::Services => "Services"@,
        SidebarSection::Storage => "Storage"@,
        SidebarSection::Networking => "Networking"@,
        SidebarSection::Critical => "Critical + Errors"@,
        SidebarSection::PowerAudit => "Power Audit"@,
    }
}

pub open spec fn section_icon(s: SidebarSection) -> Seq<char> {
    match s {
        SidebarSection::AllLogs => "view-list-symbolic"@,
        SidebarSection::LiveLogs => "media-record-symbolic"@,
        SidebarSection::BootLogs => "system-reboot-symbolic"@,
        SidebarSection::Kernel => "computer-symbolic"@,
        SidebarSection::Security => "security-high-symbolic"@,
        SidebarSection::Services => "preferences-system-symbolic"@,
        SidebarSection::Storage => "drive-harddisk-symbolic"@,
        SidebarSection::Networking => "network-wireless-symbolic"@,
        SidebarSection::Critical => "dialog-error-symbolic"@,
        SidebarSection::PowerAudit => "system-shutdown-symbolic"@,
    }
}

impl Default for SidebarSection {
    fn default() -> (s: Self)
        ensures
            s == SidebarSection::AllLogs,
    {
        SidebarSection::AllLogs
    }
}

impl SidebarSection {
    pub fn icon_name(&self) -> (res: &'static str)
        ensures
            res@ == section_icon(*self),
    {
        match self {
            SidebarSection::AllLogs => "view-list-symbolic",
            SidebarSection::LiveLogs => "media-record-symbolic",
            SidebarSection::BootLogs => "system-reboot-symbolic",
            SidebarSection::Kernel => "computer-symbolic",
            SidebarSection::Security => "security-high-symbolic",
            SidebarSection::Services => "preferences-system-symbolic",
            SidebarSection::Storage => "drive-harddisk-symbolic",
            SidebarSection::Networking => "network-wireless-symbolic",
            SidebarSection::Critical => "dialog-error-symbolic",
            SidebarSection::PowerAudit => "system-shutdown-symbolic",
        }
    }

    /// The title shown in the sidebar.
    pub fn label(&self) -> (res: &'static str)
        ensures
            res@ == section_label(*self),
    {
        match self {
            SidebarSection::AllLogs => "All Logs",
            SidebarSection::LiveLogs => "Live Logs",
            SidebarSection::BootLogs => "Boot Logs",
            SidebarSection::Kernel => "Kernel",
            SidebarSection::Security => "Security",
            SidebarSection::Services => "Services",
            SidebarSection::Storage => "Storage",
            SidebarSection::Networking => "Networking",
            SidebarSection::Critical => "Critical + Errors",
            SidebarSection::PowerAudit => "Power Audit",
        }
    }

    /// The sidebar title as an owned string (what `Display` prints).
    pub fn to_string(&self) -> (res: String)
        ensures
            res@ == section_label(*self),
    {
        String::from_str(self.label())
    }

    /// Every section, in sidebar order.
    pub fn all() -> (res: Vec<SidebarSection>)
        ensures
            res@ == section_order(),
    {
        vec![
            SidebarSection::AllLogs,
            SidebarSection::LiveLogs,
            SidebarSection::BootLogs,
            SidebarSection::Kernel,
            SidebarSection::Security,
            SidebarSection::Services,
            SidebarSection::Storage,
            SidebarSection::Networking,
            SidebarSection::Critical,
            SidebarSection::PowerAudit,
        ]
    }

    /// The section at a sidebar row; rows outside the sidebar select All Logs.
    pub fn from_index(index: i32) -> (s: SidebarSection)
        ensures
            0 <= index < 10 ==> s == section_order()[index as int],
            !(0 <= index < 10) ==> s == SidebarSection::AllLogs,
    {
        match index {
            0 => SidebarSection::AllLogs,
            1 => SidebarSection::LiveLogs,
            2 => SidebarSection::BootLogs,
            3 => SidebarSection::Kernel,
            4 => SidebarSection::Security,
            5 => SidebarSection::Services,
            6 => SidebarSection::Storage,
            7 => SidebarSection::Networking,
            8 => SidebarSection::Critical,
            9 => SidebarSection::PowerAudit,
            _ => SidebarSection::AllLogs,
        }
    }

    pub fn is_power_audit(&self) -> (b: bool)
        ensures
            b == (*self == SidebarSection::PowerAudit),
    {
        matches!(self, SidebarSection::PowerAudit)
    }

    pub fn is_critical(&self) -> (b: bool)
        ensures
            b == (*self == SidebarSection::Critical),
    {
        matches!(self, SidebarSection::Critical)
    }
}

/// Selecting the sidebar row of a section selects that section again.
pub proof fn lemma_section_index_round_trip(s: SidebarSection)
    ensures
        0 <= section_index(s) < 10,
        section_order()[section_index(s)] == s,
{
}

} // verus!
