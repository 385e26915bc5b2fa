//! The filter pipeline: which cached entries the log view shows.
use crate::models::filter::{FilterState, FilterStateView};
use crate::models::log_entry::{
    all_wf, entries_view, entry_bytes_match, opt_text, LogEntry, LogEntryView, Severity,
};
use crate::text::{
    append_text, ascii_lower, chars_of, contains_any, contains_seq, eq_ignore_ascii_case, has_prefix,
    str_contains, string_from_chars, text_eq, text_starts_with, to_ascii_lowercase, to_lowercase,
    unicode_lower,
};
use crate::ui::navigation::SidebarSection;
use vstd::prelude::*;
use vstd::utf8::encode_utf8;

verus! {

// ---------------------------------------------------------------------------
// Regular expressions (the `regex` crate)
// ---------------------------------------------------------------------------

#[verifier::external_type_specification]
#[verifier::external_body]
pub struct ExRegex(regex::Regex);

/// Whether `regex::Regex::new` accepts `pattern`.
pub uninterp spec fn regex_compiles(pattern: Seq<char>) -> bool;

/// Whether the regular expression `pattern` matches somewhere in `text`
/// (`Regex::is_match`).
pub uninterp spec fn regex_finds(pattern: Seq<char>, text: Seq<char>) -> bool;

/// A compiled regular expression together with the pattern it was compiled from.
pub struct CompiledPattern {
    pattern: String,
    regex: regex::Regex,
}

impl CompiledPattern {
    pub closed spec fn pattern_view(&self) -> Seq<char> {
        self.pattern@
    }
}

/// `regex::Regex::new(pattern).ok()`: the compiled pattern where the syntax is accepted.
#[verifier::external_body]
pub(crate) fn compile_pattern(pattern: &str) -> (res: Option<CompiledPattern>)
    ensures
        res.is_some() == regex_compiles(pattern@),
        res matches Some(c) ==> c.pattern_view() == pattern@,
{
    match regex::Regex::new(pattern) {
        Ok(regex) => Some(CompiledPattern { pattern: pattern.to_string(), regex }),
        Err(_) => None,
    }
}

/// `Regex::is_match`: whether the pattern matches somewhere in `text`.
#[verifier::external_body]
pub(crate) fn pattern_is_match(p: &CompiledPattern, text: &str) -> (res: bool)
    ensures
        res == regex_finds(p.pattern_view(), text@),
{
    p.regex.is_match(text)
}

// ---------------------------------------------------------------------------
// What the pipeline keeps
// ---------------------------------------------------------------------------

pub open spec fn security_processes() -> Seq<Seq<char>> {
    seq!["sudo"@, "sshd"@, "polkit"@, "audit"@, "pam"@, "login"@, "passwd"@]
}

pub open spec fn security_phrases() -> Seq<Seq<char>> {
    seq!["authentication"@, "permission denied"@, "unauthorized"@, "access denied"@]
}

pub open spec fn storage_words() -> Seq<Seq<char>> {
    seq![
        "disk"@,
        "mount"@,
        "btrfs"@,
        "ext4"@,
        "xfs"@,
        "lvm"@,
        "udisks"@,
        "nvme"@,
        "sata"@,
        "scsi"@,
        "raid"@,
    ]
}

pub open spec fn network_words() -> Seq<Seq<char>> {
    seq![
        "network"@,
        "dhcp"@,
        "dns"@,
        "wpa"@,
        "networkmanager"@,
        "systemd-networkd"@,
        "ethernet"@,
        "wifi"@,
        "bluetooth"@,
        "firewall"@,
        "iptables"@,
        "nftables"@,
    ]
}

/// One of `keywords` occurs in the ASCII lower-cased `text`.
pub open spec fn mentions_any(text: Seq<char>, keywords: Seq<Seq<char>>) -> bool {
    exists|k: int| 0 <= k < keywords.len() && contains_seq(ascii_lower(text), #[trigger] keywords[k])
}

/// `a` and `b` are equal up to ASCII case (`str::eq_ignore_ascii_case`).
pub open spec fn same_ignoring_case(a: Seq<char>, b: Seq<char>) -> bool {
    ascii_lower(a) == ascii_lower(b)
}

pub open spec fn opt_same_ignoring_case(o: Option<Seq<char>>, b: Seq<char>) -> bool {
    match o {
        Some(t) => same_ignoring_case(t, b),
        None => false,
    }
}

/// The entry comes from the kernel: its process or its transport is `kernel`.
pub open spec fn is_kernel_entry(e: LogEntryView) -> bool {
    same_ignoring_case(e.process, "kernel"@) || opt_same_ignoring_case(e.transport, "kernel"@)
}

/// The unit is one of systemd's own during boot.
pub open spec fn is_boot_unit(u: Seq<char>) -> bool {
    has_prefix(u, "systemd-"@) || u == "init.scope"@ || u == "system.slice"@
}

/// Whether the entry belongs to the given sidebar section.
pub open spec fn matches_section(e: LogEntryView, section: SidebarSection) -> bool {
    match section {
        SidebarSection::AllLogs => true,
        SidebarSection::PowerAudit => false,
        SidebarSection::LiveLogs => opt_same_ignoring_case(e.transport, "journal"@)
            || opt_same_ignoring_case(e.transport, "syslog"@),
        SidebarSection::BootLogs => is_kernel_entry(e) || (e.systemd_unit matches Some(u)
            && is_boot_unit(u)),
        SidebarSection::Kernel => is_kernel_entry(e),
        SidebarSection::Security => mentions_any(e.process, security_processes()) || mentions_any(
            e.message,
            security_phrases(),
        ),
        SidebarSection::Services => e.systemd_unit is Some,
        SidebarSection::Storage => mentions_any(e.process, storage_words()) || mentions_any(
            e.message,
            storage_words(),
        ),
        SidebarSection::Networking => mentions_any(e.process, network_words()) || mentions_any(
            e.message,
            network_words(),
        ),
        SidebarSection::Critical => e.severity == Severity::Critical || e.severity
            == Severity::Error,
    }
}

/// The Storage section holds exactly the entries whose ASCII lower-cased process or
/// message contains one of `disk`, `mount`, `btrfs`, `ext4`, `xfs`, `lvm`, `udisks`,
/// `nvme`, `sata`, `scsi` or `raid`: a keyword in the message is enough, whatever the
/// process, and one in the process is enough, whatever the message.
pub proof fn lemma_storage_section(e: LogEntryView)
    ensures
        forall|w: Seq<char>|
            ({
                ||| w == "disk"@
                ||| w == "mount"@
                ||| w == "btrfs"@
                ||| w == "ext4"@
                ||| w == "xfs"@
                ||| w == "lvm"@
                ||| w == "udisks"@
                ||| w == "nvme"@
                ||| w == "sata"@
                ||| w == "scsi"@
                ||| w == "raid"@
            }) && #[trigger] contains_seq(ascii_lower(e.message), w) ==> matches_section(
                e,
                SidebarSection::Storage,
            ),
        forall|w: Seq<char>|
            ({
                ||| w == "disk"@
                ||| w == "mount"@
                ||| w == "btrfs"@
                ||| w == "ext4"@
                ||| w == "xfs"@
                ||| w == "lvm"@
                ||| w == "udisks"@
                ||| w == "nvme"@
                ||| w == "sata"@
                ||| w == "scsi"@
                ||| w == "raid"@
            }) && #[trigger] contains_seq(ascii_lower(e.process), w) ==> matches_section(
                e,
                SidebarSection::Storage,
            ),
        matches_section(e, SidebarSection::Storage) ==> exists|w: Seq<char>|
            ({
                ||| w == "disk"@
                ||| w == "mount"@
                ||| w == "btrfs"@
                ||| w == "ext4"@
                ||| w == "xfs"@
                ||| w == "lvm"@
                ||| w == "udisks"@
                ||| w == "nvme"@
                ||| w == "sata"@
                ||| w == "scsi"@
                ||| w == "raid"@
            }) && (#[trigger] contains_seq(ascii_lower(e.process), w) || contains_seq(
                ascii_lower(e.message),
                w,
            )),
{
    assert(storage_words()[0] == "disk"@);
    assert(storage_words()[1] == "mount"@);
    assert(storage_words()[2] == "btrfs"@);
    assert(storage_words()[3] == "ext4"@);
    assert(storage_words()[4] == "xfs"@);
    assert(storage_words()[5] == "lvm"@);
    assert(storage_words()[6] == "udisks"@);
    assert(storage_words()[7] == "nvme"@);
    assert(storage_words()[8] == "sata"@);
    assert(storage_words()[9] == "scsi"@);
    assert(storage_words()[10] == "raid"@);
    if matches_section(e, SidebarSection::Storage) {
        if mentions_any(e.process, storage_words()) {
            let k = choose|k: int|
                0 <= k < storage_words().len() && contains_seq(ascii_lower(e.process), #[trigger] storage_words()[k]);
            assert(contains_seq(ascii_lower(e.process), storage_words()[k]));
        } else {
            let k = choose|k: int|
                0 <= k < storage_words().len() && contains_seq(ascii_lower(e.message), #[trigger] storage_words()[k]);
            assert(contains_seq(ascii_lower(e.message), storage_words()[k]));
        }
    }
}

/// The Networking section holds exactly the entries whose ASCII lower-cased process or
/// message contains one of `network`, `dhcp`, `dns`, `wpa`, `networkmanager`, `systemd-
/// networkd`, `ethernet`, `wifi`, `bluetooth`, `firewall`, `iptables` or `nftables`: a
/// keyword in the message is enough, whatever the process, and one in the process is
/// enough, whatever the message.
pub proof fn lemma_networking_section(e: LogEntryView)
    ensures
        forall|w: Seq<char>|
            ({
                ||| w == "network"@
                ||| w == "dhcp"@
                ||| w == "dns"@
                ||| w == "wpa"@
                ||| w == "networkmanager"@
                ||| w == "systemd-networkd"@
                ||| w == "ethernet"@
                ||| w == "wifi"@
                ||| w == "bluetooth"@
                ||| w == "firewall"@
                ||| w == "iptables"@
                ||| w == "nftables"@
            }) && #[trigger] contains_seq(ascii_lower(e.message), w) ==> matches_section(
                e,
                SidebarSection::Networking,
            ),
        forall|w: Seq<char>|
            ({
                ||| w == "network"@
                ||| w == "dhcp"@
                ||| w == "dns"@
                ||| w == "wpa"@
                ||| w == "networkmanager"@
                ||| w == "systemd-networkd"@
                ||| w == "ethernet"@
                ||| w == "wifi"@
                ||| w == "bluetooth"@
                ||| w == "firewall"@
                ||| w == "iptables"@
                ||| w == "nftables"@
            }) && #[trigger] contains_seq(ascii_lower(e.process), w) ==> matches_section(
                e,
                SidebarSection::Networking,
            ),
        matches_section(e, SidebarSection::Networking) ==> exists|w: Seq<char>|
            ({
                ||| w == "network"@
                ||| w == "dhcp"@
                ||| w == "dns"@
                ||| w == "wpa"@
                ||| w == "networkmanager"@
                ||| w == "systemd-networkd"@
                ||| w == "ethernet"@
                ||| w == "wifi"@
                ||| w == "bluetooth"@
                ||| w == "firewall"@
                ||| w == "iptables"@
                ||| w == "nftables"@
            }) && (#[trigger] contains_seq(ascii_lower(e.process), w) || contains_seq(
                ascii_lower(e.message),
                w,
            )),
{
    assert(network_words()[0] == "network"@);
    assert(network_words()[1] == "dhcp"@);
    assert(network_words()[2] == "dns"@);
    assert(network_words()[3] == "wpa"@);
    assert(network_words()[4] == "networkmanager"@);
    assert(network_words()[5] == "systemd-networkd"@);
    assert(network_words()[6] == "ethernet"@);
    assert(network_words()[7] == "wifi"@);
    assert(network_words()[8] == "bluetooth"@);
    assert(network_words()[9] == "firewall"@);
    assert(network_words()[10] == "iptables"@);
    assert(network_words()[11] == "nftables"@);
    if matches_section(e, SidebarSection::Networking) {
        if mentions_any(e.process, network_words()) {
            let k = choose|k: int|
                0 <= k < network_words().len() && contains_seq(ascii_lower(e.process), #[trigger] network_words()[k]);
            assert(contains_seq(ascii_lower(e.process), network_words()[k]));
        } else {
            let k = choose|k: int|
                0 <= k < network_words().len() && contains_seq(ascii_lower(e.message), #[trigger] network_words()[k]);
            assert(contains_seq(ascii_lower(e.message), network_words()[k]));
        }
    }
}

/// The Security section holds exactly the entries whose ASCII lower-cased process
/// contains one of `sudo`, `sshd`, `polkit`, `audit`, `pam`, `login` or `passwd`, or
/// whose ASCII lower-cased message contains one of `authentication`, `permission denied`,
/// `unauthorized` or `access denied`.
pub proof fn lemma_security_section(e: LogEntryView)
    ensures
        forall|w: Seq<char>|
            ({
                ||| w == "authentication"@
                ||| w == "permission denied"@
                ||| w == "unauthorized"@
                ||| w == "access denied"@
            }) && #[trigger] contains_seq(ascii_lower(e.message), w) ==> matches_section(
                e,
                SidebarSection::Security,
            ),
        forall|w: Seq<char>|
            ({
                ||| w == "sudo"@
                ||| w == "sshd"@
                ||| w == "polkit"@
                ||| w == "audit"@
                ||| w == "pam"@
                ||| w == "login"@
                ||| w == "passwd"@
            }) && #[trigger] contains_seq(ascii_lower(e.process), w) ==> matches_section(
                e,
                SidebarSection::Security,
            ),
        matches_section(e, SidebarSection::Security) ==> (exists|w: Seq<char>|
            ({
                ||| w == "sudo"@
                ||| w == "sshd"@
                ||| w == "polkit"@
                ||| w == "audit"@
                ||| w == "pam"@
                ||| w == "login"@
                ||| w == "passwd"@
            }) && #[trigger] contains_seq(ascii_lower(e.process), w)) || (exists|w: Seq<char>|
            ({
                ||| w == "authentication"@
                ||| w == "permission denied"@
                ||| w == "unauthorized"@
                ||| w == "access denied"@
            }) && #[trigger] contains_seq(ascii_lower(e.message), w)),
{
    assert(security_processes()[0] == "sudo"@);
    assert(security_processes()[1] == "sshd"@);
    assert(security_processes()[2] == "polkit"@);
    assert(security_processes()[3] == "audit"@);
    assert(security_processes()[4] == "pam"@);
    assert(security_processes()[5] == "login"@);
    assert(security_processes()[6] == "passwd"@);
    assert(security_phrases()[0] == "authentication"@);
    assert(security_phrases()[1] == "permission denied"@);
    assert(security_phrases()[2] == "unauthorized"@);
    assert(security_phrases()[3] == "access denied"@);
    if matches_section(e, SidebarSection::Security) {
        if mentions_any(e.process, security_processes()) {
            let k = choose|k: int|
                0 <= k < security_processes().len() && contains_seq(ascii_lower(e.process), #[trigger] security_processes()[k]);
            assert(contains_seq(ascii_lower(e.process), security_processes()[k]));
        } else {
            let k = choose|k: int|
                0 <= k < security_phrases().len() && contains_seq(ascii_lower(e.message), #[trigger] security_phrases()[k]);
            assert(contains_seq(ascii_lower(e.message), security_phrases()[k]));
        }
    }
}

/// Section membership ignores ASCII case: two entries whose process, message and
/// transport agree once lower-cased, and whose unit and severity are the same, belong to
/// the same sections.
pub proof fn lemma_sections_ignore_case(a: LogEntryView, b: LogEntryView, s: SidebarSection)
    requires
        ascii_lower(a.process) == ascii_lower(b.process),
        ascii_lower(a.message) == ascii_lower(b.message),
        match (a.transport, b.transport) {
            (Some(x), Some(y)) => ascii_lower(x) == ascii_lower(y),
            (None, None) => true,
            _ => false,
        },
        a.systemd_unit == b.systemd_unit,
        a.severity == b.severity,
    ensures
        matches_section(a, s) == matches_section(b, s),
{
}

/// The text a regular expression is matched against: process, message, unit,
/// hostname and executable joined by single spaces.
pub open spec fn regex_haystack(e: LogEntryView) -> Seq<char> {
    e.process + seq![' '] + e.message + seq![' '] + opt_text(e.systemd_unit) + seq![' ']
        + opt_text(e.hostname) + seq![' '] + opt_text(e.executable)
}

/// The query is matched as a regular expression: regex mode is on, the query is not
/// empty and it compiles.
pub open spec fn regex_active(f: FilterStateView) -> bool {
    f.regex_mode && f.query.len() > 0 && regex_compiles(f.query)
}

/// The entry satisfies the text query.
pub open spec fn query_matches(e: LogEntryView, f: FilterStateView) -> bool {
    let ql = unicode_lower(f.query);
    ql.len() == 0 || if regex_active(f) {
        regex_finds(f.query, regex_haystack(e))
    } else {
        entry_bytes_match(e, encode_utf8(ql))
    }
}

/// The optional field holds a text that contains the Unicode lower-cased filter once it is
/// Unicode lower-cased itself.
pub open spec fn field_filter_holds(field: Option<Seq<char>>, filter: Seq<char>) -> bool {
    match field {
        Some(x) => contains_seq(unicode_lower(x), unicode_lower(filter)),
        None => false,
    }
}

/// Whether the pipeline keeps the entry under the filters.
pub open spec fn entry_passes(e: LogEntryView, f: FilterStateView) -> bool {
    &&& matches_section(e, f.section)
    &&& (f.severity matches Some(s) ==> e.severity == s)
    &&& (f.process matches Some(p) ==> contains_seq(ascii_lower(e.process), unicode_lower(p)))
    &&& (f.unit matches Some(u) ==> field_filter_holds(e.systemd_unit, u))
    &&& (f.hostname matches Some(h) ==> field_filter_holds(e.hostname, h))
    &&& query_matches(e, f)
}

/// What the sections without keywords hold: every entry is under All Logs and none under
/// Power Audit; Live Logs holds the entries whose transport is `journal` or `syslog` up to
/// ASCII case; Kernel those whose process or transport is `kernel` up to ASCII case; Boot
/// Logs the kernel entries and those whose unit begins with `systemd-` or is `init.scope`
/// or `system.slice`; Services those with a unit; Critical those of critical or error
/// severity.
pub proof fn lemma_plain_sections(e: LogEntryView)
    ensures
        matches_section(e, SidebarSection::AllLogs),
        !matches_section(e, SidebarSection::PowerAudit),
        matches_section(e, SidebarSection::LiveLogs) <==> (e.transport is Some && (ascii_lower(
            e.transport.unwrap(),
        ) == "journal"@ || ascii_lower(e.transport.unwrap()) == "syslog"@)),
        matches_section(e, SidebarSection::Kernel) <==> (ascii_lower(e.process) == "kernel"@ || (
        e.transport is Some && ascii_lower(e.transport.unwrap()) == "kernel"@)),
        matches_section(e, SidebarSection::BootLogs) <==> (matches_section(e, SidebarSection::Kernel)
            || (e.systemd_unit is Some && (e.systemd_unit.unwrap().len() >= 8
            && e.systemd_unit.unwrap().take(8) == "systemd-"@ || e.systemd_unit.unwrap()
            == "init.scope"@ || e.systemd_unit.unwrap() == "system.slice"@))),
        matches_section(e, SidebarSection::Services) <==> e.systemd_unit is Some,
        matches_section(e, SidebarSection::Critical) <==> (e.severity == Severity::Critical
            || e.severity == Severity::Error),
{
    reveal_strlit("journal");
    reveal_strlit("syslog");
    reveal_strlit("kernel");
    reveal_strlit("systemd-");
    assert(ascii_lower("journal"@) =~= "journal"@);
    assert(ascii_lower("syslog"@) =~= "syslog"@);
    assert(ascii_lower("kernel"@) =~= "kernel"@);
    if e.systemd_unit is Some {
        let u = e.systemd_unit.unwrap();
        if u.len() >= 8 {
            assert(u.subrange(0, 8) == u.take(8));
        }
        assert("systemd-"@.len() == 8);
    }
}

/// A query used as plain text (no regular expression in force) is found in an entry when
/// the UTF-8 bytes of the Unicode lower-cased query occur in the ASCII lower-cased process,
/// message, unit, hostname or executable of the entry, and only then; an empty query is
/// found in every entry.
pub proof fn lemma_plain_query_fields(e: LogEntryView, f: FilterStateView)
    requires
        !regex_active(f),
    ensures
        query_matches(e, f) <==> ({
            let q = encode_utf8(unicode_lower(f.query));
            ||| unicode_lower(f.query).len() == 0
            ||| contains_seq(encode_utf8(ascii_lower(e.process)), q)
            ||| contains_seq(encode_utf8(ascii_lower(e.message)), q)
            ||| (e.systemd_unit is Some && contains_seq(
                encode_utf8(ascii_lower(e.systemd_unit.unwrap())),
                q,
            ))
            ||| (e.hostname is Some && contains_seq(encode_utf8(ascii_lower(e.hostname.unwrap())), q))
            ||| (e.executable is Some && contains_seq(
                encode_utf8(ascii_lower(e.executable.unwrap())),
                q,
            ))
        }),
        query_matches(e, f) == query_passes_given(e, unicode_lower(f.query), None),
{
    crate::models::log_entry::lemma_byte_search_fields(e, encode_utf8(unicode_lower(f.query)));
}

/// The filters work independently, each one only narrowing what the others keep: an
/// entry passes exactly when it lies in the chosen section and passes the rest with the
/// section set to All Logs; when it has the chosen severity and passes the rest with no
/// severity chosen; when its ASCII lower-cased process contains the Unicode lower-cased
/// process filter and it passes the rest with no process filter; and likewise for the
/// unit and the hostname filters, an entry without that field never passing them.
pub proof fn lemma_filters_narrow(e: LogEntryView, f: FilterStateView)
    ensures
        entry_passes(e, f) == (matches_section(e, f.section) && entry_passes(
            e,
            (FilterStateView { section: SidebarSection::AllLogs, ..f }),
        )),
        entry_passes(e, f) == ((f.severity is None || f.severity == Some(e.severity))
            && entry_passes(e, (FilterStateView { severity: None, ..f }))),
        entry_passes(e, f) == ((f.process is None || contains_seq(
            ascii_lower(e.process),
            unicode_lower(f.process.unwrap()),
        )) && entry_passes(e, (FilterStateView { process: None, ..f }))),
        entry_passes(e, f) == ((f.unit is None || (e.systemd_unit is Some && contains_seq(
            unicode_lower(e.systemd_unit.unwrap()),
            unicode_lower(f.unit.unwrap()),
        ))) && entry_passes(e, (FilterStateView { unit: None, ..f }))),
        entry_passes(e, f) == ((f.hostname is None || (e.hostname is Some && contains_seq(
            unicode_lower(e.hostname.unwrap()),
            unicode_lower(f.hostname.unwrap()),
        ))) && entry_passes(e, (FilterStateView { hostname: None, ..f }))),
{
}

// ---------------------------------------------------------------------------
// Implementation
// ---------------------------------------------------------------------------

fn security_process_list() -> (v: Vec<&'static str>)
    ensures
        v@.map_values(|s: &str| s@) == security_processes(),
{
    let v = vec!["sudo", "sshd", "polkit", "audit", "pam", "login", "passwd"];
    assert(v@.map_values(|s: &str| s@) =~= security_processes());
    v
}

fn security_phrase_list() -> (v: Vec<&'static str>)
    ensures
        v@.map_values(|s: &str| s@) == security_phrases(),
{
    let v = vec!["authentication", "permission denied", "unauthorized", "access denied"];
    assert(v@.map_values(|s: &str| s@) =~= security_phrases());
    v
}

fn storage_word_list() -> (v: Vec<&'static str>)
    ensures
        v@.map_values(|s: &str| s@) == storage_words(),
{
    let v = vec![
        "disk",
        "mount",
        "btrfs",
        "ext4",
        "xfs",
        "lvm",
        "udisks",
        "nvme",
        "sata",
        "scsi",
        "raid",
    ];
    assert(v@.map_values(|s: &str| s@) =~= storage_words());
    v
}

fn network_word_list() -> (v: Vec<&'static str>)
    ensures
        v@.map_values(|s: &str| s@) == network_words(),
{
    let v = vec![
        "network",
        "dhcp",
        "dns",
        "wpa",
        "networkmanager",
        "systemd-networkd",
        "ethernet",
        "wifi",
        "bluetooth",
        "firewall",
        "iptables",
        "nftables",
    ];
    assert(v@.map_values(|s: &str| s@) =~= network_words());
    v
}

/// Whether one of `keywords` occurs in `text` once it is ASCII lower-cased.
fn contains_any_ignore_ascii_case(text: &str, keywords: &Vec<&str>) -> (res: bool)
    ensures
        res == mentions_any(text@, keywords@.map_values(|s: &str| s@)),
{
    let lower = to_ascii_lowercase(text);
    let r = contains_any(lower.as_str(), keywords);
    let ghost kw = keywords@.map_values(|s: &str| s@);
    assert(r == mentions_any(text@, kw)) by {
        if r {
            let k = choose|k: int| 0 <= k < keywords@.len() && contains_seq(lower@, (#[trigger] keywords@[k])@);
            assert(kw[k] == keywords@[k]@);
        }
        if mentions_any(text@, kw) {
            let k = choose|k: int| 0 <= k < kw.len() && contains_seq(ascii_lower(text@), #[trigger] kw[k]);
            assert(kw[k] == keywords@[k]@);
        }
    }
    r
}

fn opt_eq_ignore_case(o: &Option<String>, word: &str) -> (res: bool)
    ensures
        res == opt_same_ignoring_case(o.deep_view(), word@),
{
    match o {
        Some(t) => eq_ignore_ascii_case(t.as_str(), word),
        None => false,
    }
}

fn kernel_entry(e: &LogEntry) -> (res: bool)
    ensures
        res == is_kernel_entry(e@),
{
    eq_ignore_ascii_case(e.process.as_str(), "kernel") || opt_eq_ignore_case(&e.transport, "kernel")
}

fn matches_section_exec(e: &LogEntry, section: SidebarSection) -> (res: bool)
    ensures
        res == matches_section(e@, section),
{
    match section {
        SidebarSection::AllLogs => true,
        SidebarSection::PowerAudit => false,
        SidebarSection::LiveLogs => opt_eq_ignore_case(&e.transport, "journal")
            || opt_eq_ignore_case(&e.transport, "syslog"),
        SidebarSection::BootLogs => {
            if kernel_entry(e) {
                return true;
            }
            match &e.systemd_unit {
                Some(u) => text_starts_with(u.as_str(), "systemd-") || text_eq(
                    u.as_str(),
                    "init.scope",
                ) || text_eq(u.as_str(), "system.slice"),
                None => false,
            }
        },
        SidebarSection::Kernel => kernel_entry(e),
        SidebarSection::Security => {
            let procs = security_process_list();
            let phrases = security_phrase_list();
            contains_any_ignore_ascii_case(e.process.as_str(), &procs)
                || contains_any_ignore_ascii_case(e.message.as_str(), &phrases)
        },
        SidebarSection::Services => e.systemd_unit.is_some(),
        SidebarSection::Storage => {
            let words = storage_word_list();
            contains_any_ignore_ascii_case(e.process.as_str(), &words)
                || contains_any_ignore_ascii_case(e.message.as_str(), &words)
        },
        SidebarSection::Networking => {
            let words = network_word_list();
            contains_any_ignore_ascii_case(e.process.as_str(), &words)
                || contains_any_ignore_ascii_case(e.message.as_str(), &words)
        },
        SidebarSection::Critical => match e.severity {
            Severity::Critical => true,
            Severity::Error => true,
            _ => false,
        },
    }
}

/// Whether the entry belongs to the given sidebar section.
pub fn matches_section_of(entry: &LogEntry, section: SidebarSection) -> (res: bool)
    ensures
        res == matches_section(entry@, section),
{
    matches_section_exec(entry, section)
}

fn push_opt(out: &mut Vec<char>, o: &Option<String>)
    ensures
        final(out)@ == old(out)@ + opt_text(o.deep_view()),
{
    match o {
        Some(s) => append_text(out, s.as_str()),
        None => {
            assert(old(out)@ + Seq::<char>::empty() == old(out)@);
        },
    }
}

/// The text a regular expression is matched against.
fn regex_text(e: &LogEntry) -> (res: String)
    ensures
        res@ == regex_haystack(e@),
{
    let mut buf: Vec<char> = Vec::new();
    append_text(&mut buf, e.process.as_str());
    buf.push(' ');
    append_text(&mut buf, e.message.as_str());
    buf.push(' ');
    push_opt(&mut buf, &e.systemd_unit);
    buf.push(' ');
    push_opt(&mut buf, &e.hostname);
    buf.push(' ');
    push_opt(&mut buf, &e.executable);
    assert(buf@ =~= regex_haystack(e@));
    string_from_chars(buf.as_slice())
}

/// Whether an entry satisfies the text query, given the query lower-cased and, where the
/// query is used as a regular expression, whether it matched the entry's text: an empty
/// query is satisfied; a regular expression by its match; any other query when its UTF-8
/// bytes occur in a lower-cased field of the entry.
pub open spec fn query_passes_given(e: LogEntryView, query_lower: Seq<char>, regex_hit: Option<bool>) -> bool {
    query_lower.len() == 0 || match regex_hit {
        Some(hit) => hit,
        None => entry_bytes_match(e, encode_utf8(query_lower)),
    }
}

/// Whether an entry satisfies the text query, given the lower-cased query and the
/// outcome of the regular expression, if one applies.
pub fn query_passes(e: &LogEntry, query_lower: &str, regex_hit: Option<bool>) -> (res: bool)
    requires
        e.wf(),
    ensures
        res == query_passes_given(e@, query_lower@, regex_hit),
{
    if query_lower.is_empty() {
        return true;
    }
    match regex_hit {
        Some(hit) => hit,
        None => e.search_bytes_match(query_lower.as_bytes()),
    }
}

/// Whether a lower-cased field holds the lower-cased filter text; an absent field never
/// does.
pub fn lowered_field_contains(field_lower: &Option<String>, filter_lower: &str) -> (res: bool)
    ensures
        res == match field_lower.deep_view() {
            Some(x) => contains_seq(x, filter_lower@),
            None => false,
        },
{
    match field_lower {
        Some(x) => str_contains(x.as_str(), filter_lower),
        None => false,
    }
}

fn lower_opt_filter(o: &Option<String>) -> (res: Option<String>)
    ensures
        match o.deep_view() {
            Some(s) => res matches Some(r) && r@ == unicode_lower(s),
            None => res is None,
        },
{
    match o {
        Some(s) => Some(to_lowercase(s.as_str())),
        None => None,
    }
}

fn field_filter_exec(field: &Option<String>, filter_lower: &String) -> (res: bool)
    ensures
        res == match field.deep_view() {
            Some(x) => contains_seq(unicode_lower(x), filter_lower@),
            None => false,
        },
{
    let lowered = lower_opt_filter(field);
    lowered_field_contains(&lowered, filter_lower.as_str())
}

/// Everything the pipeline computes once per filter run.
struct PreparedFilter {
    query_lower: String,
    regex: Option<CompiledPattern>,
    process_lower: Option<String>,
    unit_lower: Option<String>,
    host_lower: Option<String>,
}

impl PreparedFilter {
    spec fn agrees_with(&self, f: FilterStateView) -> bool {
        &&& self.query_lower@ == unicode_lower(f.query)
        &&& (self.query_lower@.len() == 0 <==> f.query.len() == 0)
        &&& (self.regex is Some) == regex_active(f)
        &&& (self.regex matches Some(c) ==> c.pattern_view() == f.query)
        &&& (match f.process {
            Some(p) => self.process_lower matches Some(r) && r@ == unicode_lower(p),
            None => self.process_lower is None,
        })
        &&& (match f.unit {
            Some(p) => self.unit_lower matches Some(r) && r@ == unicode_lower(p),
            None => self.unit_lower is None,
        })
        &&& (match f.hostname {
            Some(p) => self.host_lower matches Some(r) && r@ == unicode_lower(p),
            None => self.host_lower is None,
        })
    }
}

fn prepare(state: &FilterState) -> (p: PreparedFilter)
    ensures
        p.agrees_with(state@),
{
    let query_lower = to_lowercase(state.query.as_str());
    let regex = if state.regex_mode && !state.query.as_str().is_empty() {
        compile_pattern(state.query.as_str())
    } else {
        None
    };
    PreparedFilter {
        query_lower,
        regex,
        process_lower: lower_opt_filter(&state.process),
        unit_lower: lower_opt_filter(&state.unit),
        host_lower: lower_opt_filter(&state.hostname),
    }
}

fn passes(e: &LogEntry, state: &FilterState, p: &PreparedFilter) -> (res: bool)
    requires
        e.wf(),
        p.agrees_with(state@),
    ensures
        res == entry_passes(e@, state@),
{
    if !matches_section_exec(e, state.section) {
        return false;
    }
    if let Some(s) = &state.severity {
        if e.severity != *s {
            return false;
        }
    }
    if let Some(pl) = &p.process_lower {
        if !str_contains(e.process_lower(), pl.as_str()) {
            return false;
        }
    }
    if let Some(ul) = &p.unit_lower {
        if !field_filter_exec(&e.systemd_unit, ul) {
            return false;
        }
    }
    if let Some(hl) = &p.host_lower {
        if !field_filter_exec(&e.hostname, hl) {
            return false;
        }
    }
    let regex_hit = if p.query_lower.as_str().is_empty() {
        None
    } else {
        match &p.regex {
            Some(re) => {
                let text = regex_text(e);
                Some(pattern_is_match(re, text.as_str()))
            },
            None => None,
        }
    };
    query_passes(e, p.query_lower.as_str(), regex_hit)
}

/// A filter whose test holds of every entry keeps them all.
proof fn lemma_open_filter_keeps_all(s: Seq<LogEntryView>, pred: spec_fn(LogEntryView) -> bool)
    requires
        forall|e: LogEntryView| #[trigger] pred(e),
    ensures
        s.filter(pred) == s,
    decreases s.len(),
{
    reveal(Seq::filter);
    if s.len() > 0 {
        lemma_open_filter_keeps_all(s.drop_last(), pred);
        assert(s.drop_last().push(s.last()) =~= s);
    }
}

/// The entries of `logs` that pass the filters, in the order of `logs`.
pub fn apply_filter(logs: &[LogEntry], state: &FilterState) -> (res: Vec<LogEntry>)
    requires
        all_wf(logs@),
    ensures
        entries_view(res@) == entries_view(logs@).filter(|e: LogEntryView| entry_passes(e, state@)),
        all_wf(res@),
        (state@.query.len() == 0 && state.severity is None && state.process is None
            && state.unit is None && state.hostname is None && state.section
            == SidebarSection::AllLogs) ==> entries_view(res@) == entries_view(logs@),
{
    let p = prepare(state);
    let ghost pred = |e: LogEntryView| entry_passes(e, state@);
    let mut out: Vec<LogEntry> = Vec::new();
    let mut i: usize = 0;
    while i < logs.len()
        invariant
            i <= logs.len(),
            all_wf(logs@),
            p.agrees_with(state@),
            pred == (|e: LogEntryView| entry_passes(e, state@)),
            entries_view(out@) == entries_view(logs@.take(i as int)).filter(pred),
            all_wf(out@),
        decreases logs.len() - i,
    {
        let keep = passes(&logs[i], state, &p);
        let ghost prev = out@;
        if keep {
            let c = logs[i].clone();
            out.push(c);
            assert(entries_view(out@) =~= entries_view(prev).push(c@));
        }
        proof {
            reveal(Seq::filter);
            let pre = entries_view(logs@.take(i as int));
            let post = entries_view(logs@.take(i + 1));
            assert(post.drop_last() =~= pre);
            assert(post.last() == logs@[i as int]@);
            assert(pred(post.last()) == keep);
            if keep {
                assert(post.filter(pred) == pre.filter(pred).push(post.last()));
            } else {
                assert(post.filter(pred) == pre.filter(pred));
            }
        }
        i = i + 1;
    }
    assert(logs@.take(logs.len() as int) =~= logs@);
    proof {
        if state@.query.len() == 0 && state.severity is None && state.process is None
            && state.unit is None && state.hostname is None && state.section == SidebarSection::AllLogs {
            assert forall|e: LogEntryView| #[trigger] pred(e) by {
                assert(unicode_lower(state@.query).len() == 0);
            }
            lemma_open_filter_keeps_all(entries_view(logs@), pred);
        }
    }
    out
}

} // verus!
