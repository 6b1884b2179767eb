//! Friendly names for the tools that sub-agents run.
//!
//! Every tool gets a name with some personality, a category shown as a chip and
//! a tint. Tools are looked up by name, then by the prefix of their namespace.

use vstd::prelude::*;

use crate::text;
use crate::text::{chars_of, contains, find_from, spells, starts_with};

verus! {

/// How a tool is shown.
#[derive(Clone, Copy, Debug)]
pub struct AgentIdentity {
    /// The name in the card's header.
    pub name: &'static str,
    /// The chip on the card.
    pub category: &'static str,
    /// The tint of the card's border and dot.
    pub rgb: (u8, u8, u8),
}

/// What an identity holds.
#[verifier::ext_equal]
pub struct IdentityModel {
    pub name: Seq<char>,
    pub category: Seq<char>,
    pub rgb: (u8, u8, u8),
}

impl View for AgentIdentity {
    type V = IdentityModel;

    open spec fn view(&self) -> IdentityModel {
        IdentityModel { name: self.name@, category: self.category@, rgb: self.rgb }
    }
}

/// The kinds of work that tools do.
#[derive(Clone, Copy, PartialEq, Eq, Structural)]
pub enum Kind {
    Memory,
    Vault,
    Files,
    Shell,
    Web,
    Playwright,
    Github,
    Windows,
    Eustress,
    Info,
    Code,
    Agent,
    Jobs,
    Generic,
    Zenith,
}

/// What a kind of work is called and how it is tinted.
pub open spec fn kind_model(k: Kind) -> IdentityModel {
    match k {
        Kind::Memory => IdentityModel {
            name: "Memory Diver"@,
            category: "MEMORY"@,
            rgb: (34, 211, 238),
        },
        Kind::Vault => IdentityModel {
            name: "Vault Keeper"@,
            category: "VAULT"@,
            rgb: (167, 139, 250),
        },
        Kind::Files => IdentityModel {
            name: "Scribe"@,
            category: "FILES"@,
            rgb: (251, 191, 36),
        },
        Kind::Shell => IdentityModel {
            name: "Operator"@,
            category: "SYSTEM"@,
            rgb: (244, 114, 182),
        },
        Kind::Web => IdentityModel {
            name: "Web Scout"@,
            category: "WEB"@,
            rgb: (52, 211, 153),
        },
        Kind::Playwright => IdentityModel {
            name: "Browser Pilot"@,
            category: "WEB"@,
            rgb: (52, 211, 153),
        },
        Kind::Github => IdentityModel {
            name: "Repo Sentry"@,
            category: "GITHUB"@,
            rgb: (139, 195, 247),
        },
        Kind::Windows => IdentityModel {
            name: "Window Conductor"@,
            category: "DESKTOP"@,
            rgb: (147, 197, 253),
        },
        Kind::Eustress => IdentityModel {
            name: "Eustress Engine"@,
            category: "SIM"@,
            rgb: (192, 132, 252),
        },
        Kind::Info => IdentityModel {
            name: "Lookup"@,
            category: "INFO"@,
            rgb: (165, 243, 252),
        },
        Kind::Code => IdentityModel {
            name: "Engineer"@,
            category: "CODE"@,
            rgb: (251, 113, 133),
        },
        Kind::Agent => IdentityModel {
            name: "Sub-Commander"@,
            category: "AGENT"@,
            rgb: (236, 254, 255),
        },
        Kind::Jobs => IdentityModel {
            name: "Foreman"@,
            category: "JOBS"@,
            rgb: (251, 146, 60),
        },
        Kind::Generic => IdentityModel {
            name: "Worker"@,
            category: "TOOL"@,
            rgb: (165, 243, 252),
        },
        Kind::Zenith => IdentityModel {
            name: "Zenith Coach"@,
            category: "ZENITH"@,
            rgb: (250, 204, 21),
        },
    }
}

/// A tool of kind `k` with a name of its own.
pub open spec fn named(name: Seq<char>, k: Kind) -> IdentityModel {
    IdentityModel { name, ..kind_model(k) }
}

/// The tools that are known by name.
pub open spec fn known(tool: Seq<char>) -> Option<IdentityModel> {
    if tool == "memory_search"@ {
        Some(named("Memory Diver"@, Kind::Memory))
    } else if tool == "memory_read"@ {
        Some(named("Recall"@, Kind::Memory))
    } else if tool == "memory_write"@ {
        Some(named("Memory Scribe"@, Kind::Memory))
    } else if tool == "memory_tree"@ {
        Some(named("Cartographer"@, Kind::Memory))
    } else if tool == "feedback_log_write"@ {
        Some(named("Coach Note"@, Kind::Memory))
    } else if tool == "feedback_log_read"@ {
        Some(named("Coach Recall"@, Kind::Memory))
    } else if tool == "vault_read"@ {
        Some(named("Vault Reader"@, Kind::Vault))
    } else if tool == "vault_write"@ {
        Some(named("Vault Scribe"@, Kind::Vault))
    } else if tool == "vault_list"@ {
        Some(named("Vault Inventory"@, Kind::Vault))
    } else if tool == "vault_search"@ {
        Some(named("Vault Seeker"@, Kind::Vault))
    } else if tool == "vault_delete"@ {
        Some(named("Vault Purge"@, Kind::Vault))
    } else if tool == "vault_move"@ {
        Some(named("Vault Mover"@, Kind::Vault))
    } else if tool == "read_file"@ {
        Some(named("Reader"@, Kind::Files))
    } else if tool == "write_file"@ {
        Some(named("Author"@, Kind::Files))
    } else if tool == "apply_patch"@ {
        Some(named("Surgeon"@, Kind::Files))
    } else if tool == "list_dir"@ {
        Some(named("Pathfinder"@, Kind::Files))
    } else if tool == "shell"@ {
        Some(named("Operator"@, Kind::Shell))
    } else if tool == "open_app"@ {
        Some(named("Launcher"@, Kind::Shell))
    } else if tool == "open_url"@ {
        Some(named("Hyperlink"@, Kind::Web))
    } else if tool == "time"@ {
        Some(named("Timekeeper"@, Kind::Info))
    } else if tool == "weather"@ {
        Some(named("Skywatcher"@, Kind::Info))
    } else if tool == "list_my_tools"@ {
        Some(named("Self-Inventory"@, Kind::Info))
    } else if tool == "mission_lookup"@ {
        Some(named("Mission Briefer"@, Kind::Info))
    } else if tool == "recent_logs"@ {
        Some(named("Log Diver"@, Kind::Info))
    } else if tool == "claude_code_transcript_tail"@ {
        Some(named("Transcript Tail"@, Kind::Info))
    } else if tool == "echo"@ {
        Some(named("Echo"@, Kind::Info))
    } else if tool == "json"@ {
        Some(named("JSON Wrangler"@, Kind::Info))
    } else if tool == "build_software"@ {
        Some(named("Engineer"@, Kind::Code))
    } else if tool == "http"@ {
        Some(named("Messenger"@, Kind::Web))
    } else if tool == "spawn_agent"@ {
        Some(named("Sub-Commander"@, Kind::Agent))
    } else if tool == "create_job"@ {
        Some(named("Foreman"@, Kind::Jobs))
    } else if tool == "list_jobs"@ {
        Some(named("Job Roster"@, Kind::Jobs))
    } else if tool == "job_status"@ {
        Some(named("Job Inspector"@, Kind::Jobs))
    } else if tool == "cancel_job"@ {
        Some(named("Job Abort"@, Kind::Jobs))
    } else if tool == "sp_admin"@ {
        Some(named("SP Admin"@, Kind::Zenith))
    } else if tool == "sp_contribute"@ {
        Some(named("Contributor"@, Kind::Zenith))
    } else if tool == "sp_launchpad"@ {
        Some(named("Launchpad"@, Kind::Zenith))
    } else if tool == "sp_status"@ {
        Some(named("Mirror Score"@, Kind::Zenith))
    } else if tool == "sp_submit_ai_opportunity"@ {
        Some(named("Opportunity Scout"@, Kind::Zenith))
    } else if tool == "sp_submit_onboarding"@ {
        Some(named("Onboarding"@, Kind::Zenith))
    } else if tool == "sp_sync"@ {
        Some(named("SP Sync"@, Kind::Zenith))
    } else {
        None
    }
}

/// `s` without the prefix `p`, however often it is repeated.
pub open spec fn without_prefix(s: Seq<char>, p: Seq<char>) -> Seq<char>
    decreases s.len(),
{
    if p.len() > 0 && p.is_prefix_of(s) {
        without_prefix(s.skip(p.len() as int), p)
    } else {
        s
    }
}

/// What a browser tool does: its name without the namespace and the profile,
/// as in `playwright_<profile>_browser_<verb>`.
pub open spec fn browser_verb(tool: Seq<char>) -> Seq<char> {
    let rest = without_prefix(tool, "playwright_"@);
    let k = text::index_from(rest, '_', 0);
    if k < rest.len() {
        rest.skip(k + 1)
    } else {
        rest
    }
}

/// The name of a browser tool, by what it does.
pub open spec fn playwright_name(t: Seq<char>) -> Seq<char> {
    if t == "browser_navigate"@ || t == "browser_navigate_back"@ {
        "Web Navigator"@
    } else if t == "browser_click"@ {
        "Click Agent"@
    } else if t == "browser_type"@ || t == "browser_fill_form"@ || t == "browser_press_key"@ {
        "Typist"@
    } else if t == "browser_snapshot"@ || t == "browser_take_screenshot"@ {
        "Snapshotter"@
    } else if t == "browser_evaluate"@ || t == "browser_run_code_unsafe"@ {
        "JS Executor"@
    } else if t == "browser_wait_for"@ {
        "Page Watcher"@
    } else if t == "browser_close"@ || t == "browser_resize"@ || t == "browser_tabs"@ {
        "Tab Wrangler"@
    } else if t == "browser_network_requests"@ || t == "browser_network_request"@ || t == "browser_console_messages"@ {
        "Network Sniffer"@
    } else {
        "Browser Pilot"@
    }
}

/// The name of a repository tool.
pub open spec fn github_name(t: Seq<char>) -> Seq<char> {
    if t == "github_list_repos"@ {
        "Repo Lister"@
    } else if t == "github_list_prs"@ || t == "github_get_pr"@ {
        "PR Auditor"@
    } else if t == "github_list_issues"@ {
        "Issue Triage"@
    } else if t == "github_recent_commits"@ {
        "Commit Historian"@
    } else {
        "Repo Sentry"@
    }
}

/// The name of a desktop tool.
pub open spec fn windows_name(t: Seq<char>) -> Seq<char> {
    if t == "windows_list_desktops"@ || t == "windows_switch_desktop"@ || t == "windows_new_desktop"@ || t == "windows_move_window_to_desktop"@ {
        "Desktop Coordinator"@
    } else if t == "windows_list_monitors"@ {
        "Display Mapper"@
    } else if t == "windows_snap_window"@ || t == "windows_focus_window"@ {
        "Window Conductor"@
    } else if t == "windows_type_text"@ || t == "windows_press_key"@ {
        "Input Operator"@
    } else if t == "windows_screenshot_foreground"@ {
        "Screen Capture"@
    } else if t == "windows_get_input_focus"@ {
        "Focus Sentinel"@
    } else {
        "Desktop Agent"@
    }
}

/// The name of a simulation tool, by what its name mentions.
pub open spec fn eustress_name(t: Seq<char>) -> Seq<char> {
    if text::mentions(t, "camera"@) {
        "Eustress Camera"@
    } else if text::mentions(t, "simulation"@) {
        "Sim Controller"@
    } else if text::mentions(t, "entity"@) {
        "Entity Hand"@
    } else if text::mentions(t, "git"@) {
        "Eustress Git"@
    } else if text::mentions(t, "script"@) {
        "Script Author"@
    } else if text::mentions(t, "recall"@) || text::mentions(t, "remember"@) || text::mentions(t, "memory"@) {
        "Eustress Memory"@
    } else {
        "Eustress Engine"@
    }
}

/// How a tool is shown.
pub open spec fn identity(tool: Seq<char>) -> IdentityModel {
    if known(tool) is Some {
        known(tool)->0
    } else if "playwright_"@.is_prefix_of(tool) {
        named(playwright_name(browser_verb(tool)), Kind::Playwright)
    } else if "github_"@.is_prefix_of(tool) {
        named(github_name(tool), Kind::Github)
    } else if "windows_"@.is_prefix_of(tool) {
        named(windows_name(tool), Kind::Windows)
    } else if "eustress_"@.is_prefix_of(tool) {
        named(eustress_name(tool), Kind::Eustress)
    } else if "memory_"@.is_prefix_of(tool) {
        kind_model(Kind::Memory)
    } else if "vault_"@.is_prefix_of(tool) {
        kind_model(Kind::Vault)
    } else if "sp_"@.is_prefix_of(tool) {
        kind_model(Kind::Zenith)
    } else {
        kind_model(Kind::Generic)
    }
}

fn of_kind(k: Kind) -> (i: AgentIdentity)
    ensures
        i@ == kind_model(k),
{
    match k {
        Kind::Memory => AgentIdentity {
            name: "Memory Diver",
            category: "MEMORY",
            rgb: (34, 211, 238),
        },
        Kind::Vault => AgentIdentity {
            name: "Vault Keeper",
            category: "VAULT",
            rgb: (167, 139, 250),
        },
        Kind::Files => AgentIdentity {
            name: "Scribe",
            category: "FILES",
            rgb: (251, 191, 36),
        },
        Kind::Shell => AgentIdentity {
            name: "Operator",
            category: "SYSTEM",
            rgb: (244, 114, 182),
        },
        Kind::Web => AgentIdentity {
            name: "Web Scout",
            category: "WEB",
            rgb: (52, 211, 153),
        },
        Kind::Playwright => AgentIdentity {
            name: "Browser Pilot",
            category: "WEB",
            rgb: (52, 211, 153),
        },
        Kind::Github => AgentIdentity {
            name: "Repo Sentry",
            category: "GITHUB",
            rgb: (139, 195, 247),
        },
        Kind::Windows => AgentIdentity {
            name: "Window Conductor",
            category: "DESKTOP",
            rgb: (147, 197, 253),
        },
        Kind::Eustress => AgentIdentity {
            name: "Eustress Engine",
            category: "SIM",
            rgb: (192, 132, 252),
        },
        Kind::Info => AgentIdentity {
            name: "Lookup",
            category: "INFO",
            rgb: (165, 243, 252),
        },
        Kind::Code => AgentIdentity {
            name: "Engineer",
            category: "CODE",
            rgb: (251, 113, 133),
        },
        Kind::Agent => AgentIdentity {
            name: "Sub-Commander",
            category: "AGENT",
            rgb: (236, 254, 255),
        },
        Kind::Jobs => AgentIdentity {
            name: "Foreman",
            category: "JOBS",
            rgb: (251, 146, 60),
        },
        Kind::Generic => AgentIdentity {
            name: "Worker",
            category: "TOOL",
            rgb: (165, 243, 252),
        },
        Kind::Zenith => AgentIdentity {
            name: "Zenith Coach",
            category: "ZENITH",
            rgb: (250, 204, 21),
        },
    }
}

fn with_name(name: &'static str, k: Kind) -> (i: AgentIdentity)
    ensures
        i@ == named(name@, k),
{
    let base = of_kind(k);
    AgentIdentity { name, category: base.category, rgb: base.rgb }
}

fn find_known(t: &[char]) -> (r: Option<AgentIdentity>)
    ensures
        r is Some <==> known(t@) is Some,
        r matches Some(i) ==> i@ == known(t@)->0,
{
    if spells(t, "memory_search") {
        Some(with_name("Memory Diver", Kind::Memory))
    } else if spells(t, "memory_read") {
        Some(with_name("Recall", Kind::Memory))
    } else if spells(t, "memory_write") {
        Some(with_name("Memory Scribe", Kind::Memory))
    } else if spells(t, "memory_tree") {
        Some(with_name("Cartographer", Kind::Memory))
    } else if spells(t, "feedback_log_write") {
        Some(with_name("Coach Note", Kind::Memory))
    } else if spells(t, "feedback_log_read") {
        Some(with_name("Coach Recall", Kind::Memory))
    } else if spells(t, "vault_read") {
        Some(with_name("Vault Reader", Kind::Vault))
    } else if spells(t, "vault_write") {
        Some(with_name("Vault Scribe", Kind::Vault))
    } else if spells(t, "vault_list") {
        Some(with_name("Vault Inventory", Kind::Vault))
    } else if spells(t, "vault_search") {
        Some(with_name("Vault Seeker", Kind::Vault))
    } else if spells(t, "vault_delete") {
        Some(with_name("Vault Purge", Kind::Vault))
    } else if spells(t, "vault_move") {
        Some(with_name("Vault Mover", Kind::Vault))
    } else if spells(t, "read_file") {
        Some(with_name("Reader", Kind::Files))
    } else if spells(t, "write_file") {
        Some(with_name("Author", Kind::Files))
    } else if spells(t, "apply_patch") {
        Some(with_name("Surgeon", Kind::Files))
    } else if spells(t, "list_dir") {
        Some(with_name("Pathfinder", Kind::Files))
    } else if spells(t, "shell") {
        Some(with_name("Operator", Kind::Shell))
    } else if spells(t, "open_app") {
        Some(with_name("Launcher", Kind::Shell))
    } else if spells(t, "open_url") {
        Some(with_name("Hyperlink", Kind::Web))
    } else if spells(t, "time") {
        Some(with_name("Timekeeper", Kind::Info))
    } else if spells(t, "weather") {
        Some(with_name("Skywatcher", Kind::Info))
    } else if spells(t, "list_my_tools") {
        Some(with_name("Self-Inventory", Kind::Info))
    } else if spells(t, "mission_lookup") {
        Some(with_name("Mission Briefer", Kind::Info))
    } else if spells(t, "recent_logs") {
        Some(with_name("Log Diver", Kind::Info))
    } else if spells(t, "claude_code_transcript_tail") {
        Some(with_name("Transcript Tail", Kind::Info))
    } else if spells(t, "echo") {
        Some(with_name("Echo", Kind::Info))
    } else if spells(t, "json") {
        Some(with_name("JSON Wrangler", Kind::Info))
    } else if spells(t, "build_software") {
        Some(with_name("Engineer", Kind::Code))
    } else if spells(t, "http") {
        Some(with_name("Messenger", Kind::Web))
    } else if spells(t, "spawn_agent") {
        Some(with_name("Sub-Commander", Kind::Agent))
    } else if spells(t, "create_job") {
        Some(with_name("Foreman", Kind::Jobs))
    } else if spells(t, "list_jobs") {
        Some(with_name("Job Roster", Kind::Jobs))
    } else if spells(t, "job_status") {
        Some(with_name("Job Inspector", Kind::Jobs))
    } else if spells(t, "cancel_job") {
        Some(with_name("Job Abort", Kind::Jobs))
    } else if spells(t, "sp_admin") {
        Some(with_name("SP Admin", Kind::Zenith))
    } else if spells(t, "sp_contribute") {
        Some(with_name("Contributor", Kind::Zenith))
    } else if spells(t, "sp_launchpad") {
        Some(with_name("Launchpad", Kind::Zenith))
    } else if spells(t, "sp_status") {
        Some(with_name("Mirror Score", Kind::Zenith))
    } else if spells(t, "sp_submit_ai_opportunity") {
        Some(with_name("Opportunity Scout", Kind::Zenith))
    } else if spells(t, "sp_submit_onboarding") {
        Some(with_name("Onboarding", Kind::Zenith))
    } else if spells(t, "sp_sync") {
        Some(with_name("SP Sync", Kind::Zenith))
    } else {
        None
    }
}

fn friendly_playwright_name(t: &[char]) -> (n: &'static str)
    ensures
        n@ == playwright_name(browser_verb(t@)),
{
    let ghost all = t@;
    proof {
        reveal_strlit("playwright_");
    }
    let mut t = t;
    while starts_with(t, "playwright_")
        invariant
            "playwright_"@.len() == 11,
            without_prefix(all, "playwright_"@) == without_prefix(t@, "playwright_"@),
        decreases t@.len(),
    {
        let rest = vstd::slice::slice_subrange(t, 11, t.len());
        assert(rest@ =~= t@.skip(11));
        t = rest;
    }
    let k: usize = find_from(t, '_', 0);
    let ghost rest = t@;
    if k < t.len() {
        t = vstd::slice::slice_subrange(t, k + 1, t.len());
        assert(t@ =~= rest.skip(k + 1));
    }
    if spells(t, "browser_navigate") || spells(t, "browser_navigate_back") {
        "Web Navigator"
    } else if spells(t, "browser_click") {
        "Click Agent"
    } else if spells(t, "browser_type") || spells(t, "browser_fill_form") || spells(t, "browser_press_key") {
        "Typist"
    } else if spells(t, "browser_snapshot") || spells(t, "browser_take_screenshot") {
        "Snapshotter"
    } else if spells(t, "browser_evaluate") || spells(t, "browser_run_code_unsafe") {
        "JS Executor"
    } else if spells(t, "browser_wait_for") {
        "Page Watcher"
    } else if spells(t, "browser_close") || spells(t, "browser_resize") || spells(t, "browser_tabs") {
        "Tab Wrangler"
    } else if spells(t, "browser_network_requests") || spells(t, "browser_network_request") || spells(t, "browser_console_messages") {
        "Network Sniffer"
    } else {
        "Browser Pilot"
    }
}

fn friendly_github_name(t: &[char]) -> (n: &'static str)
    ensures
        n@ == github_name(t@),
{
    if spells(t, "github_list_repos") {
        "Repo Lister"
    } else if spells(t, "github_list_prs") || spells(t, "github_get_pr") {
        "PR Auditor"
    } else if spells(t, "github_list_issues") {
        "Issue Triage"
    } else if spells(t, "github_recent_commits") {
        "Commit Historian"
    } else {
        "Repo Sentry"
    }
}

fn friendly_windows_name(t: &[char]) -> (n: &'static str)
    ensures
        n@ == windows_name(t@),
{
    if spells(t, "windows_list_desktops") || spells(t, "windows_switch_desktop") || spells(t, "windows_new_desktop") || spells(t, "windows_move_window_to_desktop") {
        "Desktop Coordinator"
    } else if spells(t, "windows_list_monitors") {
        "Display Mapper"
    } else if spells(t, "windows_snap_window") || spells(t, "windows_focus_window") {
        "Window Conductor"
    } else if spells(t, "windows_type_text") || spells(t, "windows_press_key") {
        "Input Operator"
    } else if spells(t, "windows_screenshot_foreground") {
        "Screen Capture"
    } else if spells(t, "windows_get_input_focus") {
        "Focus Sentinel"
    } else {
        "Desktop Agent"
    }
}

fn friendly_eustress_name(t: &[char]) -> (n: &'static str)
    ensures
        n@ == eustress_name(t@),
{
    if contains(t, "camera") {
        "Eustress Camera"
    } else if contains(t, "simulation") {
        "Sim Controller"
    } else if contains(t, "entity") {
        "Entity Hand"
    } else if contains(t, "git") {
        "Eustress Git"
    } else if contains(t, "script") {
        "Script Author"
    } else if contains(t, "recall") || contains(t, "remember") || contains(t, "memory") {
        "Eustress Memory"
    } else {
        "Eustress Engine"
    }
}

/// How a tool is shown: by its name, then by the prefix of its namespace.
pub fn identify(tool: &str) -> (i: AgentIdentity)
    ensures
        i@ == identity(tool@),
{
    let chars = chars_of(tool);
    let t = chars.as_slice();
    if let Some(i) = find_known(t) {
        return i;
    }
    if starts_with(t, "playwright_") {
        with_name(friendly_playwright_name(t), Kind::Playwright)
    } else if starts_with(t, "github_") {
        with_name(friendly_github_name(t), Kind::Github)
    } else if starts_with(t, "windows_") {
        with_name(friendly_windows_name(t), Kind::Windows)
    } else if starts_with(t, "eustress_") {
        with_name(friendly_eustress_name(t), Kind::Eustress)
    } else if starts_with(t, "memory_") {
        of_kind(Kind::Memory)
    } else if starts_with(t, "vault_") {
        of_kind(Kind::Vault)
    } else if starts_with(t, "sp_") {
        of_kind(Kind::Zenith)
    } else {
        of_kind(Kind::Generic)
    }
}

proof fn lemma_known_namespaces(tool: Seq<char>)
    requires
        known(tool) is Some,
    ensures
        "playwright_"@.is_prefix_of(tool) ==> false,
        "github_"@.is_prefix_of(tool) ==> false,
        "windows_"@.is_prefix_of(tool) ==> false,
        "eustress_"@.is_prefix_of(tool) ==> false,
        "memory_"@.is_prefix_of(tool) ==> (known(tool)->0).category == "MEMORY"@,
        "vault_"@.is_prefix_of(tool) ==> (known(tool)->0).category == "VAULT"@,
        "sp_"@.is_prefix_of(tool) ==> (known(tool)->0).category == "ZENITH"@,
{
    reveal_strlit("memory_search");
    reveal_strlit("memory_read");
    reveal_strlit("memory_write");
    reveal_strlit("memory_tree");
    reveal_strlit("feedback_log_write");
    reveal_strlit("feedback_log_read");
    reveal_strlit("vault_read");
    reveal_strlit("vault_write");
    reveal_strlit("vault_list");
    reveal_strlit("vault_search");
    reveal_strlit("vault_delete");
    reveal_strlit("vault_move");
    reveal_strlit("read_file");
    reveal_strlit("write_file");
    reveal_strlit("apply_patch");
    reveal_strlit("list_dir");
    reveal_strlit("shell");
    reveal_strlit("open_app");
    reveal_strlit("open_url");
    reveal_strlit("time");
    reveal_strlit("weather");
    reveal_strlit("list_my_tools");
    reveal_strlit("mission_lookup");
    reveal_strlit("recent_logs");
    reveal_strlit("claude_code_transcript_tail");
    reveal_strlit("echo");
    reveal_strlit("json");
    reveal_strlit("build_software");
    reveal_strlit("http");
    reveal_strlit("spawn_agent");
    reveal_strlit("create_job");
    reveal_strlit("list_jobs");
    reveal_strlit("job_status");
    reveal_strlit("cancel_job");
    reveal_strlit("sp_admin");
    reveal_strlit("sp_contribute");
    reveal_strlit("sp_launchpad");
    reveal_strlit("sp_status");
    reveal_strlit("sp_submit_ai_opportunity");
    reveal_strlit("sp_submit_onboarding");
    reveal_strlit("sp_sync");
    reveal_strlit("playwright_");
    reveal_strlit("github_");
    reveal_strlit("windows_");
    reveal_strlit("eustress_");
    reveal_strlit("memory_");
    reveal_strlit("vault_");
    reveal_strlit("sp_");
    let head = |n: int| tool.subrange(0, n);
    if "playwright_"@.is_prefix_of(tool) {
        assert(head(11)[0] == 'p');
    }
    if "github_"@.is_prefix_of(tool) {
        assert(head(7)[0] == 'g');
    }
    if "windows_"@.is_prefix_of(tool) {
        assert(head(8)[0] == 'w');
        assert(head(8)[1] == 'i');
    }
    if "eustress_"@.is_prefix_of(tool) {
        assert(head(9)[0] == 'e');
        assert(head(9)[1] == 'u');
    }
    if "memory_"@.is_prefix_of(tool) {
        assert(head(7)[0] == 'm');
        assert(head(7)[1] == 'e');
    }
    if "vault_"@.is_prefix_of(tool) {
        assert(head(6)[0] == 'v');
    }
    if "sp_"@.is_prefix_of(tool) {
        assert(head(3)[0] == 's');
        assert(head(3)[1] == 'p');
        assert(head(3)[2] == '_');
    }
}

/// A tool's namespace decides the category that it is shown under.
pub proof fn law_namespaces_decide_categories(tool: Seq<char>)
    ensures
        "playwright_"@.is_prefix_of(tool) ==> identity(tool).category == "WEB"@,
        "github_"@.is_prefix_of(tool) ==> identity(tool).category == "GITHUB"@,
        "windows_"@.is_prefix_of(tool) ==> identity(tool).category == "DESKTOP"@,
        "eustress_"@.is_prefix_of(tool) ==> identity(tool).category == "SIM"@,
        "memory_"@.is_prefix_of(tool) ==> identity(tool).category == "MEMORY"@,
        "vault_"@.is_prefix_of(tool) ==> identity(tool).category == "VAULT"@,
        "sp_"@.is_prefix_of(tool) ==> identity(tool).category == "ZENITH"@,
{
    if known(tool) is Some {
        lemma_known_namespaces(tool);
    } else {
        reveal_strlit("playwright_");
        reveal_strlit("github_");
        reveal_strlit("windows_");
        reveal_strlit("eustress_");
        reveal_strlit("memory_");
        reveal_strlit("vault_");
        reveal_strlit("sp_");
        let head = |n: int| tool.subrange(0, n);
        if "playwright_"@.is_prefix_of(tool) {
            assert(head(11)[0] == 'p');
        }
        if "github_"@.is_prefix_of(tool) {
            assert(head(7)[0] == 'g');
        }
        if "windows_"@.is_prefix_of(tool) {
            assert(head(8)[0] == 'w');
        }
        if "eustress_"@.is_prefix_of(tool) {
            assert(head(9)[0] == 'e');
        }
        if "memory_"@.is_prefix_of(tool) {
            assert(head(7)[0] == 'm');
        }
        if "vault_"@.is_prefix_of(tool) {
            assert(head(6)[0] == 'v');
        }
        if "sp_"@.is_prefix_of(tool) {
            assert(head(3)[0] == 's');
        }
    }
}

/// Each category has its colour.
pub proof fn law_categories_have_their_colours(tool: Seq<char>)
    ensures
        ({
            let who = identity(tool);
            &&& who.category == "MEMORY"@ ==> who.rgb == (34u8, 211u8, 238u8)
            &&& who.category == "VAULT"@ ==> who.rgb == (167u8, 139u8, 250u8)
            &&& who.category == "FILES"@ ==> who.rgb == (251u8, 191u8, 36u8)
            &&& who.category == "SYSTEM"@ ==> who.rgb == (244u8, 114u8, 182u8)
            &&& who.category == "WEB"@ ==> who.rgb == (52u8, 211u8, 153u8)
            &&& who.category == "GITHUB"@ ==> who.rgb == (139u8, 195u8, 247u8)
            &&& who.category == "DESKTOP"@ ==> who.rgb == (147u8, 197u8, 253u8)
            &&& who.category == "SIM"@ ==> who.rgb == (192u8, 132u8, 252u8)
            &&& who.category == "INFO"@ ==> who.rgb == (165u8, 243u8, 252u8)
            &&& who.category == "CODE"@ ==> who.rgb == (251u8, 113u8, 133u8)
            &&& who.category == "AGENT"@ ==> who.rgb == (236u8, 254u8, 255u8)
            &&& who.category == "JOBS"@ ==> who.rgb == (251u8, 146u8, 60u8)
            &&& who.category == "TOOL"@ ==> who.rgb == (165u8, 243u8, 252u8)
            &&& who.category == "ZENITH"@ ==> who.rgb == (250u8, 204u8, 21u8)
        }),
{
    reveal_strlit("MEMORY");
    assert("MEMORY"@.len() == 6 && "MEMORY"@[0] == 'M' && "MEMORY"@[1] == 'E');
    reveal_strlit("VAULT");
    assert("VAULT"@.len() == 5 && "VAULT"@[0] == 'V' && "VAULT"@[1] == 'A');
    reveal_strlit("FILES");
    assert("FILES"@.len() == 5 && "FILES"@[0] == 'F' && "FILES"@[1] == 'I');
    reveal_strlit("SYSTEM");
    assert("SYSTEM"@.len() == 6 && "SYSTEM"@[0] == 'S' && "SYSTEM"@[1] == 'Y');
    reveal_strlit("WEB");
    assert("WEB"@.len() == 3 && "WEB"@[0] == 'W' && "WEB"@[1] == 'E');
    reveal_strlit("GITHUB");
    assert("GITHUB"@.len() == 6 && "GITHUB"@[0] == 'G' && "GITHUB"@[1] == 'I');
    reveal_strlit("DESKTOP");
    assert("DESKTOP"@.len() == 7 && "DESKTOP"@[0] == 'D' && "DESKTOP"@[1] == 'E');
    reveal_strlit("SIM");
    assert("SIM"@.len() == 3 && "SIM"@[0] == 'S' && "SIM"@[1] == 'I');
    reveal_strlit("INFO");
    assert("INFO"@.len() == 4 && "INFO"@[0] == 'I' && "INFO"@[1] == 'N');
    reveal_strlit("CODE");
    assert("CODE"@.len() == 4 && "CODE"@[0] == 'C' && "CODE"@[1] == 'O');
    reveal_strlit("AGENT");
    assert("AGENT"@.len() == 5 && "AGENT"@[0] == 'A' && "AGENT"@[1] == 'G');
    reveal_strlit("JOBS");
    assert("JOBS"@.len() == 4 && "JOBS"@[0] == 'J' && "JOBS"@[1] == 'O');
    reveal_strlit("TOOL");
    assert("TOOL"@.len() == 4 && "TOOL"@[0] == 'T' && "TOOL"@[1] == 'O');
    reveal_strlit("ZENITH");
    assert("ZENITH"@.len() == 6 && "ZENITH"@[0] == 'Z' && "ZENITH"@[1] == 'E');
}

proof fn lemma_no_second_prefix(profile: Seq<char>, verb: Seq<char>)
    requires
        profile != "playwright"@,
        forall|k: int| 0 <= k < profile.len() ==> profile[k] != '_',
    ensures
        !"playwright_"@.is_prefix_of(profile + "_"@ + verb),
{
    reveal_strlit("playwright_");
    reveal_strlit("playwright");
    reveal_strlit("_");
    let p = "playwright_"@;
    let r = profile + "_"@ + verb;
    let n = profile.len() as int;
    if p.is_prefix_of(r) {
        assert forall|k: int| 0 <= k < 11 implies r[k] == p[k] by {
            assert(r.subrange(0, 11)[k] == p[k]);
        }
        assert(r[n] == '_');
        assert(n >= 10) by {
            if n < 10 {
                assert(r[n] == p[n]);
            }
        }
        if n > 10 {
            assert(r[10] == profile[10]);
        }
        assert(profile =~= "playwright"@) by {
            assert forall|k: int| 0 <= k < 10 implies profile[k] == "playwright"@[k] by {
                assert(r[k] == profile[k]);
                assert(r[k] == p[k]);
            }
        }
    }
}

/// What a browser tool does names it, whatever profile it runs under.
pub proof fn law_browser_tools_are_named_by_verb(profile: Seq<char>, verb: Seq<char>)
    requires
        profile != "playwright"@,
        forall|k: int| 0 <= k < profile.len() ==> profile[k] != '_',
    ensures
        browser_verb("playwright_"@ + profile + "_"@ + verb) == verb,
{
    reveal_strlit("playwright_");
    reveal_strlit("_");
    let tool = "playwright_"@ + profile + "_"@ + verb;
    let rest = profile + "_"@ + verb;
    let n = profile.len() as int;
    assert(tool.subrange(0, 11) =~= "playwright_"@);
    assert("playwright_"@.is_prefix_of(tool));
    assert(tool.skip(11) =~= rest);
    lemma_no_second_prefix(profile, verb);
    assert(without_prefix(rest, "playwright_"@) == rest);
    assert(without_prefix(tool, "playwright_"@) == rest);
    text::lemma_index_from(rest, '_', 0);
    assert(rest[n] == '_');
    assert forall|k: int| 0 <= k < n implies rest[k] != '_' by {
        assert(rest[k] == profile[k]);
    }
    assert(rest.skip(n + 1) =~= verb);
}

/// A tool that is known by name, and how it is shown.
pub struct KnownTool {
    pub tool: Seq<char>,
    pub name: Seq<char>,
    pub category: Seq<char>,
}

/// The tools that are known by name.
pub open spec fn known_tools() -> Seq<KnownTool> {
    seq![
        KnownTool { tool: "memory_search"@, name: "Memory Diver"@, category: "MEMORY"@ },
        KnownTool { tool: "memory_read"@, name: "Recall"@, category: "MEMORY"@ },
        KnownTool { tool: "memory_write"@, name: "Memory Scribe"@, category: "MEMORY"@ },
        KnownTool { tool: "memory_tree"@, name: "Cartographer"@, category: "MEMORY"@ },
        KnownTool { tool: "feedback_log_write"@, name: "Coach Note"@, category: "MEMORY"@ },
        KnownTool { tool: "feedback_log_read"@, name: "Coach Recall"@, category: "MEMORY"@ },
        KnownTool { tool: "vault_read"@, name: "Vault Reader"@, category: "VAULT"@ },
        KnownTool { tool: "vault_write"@, name: "Vault Scribe"@, category: "VAULT"@ },
        KnownTool { tool: "vault_list"@, name: "Vault Inventory"@, category: "VAULT"@ },
        KnownTool { tool: "vault_search"@, name: "Vault Seeker"@, category: "VAULT"@ },
        KnownTool { tool: "vault_delete"@, name: "Vault Purge"@, category: "VAULT"@ },
        KnownTool { tool: "vault_move"@, name: "Vault Mover"@, category: "VAULT"@ },
        KnownTool { tool: "read_file"@, name: "Reader"@, category: "FILES"@ },
        KnownTool { tool: "write_file"@, name: "Author"@, category: "FILES"@ },
        KnownTool { tool: "apply_patch"@, name: "Surgeon"@, category: "FILES"@ },
        KnownTool { tool: "list_dir"@, name: "Pathfinder"@, category: "FILES"@ },
        KnownTool { tool: "shell"@, name: "Operator"@, category: "SYSTEM"@ },
        KnownTool { tool: "open_app"@, name: "Launcher"@, category: "SYSTEM"@ },
        KnownTool { tool: "open_url"@, name: "Hyperlink"@, category: "WEB"@ },
        KnownTool { tool: "time"@, name: "Timekeeper"@, category: "INFO"@ },
        KnownTool { tool: "weather"@, name: "Skywatcher"@, category: "INFO"@ },
        KnownTool { tool: "list_my_tools"@, name: "Self-Inventory"@, category: "INFO"@ },
        KnownTool { tool: "mission_lookup"@, name: "Mission Briefer"@, category: "INFO"@ },
        KnownTool { tool: "recent_logs"@, name: "Log Diver"@, category: "INFO"@ },
        KnownTool { tool: "claude_code_transcript_tail"@, name: "Transcript Tail"@, category: "INFO"@ },
        KnownTool { tool: "echo"@, name: "Echo"@, category: "INFO"@ },
        KnownTool { tool: "json"@, name: "JSON Wrangler"@, category: "INFO"@ },
        KnownTool { tool: "build_software"@, name: "Engineer"@, category: "CODE"@ },
        KnownTool { tool: "http"@, name: "Messenger"@, category: "WEB"@ },
        KnownTool { tool: "spawn_agent"@, name: "Sub-Commander"@, category: "AGENT"@ },
        KnownTool { tool: "create_job"@, name: "Foreman"@, category: "JOBS"@ },
        KnownTool { tool: "list_jobs"@, name: "Job Roster"@, category: "JOBS"@ },
        KnownTool { tool: "job_status"@, name: "Job Inspector"@, category: "JOBS"@ },
        KnownTool { tool: "cancel_job"@, name: "Job Abort"@, category: "JOBS"@ },
        KnownTool { tool: "sp_admin"@, name: "SP Admin"@, category: "ZENITH"@ },
        KnownTool { tool: "sp_contribute"@, name: "Contributor"@, category: "ZENITH"@ },
        KnownTool { tool: "sp_launchpad"@, name: "Launchpad"@, category: "ZENITH"@ },
        KnownTool { tool: "sp_status"@, name: "Mirror Score"@, category: "ZENITH"@ },
        KnownTool { tool: "sp_submit_ai_opportunity"@, name: "Opportunity Scout"@, category: "ZENITH"@ },
        KnownTool { tool: "sp_submit_onboarding"@, name: "Onboarding"@, category: "ZENITH"@ },
        KnownTool { tool: "sp_sync"@, name: "SP Sync"@, category: "ZENITH"@ },
    ]
}

/// Every tool that is known by name is shown under its own name and category.
#[verifier::rlimit(60)]
pub proof fn law_known_tools_have_their_names(k: int)
    requires
        0 <= k < known_tools().len(),
    ensures
        identity(known_tools()[k].tool).name == known_tools()[k].name,
        identity(known_tools()[k].tool).category == known_tools()[k].category,
{
    reveal_strlit("memory_search");
    assert("memory_search"@.len() == 13 && "memory_search"@[0] == 'm');
    reveal_strlit("memory_read");
    assert("memory_read"@.len() == 11 && "memory_read"@[0] == 'm' && "memory_read"@[7] == 'r');
    reveal_strlit("memory_write");
    assert("memory_write"@.len() == 12 && "memory_write"@[0] == 'm');
    reveal_strlit("memory_tree");
    assert("memory_tree"@.len() == 11 && "memory_tree"@[0] == 'm' && "memory_tree"@[7] == 't');
    reveal_strlit("feedback_log_write");
    assert("feedback_log_write"@.len() == 18);
    reveal_strlit("feedback_log_read");
    assert("feedback_log_read"@.len() == 17);
    reveal_strlit("vault_read");
    assert("vault_read"@.len() == 10 && "vault_read"@[0] == 'v' && "vault_read"@[6] == 'r');
    reveal_strlit("vault_write");
    assert("vault_write"@.len() == 11 && "vault_write"@[0] == 'v');
    reveal_strlit("vault_list");
    assert("vault_list"@.len() == 10 && "vault_list"@[0] == 'v' && "vault_list"@[6] == 'l');
    reveal_strlit("vault_search");
    assert("vault_search"@.len() == 12 && "vault_search"@[0] == 'v' && "vault_search"@[6] == 's');
    reveal_strlit("vault_delete");
    assert("vault_delete"@.len() == 12 && "vault_delete"@[0] == 'v' && "vault_delete"@[6] == 'd');
    reveal_strlit("vault_move");
    assert("vault_move"@.len() == 10 && "vault_move"@[0] == 'v' && "vault_move"@[6] == 'm');
    reveal_strlit("read_file");
    assert("read_file"@.len() == 9 && "read_file"@[0] == 'r');
    reveal_strlit("write_file");
    assert("write_file"@.len() == 10 && "write_file"@[0] == 'w');
    reveal_strlit("apply_patch");
    assert("apply_patch"@.len() == 11 && "apply_patch"@[0] == 'a');
    reveal_strlit("list_dir");
    assert("list_dir"@.len() == 8 && "list_dir"@[0] == 'l');
    reveal_strlit("shell");
    assert("shell"@.len() == 5);
    reveal_strlit("open_app");
    assert("open_app"@.len() == 8 && "open_app"@[0] == 'o' && "open_app"@[5] == 'a');
    reveal_strlit("open_url");
    assert("open_url"@.len() == 8 && "open_url"@[0] == 'o' && "open_url"@[5] == 'u');
    reveal_strlit("time");
    assert("time"@.len() == 4 && "time"@[0] == 't');
    reveal_strlit("weather");
    assert("weather"@.len() == 7 && "weather"@[0] == 'w');
    reveal_strlit("list_my_tools");
    assert("list_my_tools"@.len() == 13 && "list_my_tools"@[0] == 'l');
    reveal_strlit("mission_lookup");
    assert("mission_lookup"@.len() == 14 && "mission_lookup"@[0] == 'm');
    reveal_strlit("recent_logs");
    assert("recent_logs"@.len() == 11 && "recent_logs"@[0] == 'r');
    reveal_strlit("claude_code_transcript_tail");
    assert("claude_code_transcript_tail"@.len() == 27);
    reveal_strlit("echo");
    assert("echo"@.len() == 4 && "echo"@[0] == 'e');
    reveal_strlit("json");
    assert("json"@.len() == 4 && "json"@[0] == 'j');
    reveal_strlit("build_software");
    assert("build_software"@.len() == 14 && "build_software"@[0] == 'b');
    reveal_strlit("http");
    assert("http"@.len() == 4 && "http"@[0] == 'h');
    reveal_strlit("spawn_agent");
    assert("spawn_agent"@.len() == 11 && "spawn_agent"@[0] == 's');
    reveal_strlit("create_job");
    assert("create_job"@.len() == 10 && "create_job"@[0] == 'c' && "create_job"@[1] == 'r');
    reveal_strlit("list_jobs");
    assert("list_jobs"@.len() == 9 && "list_jobs"@[0] == 'l');
    reveal_strlit("job_status");
    assert("job_status"@.len() == 10 && "job_status"@[0] == 'j');
    reveal_strlit("cancel_job");
    assert("cancel_job"@.len() == 10 && "cancel_job"@[0] == 'c' && "cancel_job"@[1] == 'a');
    reveal_strlit("sp_admin");
    assert("sp_admin"@.len() == 8 && "sp_admin"@[0] == 's');
    reveal_strlit("sp_contribute");
    assert("sp_contribute"@.len() == 13 && "sp_contribute"@[0] == 's');
    reveal_strlit("sp_launchpad");
    assert("sp_launchpad"@.len() == 12 && "sp_launchpad"@[0] == 's');
    reveal_strlit("sp_status");
    assert("sp_status"@.len() == 9 && "sp_status"@[0] == 's');
    reveal_strlit("sp_submit_ai_opportunity");
    assert("sp_submit_ai_opportunity"@.len() == 24);
    reveal_strlit("sp_submit_onboarding");
    assert("sp_submit_onboarding"@.len() == 20);
    reveal_strlit("sp_sync");
    assert("sp_sync"@.len() == 7 && "sp_sync"@[0] == 's');
}

/// A repository tool has one of these names, by what it does, and the general one
/// otherwise.
pub proof fn law_repository_tools_have_their_names(t: Seq<char>)
    ensures
        t == "github_list_repos"@ ==> github_name(t) == "Repo Lister"@,
        t == "github_list_prs"@ || t == "github_get_pr"@ ==> github_name(t) == "PR Auditor"@,
        t == "github_list_issues"@ ==> github_name(t) == "Issue Triage"@,
        t == "github_recent_commits"@ ==> github_name(t) == "Commit Historian"@,
        !seq![
            "github_list_repos"@,
            "github_list_prs"@,
            "github_get_pr"@,
            "github_list_issues"@,
            "github_recent_commits"@,
        ].contains(t) ==> github_name(t) == "Repo Sentry"@,
{
    reveal_strlit("github_list_repos");
    assert("github_list_repos"@.len() == 17);
    reveal_strlit("github_list_prs");
    assert("github_list_prs"@.len() == 15);
    reveal_strlit("github_get_pr");
    assert("github_get_pr"@.len() == 13);
    reveal_strlit("github_list_issues");
    assert("github_list_issues"@.len() == 18);
    reveal_strlit("github_recent_commits");
    assert("github_recent_commits"@.len() == 21);
    let l = seq![
        "github_list_repos"@,
        "github_list_prs"@,
        "github_get_pr"@,
        "github_list_issues"@,
        "github_recent_commits"@,
    ];
    assert(l[0] == "github_list_repos"@);
    assert(l[1] == "github_list_prs"@);
    assert(l[2] == "github_get_pr"@);
    assert(l[3] == "github_list_issues"@);
    assert(l[4] == "github_recent_commits"@);
}

/// A desktop tool has one of these names, by what it does, and the general one
/// otherwise.
pub proof fn law_desktop_tools_have_their_names(t: Seq<char>)
    ensures
        t == "windows_list_desktops"@ || t == "windows_switch_desktop"@ || t == "windows_new_desktop"@ || t == "windows_move_window_to_desktop"@ ==> windows_name(t) == "Desktop Coordinator"@,
        t == "windows_list_monitors"@ ==> windows_name(t) == "Display Mapper"@,
        t == "windows_snap_window"@ || t == "windows_focus_window"@ ==> windows_name(t) == "Window Conductor"@,
        t == "windows_type_text"@ || t == "windows_press_key"@ ==> windows_name(t) == "Input Operator"@,
        t == "windows_screenshot_foreground"@ ==> windows_name(t) == "Screen Capture"@,
        t == "windows_get_input_focus"@ ==> windows_name(t) == "Focus Sentinel"@,
        !seq![
            "windows_list_desktops"@,
            "windows_switch_desktop"@,
            "windows_new_desktop"@,
            "windows_move_window_to_desktop"@,
            "windows_list_monitors"@,
            "windows_snap_window"@,
            "windows_focus_window"@,
            "windows_type_text"@,
            "windows_press_key"@,
            "windows_screenshot_foreground"@,
            "windows_get_input_focus"@,
        ].contains(t) ==> windows_name(t) == "Desktop Agent"@,
{
    reveal_strlit("windows_list_desktops");
    assert("windows_list_desktops"@.len() == 21 && "windows_list_desktops"@[13] == 'd');
    reveal_strlit("windows_switch_desktop");
    assert("windows_switch_desktop"@.len() == 22);
    reveal_strlit("windows_new_desktop");
    assert("windows_new_desktop"@.len() == 19 && "windows_new_desktop"@[8] == 'n');
    reveal_strlit("windows_move_window_to_desktop");
    assert("windows_move_window_to_desktop"@.len() == 30);
    reveal_strlit("windows_list_monitors");
    assert("windows_list_monitors"@.len() == 21 && "windows_list_monitors"@[13] == 'm');
    reveal_strlit("windows_snap_window");
    assert("windows_snap_window"@.len() == 19 && "windows_snap_window"@[8] == 's');
    reveal_strlit("windows_focus_window");
    assert("windows_focus_window"@.len() == 20);
    reveal_strlit("windows_type_text");
    assert("windows_type_text"@.len() == 17 && "windows_type_text"@[8] == 't');
    reveal_strlit("windows_press_key");
    assert("windows_press_key"@.len() == 17 && "windows_press_key"@[8] == 'p');
    reveal_strlit("windows_screenshot_foreground");
    assert("windows_screenshot_foreground"@.len() == 29);
    reveal_strlit("windows_get_input_focus");
    assert("windows_get_input_focus"@.len() == 23);
    let l = seq![
        "windows_list_desktops"@,
        "windows_switch_desktop"@,
        "windows_new_desktop"@,
        "windows_move_window_to_desktop"@,
        "windows_list_monitors"@,
        "windows_snap_window"@,
        "windows_focus_window"@,
        "windows_type_text"@,
        "windows_press_key"@,
        "windows_screenshot_foreground"@,
        "windows_get_input_focus"@,
    ];
    assert(l[0] == "windows_list_desktops"@);
    assert(l[1] == "windows_switch_desktop"@);
    assert(l[2] == "windows_new_desktop"@);
    assert(l[3] == "windows_move_window_to_desktop"@);
    assert(l[4] == "windows_list_monitors"@);
    assert(l[5] == "windows_snap_window"@);
    assert(l[6] == "windows_focus_window"@);
    assert(l[7] == "windows_type_text"@);
    assert(l[8] == "windows_press_key"@);
    assert(l[9] == "windows_screenshot_foreground"@);
    assert(l[10] == "windows_get_input_focus"@);
}

/// A browser tool has one of these names, by what it does, and the general one
/// otherwise.
pub proof fn law_browser_verbs_have_their_names(t: Seq<char>)
    ensures
        t == "browser_navigate"@ || t == "browser_navigate_back"@ ==> playwright_name(t) == "Web Navigator"@,
        t == "browser_click"@ ==> playwright_name(t) == "Click Agent"@,
        t == "browser_type"@ || t == "browser_fill_form"@ || t == "browser_press_key"@ ==> playwright_name(t) == "Typist"@,
        t == "browser_snapshot"@ || t == "browser_take_screenshot"@ ==> playwright_name(t) == "Snapshotter"@,
        t == "browser_evaluate"@ || t == "browser_run_code_unsafe"@ ==> playwright_name(t) == "JS Executor"@,
        t == "browser_wait_for"@ ==> playwright_name(t) == "Page Watcher"@,
        t == "browser_close"@ || t == "browser_resize"@ || t == "browser_tabs"@ ==> playwright_name(t) == "Tab Wrangler"@,
        t == "browser_network_requests"@ || t == "browser_network_request"@ || t == "browser_console_messages"@ ==> playwright_name(t) == "Network Sniffer"@,
        !seq![
            "browser_navigate"@,
            "browser_navigate_back"@,
            "browser_click"@,
            "browser_type"@,
            "browser_fill_form"@,
            "browser_press_key"@,
            "browser_snapshot"@,
            "browser_take_screenshot"@,
            "browser_evaluate"@,
            "browser_run_code_unsafe"@,
            "browser_wait_for"@,
            "browser_close"@,
            "browser_resize"@,
            "browser_tabs"@,
            "browser_network_requests"@,
            "browser_network_request"@,
            "browser_console_messages"@,
        ].contains(t) ==> playwright_name(t) == "Browser Pilot"@,
{
    reveal_strlit("browser_navigate");
    assert("browser_navigate"@.len() == 16 && "browser_navigate"@[8] == 'n');
    reveal_strlit("browser_navigate_back");
    assert("browser_navigate_back"@.len() == 21);
    reveal_strlit("browser_click");
    assert("browser_click"@.len() == 13 && "browser_click"@[10] == 'i');
    reveal_strlit("browser_type");
    assert("browser_type"@.len() == 12 && "browser_type"@[9] == 'y');
    reveal_strlit("browser_fill_form");
    assert("browser_fill_form"@.len() == 17 && "browser_fill_form"@[8] == 'f');
    reveal_strlit("browser_press_key");
    assert("browser_press_key"@.len() == 17 && "browser_press_key"@[8] == 'p');
    reveal_strlit("browser_snapshot");
    assert("browser_snapshot"@.len() == 16 && "browser_snapshot"@[8] == 's');
    reveal_strlit("browser_take_screenshot");
    assert("browser_take_screenshot"@.len() == 23 && "browser_take_screenshot"@[8] == 't');
    reveal_strlit("browser_evaluate");
    assert("browser_evaluate"@.len() == 16 && "browser_evaluate"@[8] == 'e');
    reveal_strlit("browser_run_code_unsafe");
    assert("browser_run_code_unsafe"@.len() == 23 && "browser_run_code_unsafe"@[8] == 'r');
    reveal_strlit("browser_wait_for");
    assert("browser_wait_for"@.len() == 16 && "browser_wait_for"@[8] == 'w');
    reveal_strlit("browser_close");
    assert("browser_close"@.len() == 13 && "browser_close"@[10] == 'o');
    reveal_strlit("browser_resize");
    assert("browser_resize"@.len() == 14);
    reveal_strlit("browser_tabs");
    assert("browser_tabs"@.len() == 12 && "browser_tabs"@[9] == 'a');
    reveal_strlit("browser_network_requests");
    assert("browser_network_requests"@.len() == 24 && "browser_network_requests"@[8] == 'n');
    reveal_strlit("browser_network_request");
    assert("browser_network_request"@.len() == 23 && "browser_network_request"@[8] == 'n');
    reveal_strlit("browser_console_messages");
    assert("browser_console_messages"@.len() == 24 && "browser_console_messages"@[8] == 'c');
    let l = seq![
        "browser_navigate"@,
        "browser_navigate_back"@,
        "browser_click"@,
        "browser_type"@,
        "browser_fill_form"@,
        "browser_press_key"@,
        "browser_snapshot"@,
        "browser_take_screenshot"@,
        "browser_evaluate"@,
        "browser_run_code_unsafe"@,
        "browser_wait_for"@,
        "browser_close"@,
        "browser_resize"@,
        "browser_tabs"@,
        "browser_network_requests"@,
        "browser_network_request"@,
        "browser_console_messages"@,
    ];
    assert(l[0] == "browser_navigate"@);
    assert(l[1] == "browser_navigate_back"@);
    assert(l[2] == "browser_click"@);
    assert(l[3] == "browser_type"@);
    assert(l[4] == "browser_fill_form"@);
    assert(l[5] == "browser_press_key"@);
    assert(l[6] == "browser_snapshot"@);
    assert(l[7] == "browser_take_screenshot"@);
    assert(l[8] == "browser_evaluate"@);
    assert(l[9] == "browser_run_code_unsafe"@);
    assert(l[10] == "browser_wait_for"@);
    assert(l[11] == "browser_close"@);
    assert(l[12] == "browser_resize"@);
    assert(l[13] == "browser_tabs"@);
    assert(l[14] == "browser_network_requests"@);
    assert(l[15] == "browser_network_request"@);
    assert(l[16] == "browser_console_messages"@);
}

} // verus!
