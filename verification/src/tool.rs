//! The catalogue of tools: their install order, dependencies, names, and
//! the descriptions shown in the interface.
use vstd::prelude::*;
use crate::text::{contains_seq, occurs_at};

verus! {

/// A tool that the bootstrapper knows how to install.
#[derive(Debug, Clone, Copy, PartialEq, Eq, Hash, Structural)]
pub enum Tool {
    Fish,
    Rust,
    Starship,
    Fnm,
    Pnpm,
    Xh,
    Rg,
    Fd,
    Yay,
    Paru,
    Postgres,
    Docker,
    TablePlus,
    Zoxide,
    Gh,
    CargoWatch,
    SqlxCli,
}

/// Number of tools in the catalogue.
pub const TOOL_COUNT: usize = 17;

impl Tool {
    /// Position of the tool in the recommended install order.
    pub open spec fn spec_index(self) -> nat {
        match self {
            Tool::Fish => 0,
            Tool::Rust => 1,
            Tool::Starship => 2,
            Tool::Fnm => 3,
            Tool::Pnpm => 4,
            Tool::Xh => 5,
            Tool::Rg => 6,
            Tool::Fd => 7,
            Tool::Yay => 8,
            Tool::Paru => 9,
            Tool::Postgres => 10,
            Tool::Docker => 11,
            Tool::TablePlus => 12,
            Tool::Zoxide => 13,
            Tool::Gh => 14,
            Tool::CargoWatch => 15,
            Tool::SqlxCli => 16,
        }
    }

    /// The tool at a position of the recommended install order.
    pub open spec fn spec_at(i: int) -> Tool {
        if i == 0 { Tool::Fish }
        else if i == 1 { Tool::Rust }
        else if i == 2 { Tool::Starship }
        else if i == 3 { Tool::Fnm }
        else if i == 4 { Tool::Pnpm }
        else if i == 5 { Tool::Xh }
        else if i == 6 { Tool::Rg }
        else if i == 7 { Tool::Fd }
        else if i == 8 { Tool::Yay }
        else if i == 9 { Tool::Paru }
        else if i == 10 { Tool::Postgres }
        else if i == 11 { Tool::Docker }
        else if i == 12 { Tool::TablePlus }
        else if i == 13 { Tool::Zoxide }
        else if i == 14 { Tool::Gh }
        else if i == 15 { Tool::CargoWatch }
        else { Tool::SqlxCli }
    }

    pub fn index(self) -> (i: usize)
        ensures
            i == self.spec_index(),
            i < TOOL_COUNT,
    {
        match self {
            Tool::Fish => 0,
            Tool::Rust => 1,
            Tool::Starship => 2,
            Tool::Fnm => 3,
            Tool::Pnpm => 4,
            Tool::Xh => 5,
            Tool::Rg => 6,
            Tool::Fd => 7,
            Tool::Yay => 8,
            Tool::Paru => 9,
            Tool::Postgres => 10,
            Tool::Docker => 11,
            Tool::TablePlus => 12,
            Tool::Zoxide => 13,
            Tool::Gh => 14,
            Tool::CargoWatch => 15,
            Tool::SqlxCli => 16,
        }
    }

    /// The tool at position `i` of the recommended install order.
    pub fn from_index(i: usize) -> (t: Tool)
        requires
            i < TOOL_COUNT,
        ensures
            t == Tool::spec_at(i as int),
            t.spec_index() == i,
    {
        if i == 0 {
            Tool::Fish
        } else if i == 1 {
            Tool::Rust
        } else if i == 2 {
            Tool::Starship
        } else if i == 3 {
            Tool::Fnm
        } else if i == 4 {
            Tool::Pnpm
        } else if i == 5 {
            Tool::Xh
        } else if i == 6 {
            Tool::Rg
        } else if i == 7 {
            Tool::Fd
        } else if i == 8 {
            Tool::Yay
        } else if i == 9 {
            Tool::Paru
        } else if i == 10 {
            Tool::Postgres
        } else if i == 11 {
            Tool::Docker
        } else if i == 12 {
            Tool::TablePlus
        } else if i == 13 {
            Tool::Zoxide
        } else if i == 14 {
            Tool::Gh
        } else if i == 15 {
            Tool::CargoWatch
        } else {
            Tool::SqlxCli
        }
    }

    /// All tools in recommended install order.
    pub fn all() -> (v: Vec<Tool>)
        ensures
            v@ == all_tools(),
    {
        let mut v: Vec<Tool> = Vec::new();
        let mut i: usize = 0;
        while i < TOOL_COUNT
            invariant
                i <= TOOL_COUNT,
                v@ == all_tools().take(i as int),
            decreases TOOL_COUNT - i,
        {
            v.push(Tool::from_index(i));
            assert(all_tools().take(i + 1) == all_tools().take(i as int).push(all_tools()[i as int]));
            i += 1;
        }
        assert(all_tools().take(TOOL_COUNT as int) == all_tools());
        v
    }

    /// Tools that must be installed before this one.
    pub open spec fn spec_deps(self) -> Seq<Tool> {
        match self {
            Tool::Paru => seq![Tool::Rust],
            Tool::TablePlus => seq![Tool::Yay],
            Tool::CargoWatch => seq![Tool::Rust],
            Tool::SqlxCli => seq![Tool::Rust],
            _ => Seq::empty(),
        }
    }

    /// Tools that must be installed before this one.
    pub fn deps(self) -> (v: Vec<Tool>)
        ensures
            v@ == self.spec_deps(),
    {
        match self {
            Tool::Paru => vec![Tool::Rust],
            Tool::TablePlus => vec![Tool::Yay],
            Tool::CargoWatch => vec![Tool::Rust],
            Tool::SqlxCli => vec![Tool::Rust],
            _ => Vec::new(),
        }
    }

    /// The string the command line accepts for `install <arg>`: the
    /// kebab-case form of the variant name.
    pub open spec fn spec_arg_name(self) -> Seq<char> {
        match self {
            Tool::Fish => "fish"@,
            Tool::Rust => "rust"@,
            Tool::Starship => "starship"@,
            Tool::Fnm => "fnm"@,
            Tool::Pnpm => "pnpm"@,
            Tool::Xh => "xh"@,
            Tool::Rg => "rg"@,
            Tool::Fd => "fd"@,
            Tool::Yay => "yay"@,
            Tool::Paru => "paru"@,
            Tool::Postgres => "postgres"@,
            Tool::Docker => "docker"@,
            Tool::TablePlus => "table-plus"@,
            Tool::Zoxide => "zoxide"@,
            Tool::Gh => "gh"@,
            Tool::CargoWatch => "cargo-watch"@,
            Tool::SqlxCli => "sqlx-cli"@,
        }
    }

    /// The string the command line accepts for `install <arg>`.
    pub fn arg_name(self) -> (s: &'static str)
        ensures
            s@ == self.spec_arg_name(),
    {
        match self {
            Tool::Fish => "fish",
            Tool::Rust => "rust",
            Tool::Starship => "starship",
            Tool::Fnm => "fnm",
            Tool::Pnpm => "pnpm",
            Tool::Xh => "xh",
            Tool::Rg => "rg",
            Tool::Fd => "fd",
            Tool::Yay => "yay",
            Tool::Paru => "paru",
            Tool::Postgres => "postgres",
            Tool::Docker => "docker",
            Tool::TablePlus => "table-plus",
            Tool::Zoxide => "zoxide",
            Tool::Gh => "gh",
            Tool::CargoWatch => "cargo-watch",
            Tool::SqlxCli => "sqlx-cli",
        }
    }

    /// Installing this tool acquires the pacman lock (directly, through
    /// makepkg, or through an AUR helper); such tools must not run
    /// concurrently with each other.
    pub open spec fn spec_needs_pacman_lock(self) -> bool {
        match self {
            Tool::Fish | Tool::Rg | Tool::Fd | Tool::Postgres | Tool::Docker | Tool::Yay
            | Tool::Paru | Tool::TablePlus | Tool::Gh => true,
            _ => false,
        }
    }

    /// True if installing this tool acquires the pacman lock.
    pub fn needs_pacman_lock(self) -> (b: bool)
        ensures
            b == self.spec_needs_pacman_lock(),
    {
        match self {
            Tool::Fish | Tool::Rg | Tool::Fd | Tool::Postgres | Tool::Docker | Tool::Yay
            | Tool::Paru | Tool::TablePlus | Tool::Gh => true,
            _ => false,
        }
    }

    /// One-line description shown in listings.
    pub open spec fn spec_display_name(self) -> Seq<char> {
        match self {
            Tool::Fish => "fish        — shell"@,
            Tool::Rust => "rust        — toolchain via rustup"@,
            Tool::Starship => "starship    — cross-shell prompt"@,
            Tool::Fnm => "fnm         — Node version manager + Node LTS"@,
            Tool::Pnpm => "pnpm        — fast Node package manager"@,
            Tool::Xh => "xh          — friendly HTTP client (curl alternative)"@,
            Tool::Rg => "rg          — ripgrep, fast recursive search"@,
            Tool::Fd => "fd          — fast and friendly find alternative"@,
            Tool::Yay => "yay         — AUR helper (Go)"@,
            Tool::Paru => "paru        — AUR helper (Rust, needs rust first)"@,
            Tool::Postgres => "postgresql  — database server (latest)"@,
            Tool::Docker => "docker      — container runtime + compose"@,
            Tool::TablePlus => "tableplus   — database GUI (AUR, needs yay or paru)"@,
            Tool::Zoxide => "zoxide      — smarter cd"@,
            Tool::Gh => "gh          — GitHub CLI (browser device-flow login)"@,
            Tool::CargoWatch => "cargo-watch — watch & rerun cargo commands (needs rust)"@,
            Tool::SqlxCli => "sqlx-cli    — SQLx CLI for Postgres migrations (needs rust)"@,
        }
    }

    pub fn display_name(self) -> (s: &'static str)
        ensures
            s@ == self.spec_display_name(),
    {
        match self {
            Tool::Fish => "fish        — shell",
            Tool::Rust => "rust        — toolchain via rustup",
            Tool::Starship => "starship    — cross-shell prompt",
            Tool::Fnm => "fnm         — Node version manager + Node LTS",
            Tool::Pnpm => "pnpm        — fast Node package manager",
            Tool::Xh => "xh          — friendly HTTP client (curl alternative)",
            Tool::Rg => "rg          — ripgrep, fast recursive search",
            Tool::Fd => "fd          — fast and friendly find alternative",
            Tool::Yay => "yay         — AUR helper (Go)",
            Tool::Paru => "paru        — AUR helper (Rust, needs rust first)",
            Tool::Postgres => "postgresql  — database server (latest)",
            Tool::Docker => "docker      — container runtime + compose",
            Tool::TablePlus => "tableplus   — database GUI (AUR, needs yay or paru)",
            Tool::Zoxide => "zoxide      — smarter cd",
            Tool::Gh => "gh          — GitHub CLI (browser device-flow login)",
            Tool::CargoWatch => "cargo-watch — watch & rerun cargo commands (needs rust)",
            Tool::SqlxCli => "sqlx-cli    — SQLx CLI for Postgres migrations (needs rust)",
        }
    }

    /// The executable whose presence shows the tool is installed.
    pub open spec fn spec_bin_name(self) -> Seq<char> {
        match self {
            Tool::Fish => "fish"@,
            Tool::Rust => "cargo"@,
            Tool::Starship => "starship"@,
            Tool::Fnm => "fnm"@,
            Tool::Pnpm => "pnpm"@,
            Tool::Xh => "xh"@,
            Tool::Rg => "rg"@,
            Tool::Fd => "fd"@,
            Tool::Yay => "yay"@,
            Tool::Paru => "paru"@,
            Tool::Postgres => "psql"@,
            Tool::Docker => "docker"@,
            Tool::TablePlus => "tableplus"@,
            Tool::Zoxide => "zoxide"@,
            Tool::Gh => "gh"@,
            Tool::CargoWatch => "cargo-watch"@,
            Tool::SqlxCli => "sqlx"@,
        }
    }

    pub fn bin_name(self) -> (s: &'static str)
        ensures
            s@ == self.spec_bin_name(),
    {
        match self {
            Tool::Fish => "fish",
            Tool::Rust => "cargo",
            Tool::Starship => "starship",
            Tool::Fnm => "fnm",
            Tool::Pnpm => "pnpm",
            Tool::Xh => "xh",
            Tool::Rg => "rg",
            Tool::Fd => "fd",
            Tool::Yay => "yay",
            Tool::Paru => "paru",
            Tool::Postgres => "psql",
            Tool::Docker => "docker",
            Tool::TablePlus => "tableplus",
            Tool::Zoxide => "zoxide",
            Tool::Gh => "gh",
            Tool::CargoWatch => "cargo-watch",
            Tool::SqlxCli => "sqlx",
        }
    }

    /// Tools that show a post-install configuration prompt.
    pub open spec fn spec_has_post_install(self) -> bool {
        self == Tool::Postgres
    }

    /// Tools that show a post-install configuration prompt in the TUI.
    pub fn has_post_install(self) -> (b: bool)
        ensures
            b == self.spec_has_post_install(),
    {
        match self {
            Tool::Postgres => true,
            _ => false,
        }
    }
}

/// All tools in recommended install order.
pub open spec fn all_tools() -> Seq<Tool> {
    Seq::new(TOOL_COUNT as nat, |i: int| Tool::spec_at(i))
}

/// Law: positions and tools correspond one to one.
pub proof fn law_index_round_trip(t: Tool, i: int)
    ensures
        t.spec_index() < TOOL_COUNT,
        Tool::spec_at(t.spec_index() as int) == t,
        0 <= i < TOOL_COUNT ==> Tool::spec_at(i).spec_index() == i,
        all_tools()[t.spec_index() as int] == t,
{
}

/// Law: every dependency of a tool comes before it in the recommended
/// install order.
pub proof fn law_deps_precede(t: Tool, d: Tool)
    requires
        t.spec_deps().contains(d),
    ensures
        d.spec_index() < t.spec_index(),
{
}

/// The title, description and optional hint shown in the details panel.
pub open spec fn spec_tool_detail(t: Tool) -> (Seq<char>, Seq<char>, Option<Seq<char>>) {
    match t {
        Tool::Fish => (
            "fish — Friendly Interactive Shell"@,
            "Smart shell with syntax highlighting, autosuggestions, and sane defaults. Installed via pacman."@,
            None,
        ),
        Tool::Rust => (
            "rust — Systems Toolchain"@,
            "Installs rustup with the stable toolchain (cargo, rustc, rustfmt, clippy). Required to build paru."@,
            None,
        ),
        Tool::Starship => (
            "starship — Cross-Shell Prompt"@,
            "Minimal, fast prompt. Deploys your starship.toml config automatically."@,
            None,
        ),
        Tool::Fnm => (
            "fnm — Fast Node Manager"@,
            "Rust-based Node version manager. Installs the latest stable Node release automatically."@,
            None,
        ),
        Tool::Pnpm => (
            "pnpm — Efficient Package Manager"@,
            "Fast, disk-space efficient Node package manager. Uses a content-addressable store."@,
            None,
        ),
        Tool::Xh => (
            "xh — Friendly HTTP Client"@,
            "Modern curl alternative written in Rust. Cleaner syntax, automatic JSON formatting."@,
            None,
        ),
        Tool::Rg => (
            "rg — ripgrep"@,
            "Blazing-fast recursive search. Respects .gitignore, supports regex, written in Rust."@,
            None,
        ),
        Tool::Fd => (
            "fd — Fast Find Alternative"@,
            "Intuitive, fast alternative to find. Colorized output, respects .gitignore."@,
            None,
        ),
        Tool::Yay => (
            "yay — AUR Helper (Go)"@,
            "AUR helper written in Go. Required to install AUR packages like TablePlus."@,
            None,
        ),
        Tool::Paru => (
            "paru — AUR Helper (Rust)"@,
            "Feature-rich AUR helper written in Rust. Needs Rust/cargo installed first."@,
            Some("install rust first"@),
        ),
        Tool::Postgres => (
            "postgresql — Database Server"@,
            "Latest PostgreSQL via pacman. Initializes cluster, enables service, prompts for superuser password."@,
            None,
        ),
        Tool::Docker => (
            "docker — Container Runtime"@,
            "docker + docker-compose via pacman, enables the service, adds you to the docker group."@,
            None,
        ),
        Tool::TablePlus => (
            "tableplus — Database GUI"@,
            "Native GUI for Postgres, MySQL, SQLite and more. Installed from AUR."@,
            Some("needs yay or paru installed"@),
        ),
        Tool::Zoxide => (
            "zoxide — Smarter cd"@,
            "Learns your most-visited directories and lets you jump instantly. Drop-in cd replacement."@,
            None,
        ),
        Tool::Gh => (
            "gh — GitHub CLI"@,
            "Installs the GitHub CLI and signs you in via the OAuth device flow — shows a URL + code to open in your browser, then completes login automatically."@,
            Some("attach the panel (F2) to read the URL and the one-time code"@),
        ),
        Tool::CargoWatch => (
            "cargo-watch — Cargo Auto-Rerun"@,
            "Watches your Rust project and re-runs `cargo check`/`run`/`test` on file changes. Installed via `cargo install`."@,
            Some("requires rust/cargo installed first"@),
        ),
        Tool::SqlxCli => (
            "sqlx-cli — SQLx Command Line"@,
            "CLI for managing SQLx database migrations and schema. Built with rustls + Postgres features, no native TLS dependency."@,
            Some("requires rust/cargo installed first"@),
        ),
    }
}

/// Tool detail metadata for the details panel: title, description and an
/// optional hint.
pub fn tool_detail(tool: Tool) -> (r: (&'static str, &'static str, Option<&'static str>))
    ensures
        r.0@ == spec_tool_detail(tool).0,
        r.1@ == spec_tool_detail(tool).1,
        match r.2 {
            Some(h) => spec_tool_detail(tool).2 == Some(h@),
            None => spec_tool_detail(tool).2 is None,
        },
{
    match tool {
        Tool::Fish => (
            "fish — Friendly Interactive Shell",
            "Smart shell with syntax highlighting, autosuggestions, and sane defaults. Installed via pacman.",
            None,
        ),
        Tool::Rust => (
            "rust — Systems Toolchain",
            "Installs rustup with the stable toolchain (cargo, rustc, rustfmt, clippy). Required to build paru.",
            None,
        ),
        Tool::Starship => (
            "starship — Cross-Shell Prompt",
            "Minimal, fast prompt. Deploys your starship.toml config automatically.",
            None,
        ),
        Tool::Fnm => (
            "fnm — Fast Node Manager",
            "Rust-based Node version manager. Installs the latest stable Node release automatically.",
            None,
        ),
        Tool::Pnpm => (
            "pnpm — Efficient Package Manager",
            "Fast, disk-space efficient Node package manager. Uses a content-addressable store.",
            None,
        ),
        Tool::Xh => (
            "xh — Friendly HTTP Client",
            "Modern curl alternative written in Rust. Cleaner syntax, automatic JSON formatting.",
            None,
        ),
        Tool::Rg => (
            "rg — ripgrep",
            "Blazing-fast recursive search. Respects .gitignore, supports regex, written in Rust.",
            None,
        ),
        Tool::Fd => (
            "fd — Fast Find Alternative",
            "Intuitive, fast alternative to find. Colorized output, respects .gitignore.",
            None,
        ),
        Tool::Yay => (
            "yay — AUR Helper (Go)",
            "AUR helper written in Go. Required to install AUR packages like TablePlus.",
            None,
        ),
        Tool::Paru => (
            "paru — AUR Helper (Rust)",
            "Feature-rich AUR helper written in Rust. Needs Rust/cargo installed first.",
            Some("install rust first"),
        ),
        Tool::Postgres => (
            "postgresql — Database Server",
            "Latest PostgreSQL via pacman. Initializes cluster, enables service, prompts for superuser password.",
            None,
        ),
        Tool::Docker => (
            "docker — Container Runtime",
            "docker + docker-compose via pacman, enables the service, adds you to the docker group.",
            None,
        ),
        Tool::TablePlus => (
            "tableplus — Database GUI",
            "Native GUI for Postgres, MySQL, SQLite and more. Installed from AUR.",
            Some("needs yay or paru installed"),
        ),
        Tool::Zoxide => (
            "zoxide — Smarter cd",
            "Learns your most-visited directories and lets you jump instantly. Drop-in cd replacement.",
            None,
        ),
        Tool::Gh => (
            "gh — GitHub CLI",
            "Installs the GitHub CLI and signs you in via the OAuth device flow — shows a URL + code to open in your browser, then completes login automatically.",
            Some("attach the panel (F2) to read the URL and the one-time code"),
        ),
        Tool::CargoWatch => (
            "cargo-watch — Cargo Auto-Rerun",
            "Watches your Rust project and re-runs `cargo check`/`run`/`test` on file changes. Installed via `cargo install`.",
            Some("requires rust/cargo installed first"),
        ),
        Tool::SqlxCli => (
            "sqlx-cli — SQLx Command Line",
            "CLI for managing SQLx database migrations and schema. Built with rustls + Postgres features, no native TLS dependency.",
            Some("requires rust/cargo installed first"),
        ),
    }
}

/// Law: distinct tools have distinct command-line names, so the name given
/// to `install <arg>` selects exactly one tool.
pub proof fn law_arg_names_distinct(t: Tool, u: Tool)
    requires
        t != u,
    ensures
        t.spec_arg_name() != u.spec_arg_name(),
{
    if t.spec_arg_name() == u.spec_arg_name() {
        reveal_strlit("fish");
        reveal_strlit("rust");
        reveal_strlit("starship");
        reveal_strlit("fnm");
        reveal_strlit("pnpm");
        reveal_strlit("xh");
        reveal_strlit("rg");
        reveal_strlit("fd");
        reveal_strlit("yay");
        reveal_strlit("paru");
        reveal_strlit("postgres");
        reveal_strlit("docker");
        reveal_strlit("table-plus");
        reveal_strlit("zoxide");
        reveal_strlit("gh");
        reveal_strlit("cargo-watch");
        reveal_strlit("sqlx-cli");
        assert(t.spec_arg_name().len() == u.spec_arg_name().len());
        assert(t.spec_arg_name()[0] == u.spec_arg_name()[0]);
        assert(t.spec_arg_name()[1] == u.spec_arg_name()[1]);
        assert(t.spec_arg_name().last() == u.spec_arg_name().last());
    }
}

/// The name of the tool's variant, as written in the source.
pub open spec fn variant_name(t: Tool) -> Seq<char> {
    match t {
        Tool::Fish => "Fish"@,
        Tool::Rust => "Rust"@,
        Tool::Starship => "Starship"@,
        Tool::Fnm => "Fnm"@,
        Tool::Pnpm => "Pnpm"@,
        Tool::Xh => "Xh"@,
        Tool::Rg => "Rg"@,
        Tool::Fd => "Fd"@,
        Tool::Yay => "Yay"@,
        Tool::Paru => "Paru"@,
        Tool::Postgres => "Postgres"@,
        Tool::Docker => "Docker"@,
        Tool::TablePlus => "TablePlus"@,
        Tool::Zoxide => "Zoxide"@,
        Tool::Gh => "Gh"@,
        Tool::CargoWatch => "CargoWatch"@,
        Tool::SqlxCli => "SqlxCli"@,
    }
}

/// The kebab-case form of a PascalCase name: each capital is lower-cased,
/// and preceded by `-` unless it starts the name.
pub open spec fn kebab_case(s: Seq<char>) -> Seq<char>
    decreases s.len(),
{
    if s.len() == 0 {
        Seq::empty()
    } else {
        let c = s.last();
        let rest = kebab_case(s.drop_last());
        if 'A' <= c && c <= 'Z' {
            let lower = ((c as u32) + 32) as char;
            if s.len() > 1 {
                rest.push('-').push(lower)
            } else {
                rest.push(lower)
            }
        } else {
            rest.push(c)
        }
    }
}

/// Law: the command-line name of every tool is the kebab-case form of its
/// variant name, the form the command-line parser derives from the variant.
#[verifier::spinoff_prover]
#[verifier::rlimit(60)]
pub proof fn law_arg_name_is_kebab_case(t: Tool)
    ensures
        t.spec_arg_name() == kebab_case(variant_name(t)),
{
    reveal_with_fuel(kebab_case, 11);
    match t {
        Tool::Fish => {
            reveal_strlit("Fish");
            reveal_strlit("fish");
            assert(kebab_case("Fish"@) =~= "fish"@);
        },
        Tool::Rust => {
            reveal_strlit("Rust");
            reveal_strlit("rust");
            assert(kebab_case("Rust"@) =~= "rust"@);
        },
        Tool::Starship => {
            reveal_strlit("Starship");
            reveal_strlit("starship");
            assert(kebab_case("Starship"@) =~= "starship"@);
        },
        Tool::Fnm => {
            reveal_strlit("Fnm");
            reveal_strlit("fnm");
            assert(kebab_case("Fnm"@) =~= "fnm"@);
        },
        Tool::Pnpm => {
            reveal_strlit("Pnpm");
            reveal_strlit("pnpm");
            assert(kebab_case("Pnpm"@) =~= "pnpm"@);
        },
        Tool::Xh => {
            reveal_strlit("Xh");
            reveal_strlit("xh");
            assert(kebab_case("Xh"@) =~= "xh"@);
        },
        Tool::Rg => {
            reveal_strlit("Rg");
            reveal_strlit("rg");
            assert(kebab_case("Rg"@) =~= "rg"@);
        },
        Tool::Fd => {
            reveal_strlit("Fd");
            reveal_strlit("fd");
            assert(kebab_case("Fd"@) =~= "fd"@);
        },
        Tool::Yay => {
            reveal_strlit("Yay");
            reveal_strlit("yay");
            assert(kebab_case("Yay"@) =~= "yay"@);
        },
        Tool::Paru => {
            reveal_strlit("Paru");
            reveal_strlit("paru");
            assert(kebab_case("Paru"@) =~= "paru"@);
        },
        Tool::Postgres => {
            reveal_strlit("Postgres");
            reveal_strlit("postgres");
            assert(kebab_case("Postgres"@) =~= "postgres"@);
        },
        Tool::Docker => {
            reveal_strlit("Docker");
            reveal_strlit("docker");
            assert(kebab_case("Docker"@) =~= "docker"@);
        },
        Tool::TablePlus => {
            reveal_strlit("TablePlus");
            reveal_strlit("table-plus");
            assert(kebab_case("TablePlus"@) =~= "table-plus"@);
        },
        Tool::Zoxide => {
            reveal_strlit("Zoxide");
            reveal_strlit("zoxide");
            assert(kebab_case("Zoxide"@) =~= "zoxide"@);
        },
        Tool::Gh => {
            reveal_strlit("Gh");
            reveal_strlit("gh");
            assert(kebab_case("Gh"@) =~= "gh"@);
        },
        Tool::CargoWatch => {
            reveal_strlit("CargoWatch");
            reveal_strlit("cargo-watch");
            assert(kebab_case("CargoWatch"@) =~= "cargo-watch"@);
        },
        Tool::SqlxCli => {
            reveal_strlit("SqlxCli");
            reveal_strlit("sqlx-cli");
            assert(kebab_case("SqlxCli"@) =~= "sqlx-cli"@);
        },
    }
}

/// The display name starts with the tool's name, padded with spaces to a
/// column of twelve characters, followed by `— `.
pub open spec fn name_column(d: Seq<char>, n: int) -> bool {
    &&& 0 < n < 12
    &&& d.len() > 13
    &&& forall|k: int| 0 <= k < n ==> #[trigger] d[k] != ' '
    &&& forall|k: int| n <= k < 12 ==> #[trigger] d[k] == ' '
    &&& d[12] == '—'
    &&& d[13] == ' '
}

/// The title starts with the first `n` characters of the display name,
/// followed by ` — `.
pub open spec fn titled_like(title: Seq<char>, d: Seq<char>, n: int) -> bool {
    &&& 0 <= n
    &&& n + 3 <= title.len()
    &&& n <= d.len()
    &&& title.take(n) == d.take(n)
    &&& title.subrange(n, n + 3) == " — "@
}

/// Law: every display name puts the tool's name in one shared column
/// before `— `; the details title starts with that same name followed by
/// ` — `; a display name says "needs" exactly when the tool has a
/// dependency; the details carry a hint exactly for the tools with a
/// dependency and for the GitHub CLI; and every description is non-empty.
pub proof fn law_catalogue_texts(t: Tool)
    ensures
        exists|n: int|
            #[trigger] name_column(t.spec_display_name(), n) && titled_like(
                spec_tool_detail(t).0,
                t.spec_display_name(),
                n,
            ),
        contains_seq(t.spec_display_name(), "needs"@) <==> t.spec_deps().len() > 0,
        spec_tool_detail(t).2 is Some <==> (t.spec_deps().len() > 0 || t == Tool::Gh),
        spec_tool_detail(t).1.len() > 0,
{
    reveal_strlit("needs");
    reveal_strlit(" — ");
    match t {
        Tool::Fish => {
            reveal_strlit("fish        — shell");
            reveal_strlit("fish — Friendly Interactive Shell");
            reveal_strlit("Smart shell with syntax highlighting, autosuggestions, and sane defaults. Installed via pacman.");
            let d = "fish        — shell"@;
            let ti = "fish — Friendly Interactive Shell"@;
            assert(ti.take(4) =~= d.take(4));
            assert(ti.subrange(4, 7) =~= " — "@);
            assert(name_column(d, 4) && titled_like(ti, d, 4));
            assert(d == t.spec_display_name() && ti == spec_tool_detail(t).0);
            assert(name_column(t.spec_display_name(), 4) && titled_like(spec_tool_detail(t).0, t.spec_display_name(), 4));
            assert forall|i: int| !occurs_at(d, "needs"@, i) by {
                if occurs_at(d, "needs"@, i) {
                    assert(d.subrange(i, i + 5)[0] == 'n');
                    assert(d.subrange(i, i + 5)[1] == 'e');
                    assert(d.subrange(i, i + 5)[2] == 'e');
                }
            }
        },
        Tool::Rust => {
            reveal_strlit("rust        — toolchain via rustup");
            reveal_strlit("rust — Systems Toolchain");
            reveal_strlit("Installs rustup with the stable toolchain (cargo, rustc, rustfmt, clippy). Required to build paru.");
            let d = "rust        — toolchain via rustup"@;
            let ti = "rust — Systems Toolchain"@;
            assert(ti.take(4) =~= d.take(4));
            assert(ti.subrange(4, 7) =~= " — "@);
            assert(name_column(d, 4) && titled_like(ti, d, 4));
            assert(d == t.spec_display_name() && ti == spec_tool_detail(t).0);
            assert(name_column(t.spec_display_name(), 4) && titled_like(spec_tool_detail(t).0, t.spec_display_name(), 4));
            assert forall|i: int| !occurs_at(d, "needs"@, i) by {
                if occurs_at(d, "needs"@, i) {
                    assert(d.subrange(i, i + 5)[0] == 'n');
                    assert(d.subrange(i, i + 5)[1] == 'e');
                    assert(d.subrange(i, i + 5)[2] == 'e');
                }
            }
        },
        Tool::Starship => {
            reveal_strlit("starship    — cross-shell prompt");
            reveal_strlit("starship — Cross-Shell Prompt");
            reveal_strlit("Minimal, fast prompt. Deploys your starship.toml config automatically.");
            let d = "starship    — cross-shell prompt"@;
            let ti = "starship — Cross-Shell Prompt"@;
            assert(ti.take(8) =~= d.take(8));
            assert(ti.subrange(8, 11) =~= " — "@);
            assert(name_column(d, 8) && titled_like(ti, d, 8));
            assert(d == t.spec_display_name() && ti == spec_tool_detail(t).0);
            assert(name_column(t.spec_display_name(), 8) && titled_like(spec_tool_detail(t).0, t.spec_display_name(), 8));
            assert forall|i: int| !occurs_at(d, "needs"@, i) by {
                if occurs_at(d, "needs"@, i) {
                    assert(d.subrange(i, i + 5)[0] == 'n');
                    assert(d.subrange(i, i + 5)[1] == 'e');
                    assert(d.subrange(i, i + 5)[2] == 'e');
                }
            }
        },
        Tool::Fnm => {
            reveal_strlit("fnm         — Node version manager + Node LTS");
            reveal_strlit("fnm — Fast Node Manager");
            reveal_strlit("Rust-based Node version manager. Installs the latest stable Node release automatically.");
            let d = "fnm         — Node version manager + Node LTS"@;
            let ti = "fnm — Fast Node Manager"@;
            assert(ti.take(3) =~= d.take(3));
            assert(ti.subrange(3, 6) =~= " — "@);
            assert(name_column(d, 3) && titled_like(ti, d, 3));
            assert(d == t.spec_display_name() && ti == spec_tool_detail(t).0);
            assert(name_column(t.spec_display_name(), 3) && titled_like(spec_tool_detail(t).0, t.spec_display_name(), 3));
            assert forall|i: int| !occurs_at(d, "needs"@, i) by {
                if occurs_at(d, "needs"@, i) {
                    assert(d.subrange(i, i + 5)[0] == 'n');
                    assert(d.subrange(i, i + 5)[1] == 'e');
                    assert(d.subrange(i, i + 5)[2] == 'e');
                }
            }
        },
        Tool::Pnpm => {
            reveal_strlit("pnpm        — fast Node package manager");
            reveal_strlit("pnpm — Efficient Package Manager");
            reveal_strlit("Fast, disk-space efficient Node package manager. Uses a content-addressable store.");
            let d = "pnpm        — fast Node package manager"@;
            let ti = "pnpm — Efficient Package Manager"@;
            assert(ti.take(4) =~= d.take(4));
            assert(ti.subrange(4, 7) =~= " — "@);
            assert(name_column(d, 4) && titled_like(ti, d, 4));
            assert(d == t.spec_display_name() && ti == spec_tool_detail(t).0);
            assert(name_column(t.spec_display_name(), 4) && titled_like(spec_tool_detail(t).0, t.spec_display_name(), 4));
            assert forall|i: int| !occurs_at(d, "needs"@, i) by {
                if occurs_at(d, "needs"@, i) {
                    assert(d.subrange(i, i + 5)[0] == 'n');
                    assert(d.subrange(i, i + 5)[1] == 'e');
                    assert(d.subrange(i, i + 5)[2] == 'e');
                }
            }
        },
        Tool::Xh => {
            reveal_strlit("xh          — friendly HTTP client (curl alternative)");
            reveal_strlit("xh — Friendly HTTP Client");
            reveal_strlit("Modern curl alternative written in Rust. Cleaner syntax, automatic JSON formatting.");
            let d = "xh          — friendly HTTP client (curl alternative)"@;
            let ti = "xh — Friendly HTTP Client"@;
            assert(ti.take(2) =~= d.take(2));
            assert(ti.subrange(2, 5) =~= " — "@);
            assert(name_column(d, 2) && titled_like(ti, d, 2));
            assert(d == t.spec_display_name() && ti == spec_tool_detail(t).0);
            assert(name_column(t.spec_display_name(), 2) && titled_like(spec_tool_detail(t).0, t.spec_display_name(), 2));
            assert forall|i: int| !occurs_at(d, "needs"@, i) by {
                if occurs_at(d, "needs"@, i) {
                    assert(d.subrange(i, i + 5)[0] == 'n');
                    assert(d.subrange(i, i + 5)[1] == 'e');
                    assert(d.subrange(i, i + 5)[2] == 'e');
                }
            }
        },
        Tool::Rg => {
            reveal_strlit("rg          — ripgrep, fast recursive search");
            reveal_strlit("rg — ripgrep");
            reveal_strlit("Blazing-fast recursive search. Respects .gitignore, supports regex, written in Rust.");
            let d = "rg          — ripgrep, fast recursive search"@;
            let ti = "rg — ripgrep"@;
            assert(ti.take(2) =~= d.take(2));
            assert(ti.subrange(2, 5) =~= " — "@);
            assert(name_column(d, 2) && titled_like(ti, d, 2));
            assert(d == t.spec_display_name() && ti == spec_tool_detail(t).0);
            assert(name_column(t.spec_display_name(), 2) && titled_like(spec_tool_detail(t).0, t.spec_display_name(), 2));
            assert forall|i: int| !occurs_at(d, "needs"@, i) by {
                if occurs_at(d, "needs"@, i) {
                    assert(d.subrange(i, i + 5)[0] == 'n');
                    assert(d.subrange(i, i + 5)[1] == 'e');
                    assert(d.subrange(i, i + 5)[2] == 'e');
                }
            }
        },
        Tool::Fd => {
            reveal_strlit("fd          — fast and friendly find alternative");
            reveal_strlit("fd — Fast Find Alternative");
            reveal_strlit("Intuitive, fast alternative to find. Colorized output, respects .gitignore.");
            let d = "fd          — fast and friendly find alternative"@;
            let ti = "fd — Fast Find Alternative"@;
            assert(ti.take(2) =~= d.take(2));
            assert(ti.subrange(2, 5) =~= " — "@);
            assert(name_column(d, 2) && titled_like(ti, d, 2));
            assert(d == t.spec_display_name() && ti == spec_tool_detail(t).0);
            assert(name_column(t.spec_display_name(), 2) && titled_like(spec_tool_detail(t).0, t.spec_display_name(), 2));
            assert forall|i: int| !occurs_at(d, "needs"@, i) by {
                if occurs_at(d, "needs"@, i) {
                    assert(d.subrange(i, i + 5)[0] == 'n');
                    assert(d.subrange(i, i + 5)[1] == 'e');
                    assert(d.subrange(i, i + 5)[2] == 'e');
                }
            }
        },
        Tool::Yay => {
            reveal_strlit("yay         — AUR helper (Go)");
            reveal_strlit("yay — AUR Helper (Go)");
            reveal_strlit("AUR helper written in Go. Required to install AUR packages like TablePlus.");
            let d = "yay         — AUR helper (Go)"@;
            let ti = "yay — AUR Helper (Go)"@;
            assert(ti.take(3) =~= d.take(3));
            assert(ti.subrange(3, 6) =~= " — "@);
            assert(name_column(d, 3) && titled_like(ti, d, 3));
            assert(d == t.spec_display_name() && ti == spec_tool_detail(t).0);
            assert(name_column(t.spec_display_name(), 3) && titled_like(spec_tool_detail(t).0, t.spec_display_name(), 3));
            assert forall|i: int| !occurs_at(d, "needs"@, i) by {
                if occurs_at(d, "needs"@, i) {
                    assert(d.subrange(i, i + 5)[0] == 'n');
                    assert(d.subrange(i, i + 5)[1] == 'e');
                    assert(d.subrange(i, i + 5)[2] == 'e');
                }
            }
        },
        Tool::Paru => {
            reveal_strlit("paru        — AUR helper (Rust, needs rust first)");
            reveal_strlit("paru — AUR Helper (Rust)");
            reveal_strlit("Feature-rich AUR helper written in Rust. Needs Rust/cargo installed first.");
            let d = "paru        — AUR helper (Rust, needs rust first)"@;
            let ti = "paru — AUR Helper (Rust)"@;
            assert(ti.take(4) =~= d.take(4));
            assert(ti.subrange(4, 7) =~= " — "@);
            assert(name_column(d, 4) && titled_like(ti, d, 4));
            assert(d == t.spec_display_name() && ti == spec_tool_detail(t).0);
            assert(name_column(t.spec_display_name(), 4) && titled_like(spec_tool_detail(t).0, t.spec_display_name(), 4));
            assert(d.subrange(32, 37) =~= "needs"@);
            assert(occurs_at(d, "needs"@, 32));
        },
        Tool::Postgres => {
            reveal_strlit("postgresql  — database server (latest)");
            reveal_strlit("postgresql — Database Server");
            reveal_strlit("Latest PostgreSQL via pacman. Initializes cluster, enables service, prompts for superuser password.");
            let d = "postgresql  — database server (latest)"@;
            let ti = "postgresql — Database Server"@;
            assert(ti.take(10) =~= d.take(10));
            assert(ti.subrange(10, 13) =~= " — "@);
            assert(name_column(d, 10) && titled_like(ti, d, 10));
            assert(d == t.spec_display_name() && ti == spec_tool_detail(t).0);
            assert(name_column(t.spec_display_name(), 10) && titled_like(spec_tool_detail(t).0, t.spec_display_name(), 10));
            assert forall|i: int| !occurs_at(d, "needs"@, i) by {
                if occurs_at(d, "needs"@, i) {
                    assert(d.subrange(i, i + 5)[0] == 'n');
                    assert(d.subrange(i, i + 5)[1] == 'e');
                    assert(d.subrange(i, i + 5)[2] == 'e');
                }
            }
        },
        Tool::Docker => {
            reveal_strlit("docker      — container runtime + compose");
            reveal_strlit("docker — Container Runtime");
            reveal_strlit("docker + docker-compose via pacman, enables the service, adds you to the docker group.");
            let d = "docker      — container runtime + compose"@;
            let ti = "docker — Container Runtime"@;
            assert(ti.take(6) =~= d.take(6));
            assert(ti.subrange(6, 9) =~= " — "@);
            assert(name_column(d, 6) && titled_like(ti, d, 6));
            assert(d == t.spec_display_name() && ti == spec_tool_detail(t).0);
            assert(name_column(t.spec_display_name(), 6) && titled_like(spec_tool_detail(t).0, t.spec_display_name(), 6));
            assert forall|i: int| !occurs_at(d, "needs"@, i) by {
                if occurs_at(d, "needs"@, i) {
                    assert(d.subrange(i, i + 5)[0] == 'n');
                    assert(d.subrange(i, i + 5)[1] == 'e');
                    assert(d.subrange(i, i + 5)[2] == 'e');
                }
            }
        },
        Tool::TablePlus => {
            reveal_strlit("tableplus   — database GUI (AUR, needs yay or paru)");
            reveal_strlit("tableplus — Database GUI");
            reveal_strlit("Native GUI for Postgres, MySQL, SQLite and more. Installed from AUR.");
            let d = "tableplus   — database GUI (AUR, needs yay or paru)"@;
            let ti = "tableplus — Database GUI"@;
            assert(ti.take(9) =~= d.take(9));
            assert(ti.subrange(9, 12) =~= " — "@);
            assert(name_column(d, 9) && titled_like(ti, d, 9));
            assert(d == t.spec_display_name() && ti == spec_tool_detail(t).0);
            assert(name_column(t.spec_display_name(), 9) && titled_like(spec_tool_detail(t).0, t.spec_display_name(), 9));
            assert(d.subrange(33, 38) =~= "needs"@);
            assert(occurs_at(d, "needs"@, 33));
        },
        Tool::Zoxide => {
            reveal_strlit("zoxide      — smarter cd");
            reveal_strlit("zoxide — Smarter cd");
            reveal_strlit("Learns your most-visited directories and lets you jump instantly. Drop-in cd replacement.");
            let d = "zoxide      — smarter cd"@;
            let ti = "zoxide — Smarter cd"@;
            assert(ti.take(6) =~= d.take(6));
            assert(ti.subrange(6, 9) =~= " — "@);
            assert(name_column(d, 6) && titled_like(ti, d, 6));
            assert(d == t.spec_display_name() && ti == spec_tool_detail(t).0);
            assert(name_column(t.spec_display_name(), 6) && titled_like(spec_tool_detail(t).0, t.spec_display_name(), 6));
            assert forall|i: int| !occurs_at(d, "needs"@, i) by {
                if occurs_at(d, "needs"@, i) {
                    assert(d.subrange(i, i + 5)[0] == 'n');
                    assert(d.subrange(i, i + 5)[1] == 'e');
                    assert(d.subrange(i, i + 5)[2] == 'e');
                }
            }
        },
        Tool::Gh => {
            reveal_strlit("gh          — GitHub CLI (browser device-flow login)");
            reveal_strlit("gh — GitHub CLI");
            reveal_strlit("Installs the GitHub CLI and signs you in via the OAuth device flow — shows a URL + code to open in your browser, then completes login automatically.");
            let d = "gh          — GitHub CLI (browser device-flow login)"@;
            let ti = "gh — GitHub CLI"@;
            assert(ti.take(2) =~= d.take(2));
            assert(ti.subrange(2, 5) =~= " — "@);
            assert(name_column(d, 2) && titled_like(ti, d, 2));
            assert(d == t.spec_display_name() && ti == spec_tool_detail(t).0);
            assert(name_column(t.spec_display_name(), 2) && titled_like(spec_tool_detail(t).0, t.spec_display_name(), 2));
            assert forall|i: int| !occurs_at(d, "needs"@, i) by {
                if occurs_at(d, "needs"@, i) {
                    assert(d.subrange(i, i + 5)[0] == 'n');
                    assert(d.subrange(i, i + 5)[1] == 'e');
                    assert(d.subrange(i, i + 5)[2] == 'e');
                }
            }
        },
        Tool::CargoWatch => {
            reveal_strlit("cargo-watch — watch & rerun cargo commands (needs rust)");
            reveal_strlit("cargo-watch — Cargo Auto-Rerun");
            reveal_strlit("Watches your Rust project and re-runs `cargo check`/`run`/`test` on file changes. Installed via `cargo install`.");
            let d = "cargo-watch — watch & rerun cargo commands (needs rust)"@;
            let ti = "cargo-watch — Cargo Auto-Rerun"@;
            assert(ti.take(11) =~= d.take(11));
            assert(ti.subrange(11, 14) =~= " — "@);
            assert(name_column(d, 11) && titled_like(ti, d, 11));
            assert(d == t.spec_display_name() && ti == spec_tool_detail(t).0);
            assert(name_column(t.spec_display_name(), 11) && titled_like(spec_tool_detail(t).0, t.spec_display_name(), 11));
            assert(d.subrange(44, 49) =~= "needs"@);
            assert(occurs_at(d, "needs"@, 44));
        },
        Tool::SqlxCli => {
            reveal_strlit("sqlx-cli    — SQLx CLI for Postgres migrations (needs rust)");
            reveal_strlit("sqlx-cli — SQLx Command Line");
            reveal_strlit("CLI for managing SQLx database migrations and schema. Built with rustls + Postgres features, no native TLS dependency.");
            let d = "sqlx-cli    — SQLx CLI for Postgres migrations (needs rust)"@;
            let ti = "sqlx-cli — SQLx Command Line"@;
            assert(ti.take(8) =~= d.take(8));
            assert(ti.subrange(8, 11) =~= " — "@);
            assert(name_column(d, 8) && titled_like(ti, d, 8));
            assert(d == t.spec_display_name() && ti == spec_tool_detail(t).0);
            assert(name_column(t.spec_display_name(), 8) && titled_like(spec_tool_detail(t).0, t.spec_display_name(), 8));
            assert(d.subrange(48, 53) =~= "needs"@);
            assert(occurs_at(d, "needs"@, 48));
        },
    }
}


/// The name a tool's executable has where it differs from its command-line
/// name.
pub open spec fn bin_exception(t: Tool) -> Option<Seq<char>> {
    match t {
        Tool::Rust => Some("cargo"@),
        Tool::Postgres => Some("psql"@),
        Tool::TablePlus => Some("tableplus"@),
        Tool::SqlxCli => Some("sqlx"@),
        _ => None,
    }
}

/// Lower-case ASCII letters and `-` only.
pub open spec fn plain_word(s: Seq<char>) -> bool {
    forall|k: int| 0 <= k < s.len() ==> ('a' <= #[trigger] s[k] && s[k] <= 'z') || s[k] == '-'
}

/// Law: a tool's executable has its command-line name, except for rust
/// (`cargo`), postgres (`psql`), table-plus (`tableplus`) and sqlx-cli
/// (`sqlx`); executable names are plain ASCII words of at most eleven
/// characters (so eleven bytes), and distinct tools have distinct ones.
pub proof fn law_bin_names(t: Tool, u: Tool)
    ensures
        t.spec_bin_name() == match bin_exception(t) {
            Some(b) => b,
            None => t.spec_arg_name(),
        },
        plain_word(t.spec_bin_name()),
        t.spec_bin_name().len() <= 11,
        t != u ==> t.spec_bin_name() != u.spec_bin_name(),
{
    reveal_strlit("cargo");
    reveal_strlit("cargo-watch");
    reveal_strlit("docker");
    reveal_strlit("fd");
    reveal_strlit("fish");
    reveal_strlit("fnm");
    reveal_strlit("gh");
    reveal_strlit("paru");
    reveal_strlit("pnpm");
    reveal_strlit("psql");
    reveal_strlit("rg");
    reveal_strlit("sqlx");
    reveal_strlit("starship");
    reveal_strlit("tableplus");
    reveal_strlit("xh");
    reveal_strlit("yay");
    reveal_strlit("zoxide");
    if t != u && t.spec_bin_name() == u.spec_bin_name() {
        assert(t.spec_bin_name().len() == u.spec_bin_name().len());
        assert(t.spec_bin_name()[0] == u.spec_bin_name()[0]);
        assert(t.spec_bin_name()[1] == u.spec_bin_name()[1]);
        assert(t.spec_bin_name().last() == u.spec_bin_name().last());
    }
}

} // verus!
