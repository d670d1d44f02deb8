//! What installing each tool consists of: the steps to carry out, in order,
//! decided from what is known of the machine before the first one runs.
use vstd::prelude::*;
use crate::detect::Distro;
use crate::text::{concat, opt_view, views};
use crate::tool::Tool;

verus! {

broadcast use vstd::string::group_string_axioms;

/// One step of an installation. The front end carries the steps out in
/// order and stops at the first one that fails, except for `TryRun`.
pub enum Step {
    /// Print a line.
    Say(String),
    /// Run a program with its arguments.
    Run(String, Vec<String>),
    /// Run a script with `sh -c`.
    Shell(String),
    /// Write `~/.config/fish/conf.d/<name>.fish` with the given content.
    FishSnippet(String, String),
    /// Run a program; where it fails, print the prefix followed by the error and go on.
    TryRun(String, Vec<String>, String),
    /// Log in to GitHub through the OAuth device flow.
    DeviceLogin,
}

/// A step as plain text.
pub enum StepView {
    Say(Seq<char>),
    Run(Seq<char>, Seq<Seq<char>>),
    Shell(Seq<char>),
    FishSnippet(Seq<char>, Seq<char>),
    TryRun(Seq<char>, Seq<Seq<char>>, Seq<char>),
    DeviceLogin,
}

impl View for Step {
    type V = StepView;

    open spec fn view(&self) -> StepView {
        match self {
            Step::Say(s) => StepView::Say(s@),
            Step::Run(p, a) => StepView::Run(p@, views(a@)),
            Step::Shell(s) => StepView::Shell(s@),
            Step::FishSnippet(n, c) => StepView::FishSnippet(n@, c@),
            Step::TryRun(p, a, m) => StepView::TryRun(p@, views(a@), m@),
            Step::DeviceLogin => StepView::DeviceLogin,
        }
    }
}

/// The views of a list of steps.
pub open spec fn steps_view(s: Seq<Step>) -> Seq<StepView> {
    s.map_values(|x: Step| x@)
}

/// A plan, or the reason there is none, as plain text.
pub open spec fn plan_view(r: Result<Vec<Step>, String>) -> Result<Seq<StepView>, Seq<char>> {
    match r {
        Ok(v) => Ok(steps_view(v@)),
        Err(e) => Err(e@),
    }
}

/// The texts of a list of string literals.
pub open spec fn strs(s: Seq<&str>) -> Seq<Seq<char>> {
    s.map_values(|x: &str| x@)
}

fn say(s: &str) -> (r: Step)
    ensures
        r@ == StepView::Say(s@),
{
    Step::Say(s.to_string())
}

fn shell(s: &str) -> (r: Step)
    ensures
        r@ == StepView::Shell(s@),
{
    Step::Shell(s.to_string())
}

fn fish_snippet(name: &str, content: &str) -> (r: Step)
    ensures
        r@ == StepView::FishSnippet(name@, content@),
{
    Step::FishSnippet(name.to_string(), content.to_string())
}

/// Owned copies of a list of string slices.
fn to_strings(args: &Vec<&str>) -> (v: Vec<String>)
    ensures
        views(v@) == strs(args@),
{
    let mut v: Vec<String> = Vec::new();
    let mut i: usize = 0;
    while i < args.len()
        invariant
            i <= args.len(),
            views(v@) == strs(args@.take(i as int)),
        decreases args.len() - i,
    {
        let ghost prev = v@;
        let s = args[i].to_owned();
        v.push(s);
        proof {
            assert(v@ == prev.push(s));
            assert(views(prev).len() == prev.len());
            assert(views(v@).len() == v@.len());
            assert(strs(args@.take(i + 1)).len() == i + 1);
            assert forall|k: int| 0 <= k < i + 1 implies #[trigger] views(v@)[k] == strs(
                args@.take(i + 1),
            )[k] by {
                if k < i {
                    assert(views(prev)[k] == strs(args@.take(i as int))[k]);
                }
            }
            assert(views(v@) =~= strs(args@.take(i + 1)));
        }
        i += 1;
    }
    assert(args@.take(args.len() as int) =~= args@);
    v
}

fn run(program: &str, args: Vec<&str>) -> (r: Step)
    ensures
        r@ == StepView::Run(program@, strs(args@)),
{
    Step::Run(program.to_string(), to_strings(&args))
}

/// The steps that install `cargo_watch`.
pub open spec fn spec_cargo_watch_plan(has_cargo: bool) -> Result<Seq<StepView>, Seq<char>> {
    if !has_cargo {
        Err("cargo-watch needs cargo — install rust first (`custom-tools install rust`)"@)
    } else {
        Ok(seq![
            StepView::Say("→ installing cargo-watch via `cargo install`"@),
            StepView::Shell("cargo install cargo-watch --locked"@),
        ])
    }
}

/// The steps that install `cargo_watch`.
pub fn cargo_watch_plan(has_cargo: bool) -> (r: Result<Vec<Step>, String>)
    ensures
        plan_view(r) == spec_cargo_watch_plan(has_cargo),
{
    if !has_cargo {
        return Err("cargo-watch needs cargo — install rust first (`custom-tools install rust`)".to_string());
    }
    let mut v: Vec<Step> = Vec::new();
    v.push(say("→ installing cargo-watch via `cargo install`"));
    v.push(shell("cargo install cargo-watch --locked"));
    proof {
        assert(steps_view(v@) =~= spec_cargo_watch_plan(has_cargo)->Ok_0);
    }
    Ok(v)
}

/// The steps that install `fd`.
pub open spec fn spec_fd_plan(distro: Distro) -> Result<Seq<StepView>, Seq<char>> {
    match distro {
        Distro::Arch => {
            Ok(seq![
            StepView::Say("→ installing fd via pacman"@),
            StepView::Run("sudo"@, strs(seq!["pacman", "-S", "--needed", "--noconfirm", "fd"])),
        ])
        },
        Distro::Other => Err("automatic fd install only supported on Arch/CachyOS for now"@),
    }
}

/// The steps that install `fd`.
pub fn fd_plan(distro: Distro) -> (r: Result<Vec<Step>, String>)
    ensures
        plan_view(r) == spec_fd_plan(distro),
{
    if distro == Distro::Other {
        return Err("automatic fd install only supported on Arch/CachyOS for now".to_string());
    }
    let mut v: Vec<Step> = Vec::new();
    v.push(say("→ installing fd via pacman"));
    v.push(run("sudo", vec!["pacman", "-S", "--needed", "--noconfirm", "fd"]));
    proof {
        assert(steps_view(v@) =~= spec_fd_plan(distro)->Ok_0);
    }
    Ok(v)
}

/// The steps that install `fnm`.
pub open spec fn spec_fnm_plan() -> Result<Seq<StepView>, Seq<char>> {
    Ok(seq![
            StepView::Say("→ installing fnm via official script"@),
            StepView::Shell("curl -fsSL https://fnm.vercel.app/install | bash -s -- --skip-shell"@),
            StepView::Say("→ installing latest Node LTS via fnm"@),
            StepView::Shell("\n        FNM_BIN=\"$HOME/.local/share/fnm/fnm\"\n        \"$FNM_BIN\" install --lts\n        \"$FNM_BIN\" default lts-latest\n        "@),
            StepView::FishSnippet("fnm"@, "# fnm — installed by custom-tools\nif test -d \"$HOME/.local/share/fnm\"\n    fish_add_path \"$HOME/.local/share/fnm\"\nend\nif command -q fnm\n    fnm env --use-on-cd --shell fish | source\nend\n"@),
        ])
}

/// The steps that install `fnm`.
pub fn fnm_plan() -> (r: Result<Vec<Step>, String>)
    ensures
        plan_view(r) == spec_fnm_plan(),
{
    let mut v: Vec<Step> = Vec::new();
    v.push(say("→ installing fnm via official script"));
    v.push(shell("curl -fsSL https://fnm.vercel.app/install | bash -s -- --skip-shell"));
    v.push(say("→ installing latest Node LTS via fnm"));
    v.push(shell("\n        FNM_BIN=\"$HOME/.local/share/fnm/fnm\"\n        \"$FNM_BIN\" install --lts\n        \"$FNM_BIN\" default lts-latest\n        "));
    v.push(fish_snippet("fnm", "# fnm — installed by custom-tools\nif test -d \"$HOME/.local/share/fnm\"\n    fish_add_path \"$HOME/.local/share/fnm\"\nend\nif command -q fnm\n    fnm env --use-on-cd --shell fish | source\nend\n"));
    proof {
        assert(steps_view(v@) =~= spec_fnm_plan()->Ok_0);
    }
    Ok(v)
}

/// The steps that install `gh`.
pub open spec fn spec_gh_plan(distro: Distro) -> Result<Seq<StepView>, Seq<char>> {
    match distro {
        Distro::Arch => {
            Ok(seq![
            StepView::Say("→ installing GitHub CLI via pacman"@),
            StepView::Run("sudo"@, strs(seq!["pacman", "-S", "--needed", "--noconfirm", "github-cli"])),
            StepView::Say(""@),
            StepView::Say("→ starting GitHub device-flow login (no prompts — just open the URL)"@),
            StepView::DeviceLogin,
        ])
        },
        Distro::Other => Err("automatic gh install only supported on Arch/CachyOS for now"@),
    }
}

/// The steps that install `gh`.
pub fn gh_plan(distro: Distro) -> (r: Result<Vec<Step>, String>)
    ensures
        plan_view(r) == spec_gh_plan(distro),
{
    if distro == Distro::Other {
        return Err("automatic gh install only supported on Arch/CachyOS for now".to_string());
    }
    let mut v: Vec<Step> = Vec::new();
    v.push(say("→ installing GitHub CLI via pacman"));
    v.push(run("sudo", vec!["pacman", "-S", "--needed", "--noconfirm", "github-cli"]));
    v.push(say(""));
    v.push(say("→ starting GitHub device-flow login (no prompts — just open the URL)"));
    v.push(Step::DeviceLogin);
    proof {
        assert(steps_view(v@) =~= spec_gh_plan(distro)->Ok_0);
    }
    Ok(v)
}

/// The steps that install `paru`.
pub open spec fn spec_paru_plan(distro: Distro, has_cargo: bool) -> Result<Seq<StepView>, Seq<char>> {
    match distro {
        Distro::Arch => {
            if !has_cargo {
        Err("paru is written in Rust — install rust first (`custom-tools install rust`)"@)
    } else {
        Ok(seq![
            StepView::Say("→ installing paru (Rust-based AUR helper) from AUR"@),
            StepView::Shell("\n                sudo pacman -S --needed --noconfirm git base-devel\n                git clone https://aur.archlinux.org/paru.git /tmp/paru-install\n                cd /tmp/paru-install && makepkg -si --noconfirm\n                rm -rf /tmp/paru-install\n                "@),
        ])
    }
        },
        Distro::Other => Err("paru install only supported on Arch/CachyOS"@),
    }
}

/// The steps that install `paru`.
pub fn paru_plan(distro: Distro, has_cargo: bool) -> (r: Result<Vec<Step>, String>)
    ensures
        plan_view(r) == spec_paru_plan(distro, has_cargo),
{
    if distro == Distro::Other {
        return Err("paru install only supported on Arch/CachyOS".to_string());
    }
    if !has_cargo {
        return Err("paru is written in Rust — install rust first (`custom-tools install rust`)".to_string());
    }
    let mut v: Vec<Step> = Vec::new();
    v.push(say("→ installing paru (Rust-based AUR helper) from AUR"));
    v.push(shell("\n                sudo pacman -S --needed --noconfirm git base-devel\n                git clone https://aur.archlinux.org/paru.git /tmp/paru-install\n                cd /tmp/paru-install && makepkg -si --noconfirm\n                rm -rf /tmp/paru-install\n                "));
    proof {
        assert(steps_view(v@) =~= spec_paru_plan(distro, has_cargo)->Ok_0);
    }
    Ok(v)
}

/// The steps that install `pnpm`.
pub open spec fn spec_pnpm_plan() -> Result<Seq<StepView>, Seq<char>> {
    Ok(seq![
            StepView::Say("→ installing pnpm via official standalone script"@),
            StepView::Shell("curl -fsSL https://get.pnpm.io/install.sh | sh -"@),
            StepView::FishSnippet("pnpm"@, "# pnpm — installed by custom-tools\nset -gx PNPM_HOME \"$HOME/.local/share/pnpm\"\nif test -d \"$PNPM_HOME\"\n    fish_add_path \"$PNPM_HOME\"\nend\n"@),
        ])
}

/// The steps that install `pnpm`.
pub fn pnpm_plan() -> (r: Result<Vec<Step>, String>)
    ensures
        plan_view(r) == spec_pnpm_plan(),
{
    let mut v: Vec<Step> = Vec::new();
    v.push(say("→ installing pnpm via official standalone script"));
    v.push(shell("curl -fsSL https://get.pnpm.io/install.sh | sh -"));
    v.push(fish_snippet("pnpm", "# pnpm — installed by custom-tools\nset -gx PNPM_HOME \"$HOME/.local/share/pnpm\"\nif test -d \"$PNPM_HOME\"\n    fish_add_path \"$PNPM_HOME\"\nend\n"));
    proof {
        assert(steps_view(v@) =~= spec_pnpm_plan()->Ok_0);
    }
    Ok(v)
}

/// The steps that install `postgres`.
pub open spec fn spec_postgres_plan(distro: Distro) -> Result<Seq<StepView>, Seq<char>> {
    match distro {
        Distro::Arch => {
            Ok(seq![
            StepView::Say("→ installing PostgreSQL via pacman"@),
            StepView::Run("sudo"@, strs(seq!["pacman", "-S", "--needed", "--noconfirm", "postgresql"])),
            StepView::Say("→ initializing PostgreSQL cluster"@),
            StepView::Run("sudo"@, strs(seq!["-u", "postgres", "initdb", "--locale", "en_US.UTF-8", "-D", "/var/lib/postgres/data"])),
            StepView::Say("→ enabling and starting postgresql service"@),
            StepView::Run("sudo"@, strs(seq!["systemctl", "enable", "--now", "postgresql"])),
        ])
        },
        Distro::Other => Err("automatic PostgreSQL install only supported on Arch/CachyOS for now"@),
    }
}

/// The steps that install `postgres`.
pub fn postgres_plan(distro: Distro) -> (r: Result<Vec<Step>, String>)
    ensures
        plan_view(r) == spec_postgres_plan(distro),
{
    if distro == Distro::Other {
        return Err("automatic PostgreSQL install only supported on Arch/CachyOS for now".to_string());
    }
    let mut v: Vec<Step> = Vec::new();
    v.push(say("→ installing PostgreSQL via pacman"));
    v.push(run("sudo", vec!["pacman", "-S", "--needed", "--noconfirm", "postgresql"]));
    v.push(say("→ initializing PostgreSQL cluster"));
    v.push(run("sudo", vec!["-u", "postgres", "initdb", "--locale", "en_US.UTF-8", "-D", "/var/lib/postgres/data"]));
    v.push(say("→ enabling and starting postgresql service"));
    v.push(run("sudo", vec!["systemctl", "enable", "--now", "postgresql"]));
    proof {
        assert(steps_view(v@) =~= spec_postgres_plan(distro)->Ok_0);
    }
    Ok(v)
}

/// The steps that install `ripgrep`.
pub open spec fn spec_ripgrep_plan(distro: Distro) -> Result<Seq<StepView>, Seq<char>> {
    match distro {
        Distro::Arch => {
            Ok(seq![
            StepView::Say("→ installing ripgrep (rg) via pacman"@),
            StepView::Run("sudo"@, strs(seq!["pacman", "-S", "--needed", "--noconfirm", "ripgrep"])),
        ])
        },
        Distro::Other => Err("automatic ripgrep install only supported on Arch/CachyOS for now"@),
    }
}

/// The steps that install `ripgrep`.
pub fn ripgrep_plan(distro: Distro) -> (r: Result<Vec<Step>, String>)
    ensures
        plan_view(r) == spec_ripgrep_plan(distro),
{
    if distro == Distro::Other {
        return Err("automatic ripgrep install only supported on Arch/CachyOS for now".to_string());
    }
    let mut v: Vec<Step> = Vec::new();
    v.push(say("→ installing ripgrep (rg) via pacman"));
    v.push(run("sudo", vec!["pacman", "-S", "--needed", "--noconfirm", "ripgrep"]));
    proof {
        assert(steps_view(v@) =~= spec_ripgrep_plan(distro)->Ok_0);
    }
    Ok(v)
}

/// The steps that install `rust`.
pub open spec fn spec_rust_plan() -> Result<Seq<StepView>, Seq<char>> {
    Ok(seq![
            StepView::Say("→ installing rust via rustup-init"@),
            StepView::Shell("curl --proto '=https' --tlsv1.2 -sSf https://sh.rustup.rs | sh -s -- -y --default-toolchain stable"@),
            StepView::FishSnippet("rustup"@, "# rust / cargo — installed by custom-tools\nif test -f \"$HOME/.cargo/env.fish\"\n    source \"$HOME/.cargo/env.fish\"\nend\n"@),
        ])
}

/// The steps that install `rust`.
pub fn rust_plan() -> (r: Result<Vec<Step>, String>)
    ensures
        plan_view(r) == spec_rust_plan(),
{
    let mut v: Vec<Step> = Vec::new();
    v.push(say("→ installing rust via rustup-init"));
    v.push(shell("curl --proto '=https' --tlsv1.2 -sSf https://sh.rustup.rs | sh -s -- -y --default-toolchain stable"));
    v.push(fish_snippet("rustup", "# rust / cargo — installed by custom-tools\nif test -f \"$HOME/.cargo/env.fish\"\n    source \"$HOME/.cargo/env.fish\"\nend\n"));
    proof {
        assert(steps_view(v@) =~= spec_rust_plan()->Ok_0);
    }
    Ok(v)
}

/// The steps that install `sqlx_cli`.
pub open spec fn spec_sqlx_cli_plan(has_cargo: bool) -> Result<Seq<StepView>, Seq<char>> {
    if !has_cargo {
        Err("sqlx-cli needs cargo — install rust first (`custom-tools install rust`)"@)
    } else {
        Ok(seq![
            StepView::Say("→ installing sqlx-cli via `cargo install`"@),
            StepView::Shell("cargo install sqlx-cli --no-default-features --features rustls,postgres"@),
        ])
    }
}

/// The steps that install `sqlx_cli`.
pub fn sqlx_cli_plan(has_cargo: bool) -> (r: Result<Vec<Step>, String>)
    ensures
        plan_view(r) == spec_sqlx_cli_plan(has_cargo),
{
    if !has_cargo {
        return Err("sqlx-cli needs cargo — install rust first (`custom-tools install rust`)".to_string());
    }
    let mut v: Vec<Step> = Vec::new();
    v.push(say("→ installing sqlx-cli via `cargo install`"));
    v.push(shell("cargo install sqlx-cli --no-default-features --features rustls,postgres"));
    proof {
        assert(steps_view(v@) =~= spec_sqlx_cli_plan(has_cargo)->Ok_0);
    }
    Ok(v)
}

/// The steps that install `starship`.
pub open spec fn spec_starship_plan() -> Result<Seq<StepView>, Seq<char>> {
    Ok(seq![
            StepView::Say("→ installing starship via official script"@),
            StepView::Shell("curl -sS https://starship.rs/install.sh | sh -s -- -y"@),
            StepView::FishSnippet("starship"@, "# starship — installed by custom-tools\nif command -q starship\n    starship init fish | source\nend\n"@),
        ])
}

/// The steps that install `starship`.
pub fn starship_plan() -> (r: Result<Vec<Step>, String>)
    ensures
        plan_view(r) == spec_starship_plan(),
{
    let mut v: Vec<Step> = Vec::new();
    v.push(say("→ installing starship via official script"));
    v.push(shell("curl -sS https://starship.rs/install.sh | sh -s -- -y"));
    v.push(fish_snippet("starship", "# starship — installed by custom-tools\nif command -q starship\n    starship init fish | source\nend\n"));
    proof {
        assert(steps_view(v@) =~= spec_starship_plan()->Ok_0);
    }
    Ok(v)
}

/// The steps that install `xh`.
pub open spec fn spec_xh_plan() -> Result<Seq<StepView>, Seq<char>> {
    Ok(seq![
            StepView::Say("→ installing xh via official script"@),
            StepView::Shell("curl -sfL https://raw.githubusercontent.com/ducaale/xh/master/install.sh | sh"@),
            StepView::FishSnippet("xh"@, "# xh — installed by custom-tools\nfish_add_path \"$HOME/.local/bin\"\n"@),
        ])
}

/// The steps that install `xh`.
pub fn xh_plan() -> (r: Result<Vec<Step>, String>)
    ensures
        plan_view(r) == spec_xh_plan(),
{
    let mut v: Vec<Step> = Vec::new();
    v.push(say("→ installing xh via official script"));
    v.push(shell("curl -sfL https://raw.githubusercontent.com/ducaale/xh/master/install.sh | sh"));
    v.push(fish_snippet("xh", "# xh — installed by custom-tools\nfish_add_path \"$HOME/.local/bin\"\n"));
    proof {
        assert(steps_view(v@) =~= spec_xh_plan()->Ok_0);
    }
    Ok(v)
}

/// The steps that install `yay`.
pub open spec fn spec_yay_plan(distro: Distro) -> Result<Seq<StepView>, Seq<char>> {
    match distro {
        Distro::Arch => {
            Ok(seq![
            StepView::Say("→ installing yay (AUR helper) from AUR"@),
            StepView::Shell("\n                sudo pacman -S --needed --noconfirm git base-devel\n                git clone https://aur.archlinux.org/yay.git /tmp/yay-install\n                cd /tmp/yay-install && makepkg -si --noconfirm\n                rm -rf /tmp/yay-install\n                "@),
        ])
        },
        Distro::Other => Err("yay install only supported on Arch/CachyOS"@),
    }
}

/// The steps that install `yay`.
pub fn yay_plan(distro: Distro) -> (r: Result<Vec<Step>, String>)
    ensures
        plan_view(r) == spec_yay_plan(distro),
{
    if distro == Distro::Other {
        return Err("yay install only supported on Arch/CachyOS".to_string());
    }
    let mut v: Vec<Step> = Vec::new();
    v.push(say("→ installing yay (AUR helper) from AUR"));
    v.push(shell("\n                sudo pacman -S --needed --noconfirm git base-devel\n                git clone https://aur.archlinux.org/yay.git /tmp/yay-install\n                cd /tmp/yay-install && makepkg -si --noconfirm\n                rm -rf /tmp/yay-install\n                "));
    proof {
        assert(steps_view(v@) =~= spec_yay_plan(distro)->Ok_0);
    }
    Ok(v)
}

/// The steps that install `zoxide`.
pub open spec fn spec_zoxide_plan() -> Result<Seq<StepView>, Seq<char>> {
    Ok(seq![
            StepView::Say("→ installing zoxide via official script"@),
            StepView::Shell("curl -sSfL https://raw.githubusercontent.com/ajeetdsouza/zoxide/main/install.sh | sh"@),
            StepView::FishSnippet("zoxide"@, "# zoxide — installed by custom-tools\nfish_add_path \"$HOME/.local/bin\"\nif command -q zoxide\n    zoxide init fish | source\nend\n"@),
        ])
}

/// The steps that install `zoxide`.
pub fn zoxide_plan() -> (r: Result<Vec<Step>, String>)
    ensures
        plan_view(r) == spec_zoxide_plan(),
{
    let mut v: Vec<Step> = Vec::new();
    v.push(say("→ installing zoxide via official script"));
    v.push(shell("curl -sSfL https://raw.githubusercontent.com/ajeetdsouza/zoxide/main/install.sh | sh"));
    v.push(fish_snippet("zoxide", "# zoxide — installed by custom-tools\nfish_add_path \"$HOME/.local/bin\"\nif command -q zoxide\n    zoxide init fish | source\nend\n"));
    proof {
        assert(steps_view(v@) =~= spec_zoxide_plan()->Ok_0);
    }
    Ok(v)
}

/// The steps that install Docker and let `user` (`$(whoami)` where it is
/// unknown) use it without sudo.
pub open spec fn spec_docker_plan(distro: Distro, user: Option<Seq<char>>) -> Result<Seq<StepView>, Seq<char>> {
    match distro {
        Distro::Arch => {
            let u = match user {
                Some(u) => u,
                None => "$(whoami)"@,
            };
            Ok(seq![
                StepView::Say("→ installing Docker via pacman"@),
                StepView::Run("sudo"@, strs(seq!["pacman", "-S", "--needed", "--noconfirm", "docker", "docker-compose"])),
                StepView::Say("→ enabling and starting Docker service"@),
                StepView::Run("sudo"@, strs(seq!["systemctl", "enable", "--now", "docker"])),
                StepView::Say("→ adding '"@ + u + "' to the docker group"@),
                StepView::Run("sudo"@, strs(seq!["usermod", "-aG", "docker"]).push(u)),
                StepView::Say("ℹ  log out and back in (or run `newgrp docker`) for group change to take effect"@),
            ])
        },
        Distro::Other => Err("automatic Docker install only supported on Arch/CachyOS for now"@),
    }
}

/// The steps that install Docker.
pub fn docker_plan(distro: Distro, user: &Option<String>) -> (r: Result<Vec<Step>, String>)
    ensures
        plan_view(r) == spec_docker_plan(distro, opt_view(*user)),
{
    if distro == Distro::Other {
        return Err("automatic Docker install only supported on Arch/CachyOS for now".to_string());
    }
    let u: String = match user {
        Some(u) => u.clone(),
        None => "$(whoami)".to_string(),
    };
    let mut v: Vec<Step> = Vec::new();
    v.push(say("→ installing Docker via pacman"));
    v.push(run("sudo", vec!["pacman", "-S", "--needed", "--noconfirm", "docker", "docker-compose"]));
    v.push(say("→ enabling and starting Docker service"));
    v.push(run("sudo", vec!["systemctl", "enable", "--now", "docker"]));
    let line = concat(concat("→ adding '", u.as_str()).as_str(), "' to the docker group");
    v.push(Step::Say(line));
    let mut args = to_strings(&vec!["usermod", "-aG", "docker"]);
    args.push(u);
    proof {
        assert(views(args@) =~= strs(seq!["usermod", "-aG", "docker"]).push(u@));
    }
    v.push(Step::Run("sudo".to_string(), args));
    v.push(say("ℹ  log out and back in (or run `newgrp docker`) for group change to take effect"));
    proof {
        assert(steps_view(v@) =~= spec_docker_plan(distro, opt_view(*user))->Ok_0);
    }
    Ok(v)
}

/// The steps that install fish and make it the login shell of `user`. A
/// missing or empty user name skips the second part; a failing `chsh` is
/// reported and does not fail the installation.
pub open spec fn spec_fish_plan(distro: Distro, user: Option<Seq<char>>) -> Result<Seq<StepView>, Seq<char>> {
    match distro {
        Distro::Arch => {
            let first = seq![
                StepView::Say("→ installing fish via pacman"@),
                StepView::Run("sudo"@, strs(seq!["pacman", "-S", "--needed", "--noconfirm", "fish"])),
            ];
            let u = match user {
                Some(u) => u,
                None => Seq::empty(),
            };
            if u.len() == 0 {
                Ok(first.push(StepView::Say("⚠  USER not set, skipping chsh"@)))
            } else {
                Ok(first + seq![
                    StepView::Say("→ setting fish as default login shell for "@ + u),
                    StepView::TryRun("sudo"@, strs(seq!["chsh", "-s", "/usr/bin/fish"]).push(u), "⚠  could not chsh: "@),
                ])
            }
        },
        Distro::Other => Err("automatic fish install only supported on Arch/CachyOS for now"@),
    }
}

/// The steps that install fish.
pub fn fish_plan(distro: Distro, user: &Option<String>) -> (r: Result<Vec<Step>, String>)
    ensures
        plan_view(r) == spec_fish_plan(distro, opt_view(*user)),
{
    if distro == Distro::Other {
        return Err("automatic fish install only supported on Arch/CachyOS for now".to_string());
    }
    let mut v: Vec<Step> = Vec::new();
    v.push(say("→ installing fish via pacman"));
    v.push(run("sudo", vec!["pacman", "-S", "--needed", "--noconfirm", "fish"]));
    let u: String = match user {
        Some(u) => u.clone(),
        None => String::new(),
    };
    if u.as_str().is_empty() {
        v.push(say("⚠  USER not set, skipping chsh"));
    } else {
        v.push(Step::Say(concat("→ setting fish as default login shell for ", u.as_str())));
        let mut args = to_strings(&vec!["chsh", "-s", "/usr/bin/fish"]);
        args.push(u);
        proof {
            assert(views(args@) =~= strs(seq!["chsh", "-s", "/usr/bin/fish"]).push(u@));
        }
        v.push(Step::TryRun("sudo".to_string(), args, "⚠  could not chsh: ".to_string()));
    }
    proof {
        assert(steps_view(v@) =~= spec_fish_plan(distro, opt_view(*user))->Ok_0);
    }
    Ok(v)
}

/// The steps that install TablePlus through an AUR helper, yay where it is
/// there, else paru.
pub open spec fn spec_tableplus_plan(distro: Distro, has_yay: bool, has_paru: bool) -> Result<Seq<StepView>, Seq<char>> {
    match distro {
        Distro::Arch => {
            if !has_yay && !has_paru {
                Err("no AUR helper found (yay or paru required to install TablePlus). Install one first: https://github.com/Jguer/yay"@)
            } else {
                let h = if has_yay { "yay"@ } else { "paru"@ };
                Ok(seq![
                    StepView::Say("→ installing TablePlus via "@ + h + " (AUR)"@),
                    StepView::Run(h, strs(seq!["-S", "--needed", "--noconfirm", "tableplus"])),
                ])
            }
        },
        Distro::Other => Err("automatic TablePlus install only supported on Arch/CachyOS for now"@),
    }
}

/// The steps that install TablePlus.
pub fn tableplus_plan(distro: Distro, has_yay: bool, has_paru: bool) -> (r: Result<Vec<Step>, String>)
    ensures
        plan_view(r) == spec_tableplus_plan(distro, has_yay, has_paru),
{
    if distro == Distro::Other {
        return Err("automatic TablePlus install only supported on Arch/CachyOS for now".to_string());
    }
    let helper: &str = if has_yay {
        "yay"
    } else if has_paru {
        "paru"
    } else {
        return Err(
            "no AUR helper found (yay or paru required to install TablePlus). Install one first: https://github.com/Jguer/yay".to_string(),
        );
    };
    let mut v: Vec<Step> = Vec::new();
    v.push(Step::Say(concat(concat("→ installing TablePlus via ", helper).as_str(), " (AUR)")));
    v.push(run(helper, vec!["-S", "--needed", "--noconfirm", "tableplus"]));
    proof {
        assert(steps_view(v@) =~= spec_tableplus_plan(distro, has_yay, has_paru)->Ok_0);
    }
    Ok(v)
}

/// What the plans depend on, found out by the front end before planning.
pub struct MachineFacts {
    pub distro: Distro,
    /// The value of `USER`, where it is set.
    pub user: Option<String>,
    /// `cargo` is on the search path.
    pub has_cargo: bool,
    /// `yay` is on the search path.
    pub has_yay: bool,
    /// `paru` is on the search path.
    pub has_paru: bool,
}

/// The steps that install `t`: a single notice where it is installed
/// already, else the tool's own plan.
pub open spec fn spec_install_plan(t: Tool, installed: bool, f: MachineFacts) -> Result<Seq<StepView>, Seq<char>> {
    if installed {
        Ok(seq![StepView::Say("✓ "@ + t.spec_bin_name() + " already installed, skipping"@)])
    } else {
        match t {
            Tool::Fish => spec_fish_plan(f.distro, opt_view(f.user)),
            Tool::Rust => spec_rust_plan(),
            Tool::Starship => spec_starship_plan(),
            Tool::Fnm => spec_fnm_plan(),
            Tool::Pnpm => spec_pnpm_plan(),
            Tool::Xh => spec_xh_plan(),
            Tool::Rg => spec_ripgrep_plan(f.distro),
            Tool::Fd => spec_fd_plan(f.distro),
            Tool::Yay => spec_yay_plan(f.distro),
            Tool::Paru => spec_paru_plan(f.distro, f.has_cargo),
            Tool::Postgres => spec_postgres_plan(f.distro),
            Tool::Docker => spec_docker_plan(f.distro, opt_view(f.user)),
            Tool::TablePlus => spec_tableplus_plan(f.distro, f.has_yay, f.has_paru),
            Tool::Zoxide => spec_zoxide_plan(),
            Tool::Gh => spec_gh_plan(f.distro),
            Tool::CargoWatch => spec_cargo_watch_plan(f.has_cargo),
            Tool::SqlxCli => spec_sqlx_cli_plan(f.has_cargo),
        }
    }
}

/// Well-known places, under the home directory, where the official
/// installers of some tools put them without adding them to the search path.
pub open spec fn spec_fallback_paths(t: Tool) -> Seq<Seq<char>> {
    match t {
        Tool::Fnm => strs(seq![".local/share/fnm/fnm"]),
        Tool::Pnpm => strs(seq![".local/share/pnpm/pnpm"]),
        Tool::Rust => strs(seq![".cargo/bin/cargo", ".cargo/bin/rustc"]),
        Tool::Starship => strs(seq![".local/bin/starship"]),
        Tool::Xh => strs(seq![".local/bin/xh", ".cargo/bin/xh"]),
        Tool::Zoxide => strs(seq![".local/bin/zoxide", ".cargo/bin/zoxide"]),
        Tool::CargoWatch => strs(seq![".cargo/bin/cargo-watch"]),
        Tool::SqlxCli => strs(seq![".cargo/bin/sqlx"]),
        _ => Seq::empty(),
    }
}

impl Tool {
    /// The paths, relative to the home directory, whose existence also
    /// counts as the tool being installed.
    pub fn fallback_paths(self) -> (v: Vec<&'static str>)
        ensures
            strs(v@) == spec_fallback_paths(self),
    {
        let v: Vec<&'static str> = match self {
            Tool::Fnm => vec![".local/share/fnm/fnm"],
            Tool::Pnpm => vec![".local/share/pnpm/pnpm"],
            Tool::Rust => vec![".cargo/bin/cargo", ".cargo/bin/rustc"],
            Tool::Starship => vec![".local/bin/starship"],
            Tool::Xh => vec![".local/bin/xh", ".cargo/bin/xh"],
            Tool::Zoxide => vec![".local/bin/zoxide", ".cargo/bin/zoxide"],
            Tool::CargoWatch => vec![".cargo/bin/cargo-watch"],
            Tool::SqlxCli => vec![".cargo/bin/sqlx"],
            _ => Vec::new(),
        };
        proof {
            assert(strs(v@) =~= spec_fallback_paths(self));
        }
        v
    }

    /// The steps that install the tool, or why it cannot be installed here.
    pub fn install_plan(self, installed: bool, facts: &MachineFacts) -> (r: Result<Vec<Step>, String>)
        ensures
            plan_view(r) == spec_install_plan(self, installed, *facts),
    {
        if installed {
            let line = concat(concat("✓ ", self.bin_name()).as_str(), " already installed, skipping");
            let mut v: Vec<Step> = Vec::new();
            v.push(Step::Say(line));
            proof {
                assert(steps_view(v@) =~= spec_install_plan(self, installed, *facts)->Ok_0);
            }
            return Ok(v);
        }
        let d = facts.distro;
        match self {
            Tool::Fish => fish_plan(d, &facts.user),
            Tool::Rust => rust_plan(),
            Tool::Starship => starship_plan(),
            Tool::Fnm => fnm_plan(),
            Tool::Pnpm => pnpm_plan(),
            Tool::Xh => xh_plan(),
            Tool::Rg => ripgrep_plan(d),
            Tool::Fd => fd_plan(d),
            Tool::Yay => yay_plan(d),
            Tool::Paru => paru_plan(d, facts.has_cargo),
            Tool::Postgres => postgres_plan(d),
            Tool::Docker => docker_plan(d, &facts.user),
            Tool::TablePlus => tableplus_plan(d, facts.has_yay, facts.has_paru),
            Tool::Zoxide => zoxide_plan(),
            Tool::Gh => gh_plan(d),
            Tool::CargoWatch => cargo_watch_plan(facts.has_cargo),
            Tool::SqlxCli => sqlx_cli_plan(facts.has_cargo),
        }
    }
}

/// The line that the installation report shows for a tool.
pub open spec fn spec_report_line(t: Tool, installed: bool) -> Seq<char> {
    "  "@ + (if installed { "✓"@ } else { "✗"@ }) + " "@ + t.spec_display_name()
}

/// The line that the installation report shows for `t`, marked as installed or missing.
pub fn report_line(t: Tool, installed: bool) -> (s: String)
    ensures
        s@ == spec_report_line(t, installed),
{
    let mark: &str = if installed { "✓" } else { "✗" };
    let head = concat(concat("  ", mark).as_str(), " ");
    concat(head.as_str(), t.display_name())
}

/// A step that neither runs a program directly nor logs in: it prints,
/// runs a script, or writes a fish snippet.
pub open spec fn unprivileged_step(s: StepView) -> bool {
    s is Say || s is Shell || s is FishSnippet
}

/// Law: an installed tool is never installed again: its plan only prints a
/// notice. Off Arch, every tool that needs the package manager's lock is
/// refused. A tool that does not need the lock never runs a program
/// directly (such as `sudo`): its plan only prints, runs scripts and writes
/// fish snippets.
pub proof fn law_plans_follow_lock(t: Tool, installed: bool, f: MachineFacts)
    ensures
        installed ==> (spec_install_plan(t, installed, f) matches Ok(steps) && steps.len() == 1
            && steps[0] is Say),
        !installed && t.spec_needs_pacman_lock() && f.distro == Distro::Other ==> spec_install_plan(
            t,
            installed,
            f,
        ) is Err,
        !t.spec_needs_pacman_lock() ==> (spec_install_plan(t, installed, f) matches Ok(steps)
            ==> forall|j: int| 0 <= j < steps.len() ==> unprivileged_step(#[trigger] steps[j])),
{
}

} // verus!
