use custom_tools::config::{backup_extension, config_write, decimal_string, ConfigWrite};
use custom_tools::detect::{distro_from_os_release, Distro};
use custom_tools::installer::{report_line, MachineFacts, Step};
use custom_tools::tool::{tool_detail, Tool, TOOL_COUNT};

#[test]
fn catalogue_order_and_size() {
    let all = Tool::all();
    assert_eq!(all.len(), TOOL_COUNT);
    assert_eq!(all[0], Tool::Fish);
    assert_eq!(all[1], Tool::Rust);
    assert_eq!(all[12], Tool::TablePlus);
    assert_eq!(all[16], Tool::SqlxCli);
}

#[test]
fn index_round_trip() {
    for (i, t) in Tool::all().into_iter().enumerate() {
        assert_eq!(t.index(), i);
        assert_eq!(Tool::from_index(i), t);
    }
}

#[test]
fn dependencies() {
    assert_eq!(Tool::Paru.deps(), vec![Tool::Rust]);
    assert_eq!(Tool::TablePlus.deps(), vec![Tool::Yay]);
    assert_eq!(Tool::CargoWatch.deps(), vec![Tool::Rust]);
    assert_eq!(Tool::SqlxCli.deps(), vec![Tool::Rust]);
    assert!(Tool::Fish.deps().is_empty());
    assert!(Tool::Gh.deps().is_empty());
}

#[test]
fn dependencies_come_first_in_catalogue() {
    for t in Tool::all() {
        for d in t.deps() {
            assert!(d.index() < t.index());
        }
    }
}

#[test]
fn arg_names() {
    assert_eq!(Tool::Postgres.arg_name(), "postgres");
    assert_eq!(Tool::TablePlus.arg_name(), "table-plus");
    assert_eq!(Tool::CargoWatch.arg_name(), "cargo-watch");
    assert_eq!(Tool::SqlxCli.arg_name(), "sqlx-cli");
    assert_eq!(Tool::Rg.arg_name(), "rg");
}

#[test]
fn arg_names_are_distinct() {
    let all = Tool::all();
    for a in &all {
        for b in &all {
            if a != b {
                assert_ne!(a.arg_name(), b.arg_name());
            }
        }
    }
}

#[test]
fn pacman_lock_tools() {
    let locked: Vec<Tool> = Tool::all().into_iter().filter(|t| t.needs_pacman_lock()).collect();
    assert_eq!(
        locked,
        vec![
            Tool::Fish,
            Tool::Rg,
            Tool::Fd,
            Tool::Yay,
            Tool::Paru,
            Tool::Postgres,
            Tool::Docker,
            Tool::TablePlus,
            Tool::Gh
        ]
    );
}

#[test]
fn names() {
    assert_eq!(Tool::Rust.bin_name(), "cargo");
    assert_eq!(Tool::Postgres.bin_name(), "psql");
    assert_eq!(Tool::SqlxCli.bin_name(), "sqlx");
    assert_eq!(Tool::Fish.display_name(), "fish        — shell");
    assert_eq!(Tool::Gh.display_name(), "gh          — GitHub CLI (browser device-flow login)");
}

#[test]
fn post_install_only_for_postgres() {
    for t in Tool::all() {
        assert_eq!(t.has_post_install(), t == Tool::Postgres);
    }
}

#[test]
fn details() {
    let (title, _, note) = tool_detail(Tool::Paru);
    assert_eq!(title, "paru — AUR Helper (Rust)");
    assert_eq!(note, Some("install rust first"));
    let (title, body, note) = tool_detail(Tool::Fish);
    assert_eq!(title, "fish — Friendly Interactive Shell");
    assert!(body.starts_with("Smart shell"));
    assert_eq!(note, None);
    assert_eq!(tool_detail(Tool::SqlxCli).2, Some("requires rust/cargo installed first"));
}

#[test]
fn os_release_arch_and_derivatives() {
    assert_eq!(distro_from_os_release("NAME=\"Arch Linux\"\nID=arch\n"), Distro::Arch);
    assert_eq!(distro_from_os_release("ID=cachyos\nID_LIKE=arch\n"), Distro::Arch);
    assert_eq!(distro_from_os_release("ID=endeavouros\nID_LIKE=\"arch\"\n"), Distro::Arch);
    assert_eq!(distro_from_os_release("ID=manjaro\nID_LIKE=\"debian arch\"\n"), Distro::Arch);
}

#[test]
fn os_release_other_systems() {
    assert_eq!(distro_from_os_release("ID=ubuntu\nID_LIKE=debian\n"), Distro::Other);
    assert_eq!(distro_from_os_release(""), Distro::Other);
    // Other keys do not count, and the key must match exactly.
    assert_eq!(distro_from_os_release("NAME=arch\nVARIANT_ID=arch\n"), Distro::Other);
    assert_eq!(distro_from_os_release("ID =arch\n"), Distro::Other);
    // Words are matched whole and with their case.
    assert_eq!(distro_from_os_release("ID=Arch\n"), Distro::Other);
    assert_eq!(distro_from_os_release("ID=archlinux\n"), Distro::Other);
}

#[test]
fn os_release_crlf_lines() {
    assert_eq!(distro_from_os_release("ID=ubuntu\r\nID_LIKE=arch\r\n"), Distro::Arch);
}

fn facts(distro: Distro) -> MachineFacts {
    MachineFacts {
        distro,
        user: Some("alice".to_string()),
        has_cargo: true,
        has_yay: false,
        has_paru: false,
    }
}

fn says(step: &Step) -> Option<String> {
    match step {
        Step::Say(s) => Some(s.clone()),
        _ => None,
    }
}

#[test]
fn plan_for_installed_tool_is_a_notice() {
    let plan = Tool::Rust.install_plan(true, &facts(Distro::Other)).unwrap();
    assert_eq!(plan.len(), 1);
    assert_eq!(says(&plan[0]), Some("✓ cargo already installed, skipping".to_string()));
}

#[test]
fn plan_refused_off_arch() {
    let e = Tool::Fd.install_plan(false, &facts(Distro::Other)).err();
    assert_eq!(e, Some("automatic fd install only supported on Arch/CachyOS for now".to_string()));
    let e = Tool::Yay.install_plan(false, &facts(Distro::Other)).err();
    assert_eq!(e, Some("yay install only supported on Arch/CachyOS".to_string()));
}

#[test]
fn plan_for_ripgrep() {
    let plan = Tool::Rg.install_plan(false, &facts(Distro::Arch)).unwrap();
    assert_eq!(plan.len(), 2);
    assert_eq!(says(&plan[0]), Some("→ installing ripgrep (rg) via pacman".to_string()));
    match &plan[1] {
        Step::Run(p, args) => {
            assert_eq!(p, "sudo");
            assert_eq!(args, &vec!["pacman", "-S", "--needed", "--noconfirm", "ripgrep"]);
        }
        _ => panic!("expected a command"),
    }
}

#[test]
fn plan_for_paru_needs_cargo() {
    let mut f = facts(Distro::Arch);
    f.has_cargo = false;
    assert_eq!(
        Tool::Paru.install_plan(false, &f).err(),
        Some("paru is written in Rust — install rust first (`custom-tools install rust`)".to_string())
    );
    // Off Arch the distribution is reported first.
    f.distro = Distro::Other;
    assert_eq!(
        Tool::Paru.install_plan(false, &f).err(),
        Some("paru install only supported on Arch/CachyOS".to_string())
    );
    assert_eq!(
        Tool::SqlxCli.install_plan(false, &f).err(),
        Some("sqlx-cli needs cargo — install rust first (`custom-tools install rust`)".to_string())
    );
}

#[test]
fn plan_for_docker_names_the_user() {
    let plan = Tool::Docker.install_plan(false, &facts(Distro::Arch)).unwrap();
    assert_eq!(plan.len(), 7);
    assert_eq!(says(&plan[4]), Some("→ adding 'alice' to the docker group".to_string()));
    match &plan[5] {
        Step::Run(p, args) => {
            assert_eq!(p, "sudo");
            assert_eq!(args, &vec!["usermod", "-aG", "docker", "alice"]);
        }
        _ => panic!("expected a command"),
    }
    let mut f = facts(Distro::Arch);
    f.user = None;
    let plan = Tool::Docker.install_plan(false, &f).unwrap();
    assert_eq!(says(&plan[4]), Some("→ adding '$(whoami)' to the docker group".to_string()));
}

#[test]
fn plan_for_fish_without_user_skips_chsh() {
    let mut f = facts(Distro::Arch);
    f.user = Some(String::new());
    let plan = Tool::Fish.install_plan(false, &f).unwrap();
    assert_eq!(plan.len(), 3);
    assert_eq!(says(&plan[2]), Some("⚠  USER not set, skipping chsh".to_string()));
    let plan = Tool::Fish.install_plan(false, &facts(Distro::Arch)).unwrap();
    assert_eq!(plan.len(), 4);
    match &plan[3] {
        Step::TryRun(p, args, prefix) => {
            assert_eq!(p, "sudo");
            assert_eq!(args, &vec!["chsh", "-s", "/usr/bin/fish", "alice"]);
            assert_eq!(prefix, "⚠  could not chsh: ");
        }
        _ => panic!("expected a tolerated command"),
    }
}

#[test]
fn plan_for_tableplus_picks_a_helper() {
    let mut f = facts(Distro::Arch);
    assert_eq!(
        Tool::TablePlus.install_plan(false, &f).err(),
        Some(
            "no AUR helper found (yay or paru required to install TablePlus). Install one first: https://github.com/Jguer/yay"
                .to_string()
        )
    );
    f.has_paru = true;
    let plan = Tool::TablePlus.install_plan(false, &f).unwrap();
    assert_eq!(says(&plan[0]), Some("→ installing TablePlus via paru (AUR)".to_string()));
    f.has_yay = true;
    let plan = Tool::TablePlus.install_plan(false, &f).unwrap();
    assert_eq!(says(&plan[0]), Some("→ installing TablePlus via yay (AUR)".to_string()));
    match &plan[1] {
        Step::Run(p, args) => {
            assert_eq!(p, "yay");
            assert_eq!(args, &vec!["-S", "--needed", "--noconfirm", "tableplus"]);
        }
        _ => panic!("expected a command"),
    }
}

#[test]
fn plan_for_gh_ends_with_login() {
    let plan = Tool::Gh.install_plan(false, &facts(Distro::Arch)).unwrap();
    assert!(matches!(plan.last(), Some(Step::DeviceLogin)));
    assert_eq!(says(&plan[2]), Some(String::new()));
}

#[test]
fn plan_for_rust_writes_fish_snippet() {
    let plan = Tool::Rust.install_plan(false, &facts(Distro::Other)).unwrap();
    assert_eq!(plan.len(), 3);
    match &plan[2] {
        Step::FishSnippet(name, content) => {
            assert_eq!(name, "rustup");
            assert!(content.contains("source \"$HOME/.cargo/env.fish\""));
        }
        _ => panic!("expected a fish snippet"),
    }
}

#[test]
fn fallback_paths() {
    assert_eq!(Tool::Rust.fallback_paths(), vec![".cargo/bin/cargo", ".cargo/bin/rustc"]);
    assert_eq!(Tool::Fnm.fallback_paths(), vec![".local/share/fnm/fnm"]);
    assert!(Tool::Fish.fallback_paths().is_empty());
}

#[test]
fn report_lines() {
    assert_eq!(report_line(Tool::Fish, true), "  ✓ fish        — shell");
    assert_eq!(report_line(Tool::Zoxide, false), "  ✗ zoxide      — smarter cd");
}

#[test]
fn config_write_actions() {
    assert_eq!(config_write(None, "x"), ConfigWrite::Create);
    assert_eq!(config_write(Some("x"), "x"), ConfigWrite::UpToDate);
    assert_eq!(config_write(Some("y"), "x"), ConfigWrite::BackUpAndWrite);
    assert_eq!(config_write(Some(""), ""), ConfigWrite::UpToDate);
}

#[test]
fn decimal_strings() {
    assert_eq!(decimal_string(0), "0");
    assert_eq!(decimal_string(7), "7");
    assert_eq!(decimal_string(1700000000), "1700000000");
    assert_eq!(decimal_string(u64::MAX), u64::MAX.to_string());
}

#[test]
fn backup_extensions() {
    assert_eq!(backup_extension(Some("toml"), 1700000000), "toml.bak.1700000000");
    assert_eq!(backup_extension(None, 5), ".bak.5");
}

#[test]
fn catalogue_text_rules() {
    for t in Tool::all() {
        let d: Vec<char> = t.display_name().chars().collect();
        assert_eq!(d[12], '—');
        assert_eq!(d[13], ' ');
        assert_eq!(t.display_name().contains("needs"), !t.deps().is_empty());
        let (title, desc, hint) = tool_detail(t);
        assert_eq!(title.split_whitespace().next(), t.display_name().split_whitespace().next());
        assert!(title.contains(" — "));
        assert!(!desc.is_empty());
        assert_eq!(hint.is_some(), !t.deps().is_empty() || t == Tool::Gh);
        let exception = match t {
            Tool::Rust => Some("cargo"),
            Tool::Postgres => Some("psql"),
            Tool::TablePlus => Some("tableplus"),
            Tool::SqlxCli => Some("sqlx"),
            _ => None,
        };
        assert_eq!(t.bin_name(), exception.unwrap_or(t.arg_name()));
        assert!(t.bin_name().len() <= 11);
    }
}
