use nf::cmd::{from_string, validate_processer_test};
use nf::processer::{format_nixpkg, ConfigFile, Develop, Processer, Run, Shell, ShellSpec};

const SHELL: &str = "zsh";

fn args(xs: &[&str]) -> Vec<String> {
    xs.iter().map(|x| x.to_string()).collect()
}

fn no_config() -> Option<ConfigFile> {
    None
}

fn explicit() -> ShellSpec {
    ShellSpec::Explicit(SHELL.to_string())
}

#[test]
fn processer_nix_run() {
    let p = Run { args: args(&[]) };
    assert_eq!(p.process(&no_config(), false), args(&["nix", "run"]));
}

#[test]
fn nix_run_nixpkg() {
    let p = Run { args: args(&["eza"]) };
    assert_eq!(p.process(&no_config(), false), args(&["nix", "run", "nixpkgs#eza"]));
}

#[test]
fn nix_run_with_arg_nixpkg() {
    let p = Run { args: args(&["eza", "to_nix_run", "--"]) };
    assert_eq!(
        p.process(&no_config(), false),
        args(&["nix", "run", "nixpkgs#eza", "to_nix_run", "--"])
    );
}

#[test]
fn nix_run_nixpkg_with_arg() {
    let p = Run { args: args(&["eza", "to_command"]) };
    assert_eq!(
        p.process(&no_config(), false),
        args(&["nix", "run", "nixpkgs#eza", "--", "to_command"])
    );
}

#[test]
fn nix_run_nixpkg_with_arg_redundant() {
    let p = Run { args: args(&["eza", "--", "to_command"]) };
    assert_eq!(
        p.process(&no_config(), false),
        args(&["nix", "run", "nixpkgs#eza", "--", "to_command"])
    );
}

#[test]
fn nix_run_with_arg_nixpkg_with_arg() {
    let p = Run { args: args(&["eza", "to_nix_run", "--", "to_command"]) };
    assert_eq!(
        p.process(&no_config(), false),
        args(&["nix", "run", "nixpkgs#eza", "to_nix_run", "--", "to_command"])
    );
}

#[test]
fn processer_nix_shell() {
    let p = Shell { args: args(&[]), shell: explicit() };
    assert_eq!(p.process(&no_config(), false), args(&["nix", "shell", "--command", SHELL]));
}

#[test]
fn nix_shell_nixpkg() {
    let p = Shell { args: args(&["eza"]), shell: explicit() };
    assert_eq!(
        p.process(&no_config(), false),
        args(&["nix", "shell", "nixpkgs#eza", "--command", SHELL])
    );
}

#[test]
fn nix_shell_with_arg() {
    let p = Shell { args: args(&["--help"]), shell: explicit() };
    assert_eq!(
        p.process(&no_config(), false),
        args(&["nix", "shell", "--help", "--command", SHELL])
    );
}

#[test]
fn nix_shell_with_arg_nixpkg() {
    let p = Shell { args: args(&["eza", "--help"]), shell: explicit() };
    assert_eq!(
        p.process(&no_config(), false),
        args(&["nix", "shell", "nixpkgs#eza", "--help", "--command", SHELL])
    );
}

#[test]
fn nix_shell_with_shell_specified() {
    let p = Shell { args: args(&["--command", "bash"]), shell: explicit() };
    assert_eq!(p.process(&no_config(), false), args(&["nix", "shell", "--command", "bash"]));
}

#[test]
fn processer_nix_develop() {
    let p = Develop { args: args(&[]), shell: explicit() };
    assert_eq!(p.process(&no_config(), false), args(&["nix", "develop", "--command", SHELL]));
}

#[test]
fn nix_develop_nixpkg() {
    let p = Develop { args: args(&["eza"]), shell: explicit() };
    assert_eq!(
        p.process(&no_config(), false),
        args(&["nix", "develop", "nixpkgs#eza", "--command", SHELL])
    );
}

#[test]
fn nix_develop_with_arg() {
    let p = Develop { args: args(&["--help"]), shell: explicit() };
    assert_eq!(
        p.process(&no_config(), false),
        args(&["nix", "develop", "--help", "--command", SHELL])
    );
}

#[test]
fn nix_develop_with_arg_nixpkg() {
    let p = Develop { args: args(&["eza", "--help"]), shell: explicit() };
    assert_eq!(
        p.process(&no_config(), false),
        args(&["nix", "develop", "nixpkgs#eza", "--help", "--command", SHELL])
    );
}

#[test]
fn nix_develop_with_shell_specified() {
    let p = Develop { args: args(&["--command", "bash"]), shell: explicit() };
    assert_eq!(p.process(&no_config(), false), args(&["nix", "develop", "--command", "bash"]));
}

fn expect_table<P: Processer>(table: &[(&str, &str)], make: impl Fn(Vec<String>) -> P) {
    for (k, v) in table {
        let input = from_string(k);
        let expected = from_string(v);
        let out = make(input.clone()).process(&no_config(), false);
        validate_processer_test(&input, &expected, &out).unwrap();
    }
}

fn fallback() -> ShellSpec {
    ShellSpec::Default(SHELL.to_string())
}

#[test]
fn processer_nix_run_table() {
    let table = [
        ("", "nix run"),
        ("eza", "nix run nixpkgs#eza"),
        ("eza to_nix --", "nix run nixpkgs#eza to_nix --"),
        ("eza to_program", "nix run nixpkgs#eza -- to_program"),
        ("eza -- to_program", "nix run nixpkgs#eza -- to_program"),
        ("eza to_nix -- to_program", "nix run nixpkgs#eza to_nix -- to_program"),
    ];
    expect_table(&table, |args| Run { args });
}

#[test]
fn processer_nix_shell_table() {
    let table = [
        ("", "nix shell --command zsh"),
        ("eza", "nix shell nixpkgs#eza --command zsh"),
        ("--help", "nix shell --help --command zsh"),
        ("eza --help", "nix shell nixpkgs#eza --help --command zsh"),
        ("--command bash", "nix shell --command bash"),
    ];
    expect_table(&table, |args| Shell { args, shell: fallback() });
}

#[test]
fn processer_nix_develop_table() {
    let table = [
        ("", "nix develop --command zsh"),
        ("eza", "nix develop nixpkgs#eza --command zsh"),
        ("--help", "nix develop --help --command zsh"),
        ("eza --help", "nix develop nixpkgs#eza --help --command zsh"),
        ("--command bash", "nix develop --command bash"),
    ];
    expect_table(&table, |args| Develop { args, shell: fallback() });
}

fn config(shell: &str, nested_flakes: bool) -> Option<ConfigFile> {
    Some(ConfigFile { shell: shell.to_string(), nested_flakes })
}

#[test]
fn shell_default_uses_configured_shell() {
    let p = Shell { args: args(&["eza"]), shell: fallback() };
    assert_eq!(
        p.process(&config("fish", false), false),
        args(&["nix", "shell", "nixpkgs#eza", "--command", "fish"])
    );
}

#[test]
fn shell_explicit_wins_over_config() {
    let p = Develop { args: args(&[]), shell: ShellSpec::Explicit("bash".to_string()) };
    assert_eq!(
        p.process(&config("fish", false), false),
        args(&["nix", "develop", "--command", "bash"])
    );
}

#[test]
fn shell_nested_flake_target() {
    let p = Shell { args: args(&[]), shell: fallback() };
    assert_eq!(
        p.process(&config("fish", true), true),
        args(&["nix", "shell", "./flake", "--command", "fish"])
    );
    let d = Develop { args: args(&[]), shell: fallback() };
    assert_eq!(
        d.process(&config("fish", true), true),
        args(&["nix", "develop", "./flake", "--command", "fish"])
    );
}

#[test]
fn shell_nested_flake_needs_config_and_file() {
    let p = Shell { args: args(&[]), shell: fallback() };
    assert_eq!(p.process(&config("fish", false), true), args(&["nix", "shell", "--command", "fish"]));
    assert_eq!(p.process(&config("fish", true), false), args(&["nix", "shell", "--command", "fish"]));
    assert_eq!(p.process(&no_config(), true), args(&["nix", "shell", "--command", "zsh"]));
}

#[test]
fn shell_nested_flake_ignored_with_package() {
    let p = Shell { args: args(&["eza"]), shell: fallback() };
    assert_eq!(
        p.process(&config("fish", true), true),
        args(&["nix", "shell", "nixpkgs#eza", "--command", "fish"])
    );
}

#[test]
fn shell_command_override_anywhere() {
    let p = Shell { args: args(&["eza", "--impure", "--command", "bash"]), shell: fallback() };
    assert_eq!(
        p.process(&config("fish", false), false),
        args(&["nix", "shell", "nixpkgs#eza", "--impure", "--command", "bash"])
    );
}

#[test]
fn shell_delimiter_passed_through() {
    let p = Shell { args: args(&["eza", "--", "x"]), shell: fallback() };
    assert_eq!(
        p.process(&no_config(), false),
        args(&["nix", "shell", "nixpkgs#eza", "--", "x", "--command", "zsh"])
    );
}

#[test]
fn run_ignores_config() {
    let p = Run { args: args(&["eza"]) };
    assert_eq!(p.process(&config("fish", true), true), args(&["nix", "run", "nixpkgs#eza"]));
}

#[test]
fn run_flag_first_not_formatted() {
    let p = Run { args: args(&["--impure", "x"]) };
    assert_eq!(p.process(&no_config(), false), args(&["nix", "run", "--impure", "--", "x"]));
}

#[test]
fn run_delimiter_once() {
    let inserted = Run { args: args(&["eza", "x"]) }.process(&no_config(), false);
    let explicit = Run { args: args(&["eza", "--", "x"]) }.process(&no_config(), false);
    assert_eq!(inserted, explicit);
    assert_eq!(inserted, args(&["nix", "run", "nixpkgs#eza", "--", "x"]));
}

#[test]
fn format_nixpkg_cases() {
    assert_eq!(format_nixpkg("eza"), "nixpkgs#eza");
    assert_eq!(format_nixpkg("-v"), "-v");
    assert_eq!(format_nixpkg(""), "nixpkgs#");
    assert_eq!(format_nixpkg("nixpkgs#eza"), "nixpkgs#nixpkgs#eza");
}

#[test]
fn scenario_expand_shell_default() {
    let p = Shell { args: args(&[]), shell: fallback() };
    assert_eq!(p.process(&no_config(), false), args(&["nix", "shell", "--command", "zsh"]));
}
