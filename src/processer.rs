//! The forward expansion: short `nf run|shell|develop` arguments to the full
//! `nix` argument vector.

use vstd::prelude::*;
use vstd::string::*;

use crate::cmd::{contains_flag, tokens_of};

verus! {

/// The settings read from the user's configuration file.
pub struct ConfigFile {
    /// The shell that `nix shell` and `nix develop` start by default.
    pub shell: String,
    /// Whether a flake kept under `./flake` is used when no package is named.
    pub nested_flakes: bool,
}

/// How the shell of `nix shell` / `nix develop` is chosen.
pub enum ShellSpec {
    /// The configured shell; the given name stands in when no configuration
    /// could be read.
    Default(String),
    /// A shell named by the user, which wins over any configuration.
    Explicit(String),
}

/// The shell name that follows `--command`.
pub open spec fn resolved_shell(shell: ShellSpec, config: Option<ConfigFile>) -> Seq<char> {
    match shell {
        ShellSpec::Explicit(s) => s@,
        ShellSpec::Default(fallback) => match config {
            Some(c) => c.shell@,
            None => fallback@,
        },
    }
}

/// A package name as a reference into nixpkgs; a token that starts with `-`
/// is a flag and stays as it is.
pub open spec fn format_pkg(p: Seq<char>) -> Seq<char> {
    if p.len() > 0 && p[0] == '-' {
        p
    } else {
        "nixpkgs#"@ + p
    }
}

/// The full vector of `nf run <args>`.
pub open spec fn run_expansion(args: Seq<Seq<char>>) -> Seq<Seq<char>> {
    if args.len() == 0 {
        seq!["nix"@, "run"@]
    } else {
        let head = seq!["nix"@, "run"@, format_pkg(args[0])];
        if args.len() == 1 {
            head
        } else if args.contains("--"@) {
            head + args.drop_first()
        } else {
            head.push("--"@) + args.drop_first()
        }
    }
}

/// The full vector of `nf <subcommand> <args>` for `shell` and `develop`.
pub open spec fn shell_expansion(
    subcommand: Seq<char>,
    args: Seq<Seq<char>>,
    shell: ShellSpec,
    config: Option<ConfigFile>,
    nested_flake: bool,
) -> Seq<Seq<char>> {
    let base = seq!["nix"@, subcommand];
    let target = if args.len() > 0 {
        base.push(format_pkg(args[0])) + args.drop_first()
    } else if config is Some && config->0.nested_flakes && nested_flake {
        base.push("./flake"@)
    } else {
        base
    };
    if args.contains("--command"@) {
        target
    } else {
        target + seq!["--command"@, resolved_shell(shell, config)]
    }
}

/// pkg -> nixpkgs#pkg, leaving flags alone.
pub fn format_nixpkg(pkg: &str) -> (r: String)
    ensures
        r@ == format_pkg(pkg@),
{
    if pkg.unicode_len() > 0 && pkg.get_char(0) == '-' {
        pkg.to_owned()
    } else {
        let mut r = "nixpkgs#".to_owned();
        r.append(pkg);
        r
    }
}

/// Appends `src[from..]` to `out`.
fn append_from(out: &mut Vec<String>, src: &Vec<String>, from: usize)
    requires
        from <= src@.len(),
    ensures
        tokens_of(final(out)@) == tokens_of(old(out)@) + tokens_of(src@).subrange(
            from as int,
            src@.len() as int,
        ),
{
    let ghost start = out@;
    let mut i: usize = from;
    while i < src.len()
        invariant
            from <= i <= src@.len(),
            tokens_of(out@) == tokens_of(start) + tokens_of(src@).subrange(from as int, i as int),
        decreases src@.len() - i,
    {
        let ghost before = out@;
        out.push(src[i].clone());
        assert(tokens_of(out@) =~= tokens_of(before).push(src@[i as int]@));
        assert(tokens_of(src@).subrange(from as int, i as int + 1) =~= tokens_of(src@).subrange(
            from as int,
            i as int,
        ).push(src@[i as int]@));
        i += 1;
    }
}

/// `nix <subcommand>`, the package or the nested flake, the remaining
/// arguments, and `--command <shell>` unless the arguments already name one.
pub fn expand_with_shell(
    subcommand: &str,
    args: &Vec<String>,
    shell: &ShellSpec,
    config: &Option<ConfigFile>,
    nested_flake: bool,
) -> (r: Vec<String>)
    ensures
        tokens_of(r@) == shell_expansion(subcommand@, tokens_of(args@), *shell, *config, nested_flake),
{
    let ghost a = tokens_of(args@);
    let mut out: Vec<String> = Vec::new();
    out.push("nix".to_owned());
    out.push(subcommand.to_owned());
    let ghost base = tokens_of(out@);
    assert(base =~= seq!["nix"@, subcommand@]);
    if args.len() > 0 {
        out.push(format_nixpkg(args[0].as_str()));
        assert(tokens_of(out@) =~= base.push(format_pkg(a[0])));
        append_from(&mut out, args, 1);
        assert(a.subrange(1, a.len() as int) =~= a.drop_first());
    } else {
        let nested = match config {
            Some(c) => c.nested_flakes && nested_flake,
            None => false,
        };
        if nested {
            let ghost before = out@;
            out.push("./flake".to_owned());
            assert(tokens_of(out@) =~= tokens_of(before).push("./flake"@));
        }
    }
    let ghost target = tokens_of(out@);
    if !contains_flag(args, "--command") {
        let name = match shell {
            ShellSpec::Explicit(s) => s.clone(),
            ShellSpec::Default(fallback) => match config {
                Some(c) => c.shell.clone(),
                None => fallback.clone(),
            },
        };
        out.push("--command".to_owned());
        out.push(name);
        assert(tokens_of(out@) =~= target + seq!["--command"@, resolved_shell(*shell, *config)]);
    }
    out
}

/// A short invocation that expands to a full `nix` argument vector.
pub trait Processer {
    /// The full argument vector, given the configuration (if one could be
    /// read) and whether `./flake/flake.nix` exists.
    spec fn expansion(&self, config: Option<ConfigFile>, nested_flake: bool) -> Seq<Seq<char>>;

    /// Computes the expansion.
    fn process(&self, config: &Option<ConfigFile>, nested_flake: bool) -> (r: Vec<String>)
        ensures
            tokens_of(r@) == self.expansion(*config, nested_flake),
    ;
}

/// `nf run <package> [args...]`
pub struct Run {
    /// The package followed by the arguments for `nix run` or the program.
    pub args: Vec<String>,
}

impl Processer for Run {
    open spec fn expansion(&self, config: Option<ConfigFile>, nested_flake: bool) -> Seq<
        Seq<char>,
    > {
        run_expansion(tokens_of(self.args@))
    }

    fn process(&self, config: &Option<ConfigFile>, nested_flake: bool) -> (r: Vec<String>) {
        let ghost a = tokens_of(self.args@);
        let mut out: Vec<String> = Vec::new();
        out.push("nix".to_owned());
        out.push("run".to_owned());
        if self.args.len() == 0 {
            assert(tokens_of(out@) =~= run_expansion(a));
            return out;
        }
        out.push(format_nixpkg(self.args[0].as_str()));
        let ghost head = tokens_of(out@);
        assert(head =~= seq!["nix"@, "run"@, format_pkg(a[0])]);
        if self.args.len() > 1 {
            if !contains_flag(&self.args, "--") {
                out.push("--".to_owned());
                assert(tokens_of(out@) =~= head.push("--"@));
            }
            append_from(&mut out, &self.args, 1);
            assert(a.subrange(1, a.len() as int) =~= a.drop_first());
        }
        out
    }
}

/// `nf shell [package] [args...]`
pub struct Shell {
    /// The package followed by the arguments for `nix shell`.
    pub args: Vec<String>,
    /// The shell to start.
    pub shell: ShellSpec,
}

impl Processer for Shell {
    open spec fn expansion(&self, config: Option<ConfigFile>, nested_flake: bool) -> Seq<
        Seq<char>,
    > {
        shell_expansion("shell"@, tokens_of(self.args@), self.shell, config, nested_flake)
    }

    fn process(&self, config: &Option<ConfigFile>, nested_flake: bool) -> (r: Vec<String>) {
        expand_with_shell("shell", &self.args, &self.shell, config, nested_flake)
    }
}

/// `nf develop [package] [args...]`
pub struct Develop {
    /// The package followed by the arguments for `nix develop`.
    pub args: Vec<String>,
    /// The shell to start.
    pub shell: ShellSpec,
}

impl Processer for Develop {
    open spec fn expansion(&self, config: Option<ConfigFile>, nested_flake: bool) -> Seq<
        Seq<char>,
    > {
        shell_expansion("develop"@, tokens_of(self.args@), self.shell, config, nested_flake)
    }

    fn process(&self, config: &Option<ConfigFile>, nested_flake: bool) -> (r: Vec<String>) {
        expand_with_shell("develop", &self.args, &self.shell, config, nested_flake)
    }
}

/// Whether a delimiter directly follows another delimiter.
pub open spec fn has_adjacent_delimiters(ts: Seq<Seq<char>>) -> bool {
    exists|i: int| 0 <= i && i + 1 < ts.len() && ts[i] == "--"@ && #[trigger] ts[i + 1] == "--"@
}

/// A token that starts with `-` is never given the `nixpkgs#` prefix: it
/// stands unchanged after the subcommand, in every mode.
pub proof fn lemma_flag_passthrough(
    args: Seq<Seq<char>>,
    sub: Seq<char>,
    shell: ShellSpec,
    config: Option<ConfigFile>,
    nested_flake: bool,
)
    requires
        args.len() > 0,
        args[0].len() > 0,
        args[0][0] == '-',
    ensures
        format_pkg(args[0]) == args[0],
        run_expansion(args)[2] == args[0],
        shell_expansion(sub, args, shell, config, nested_flake)[2] == args[0],
{
}

/// When the arguments already hold `--command`, no shell is appended: the
/// expansion is `nix <sub>`, the first argument formatted, and the rest as
/// given, whatever the shell choice and the configuration.
pub proof fn lemma_command_override(
    sub: Seq<char>,
    args: Seq<Seq<char>>,
    shell: ShellSpec,
    config: Option<ConfigFile>,
    nested_flake: bool,
)
    requires
        args.contains("--command"@),
    ensures
        shell_expansion(sub, args, shell, config, nested_flake) == seq!["nix"@, sub, format_pkg(
            args[0],
        )] + args.drop_first(),
{
}

/// An explicit delimiter after the package and an inserted one give the same
/// vector, with exactly one `--` before the program's argument.
pub proof fn lemma_delimiter_idempotent(p: Seq<char>, x: Seq<char>)
    requires
        p != "--"@,
        x != "--"@,
    ensures
        run_expansion(seq![p, "--"@, x]) == run_expansion(seq![p, x]),
        run_expansion(seq![p, x]) == seq!["nix"@, "run"@, format_pkg(p), "--"@, x],
{
    let a = seq![p, "--"@, x];
    let b = seq![p, x];
    assert(a[1] == "--"@);
    assert(a.drop_first() =~= seq!["--"@, x]);
    assert(b.drop_first() =~= seq![x]);
    if p == "--"@ {
        assert(b[0] == "--"@);
    } else {
        assert(!b.contains("--"@)) by {
            if b.contains("--"@) {
                let k = choose|k: int| 0 <= k < b.len() && b[k] == "--"@;
                assert(k == 0 || k == 1);
            }
        }
        assert(seq!["nix"@, "run"@, format_pkg(p)].push("--"@) + b.drop_first() =~= seq![
            "nix"@,
            "run"@,
            format_pkg(p),
            "--"@,
            x,
        ]);
    }
    assert(seq!["nix"@, "run"@, format_pkg(p)] + a.drop_first() =~= seq![
        "nix"@,
        "run"@,
        format_pkg(p),
        "--"@,
        x,
    ]);
}

/// Only the delimiter itself formats to the delimiter.
proof fn lemma_formatted_delimiter(p: Seq<char>)
    ensures
        format_pkg(p) == "--"@ ==> p == "--"@,
{
    reveal_strlit("--");
    reveal_strlit("nixpkgs#");
    if !(p.len() > 0 && p[0] == '-') {
        assert(format_pkg(p)[0] == 'n');
    }
}

/// `nf run` never puts two delimiters side by side unless its input did.
pub proof fn lemma_run_no_adjacent_delimiters(args: Seq<Seq<char>>)
    requires
        !has_adjacent_delimiters(args),
    ensures
        !has_adjacent_delimiters(run_expansion(args)),
{
    let r = run_expansion(args);
    if args.len() > 1 {
        let head = seq!["nix"@, "run"@, format_pkg(args[0])];
        let rest = args.drop_first();
        reveal_strlit("nix");
        reveal_strlit("run");
        reveal_strlit("--");
        assert("nix"@ != "--"@) by {
            assert("nix"@[0] != "--"@[0]);
        }
        assert("run"@ != "--"@) by {
            assert("run"@[0] != "--"@[0]);
        }
        if has_adjacent_delimiters(r) {
            let i = choose|i: int|
                0 <= i && i + 1 < r.len() && r[i] == "--"@ && #[trigger] r[i + 1] == "--"@;
            if args.contains("--"@) {
                assert(r =~= head + rest);
                if i == 2 {
                    assert(args[0] != "--"@ || args[1] != "--"@) by {
                        if args[0] == "--"@ && args[1] == "--"@ {
                            assert(args[0int + 1] == "--"@);
                        }
                    }
                    lemma_formatted_delimiter(args[0]);
                    assert(r[3] == args[1]);
                } else {
                    assert(i >= 3);
                    assert(r[i] == args[i - 2]);
                    assert(r[i + 1] == args[(i - 2) + 1]);
                }
            } else {
                assert(r =~= head.push("--"@) + rest);
                if i == 2 {
                    lemma_formatted_delimiter(args[0]);
                    assert(args.contains("--"@)) by {
                        assert(args[0] == "--"@);
                    }
                } else if i == 3 {
                    assert(r[4] == args[1]);
                    assert(args.contains("--"@)) by {
                        assert(args[1] == "--"@);
                    }
                } else {
                    assert(i >= 4);
                    assert(r[i] == args[i - 3]);
                    assert(args.contains("--"@)) by {
                        assert(args[i - 3] == "--"@);
                    }
                }
            }
        }
    } else if args.len() == 1 {
        reveal_strlit("nix");
        reveal_strlit("run");
        reveal_strlit("--");
        if has_adjacent_delimiters(r) {
            let i = choose|i: int|
                0 <= i && i + 1 < r.len() && r[i] == "--"@ && #[trigger] r[i + 1] == "--"@;
            assert(r[0] != "--"@ && r[1] != "--"@) by {
                assert("nix"@[0] != "--"@[0]);
                assert("run"@[0] != "--"@[0]);
            }
        }
    } else {
        reveal_strlit("nix");
        reveal_strlit("run");
        reveal_strlit("--");
        assert(r[0] != "--"@) by {
            assert("nix"@[0] != "--"@[0]);
        }
    }
}

} // verus!
