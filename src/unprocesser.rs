//! The reverse expansion: a full `nix run|shell|develop` argument vector back
//! to the short `nf` form.

use vstd::prelude::*;
use vstd::string::*;

use crate::cmd::{has_prefix, is_prefix_of, str_eq, tokens_of};
use crate::processer::{format_pkg, run_expansion};

verus! {

/// What the reverse scan has gathered after some prefix of the arguments.
pub struct ScanState {
    /// Arguments meant for `nix` itself.
    pub nix_args: Seq<Seq<char>>,
    /// Arguments after the delimiter, meant for the program.
    pub program_args: Seq<Seq<char>>,
    /// The first package reference, without its `nixpkgs#` prefix.
    pub pkg: Option<Seq<char>>,
    /// The shell named after the first `--command`.
    pub shell: Option<Seq<char>>,
    /// No `--command` has been seen yet.
    pub looking_for_shell: bool,
    /// The previous token was the first `--command`.
    pub is_shell: bool,
    /// A delimiter has been seen.
    pub to_program: bool,
}

/// The state before any argument is read.
pub open spec fn scan_start() -> ScanState {
    ScanState {
        nix_args: Seq::empty(),
        program_args: Seq::empty(),
        pkg: None,
        shell: None,
        looking_for_shell: true,
        is_shell: false,
        to_program: false,
    }
}

/// Reads one argument.
pub open spec fn scan_step(st: ScanState, a: Seq<char>) -> ScanState {
    if st.looking_for_shell && a == "--command"@ {
        ScanState { looking_for_shell: false, is_shell: true, ..st }
    } else if !st.looking_for_shell && st.is_shell {
        ScanState { shell: Some(a), is_shell: false, ..st }
    } else if a == "--"@ {
        ScanState { to_program: true, ..st }
    } else if st.pkg is None && is_prefix_of("nixpkgs#"@, a) {
        ScanState { pkg: Some(a.skip(8)), ..st }
    } else if st.to_program {
        ScanState { program_args: st.program_args.push(a), ..st }
    } else {
        ScanState { nix_args: st.nix_args.push(a), ..st }
    }
}

/// Reads the arguments from left to right.
pub open spec fn scan(args: Seq<Seq<char>>) -> ScanState
    decreases args.len(),
{
    if args.len() == 0 {
        scan_start()
    } else {
        scan_step(scan(args.drop_last()), args.last())
    }
}

/// The short arguments rebuilt from a finished scan: `--shell <s>`, the
/// package, the `nix` arguments closed by one delimiter, then the program's.
pub open spec fn short_args(st: ScanState) -> Seq<Seq<char>> {
    let shell_part = match st.shell {
        Some(s) => seq!["--shell"@, s],
        None => Seq::empty(),
    };
    let pkg_part = match st.pkg {
        Some(p) => seq![p],
        None => Seq::empty(),
    };
    let nix_part = if st.nix_args.len() > 0 {
        st.nix_args.push("--"@)
    } else {
        st.nix_args
    };
    shell_part + pkg_part + nix_part + st.program_args
}

/// The arguments after the program and the subcommand.
pub open spec fn trailing(full: Seq<Seq<char>>) -> Seq<Seq<char>> {
    if full.len() >= 2 {
        full.skip(2)
    } else {
        Seq::empty()
    }
}

/// Whether `s` names a subcommand that can be reversed.
pub open spec fn is_subcommand(s: Seq<char>) -> bool {
    s == "run"@ || s == "shell"@ || s == "develop"@
}

/// Why a reversal failed.
#[derive(Debug, PartialEq, Eq, Structural)]
pub enum ReverseError {
    /// Fewer than two tokens: no program and subcommand.
    InvalidInput,
    /// The second token is not `run`, `shell` or `develop`.
    UnrecognizedSubcommand,
}

/// Reverses a full `nix` invocation: `nix run nixpkgs#hello` -> `nf run hello`.
pub struct UnProcesser {
    /// The full invocation, starting with the program name.
    pub args: Vec<String>,
}

/// The character-level view of an optional string.
pub open spec fn opt_view(o: Option<String>) -> Option<Seq<char>> {
    match o {
        Some(s) => Some(s@),
        None => None,
    }
}

/// The short form of `full` and the shell it named, or why there is none.
pub open spec fn reversal(full: Seq<Seq<char>>) -> Result<
    (Seq<Seq<char>>, Option<Seq<char>>),
    ReverseError,
> {
    if full.len() < 2 {
        Err(ReverseError::InvalidInput)
    } else if !is_subcommand(full[1]) {
        Err(ReverseError::UnrecognizedSubcommand)
    } else {
        let st = scan(full.skip(2));
        Ok((seq!["nf"@, full[1]] + short_args(st), st.shell))
    }
}

/// The character-level view of a reversal's result.
pub open spec fn reversal_view(r: Result<(Vec<String>, Option<String>), ReverseError>) -> Result<
    (Seq<Seq<char>>, Option<Seq<char>>),
    ReverseError,
> {
    match r {
        Ok((v, s)) => Ok((tokens_of(v@), opt_view(s))),
        Err(e) => Err(e),
    }
}

impl UnProcesser {
    /// Reverses the expansion: `nf`, the subcommand, then the short arguments;
    /// with the shell that a `--command` named, if any.
    pub fn unprocess(&self) -> (r: Result<(Vec<String>, Option<String>), ReverseError>)
        ensures
            reversal_view(r) == reversal(tokens_of(self.args@)),
    {
        if self.args.len() < 2 {
            return Err(ReverseError::InvalidInput);
        }
        let sub = self.args[1].as_str();
        if !(str_eq(sub, "run") || str_eq(sub, "shell") || str_eq(sub, "develop")) {
            return Err(ReverseError::UnrecognizedSubcommand);
        }
        let (args, shell) = self.get_args();
        let mut out: Vec<String> = Vec::new();
        out.push("nf".to_owned());
        out.push(self.args[1].clone());
        let ghost head = tokens_of(out@);
        assert(head =~= seq!["nf"@, tokens_of(self.args@)[1]]);
        let ghost tail = tokens_of(args@);
        let mut rest = args;
        out.append(&mut rest);
        assert(tokens_of(out@) =~= head + tail);
        assert(trailing(tokens_of(self.args@)) == tokens_of(self.args@).skip(2));
        Ok((out, shell))
    }

    /// The short arguments after the subcommand, and the shell that a
    /// `--command` named, if any.
    pub fn get_args(&self) -> (r: (Vec<String>, Option<String>))
        ensures
            tokens_of(r.0@) == short_args(scan(trailing(tokens_of(self.args@)))),
            opt_view(r.1) == scan(trailing(tokens_of(self.args@))).shell,
    {
        let ghost full = tokens_of(self.args@);
        let ghost rest = trailing(full);
        let mut nix_args: Vec<String> = Vec::new();
        let mut program_args: Vec<String> = Vec::new();
        let mut pkg: Option<String> = None;
        let mut shell: Option<String> = None;
        let mut looking_for_shell = true;
        let mut is_shell = false;
        let mut to_program = false;
        let mut i: usize = 2;
        proof {
            reveal_strlit("nixpkgs#");
            assert(rest.subrange(0, 0) =~= Seq::<Seq<char>>::empty());
            assert(tokens_of(nix_args@) =~= Seq::<Seq<char>>::empty());
            assert(tokens_of(program_args@) =~= Seq::<Seq<char>>::empty());
        }
        while i < self.args.len()
            invariant
                full == tokens_of(self.args@),
                rest == trailing(full),
                2 <= i,
                full.len() >= 2 ==> i <= full.len(),
                full.len() < 2 ==> i == 2,
                "nixpkgs#"@.len() == 8,
                (ScanState {
                    nix_args: tokens_of(nix_args@),
                    program_args: tokens_of(program_args@),
                    pkg: opt_view(pkg),
                    shell: opt_view(shell),
                    looking_for_shell,
                    is_shell,
                    to_program,
                }) == scan(rest.subrange(0, i - 2)),
            decreases self.args@.len() - i,
        {
            let ghost pre = rest.subrange(0, i - 2);
            let ghost next = rest.subrange(0, i - 1);
            assert(next.drop_last() =~= pre);
            assert(next.last() == self.args@[i as int]@);
            let a = self.args[i].as_str();
            let ghost na = tokens_of(nix_args@);
            let ghost pa = tokens_of(program_args@);
            if looking_for_shell && str_eq(a, "--command") {
                looking_for_shell = false;
                is_shell = true;
            } else if !looking_for_shell && is_shell {
                shell = Some(a.to_owned());
                is_shell = false;
            } else if str_eq(a, "--") {
                to_program = true;
            } else if pkg.is_none() && has_prefix(a, "nixpkgs#") {
                let n = a.unicode_len();
                let p = a.substring_char(8, n).to_owned();
                assert(p@ =~= a@.skip(8));
                pkg = Some(p);
            } else if to_program {
                program_args.push(a.to_owned());
                assert(tokens_of(program_args@) =~= pa.push(a@));
            } else {
                nix_args.push(a.to_owned());
                assert(tokens_of(nix_args@) =~= na.push(a@));
            }
            i += 1;
        }
        assert(i - 2 == rest.len());
        assert(rest.subrange(0, rest.len() as int) =~= rest);
        let ghost st = scan(rest);
        assert(tokens_of(program_args@) == st.program_args);
        let mut out: Vec<String> = Vec::new();
        match &shell {
            Some(s) => {
                out.push("--shell".to_owned());
                out.push(s.clone());
            },
            None => {},
        }
        let ghost shell_part = tokens_of(out@);
        match pkg {
            Some(p) => {
                out.push(p);
            },
            None => {},
        }
        let ghost pkg_part = tokens_of(out@);
        if nix_args.len() > 0 {
            nix_args.push("--".to_owned());
        }
        let ghost nix_part = tokens_of(nix_args@);
        out.append(&mut nix_args);
        let ghost with_nix = tokens_of(out@);
        assert(with_nix =~= pkg_part + nix_part);
        out.append(&mut program_args);
        assert(tokens_of(out@) =~= with_nix + st.program_args);
        assert(tokens_of(out@) =~= short_args(st));
        (out, shell)
    }
}

/// Once past the delimiter, with the package found and no `--command` seen,
/// tokens other than `--` and `--command` go to the program's arguments.
proof fn lemma_scan_program_tail(s: Seq<Seq<char>>, t: Seq<Seq<char>>)
    requires
        scan(s).to_program,
        scan(s).pkg is Some,
        scan(s).looking_for_shell,
        !scan(s).is_shell,
        !t.contains("--"@),
        !t.contains("--command"@),
    ensures
        scan(s + t) == (ScanState { program_args: scan(s).program_args + t, ..scan(s) }),
    decreases t.len(),
{
    if t.len() == 0 {
        assert(s + t =~= s);
        assert(scan(s).program_args + t =~= scan(s).program_args);
    } else {
        let t0 = t.drop_last();
        assert(!t0.contains("--"@)) by {
            if t0.contains("--"@) {
                let k = choose|k: int| 0 <= k < t0.len() && t0[k] == "--"@;
                assert(t[k] == "--"@);
            }
        }
        assert(!t0.contains("--command"@)) by {
            if t0.contains("--command"@) {
                let k = choose|k: int| 0 <= k < t0.len() && t0[k] == "--command"@;
                assert(t[k] == "--command"@);
            }
        }
        lemma_scan_program_tail(s, t0);
        assert((s + t).drop_last() =~= s + t0);
        assert((s + t).last() == t.last());
        assert(t.last() != "--"@ && t.last() != "--command"@) by {
            assert(t[t.len() - 1] == t.last());
        }
        assert(scan(s).program_args + t =~= (scan(s).program_args + t0).push(t.last()));
    }
}

/// Expanding `nf run p t...` and reversing it gives back `nf run p t...`
/// with no shell, when `p` is no flag and `t` holds neither `--` nor
/// `--command`. The delimiter that the expansion puts before `t` marks `t` as
/// the program's arguments, so none is added after `t`.
pub proof fn lemma_run_round_trip(p: Seq<char>, t: Seq<Seq<char>>)
    requires
        !(p.len() > 0 && p[0] == '-'),
        !t.contains("--"@),
        !t.contains("--command"@),
    ensures
        reversal(run_expansion(seq![p] + t)) == Ok::<
            (Seq<Seq<char>>, Option<Seq<char>>),
            ReverseError,
        >((seq!["nf"@, "run"@, p] + t, None)),
{
    reveal_strlit("nixpkgs#");
    reveal_strlit("--");
    reveal_strlit("--command");
    reveal_strlit("run");
    let args = seq![p] + t;
    let a = "nixpkgs#"@ + p;
    assert(format_pkg(p) == a);
    assert(args[0] == p);
    assert(args.drop_first() =~= t);
    assert(a[0] == 'n');
    assert(a != "--"@ && a != "--command"@) by {
        assert("--"@[0] == '-');
        assert("--command"@[0] == '-');
    }
    assert("--"@ != "--command"@) by {
        assert("--"@.len() != "--command"@.len());
    }
    assert(is_prefix_of("nixpkgs#"@, a)) by {
        assert(a.subrange(0, 8) =~= "nixpkgs#"@);
    }
    assert(a.skip(8) =~= p);
    assert(is_subcommand("run"@));
    let s1 = seq![a];
    assert(s1.drop_last() =~= Seq::<Seq<char>>::empty());
    let st1 = scan(s1);
    assert(scan(Seq::<Seq<char>>::empty()) == scan_start());
    assert(s1.last() == a);
    assert(st1 == scan_step(scan_start(), a));
    assert(st1 == (ScanState { pkg: Some(p), ..scan_start() }));
    if t.len() == 0 {
        assert(args =~= seq![p]);
        let full = run_expansion(args);
        assert(full =~= seq!["nix"@, "run"@, a]);
        assert(full.skip(2) =~= s1);
        assert(short_args(st1) =~= seq![p]);
        assert(seq!["nf"@, full[1]] + short_args(st1) =~= seq!["nf"@, "run"@, p] + t);
    } else {
        assert(args.len() > 1);
        assert(!args.contains("--"@)) by {
            if args.contains("--"@) {
                let k = choose|k: int| 0 <= k < args.len() && args[k] == "--"@;
                if k == 0 {
                    assert(p[0] == '-');
                } else {
                    assert(t[k - 1] == "--"@);
                }
            }
        }
        let full = run_expansion(args);
        assert(full =~= seq!["nix"@, "run"@, a, "--"@] + t);
        let s2 = seq![a, "--"@];
        assert(s2.drop_last() =~= s1);
        assert(full.skip(2) =~= s2 + t);
        let st2 = scan(s2);
        assert(st2 == (ScanState { to_program: true, ..st1 }));
        lemma_scan_program_tail(s2, t);
        let st = scan(s2 + t);
        assert(st.program_args =~= t);
        assert(short_args(st) =~= seq![p] + t);
        assert(seq!["nf"@, full[1]] + short_args(st) =~= seq!["nf"@, "run"@, p] + t);
    }
}

/// The package of a reversal always comes from a token that carried the
/// `nixpkgs#` prefix: a flag is never taken for a package.
pub proof fn lemma_pkg_from_prefixed(args: Seq<Seq<char>>)
    ensures
        scan(args).pkg matches Some(q) ==> args.contains("nixpkgs#"@ + q),
    decreases args.len(),
{
    reveal_strlit("nixpkgs#");
    if args.len() > 0 {
        let init = args.drop_last();
        lemma_pkg_from_prefixed(init);
        let a = args.last();
        match scan(init).pkg {
            Some(q) => {
                if scan(args).pkg is Some {
                    let k = choose|k: int| 0 <= k < init.len() && init[k] == "nixpkgs#"@ + q;
                    assert(args[k] == "nixpkgs#"@ + q);
                }
            },
            None => {
                if scan(args).pkg is Some {
                    assert("nixpkgs#"@ + a.skip(8) =~= a);
                    assert(args[args.len() - 1] == a);
                }
            },
        }
    }
}

} // verus!
