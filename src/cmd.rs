//! Token utilities: comparison of strings, joining and splitting of token
//! sequences, and flag lookup.

use vstd::prelude::*;
use vstd::string::*;

verus! {

/// The character-level view of a sequence of tokens.
pub open spec fn tokens_of(v: Seq<String>) -> Seq<Seq<char>> {
    Seq::new(v.len(), |i: int| v[i]@)
}

/// Whether `p` is a prefix of `s`.
pub open spec fn is_prefix_of(p: Seq<char>, s: Seq<char>) -> bool {
    p.len() <= s.len() && s.subrange(0, p.len() as int) == p
}

/// Decides `is_prefix_of(p@, s@)`.
pub fn has_prefix(s: &str, p: &str) -> (r: bool)
    ensures
        r == is_prefix_of(p@, s@),
{
    let n = s.unicode_len();
    let m = p.unicode_len();
    if m > n {
        return false;
    }
    let mut i: usize = 0;
    while i < m
        invariant
            m == p@.len(),
            n == s@.len(),
            m <= n,
            i <= m,
            forall|j: int| 0 <= j < i ==> s@[j] == p@[j],
        decreases m - i,
    {
        if s.get_char(i) != p.get_char(i) {
            assert(s@.subrange(0, m as int)[i as int] != p@[i as int]);
            return false;
        }
        i += 1;
    }
    assert(s@.subrange(0, m as int) =~= p@);
    true
}

/// Decides whether two strings hold the same characters.
pub fn str_eq(a: &str, b: &str) -> (r: bool)
    ensures
        r == (a@ == b@),
{
    if a.unicode_len() != b.unicode_len() {
        return false;
    }
    let r = has_prefix(a, b);
    assert(a@.subrange(0, a@.len() as int) =~= a@);
    r
}

/// Whether `flag` occurs among the tokens.
pub fn contains_flag(args: &Vec<String>, flag: &str) -> (r: bool)
    ensures
        r == tokens_of(args@).contains(flag@),
{
    let mut i: usize = 0;
    while i < args.len()
        invariant
            i <= args@.len(),
            forall|j: int| 0 <= j < i ==> args@[j]@ != flag@,
        decreases args@.len() - i,
    {
        if str_eq(args[i].as_str(), flag) {
            assert(tokens_of(args@)[i as int] == flag@);
            return true;
        }
        i += 1;
    }
    assert(!tokens_of(args@).contains(flag@)) by {
        if tokens_of(args@).contains(flag@) {
            let k = choose|k: int| 0 <= k < tokens_of(args@).len() && tokens_of(args@)[k] == flag@;
            assert(args@[k]@ == flag@);
        }
    }
    false
}

/// Whether two token sequences are equal, token by token.
pub fn tokens_eq(a: &Vec<String>, b: &Vec<String>) -> (r: bool)
    ensures
        r == (tokens_of(a@) == tokens_of(b@)),
{
    if a.len() != b.len() {
        assert(tokens_of(a@).len() != tokens_of(b@).len());
        return false;
    }
    let mut i: usize = 0;
    while i < a.len()
        invariant
            a@.len() == b@.len(),
            i <= a@.len(),
            forall|j: int| 0 <= j < i ==> a@[j]@ == b@[j]@,
        decreases a@.len() - i,
    {
        if a[i] != b[i] {
            assert(tokens_of(a@)[i as int] != tokens_of(b@)[i as int]);
            return false;
        }
        i += 1;
    }
    assert(tokens_of(a@) =~= tokens_of(b@));
    true
}

/// The tokens joined by single spaces.
pub open spec fn join_spaced(ts: Seq<Seq<char>>) -> Seq<char>
    decreases ts.len(),
{
    if ts.len() == 0 {
        Seq::empty()
    } else if ts.len() == 1 {
        ts[0]
    } else {
        join_spaced(ts.drop_last()) + seq![' '] + ts.last()
    }
}

/// Joins the tokens with single spaces, for display.
pub fn to_string(args: &Vec<String>) -> (r: String)
    ensures
        r@ == join_spaced(tokens_of(args@)),
{
    let mut out = String::new();
    let mut i: usize = 0;
    while i < args.len()
        invariant
            i <= args@.len(),
            out@ == join_spaced(tokens_of(args@).subrange(0, i as int)),
        decreases args@.len() - i,
    {
        let ghost before = tokens_of(args@).subrange(0, i as int);
        let ghost after = tokens_of(args@).subrange(0, i as int + 1);
        assert(after.drop_last() =~= before);
        if i > 0 {
            proof {
                reveal_strlit(" ");
            }
            out.append(" ");
            assert(" "@ =~= seq![' ']);
        } else {
            assert(out@ =~= Seq::<char>::empty());
        }
        out.append(args[i].as_str());
        i += 1;
    }
    assert(tokens_of(args@).subrange(0, args@.len() as int) =~= tokens_of(args@));
    out
}

/// Whether `c` has the Unicode `White_Space` property, the set of characters
/// that `char::is_whitespace` accepts.
pub open spec fn is_space(c: char) -> bool {
    let u = c as u32;
    (0x9 <= u && u <= 0xD) || u == 0x20 || u == 0x85 || u == 0xA0 || u == 0x1680 || (0x2000 <= u
        && u <= 0x200A) || u == 0x2028 || u == 0x2029 || u == 0x202F || u == 0x205F || u == 0x3000
}

/// Decides `is_space(c)`.
pub fn is_space_char(c: char) -> (r: bool)
    ensures
        r == is_space(c),
{
    let u = c as u32;
    (0x9 <= u && u <= 0xD) || u == 0x20 || u == 0x85 || u == 0xA0 || u == 0x1680 || (0x2000 <= u
        && u <= 0x200A) || u == 0x2028 || u == 0x2029 || u == 0x202F || u == 0x205F || u == 0x3000
}

/// The words of `s`: its maximal runs of non-whitespace characters, in order.
pub open spec fn words(s: Seq<char>) -> Seq<Seq<char>>
    decreases s.len(),
{
    if s.len() == 0 {
        Seq::empty()
    } else {
        let w = words(s.drop_last());
        let c = s.last();
        if is_space(c) {
            w
        } else if s.len() > 1 && !is_space(s[s.len() - 2]) {
            w.update(w.len() - 1, w.last().push(c))
        } else {
            w.push(seq![c])
        }
    }
}

/// Splits on runs of whitespace; leading and trailing whitespace yield no token.
pub fn from_string(args: &str) -> (r: Vec<String>)
    ensures
        tokens_of(r@) == words(args@),
{
    let n = args.unicode_len();
    let mut out: Vec<String> = Vec::new();
    let mut start: usize = 0;
    let mut i: usize = 0;
    while i < n
        invariant
            n == args@.len(),
            i <= n,
            start <= i,
            (i > 0 && !is_space(args@[i - 1])) ==> start < i && tokens_of(out@).push(
                args@.subrange(start as int, i as int),
            ) == words(args@.subrange(0, i as int)),
            !(i > 0 && !is_space(args@[i - 1])) ==> tokens_of(out@) == words(
                args@.subrange(0, i as int),
            ),
        decreases n - i,
    {
        let ghost pre = args@.subrange(0, i as int);
        let ghost next = args@.subrange(0, i as int + 1);
        assert(next.drop_last() =~= pre);
        assert(next.last() == args@[i as int]);
        let in_word = i > 0 && !is_space_char(args.get_char(i - 1));
        let c = args.get_char(i);
        if is_space_char(c) {
            if in_word {
                let w = args.substring_char(start, i).to_owned();
                let ghost before = out@;
                out.push(w);
                assert(tokens_of(out@) =~= tokens_of(before).push(w@));
            }
            assert(words(next) == words(pre));
        } else {
            if !in_word {
                start = i;
                assert(args@.subrange(start as int, i as int + 1) =~= seq![c]);
            } else {
                assert(next[next.len() - 2] == args@[i - 1]);
                assert(args@.subrange(start as int, i as int + 1) =~= args@.subrange(
                    start as int,
                    i as int,
                ).push(c));
                assert(words(next) =~= tokens_of(out@).push(
                    args@.subrange(start as int, i as int + 1),
                ));
            }
        }
        i += 1;
    }
    assert(args@.subrange(0, n as int) =~= args@);
    if n > 0 && !is_space_char(args.get_char(n - 1)) {
        let w = args.substring_char(start, n).to_owned();
        let ghost before = out@;
        out.push(w);
        assert(tokens_of(out@) =~= tokens_of(before).push(w@));
    }
    out
}

/// The message that describes a mismatch between an expected and an actual
/// token sequence produced from `input`.
pub open spec fn mismatch_report(
    input: Seq<Seq<char>>,
    expected: Seq<Seq<char>>,
    out: Seq<Seq<char>>,
) -> Seq<char> {
    "\n    Input: "@ + join_spaced(input) + "\n Expected: "@ + join_spaced(expected)
        + "\n   Actual: "@ + join_spaced(out)
}

/// Checks that `out` equals `expected`; on a mismatch the error holds a
/// message that shows the input, the expected and the actual tokens.
pub fn validate_processer_test(input: &Vec<String>, expected: &Vec<String>, out: &Vec<String>) -> (r:
    Result<(), String>)
    ensures
        r is Ok <==> tokens_of(expected@) == tokens_of(out@),
        r matches Err(m) ==> m@ == mismatch_report(
            tokens_of(input@),
            tokens_of(expected@),
            tokens_of(out@),
        ),
{
    if tokens_eq(expected, out) {
        return Ok(());
    }
    let mut m = String::new();
    m.append("\n    Input: ");
    m.append(to_string(input).as_str());
    m.append("\n Expected: ");
    m.append(to_string(expected).as_str());
    m.append("\n   Actual: ");
    m.append(to_string(out).as_str());
    assert(m@ =~= mismatch_report(tokens_of(input@), tokens_of(expected@), tokens_of(out@)));
    Err(m)
}

} // verus!
