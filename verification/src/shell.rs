//! The shell a command string is handed to, and the heuristic that picks
//! the shell's "run a string" flag from the executable's basename.
use vstd::prelude::*;
use crate::text::str_eq;

verus! {

/// Path or name of the shell executable that runs the command strings.
pub struct Shell(pub String);

/// `s` with every backslash turned into a forward slash, so that one
/// separator convention covers both path styles.
pub open spec fn norm_slashes(s: Seq<char>) -> Seq<char>
    decreases s.len(),
{
    if s.len() == 0 {
        s
    } else {
        seq![if s[0] == '\\' { '/' } else { s[0] }] + norm_slashes(s.drop_first())
    }
}

/// `s` with every occurrence of `.exe` removed, scanning left to right.
pub open spec fn strip_exe(s: Seq<char>) -> Seq<char>
    decreases s.len(),
{
    if s.len() >= 4 && s.take(4) == ".exe"@ {
        strip_exe(s.skip(4))
    } else if s.len() == 0 {
        s
    } else {
        seq![s[0]] + strip_exe(s.drop_first())
    }
}

/// The part of `s` after its last slash; all of `s` when it has none.
pub open spec fn basename(s: Seq<char>) -> Seq<char>
    decreases s.len(),
{
    if s.len() == 0 {
        s
    } else if s[s.len() - 1] == '/' {
        Seq::empty()
    } else {
        basename(s.drop_last()).push(s[s.len() - 1])
    }
}

/// When no slash stands at or after `start`, and a slash stands right
/// before it (unless `start` is zero), the basename is the suffix of `s`
/// from `start` on.
proof fn lemma_basename_suffix(s: Seq<char>, start: int)
    requires
        0 <= start <= s.len(),
        forall|j: int| start <= j < s.len() ==> s[j] != '/',
        start > 0 ==> s[start - 1] == '/',
    ensures
        basename(s) == s.skip(start),
    decreases s.len(),
{
    if s.len() == start {
        if start == 0 {
            assert(basename(s) =~= s.skip(0));
        } else {
            assert(s[s.len() - 1] == '/');
            assert(basename(s) =~= s.skip(start));
        }
    } else {
        assert(s[s.len() - 1] != '/');
        let head = s.drop_last();
        lemma_basename_suffix(head, start);
        assert(basename(s) == head.skip(start).push(s[s.len() - 1]));
        assert(head.skip(start).push(s[s.len() - 1]) =~= s.skip(start));
    }
}

fn norm_slashes_exec(s: &str) -> (r: String)
    ensures
        r@ == norm_slashes(s@),
{
    let n = s.unicode_len();
    let mut out = String::new();
    let mut i: usize = 0;
    proof {
        assert(s@.skip(0) =~= s@);
        assert(norm_slashes(s@) =~= out@ + norm_slashes(s@));
    }
    while i < n
        invariant
            n == s@.len(),
            i <= n,
            norm_slashes(s@) == out@ + norm_slashes(s@.skip(i as int)),
        decreases n - i,
    {
        let ghost prev = out@;
        let c = s.get_char(i);
        if c == '\\' {
            out.push('/');
        } else {
            out.push(c);
        }
        proof {
            let rest = s@.skip(i as int);
            assert(rest[0] == s@[i as int]);
            assert(rest.drop_first() =~= s@.skip(i + 1));
            assert(out@ =~= prev + seq![if s@[i as int] == '\\' { '/' } else { s@[i as int] }]);
            assert(norm_slashes(s@) =~= out@ + norm_slashes(s@.skip(i + 1)));
        }
        i = i + 1;
    }
    proof {
        assert(norm_slashes(s@.skip(n as int)) =~= Seq::<char>::empty());
        assert(norm_slashes(s@) =~= out@);
    }
    out
}

fn strip_exe_exec(s: &str) -> (r: String)
    ensures
        r@ == strip_exe(s@),
{
    let n = s.unicode_len();
    let mut out = String::new();
    let mut i: usize = 0;
    proof {
        assert(s@.skip(0) =~= s@);
        assert(strip_exe(s@) =~= out@ + strip_exe(s@));
    }
    while i < n
        invariant
            n == s@.len(),
            i <= n,
            strip_exe(s@) == out@ + strip_exe(s@.skip(i as int)),
        decreases n - i,
    {
        let ghost prev = out@;
        let ghost rest = s@.skip(i as int);
        if n - i >= 4 && s.get_char(i) == '.' && s.get_char(i + 1) == 'e' && s.get_char(i + 2)
            == 'x' && s.get_char(i + 3) == 'e' {
            proof {
                reveal_strlit(".exe");
                assert(rest.take(4) =~= ".exe"@);
                assert(rest.skip(4) =~= s@.skip(i + 4));
            }
            i = i + 4;
        } else {
            let c = s.get_char(i);
            out.push(c);
            proof {
                reveal_strlit(".exe");
                if rest.len() >= 4 && rest.take(4) == ".exe"@ {
                    assert(rest[0] == '.' && rest[1] == 'e' && rest[2] == 'x' && rest[3] == 'e')
                        by {
                        assert(rest.take(4)[0] == '.');
                        assert(rest.take(4)[1] == 'e');
                        assert(rest.take(4)[2] == 'x');
                        assert(rest.take(4)[3] == 'e');
                    }
                    assert(false);
                }
                assert(rest[0] == s@[i as int]);
                assert(rest.drop_first() =~= s@.skip(i + 1));
                assert(out@ =~= prev + seq![s@[i as int]]);
                assert(strip_exe(s@) =~= out@ + strip_exe(s@.skip(i + 1)));
            }
            i = i + 1;
        }
    }
    proof {
        assert(strip_exe(s@.skip(n as int)) =~= Seq::<char>::empty());
        assert(strip_exe(s@) =~= out@);
    }
    out
}

fn basename_exec(s: &str) -> (r: String)
    ensures
        r@ == basename(s@),
{
    let n = s.unicode_len();
    let mut start: usize = 0;
    let mut i: usize = 0;
    while i < n
        invariant
            n == s@.len(),
            i <= n,
            start <= i,
            forall|j: int| start <= j < i ==> s@[j] != '/',
            start > 0 ==> s@[start - 1] == '/',
        decreases n - i,
    {
        if s.get_char(i) == '/' {
            start = i + 1;
        }
        i = i + 1;
    }
    proof {
        lemma_basename_suffix(s@, start as int);
    }
    let tail = s.substring_char(start, n);
    proof {
        assert(tail@ =~= s@.skip(start as int));
    }
    tail.to_owned()
}

impl Shell {
    /// The single flag this shell takes before a command string: the
    /// basename of the executable (separators normalized, `.exe` removed)
    /// picks the spelling.
    pub open spec fn flag_spec(self) -> Seq<char> {
        let base = basename(strip_exe(norm_slashes(self.0@)));
        if base == "cmd"@ {
            "/C"@
        } else if base == "powershell"@ {
            "/Command"@
        } else {
            "-c"@
        }
    }

    /// Picks the flag that makes this shell run a command string.
    pub fn get_command_arg(&self) -> (r: String)
        ensures
            r@ == self.flag_spec(),
    {
        let normed = norm_slashes_exec(self.0.as_str());
        let stripped = strip_exe_exec(normed.as_str());
        let base = basename_exec(stripped.as_str());
        if str_eq(base.as_str(), "cmd") {
            String::from_str("/C")
        } else if str_eq(base.as_str(), "powershell") {
            String::from_str("/Command")
        } else {
            String::from_str("-c")
        }
    }
}

} // verus!
