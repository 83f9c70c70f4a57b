//! Command composition for the external search backend: a raw command
//! string is split on whitespace into the executable and its baseline
//! flags; the literal query is appended as a single, never re-tokenized
//! argument; an optional glob filter and an optional trailing path token
//! follow. The composed vector is ready for direct execution, with no shell
//! interpretation in between.

use vstd::prelude::*;

verus! {

/// Whitespace, for splitting a command string into tokens.
pub open spec fn is_space(c: char) -> bool {
    c == ' ' || c == '\t' || c == '\n' || c == '\r'
}

/// The whitespace-separated tokens of `s`, given the partial token `cur`
/// read so far.
pub open spec fn tokens_from(s: Seq<char>, cur: Seq<char>) -> Seq<Seq<char>>
    decreases s.len(),
{
    if s.len() == 0 {
        if cur.len() == 0 {
            Seq::empty()
        } else {
            seq![cur]
        }
    } else if is_space(s[0]) {
        if cur.len() == 0 {
            tokens_from(s.drop_first(), cur)
        } else {
            seq![cur] + tokens_from(s.drop_first(), Seq::empty())
        }
    } else {
        tokens_from(s.drop_first(), cur.push(s[0]))
    }
}

/// The whitespace-separated tokens of `s`.
pub open spec fn whitespace_tokens(s: Seq<char>) -> Seq<Seq<char>> {
    tokens_from(s, Seq::empty())
}

/// Split a command string on whitespace into its tokens.
pub fn tokenize(s: &str) -> (r: Vec<String>)
    ensures
        r.deep_view() == whitespace_tokens(s@),
{
    let n = s.unicode_len();
    let mut out: Vec<String> = Vec::new();
    let mut i: usize = 0;
    let mut start: usize = 0;
    let mut in_token: bool = false;
    proof {
        assert(s@.skip(0) =~= s@);
        assert(out.deep_view() + tokens_from(s@, Seq::empty()) =~= whitespace_tokens(s@));
    }
    while i < n
        invariant
            n == s@.len(),
            0 <= i <= n,
            in_token ==> start < i,
            out.deep_view() + tokens_from(
                s@.skip(i as int),
                if in_token {
                    s@.subrange(start as int, i as int)
                } else {
                    Seq::<char>::empty()
                },
            ) == whitespace_tokens(s@),
        decreases n - i,
    {
        let c = s.get_char(i);
        let ghost cur = if in_token {
            s@.subrange(start as int, i as int)
        } else {
            Seq::<char>::empty()
        };
        proof {
            assert(s@.skip(i as int)[0] == s@[i as int]);
            assert(s@.skip(i as int).drop_first() =~= s@.skip(i + 1));
        }
        if c == ' ' || c == '\t' || c == '\n' || c == '\r' {
            if in_token {
                let tok = String::from_str(s.substring_char(start, i));
                let ghost old_out = out.deep_view();
                out.push(tok);
                in_token = false;
                proof {
                    assert(out.deep_view() =~= old_out + seq![cur]);
                    assert(old_out + (seq![cur] + tokens_from(s@.skip(i + 1), Seq::empty()))
                        =~= (old_out + seq![cur]) + tokens_from(s@.skip(i + 1), Seq::empty()));
                }
            }
        } else {
            if !in_token {
                start = i;
                in_token = true;
            }
            proof {
                assert(s@.subrange(start as int, i + 1) =~= cur.push(s@[i as int]));
            }
        }
        i = i + 1;
    }
    proof {
        assert(s@.skip(n as int) =~= Seq::<char>::empty());
    }
    if in_token {
        let tok = String::from_str(s.substring_char(start, n));
        let ghost old_out = out.deep_view();
        out.push(tok);
        proof {
            assert(out.deep_view() =~= old_out + seq![s@.subrange(start as int, n as int)]);
        }
    } else {
        proof {
            assert(out.deep_view() + Seq::<Seq<char>>::empty() =~= out.deep_view());
        }
    }
    out
}

/// A composed search invocation: the full argument vector (the first token
/// names the executable), the working directory (ambient when absent), the
/// preview bound and the decoration flag handed through to the executor.
pub struct SearchRequest {
    pub args: Vec<String>,
    pub dir: Option<String>,
    pub number: Option<usize>,
    pub enable_icon: bool,
}

/// The composed argument vector: the command string's tokens, then the
/// query as one token, then the glob flag and glob when one is given, then
/// the trailing path token when the platform policy asks for one.
pub open spec fn composed_args(
    cmd: Seq<char>,
    query: Seq<char>,
    glob: Option<Seq<char>>,
    path_token: bool,
) -> Seq<Seq<char>> {
    let base = whitespace_tokens(cmd) + seq![query];
    let with_glob = match glob {
        Some(g) => base + seq![seq!['-', 'g'], g],
        None => base,
    };
    if path_token {
        with_glob + seq![seq!['.']]
    } else {
        with_glob
    }
}

/// Compose a search request from a raw command string. The query is
/// appended as a single token, never re-tokenized, so no character of it
/// is subject to shell escaping; the glob filter, when given, follows as a
/// flag and a literal token; `path_token` is the platform policy that asks
/// for an explicit trailing path when none is given.
pub fn run(
    grep_cmd: String,
    grep_query: &str,
    glob: Option<&str>,
    cmd_dir: Option<String>,
    number: Option<usize>,
    enable_icon: bool,
    path_token: bool,
) -> (r: SearchRequest)
    requires
        whitespace_tokens(grep_cmd@).len() > 0,
    ensures
        r.args.deep_view() == composed_args(
            grep_cmd@,
            grep_query@,
            match glob {
                Some(g) => Some(g@),
                None => None,
            },
            path_token,
        ),
        r.args.deep_view()[0] == whitespace_tokens(grep_cmd@)[0],
        r.dir == cmd_dir,
        r.number == number,
        r.enable_icon == enable_icon,
{
    let mut args = tokenize(grep_cmd.as_str());
    let ghost base = whitespace_tokens(grep_cmd@);
    args.push(String::from_str(grep_query));
    proof {
        assert(args.deep_view() =~= base + seq![grep_query@]);
    }
    if let Some(g) = glob {
        let ghost before = args.deep_view();
        args.push(String::from_str("-g"));
        args.push(String::from_str(g));
        proof {
            reveal_strlit("-g");
            assert("-g"@ =~= seq!['-', 'g']);
            assert(args.deep_view() =~= before + seq![seq!['-', 'g'], g@]);
        }
    }
    if path_token {
        let ghost before = args.deep_view();
        args.push(String::from_str("."));
        proof {
            reveal_strlit(".");
            assert("."@ =~= seq!['.']);
            assert(args.deep_view() =~= before + seq![seq!['.']]);
        }
    }
    SearchRequest { args: args, dir: cmd_dir, number: number, enable_icon: enable_icon }
}

} // verus!
