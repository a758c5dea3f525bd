//! Building what a local child harness is started with: its shell check, its prompt and
//! its command line.
//!
//! A child harness runs as a subprocess of the user's shell. The task prompt is handed to
//! the harness's CLI as a single shell word, so it is single-quoted, with each `'` written
//! as `'\''`.

use vstd::prelude::*;
use crate::text::{chars_of, trim_bounds, trim_spec};

verus! {

/// The shell a session runs.
#[derive(Debug, Clone, Copy, PartialEq, Eq, Structural)]
pub enum ShellType {
    Bash,
    Zsh,
    Fish,
    PowerShell,
}

/// What a PowerShell session is told when a local child harness is requested.
pub open spec fn unsupported_shell_message() -> Seq<char> {
    "Local child harnesses currently require bash, zsh, or fish; PowerShell is not supported."@
}

/// What a session whose shell is not known is told.
pub open spec fn undetected_shell_message() -> Seq<char> {
    "Local child harnesses currently require a detected bash, zsh, or fish session."@
}

/// Checks that a local child harness can be started from a session running `shell`:
/// bash, zsh and fish can; PowerShell and an undetected shell cannot.
pub fn validate_local_harness_shell(shell: Option<ShellType>) -> (r: Result<(), String>)
    ensures
        match shell {
            Some(ShellType::PowerShell) => r matches Err(m) && m@ == unsupported_shell_message(),
            Some(_) => r is Ok,
            None => r matches Err(m) && m@ == undetected_shell_message(),
        },
{
    match shell {
        Some(ShellType::Bash) | Some(ShellType::Zsh) | Some(ShellType::Fish) => Ok(()),
        Some(ShellType::PowerShell) => Err(
            "Local child harnesses currently require bash, zsh, or fish; PowerShell is not supported.".to_owned(),
        ),
        None => Err(
            "Local child harnesses currently require a detected bash, zsh, or fish session.".to_owned(),
        ),
    }
}

/// The instructions that precede the task in a local child's prompt. The lead reads the
/// child's conversation on this machine, so the child's final response is its report;
/// there is no mailbox to write to and no reply to wait for.
pub open spec fn child_prompt_preamble() -> Seq<char> {
    "You are a child agent started by a lead agent on this machine. The lead reads this conversation locally, so your final response is your report: make it say what you did and what you found. There is no run mailbox for a local child, so do not try to send messages to one, and do not stand by for replies: none will arrive. Work on the task until it is done, then stop with your final response.\n\nTask:\n"@
}

/// The prompt a local child is started with: the instructions, then the task.
pub fn local_claude_child_prompt(task: &str) -> (r: String)
    ensures
        r@ == child_prompt_preamble() + task@,
{
    let mut prompt = String::from_str(
        "You are a child agent started by a lead agent on this machine. The lead reads this conversation locally, so your final response is your report: make it say what you did and what you found. There is no run mailbox for a local child, so do not try to send messages to one, and do not stand by for replies: none will arrive. Work on the task until it is done, then stop with your final response.\n\nTask:\n",
    );
    prompt.append(task);
    prompt
}

/// The characters of `s` as they stand between single quotes: each `'` closes the quote,
/// adds an escaped quote and reopens it.
pub open spec fn single_quote_escaped(s: Seq<char>) -> Seq<char>
    decreases s.len(),
{
    if s.len() == 0 {
        Seq::empty()
    } else {
        single_quote_escaped(s.drop_last()) + if s.last() == '\'' {
            seq!['\'', '\\', '\'', '\'']
        } else {
            seq![s.last()]
        }
    }
}

/// `s` as a single shell word.
pub open spec fn shell_quoted(s: Seq<char>) -> Seq<char> {
    seq!['\''] + single_quote_escaped(s) + seq!['\'']
}

/// Quotes `s` as a single shell word.
pub fn shell_quote(s: &str) -> (r: String)
    ensures
        r@ == shell_quoted(s@),
{
    let chars = chars_of(s);
    let mut out = String::from_str("'");
    proof {
        reveal_strlit("'");
    }
    let mut i: usize = 0;
    while i < chars.len()
        invariant
            chars@ == s@,
            i <= chars@.len(),
            out@ == seq!['\''] + single_quote_escaped(s@.take(i as int)),
        decreases chars.len() - i,
    {
        assert(s@.take(i + 1).drop_last() =~= s@.take(i as int));
        assert(s@.take(i + 1).last() == chars@[i as int]);
        if chars[i] == '\'' {
            out.append("'\\''");
            proof {
                reveal_strlit("'\\''");
            }
            assert("'\\''"@ =~= seq!['\'', '\\', '\'', '\'']);
        } else {
            let one = s.substring_char(i, i + 1);
            assert(one@ =~= seq![chars@[i as int]]);
            out.append(one);
        }
        i = i + 1;
        assert(out@ =~= seq!['\''] + single_quote_escaped(s@.take(i as int)));
    }
    assert(s@.take(i as int) =~= s@);
    out.append("'");
    proof {
        reveal_strlit("'");
    }
    assert(out@ =~= shell_quoted(s@));
    out
}

/// `r` with `c` in front, when there is one.
pub open spec fn prepend_char(c: char, r: Option<Seq<char>>) -> Option<Seq<char>> {
    match r {
        Some(v) => Some(seq![c] + v),
        None => None,
    }
}

/// `r` with `p` in front, when there is one.
pub open spec fn prepend_seq(p: Seq<char>, r: Option<Seq<char>>) -> Option<Seq<char>> {
    match r {
        Some(v) => Some(p + v),
        None => None,
    }
}

/// The argument the shell makes of the word `w` when it consists only of single-quoted
/// runs and backslash-escaped characters; `inside` says whether a single-quoted run is
/// open. `None` for any other word, and for one that leaves a quote open.
pub open spec fn shell_word_value(w: Seq<char>, inside: bool) -> Option<Seq<char>>
    decreases w.len(),
{
    if w.len() == 0 {
        if inside {
            None
        } else {
            Some(Seq::empty())
        }
    } else if inside {
        if w[0] == '\'' {
            shell_word_value(w.drop_first(), false)
        } else {
            prepend_char(w[0], shell_word_value(w.drop_first(), true))
        }
    } else if w[0] == '\'' {
        shell_word_value(w.drop_first(), true)
    } else if w[0] == '\\' && w.len() >= 2 {
        prepend_char(w[1], shell_word_value(w.skip(2), false))
    } else {
        None
    }
}

/// Escaping distributes over concatenation.
proof fn lemma_escaped_append(a: Seq<char>, b: Seq<char>)
    ensures
        single_quote_escaped(a + b) == single_quote_escaped(a) + single_quote_escaped(b),
    decreases b.len(),
{
    if b.len() == 0 {
        assert(a + b =~= a);
        assert(single_quote_escaped(a) + single_quote_escaped(b) =~= single_quote_escaped(a));
    } else {
        lemma_escaped_append(a, b.drop_last());
        assert((a + b).drop_last() =~= a + b.drop_last());
        assert((a + b).last() == b.last());
        let piece = if b.last() == '\'' {
            seq!['\'', '\\', '\'', '\'']
        } else {
            seq![b.last()]
        };
        assert(single_quote_escaped(a) + single_quote_escaped(b.drop_last()) + piece
            =~= single_quote_escaped(a) + (single_quote_escaped(b.drop_last()) + piece));
    }
}

/// Inside an open single-quoted run, the escaped characters of `s` followed by a closing
/// quote read back as `s`, and the shell goes on with `rest`.
proof fn lemma_escaped_reads_back(s: Seq<char>, rest: Seq<char>)
    ensures
        shell_word_value(single_quote_escaped(s) + seq!['\''] + rest, true) == prepend_seq(
            s,
            shell_word_value(rest, false),
        ),
    decreases s.len(),
{
    let w = single_quote_escaped(s) + seq!['\''] + rest;
    if s.len() == 0 {
        assert(single_quote_escaped(s) =~= Seq::<char>::empty());
        assert(w.drop_first() =~= rest);
        match shell_word_value(rest, false) {
            Some(v) => assert(s + v =~= v),
            None => {},
        }
    } else {
        let c = s[0];
        let t = s.drop_first();
        assert(s =~= seq![c] + t);
        lemma_escaped_append(seq![c], t);
        assert(seq![c].drop_last() =~= Seq::<char>::empty());
        assert(seq![c].last() == c);
        assert(single_quote_escaped(seq![c].drop_last()) == Seq::<char>::empty());
        lemma_escaped_reads_back(t, rest);
        let tail = single_quote_escaped(t) + seq!['\''] + rest;
        if c == '\'' {
            assert(single_quote_escaped(seq![c]) =~= seq!['\'', '\\', '\'', '\'']);
            assert(w =~= seq!['\'', '\\', '\''] + (seq!['\''] + tail));
            let w1 = w.drop_first();
            assert(w1 =~= seq!['\\', '\''] + (seq!['\''] + tail));
            let w2 = w1.skip(2);
            assert(w2 =~= seq!['\''] + tail);
            assert(w2.drop_first() =~= tail);
            assert(w[0] == '\'');
            assert(shell_word_value(w, true) == shell_word_value(w1, false));
            assert(w1[0] == '\\' && w1[1] == '\'' && w1.len() >= 2);
            assert(shell_word_value(w1, false) == prepend_char('\'', shell_word_value(w2, false)));
            assert(w2[0] == '\'');
            assert(shell_word_value(w2, false) == shell_word_value(tail, true));
        } else {
            assert(single_quote_escaped(seq![c]) =~= seq![c]);
            assert(w =~= seq![c] + tail);
            assert(w.drop_first() =~= tail);
            assert(w[0] == c);
            assert(shell_word_value(w, true) == prepend_char(c, shell_word_value(tail, true)));
        }
        match shell_word_value(rest, false) {
            Some(v) => assert(seq![c] + (t + v) =~= s + v),
            None => {},
        }
    }
}

/// Law: a quoted prompt reaches the CLI as exactly one argument holding exactly the prompt,
/// whatever quotes or shell syntax the prompt contains.
pub proof fn lemma_quoted_word_reads_back(s: Seq<char>)
    ensures
        shell_word_value(shell_quoted(s), false) == Some(s),
{
    let w = shell_quoted(s);
    lemma_escaped_reads_back(s, Seq::empty());
    assert(w.drop_first() =~= single_quote_escaped(s) + seq!['\''] + Seq::<char>::empty());
    assert(s + Seq::<char>::empty() =~= s);
}

/// The command line of a local OpenCode child: the prompt, quoted, as its `--prompt`.
pub fn build_local_opencode_child_command(prompt: &str) -> (r: String)
    ensures
        r@ == "opencode --prompt "@ + shell_quoted(prompt@),
{
    let mut command = String::from_str("opencode --prompt ");
    let quoted = shell_quote(prompt);
    command.append(quoted.as_str());
    command
}

/// The command line of a local Codex child: the prompt, quoted, after the flag that lets
/// it act without asking.
pub fn build_local_codex_child_command(prompt: &str) -> (r: String)
    ensures
        r@ == "codex --dangerously-bypass-approvals-and-sandbox "@ + shell_quoted(prompt@),
{
    let mut command = String::from_str("codex --dangerously-bypass-approvals-and-sandbox ");
    let quoted = shell_quote(prompt);
    command.append(quoted.as_str());
    command
}

/// The name an orchestrator gives a child agent, without surrounding white space; a name
/// that is empty or only white space is no name.
pub fn normalize_orchestrator_agent_name(name: &str) -> (r: Option<String>)
    ensures
        match r {
            Some(n) => n@ == trim_spec(name@) && n@.len() > 0,
            None => trim_spec(name@).len() == 0,
        },
{
    let chars = chars_of(name);
    let (lo, hi) = trim_bounds(&chars);
    if lo == hi {
        return None;
    }
    Some(name.substring_char(lo, hi).to_owned())
}

} // verus!
