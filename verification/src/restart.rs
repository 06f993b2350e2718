//! Restarting the program: the command that starts it again once the
//! running process has exited.
use vstd::prelude::*;
use crate::text::{to_owned_string, push_str, push_char, string_views};

verus! {

/// `s` with each `'` written as `'\''`, so that inside single quotes the
/// shell reads it back as `s`.
pub open spec fn escape_quotes(s: Seq<char>) -> Seq<char>
    decreases s.len(),
{
    if s.len() == 0 {
        Seq::empty()
    } else {
        escape_quotes(s.drop_last()) + if s.last() == '\'' { "'\\''"@ } else { seq![s.last()] }
    }
}

/// `s` as one shell word: in single quotes, which keep every character as
/// it is.
pub open spec fn shell_word(s: Seq<char>) -> Seq<char> {
    "'"@ + escape_quotes(s) + "'"@
}

/// The shell words of `args`, one space apart.
pub open spec fn shell_words(args: Seq<Seq<char>>) -> Seq<char>
    decreases args.len(),
{
    if args.len() == 0 {
        Seq::empty()
    } else {
        shell_words(args.drop_last()) + " "@ + shell_word(args.last())
    }
}

/// The shell command that restarts the program: after three seconds, the
/// executable `exe` with the arguments `args`, each passed as one quoted
/// word, its output going to `meshbbs.log`, run in the background.
pub open spec fn restart_line_spec(exe: Seq<char>, args: Seq<Seq<char>>) -> Seq<char> {
    "(sleep 3; "@ + shell_word(exe) + shell_words(args) + " > meshbbs.log 2>&1) &"@
}

/// Appends `s` to `out` as one shell word (see [`shell_word`]).
fn push_shell_word(out: &mut String, s: &str)
    ensures
        final(out)@ == old(out)@ + shell_word(s@),
{
    push_str(out, "'");
    let ghost head = out@;
    let n = s.unicode_len();
    let mut i: usize = 0;
    while i < n
        invariant
            i <= n,
            n == s@.len(),
            out@ == head + escape_quotes(s@.take(i as int)),
        decreases n - i,
    {
        let c = s.get_char(i);
        proof {
            assert(s@.take(i + 1).drop_last() =~= s@.take(i as int));
            assert(s@.take(i + 1).last() == c);
        }
        if c == '\'' {
            push_str(out, "'\\''");
        } else {
            push_char(out, c);
        }
        assert(out@ =~= head + escape_quotes(s@.take(i + 1)));
        i = i + 1;
    }
    assert(s@.take(n as int) =~= s@);
    push_str(out, "'");
    assert(final(out)@ =~= old(out)@ + shell_word(s@));
}

/// The restart command for `exe` run with `args` (see [`restart_line_spec`]).
pub fn restart_command_line(exe: &str, args: &[String]) -> (r: String)
    ensures
        r@ == restart_line_spec(exe@, string_views(args@)),
{
    let mut out = to_owned_string("(sleep 3; ");
    push_shell_word(&mut out, exe);
    let ghost head = out@;
    let ghost all = string_views(args@);
    let n = args.len();
    let mut i: usize = 0;
    while i < n
        invariant
            i <= n,
            n == args@.len(),
            all == string_views(args@),
            out@ == head + shell_words(all.take(i as int)),
        decreases n - i,
    {
        proof {
            assert(all.take(i + 1).drop_last() =~= all.take(i as int));
            assert(all[i as int] == args@[i as int]@);
        }
        push_str(&mut out, " ");
        push_shell_word(&mut out, args[i].as_str());
        assert(out@ =~= head + shell_words(all.take(i + 1)));
        i = i + 1;
    }
    assert(all.take(n as int) =~= all);
    push_str(&mut out, " > meshbbs.log 2>&1) &");
    assert(out@ =~= restart_line_spec(exe@, all));
    out
}

} // verus!
