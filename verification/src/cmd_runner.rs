//! The process runner's verifiable half: classifying a command string as
//! interactive or capturing, the argv of the pty-wrapping launcher, and the
//! reassembly of a captured output stream from its lines. The spawning,
//! piping and per-stream reader threads live outside the library and hand
//! their lines back as plain values.

use crate::utils;
use vstd::prelude::*;
use vstd::string::StringExecFns;

verus! {

/// How a command is run: an interactive program takes the terminal over;
/// a script has its output captured line by line while still streaming to
/// the terminal.
#[derive(Clone, Copy, Debug, PartialEq, Eq, Structural)]
pub enum CmdType {
    Interactive,
    Script,
}

/// The classification rule: a command starting with a known interactive
/// program's name (an editor, a pager, a fuzzy finder) is interactive;
/// everything else is a capturing script.
pub open spec fn classify_spec(s: Seq<char>) -> CmdType {
    if utils::starts_with_spec(s, "hx"@) || utils::starts_with_spec(s, "vi"@)
        || utils::starts_with_spec(s, "fzf"@) {
        CmdType::Interactive
    } else {
        CmdType::Script
    }
}

impl CmdType {
    /// Classifies a command string; never fails.
    pub fn from_str(s: &str) -> (r: Result<CmdType, ()>)
        ensures
            r matches Ok(t) && t == classify_spec(s@),
    {
        let mut pats: Vec<&str> = Vec::new();
        pats.push("hx");
        pats.push("vi");
        pats.push("fzf");
        if utils::starts_with_any(s, &pats) {
            proof {
                let k = choose|k: int|
                    0 <= k < pats@.len() && utils::starts_with_spec(s@, #[trigger] pats@[k]@);
                if k == 0 {
                    assert(utils::starts_with_spec(s@, "hx"@));
                } else if k == 1 {
                    assert(utils::starts_with_spec(s@, "vi"@));
                } else {
                    assert(utils::starts_with_spec(s@, "fzf"@));
                }
            }
            Ok(CmdType::Interactive)
        } else {
            proof {
                assert(!utils::starts_with_spec(s@, pats@[0]@));
                assert(!utils::starts_with_spec(s@, pats@[1]@));
                assert(!utils::starts_with_spec(s@, pats@[2]@));
            }
            Ok(CmdType::Script)
        }
    }
}

/// The concatenation of the given lines, in order, with nothing between
/// them — how a capturing reader accumulates its own stream.
pub open spec fn concat_texts(ls: Seq<Seq<char>>) -> Seq<char>
    decreases ls.len(),
{
    if ls.len() == 0 {
        Seq::empty()
    } else {
        ls[0] + concat_texts(ls.drop_first())
    }
}

/// Reassembles what one concurrent reader captured from its own stream:
/// exactly the lines that stream emitted, in emission order — a function of
/// that stream alone, untouched by whatever the other stream produced.
pub fn capture_lines(lines: &Vec<String>) -> (r: String)
    ensures
        r@ == concat_texts(lines.deep_view()),
{
    let mut s = String::new();
    let ghost dv = lines.deep_view();
    proof {
        assert(dv.skip(0) =~= dv);
        assert(Seq::<char>::empty() + concat_texts(dv) =~= concat_texts(dv));
    }
    let mut i: usize = 0;
    while i < lines.len()
        invariant
            i <= lines@.len(),
            concat_texts(dv) == s@ + concat_texts(dv.skip(i as int)),
        decreases lines@.len() - i,
    {
        proof {
            assert(dv.skip(i as int)[0] == dv[i as int]);
            assert(dv.skip(i as int).drop_first() =~= dv.skip(i + 1));
        }
        let ghost pre = s@;
        s.append(lines[i].as_str());
        proof {
            assert((pre + dv[i as int]) + concat_texts(dv.skip(i + 1)) =~= pre + (dv[i as int]
                + concat_texts(dv.skip(i + 1))));
        }
        i += 1;
    }
    proof {
        assert(dv.skip(lines@.len() as int) =~= Seq::<Seq<char>>::empty());
        assert(s@ + Seq::<char>::empty() =~= s@);
    }
    s
}

/// The text echoed to the live terminal for one captured line: the line
/// followed by CR LF, raw mode's line break.
pub fn echo_line(line: &str) -> (r: String)
    ensures
        r@ == line@ + "\r\n"@,
{
    let mut s = String::from_str(line);
    s.append("\r\n");
    s
}

/// The argv of the pty-wrapping launcher for one shell command:
/// `script -qec "<command>" /dev/null`, chosen so the child believes it is
/// attached to an interactive terminal even when its output is piped.
pub fn launcher_invocation(cmd_str: &str) -> (r: Vec<String>)
    ensures
        r.deep_view() == seq!["script"@, "-qec"@, cmd_str@, "/dev/null"@],
{
    let mut r: Vec<String> = Vec::new();
    r.push(String::from_str("script"));
    r.push(String::from_str("-qec"));
    r.push(String::from_str(cmd_str));
    r.push(String::from_str("/dev/null"));
    proof {
        assert(r.deep_view() =~= seq!["script"@, "-qec"@, cmd_str@, "/dev/null"@]);
    }
    r
}

} // verus!
