//! Small string rules of the launcher: escaping backticks in user input
//! before it is handed to a shell, and prefix classification.

use crate::text;
use vstd::prelude::*;
use vstd::string::StrSliceExecFns;

verus! {

/// The input with every backtick preceded by a backslash, so that the text
/// cannot open a shell command substitution.
pub open spec fn escape_spec(s: Seq<char>) -> Seq<char>
    decreases s.len(),
{
    if s.len() == 0 {
        Seq::empty()
    } else {
        (if s[0] == '`' {
            seq!['\\', '`']
        } else {
            seq![s[0]]
        }) + escape_spec(s.drop_first())
    }
}

/// Escapes every backtick in the input with a backslash.
pub fn escape_backticks(input: &str) -> (r: String)
    ensures
        r@ == escape_spec(input@),
{
    let chars = text::str_to_chars(input);
    let mut out: Vec<char> = Vec::new();
    proof {
        assert(chars@.skip(0) =~= chars@);
        assert(Seq::<char>::empty() + escape_spec(chars@) =~= escape_spec(chars@));
    }
    let mut i: usize = 0;
    while i < chars.len()
        invariant
            i <= chars@.len(),
            chars@ == input@,
            escape_spec(input@) == out@ + escape_spec(chars@.skip(i as int)),
        decreases chars@.len() - i,
    {
        proof {
            assert(chars@.skip(i as int)[0] == chars@[i as int]);
            assert(chars@.skip(i as int).drop_first() =~= chars@.skip(i + 1));
        }
        let ghost pre = out@;
        let c = chars[i];
        if c == '`' {
            out.push('\\');
            out.push('`');
            proof {
                assert(out@ =~= pre + seq!['\\', '`']);
                assert((pre + seq!['\\', '`']) + escape_spec(chars@.skip(i + 1)) =~= pre + (seq![
                    '\\',
                    '`',
                ] + escape_spec(chars@.skip(i + 1))));
            }
        } else {
            out.push(c);
            proof {
                assert(out@ =~= pre + seq![c]);
                assert((pre + seq![c]) + escape_spec(chars@.skip(i + 1)) =~= pre + (seq![c]
                    + escape_spec(chars@.skip(i + 1))));
            }
        }
        i += 1;
    }
    proof {
        assert(chars@.skip(chars@.len() as int) =~= Seq::<char>::empty());
        assert(out@ + Seq::<char>::empty() =~= out@);
    }
    text::chars_to_string(&out)
}

/// Whether `p` is a prefix of `s`.
pub open spec fn starts_with_spec(s: Seq<char>, p: Seq<char>) -> bool {
    p.len() <= s.len() && s.take(p.len() as int) == p
}

/// Whether `p` is a prefix of `s`, decided exactly.
pub fn starts_with(s: &str, p: &str) -> (r: bool)
    ensures
        r == starts_with_spec(s@, p@),
{
    let sn = s.unicode_len();
    let pn = p.unicode_len();
    if pn > sn {
        return false;
    }
    let mut j: usize = 0;
    while j < pn
        invariant
            j <= p@.len(),
            p@.len() <= s@.len(),
            s@.take(j as int) =~= p@.take(j as int),
        decreases p@.len() - j,
    {
        if s.get_char(j) != p.get_char(j) {
            proof {
                assert(s@.take(p@.len() as int)[j as int] == s@[j as int]);
            }
            return false;
        }
        proof {
            assert(s@.take(j + 1) =~= p@.take(j + 1));
        }
        j += 1;
    }
    proof {
        assert(p@.take(p@.len() as int) =~= p@);
    }
    true
}

/// Whether `s` starts with any of the given prefixes.
pub fn starts_with_any(s: &str, pats: &Vec<&str>) -> (r: bool)
    ensures
        r == exists|k: int| 0 <= k < pats@.len() && starts_with_spec(s@, #[trigger] pats@[k]@),
{
    let mut k: usize = 0;
    while k < pats.len()
        invariant
            k <= pats@.len(),
            forall|m: int| 0 <= m < k ==> !starts_with_spec(s@, #[trigger] pats@[m]@),
        decreases pats@.len() - k,
    {
        if starts_with(s, pats[k]) {
            return true;
        }
        k += 1;
    }
    false
}

} // verus!
