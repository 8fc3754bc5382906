//! Character-sequence utilities shared by the line editor, the screen and
//! the command-template substitution: conversions between `String`/`&str`
//! and `Vec<char>`, trimming, substring search, and placeholder replacement.

use vstd::prelude::*;
use vstd::string::StrSliceExecFns;
use vstd::string::StringExecFns;

verus! {

/// Relies on `String::push`: appends exactly the one character.
pub assume_specification[ String::push ](s: &mut String, ch: char)
    ensures
        final(s)@ == old(s)@.push(ch),
;

/// The characters of a string slice, in order.
pub fn str_to_chars(s: &str) -> (r: Vec<char>)
    ensures
        r@ == s@,
{
    let n = s.unicode_len();
    let mut r: Vec<char> = Vec::new();
    for i in 0..n
        invariant
            n == s@.len(),
            r@ == s@.take(i as int),
    {
        r.push(s.get_char(i));
        proof {
            assert(r@ =~= s@.take(i + 1));
        }
    }
    proof {
        assert(s@.take(n as int) =~= s@);
    }
    r
}

/// The string holding exactly the given characters, in order.
pub fn chars_to_string(v: &Vec<char>) -> (s: String)
    ensures
        s@ == v@,
{
    let mut s = String::new();
    for i in 0..v.len()
        invariant
            s@ == v@.take(i as int),
    {
        s.push(v[i]);
        proof {
            assert(s@ =~= v@.take(i + 1));
        }
    }
    proof {
        assert(v@.take(v@.len() as int) =~= v@);
    }
    s
}

/// The string holding exactly the one given character.
pub fn char_to_string(c: char) -> (s: String)
    ensures
        s@ == seq![c],
{
    let mut s = String::new();
    s.push(c);
    proof {
        assert(s@ =~= seq![c]);
    }
    s
}

/// Whitespace as the trim operations understand it: the Unicode
/// `White_Space` set, the same characters `str::trim` removes — the ASCII
/// blanks, NEL, NBSP, the Ogham space mark, the U+2000 spaces, the line
/// and paragraph separators, NNBSP, MMSP, and the ideographic space.
pub open spec fn is_blank(c: char) -> bool {
    let u = c as u32;
    ||| u == 0x9
    ||| u == 0xA
    ||| u == 0xB
    ||| u == 0xC
    ||| u == 0xD
    ||| u == 0x20
    ||| u == 0x85
    ||| u == 0xA0
    ||| u == 0x1680
    ||| (0x2000 <= u && u <= 0x200A)
    ||| u == 0x2028
    ||| u == 0x2029
    ||| u == 0x202F
    ||| u == 0x205F
    ||| u == 0x3000
}

/// Exec test for [`is_blank`].
pub fn is_blank_char(c: char) -> (b: bool)
    ensures
        b == is_blank(c),
{
    let u: u32 = c as u32;
    u == 0x9 || u == 0xA || u == 0xB || u == 0xC || u == 0xD || u == 0x20 || u == 0x85 || u == 0xA0
        || u == 0x1680 || (0x2000 <= u && u <= 0x200A) || u == 0x2028 || u == 0x2029 || u == 0x202F
        || u == 0x205F || u == 0x3000
}

/// The sequence with its leading blanks removed.
pub open spec fn trim_front(s: Seq<char>) -> Seq<char>
    decreases s.len(),
{
    if s.len() > 0 && is_blank(s[0]) {
        trim_front(s.drop_first())
    } else {
        s
    }
}

/// The sequence with its trailing blanks removed.
pub open spec fn trim_back(s: Seq<char>) -> Seq<char>
    decreases s.len(),
{
    if s.len() > 0 && is_blank(s.last()) {
        trim_back(s.drop_last())
    } else {
        s
    }
}

/// The sequence with leading and trailing blanks removed.
pub open spec fn trim_spec(s: Seq<char>) -> Seq<char> {
    trim_back(trim_front(s))
}

proof fn lemma_trim_front_skip(s: Seq<char>, a: int)
    requires
        0 <= a <= s.len(),
        forall|j: int| 0 <= j < a ==> is_blank(s[j]),
        a < s.len() ==> !is_blank(s[a]),
    ensures
        trim_front(s) == s.skip(a),
    decreases a,
{
    if a == 0 {
        assert(s.skip(0) =~= s);
    } else {
        assert(s.drop_first() =~= s.skip(1));
        lemma_trim_front_skip(s.skip(1), a - 1);
        assert(s.skip(1).skip(a - 1) =~= s.skip(a));
    }
}

proof fn lemma_trim_back_take(s: Seq<char>, b: int)
    requires
        0 <= b <= s.len(),
        forall|j: int| b <= j < s.len() ==> is_blank(s[j]),
        b > 0 ==> !is_blank(s[b - 1]),
    ensures
        trim_back(s) == s.take(b),
    decreases s.len() - b,
{
    if b == s.len() as int {
        assert(s.take(b) =~= s);
    } else {
        assert(s.drop_last() =~= s.take(s.len() - 1));
        lemma_trim_back_take(s.take(s.len() - 1), b);
        assert(s.take(s.len() - 1).take(b) =~= s.take(b));
    }
}

/// The characters with leading and trailing blanks removed.
pub fn trim_chars(v: &Vec<char>) -> (r: Vec<char>)
    ensures
        r@ == trim_spec(v@),
{
    let n = v.len();
    let mut a: usize = 0;
    while a < n && is_blank_char(v[a])
        invariant
            a <= n,
            forall|j: int| 0 <= j < a ==> is_blank(v@[j]),
        decreases n - a,
    {
        a += 1;
    }
    proof {
        lemma_trim_front_skip(v@, a as int);
    }
    let mut b: usize = n;
    while b > a && is_blank_char(v[b - 1])
        invariant
            a <= b <= n,
            forall|j: int| b <= j < n ==> is_blank(v@[j]),
        decreases b,
    {
        b -= 1;
    }
    proof {
        if b == a {
            // everything after the leading blanks is blank
            lemma_trim_back_take(v@.skip(a as int), 0);
        } else {
            lemma_trim_back_take(v@.skip(a as int), b - a);
        }
    }
    let mut r: Vec<char> = Vec::new();
    let mut i: usize = a;
    while i < b
        invariant
            a <= i <= b,
            r@ == v@.subrange(a as int, i as int),
        decreases b - i,
    {
        r.push(v[i]);
        proof {
            assert(r@ =~= v@.subrange(a as int, i + 1));
        }
        i += 1;
    }
    proof {
        assert(v@.skip(a as int).take(b - a) =~= v@.subrange(a as int, b as int));
    }
    r
}

/// Whether the needle occurs in the haystack starting at position `i`.
pub open spec fn contains_at(h: Seq<char>, n: Seq<char>, i: int) -> bool {
    0 <= i && i + n.len() <= h.len() && h.subrange(i, i + n.len()) == n
}

/// Whether the needle occurs anywhere in the haystack.
pub open spec fn contains_seq(h: Seq<char>, n: Seq<char>) -> bool {
    exists|i: int| contains_at(h, n, i)
}

/// Whether the needle occurs in the haystack, decided exactly.
pub fn find_sub(h: &Vec<char>, n: &Vec<char>) -> (r: bool)
    ensures
        r == contains_seq(h@, n@),
{
    if n.len() > h.len() {
        proof {
            assert(forall|i: int| !contains_at(h@, n@, i));
        }
        return false;
    }
    if n.len() == 0 {
        proof {
            assert(h@.subrange(0, 0) =~= n@);
            assert(contains_at(h@, n@, 0));
        }
        return true;
    }
    let last = h.len() - n.len();
    let mut i: usize = 0;
    let mut found = false;
    while !found && i <= last
        invariant
            i <= last + 1,
            found ==> contains_seq(h@, n@),
            !found ==> forall|k: int| 0 <= k < i ==> !contains_at(h@, n@, k),
        decreases last + 1 - i + (if found {
            0int
        } else {
            1int
        }),
    {
        let mut j: usize = 0;
        let mut hit = true;
        while j < n.len()
            invariant
                j <= n@.len(),
                hit ==> h@.subrange(i as int, i + j) =~= n@.take(j as int),
                !hit ==> !contains_at(h@, n@, i as int),
            decreases n@.len() - j,
        {
            if h[i + j] != n[j] {
                proof {
                    assert(h@.subrange(i as int, i + n@.len())[j as int] == h@[i + j]);
                }
                hit = false;
                j = n.len();
            } else {
                proof {
                    if hit {
                        assert(h@.subrange(i as int, i + j + 1) =~= n@.take(j + 1));
                    }
                }
                j += 1;
            }
        }
        if hit {
            proof {
                assert(n@.take(n@.len() as int) =~= n@);
                assert(contains_at(h@, n@, i as int));
            }
            found = true;
        } else {
            i += 1;
        }
    }
    proof {
        if !found {
            assert(forall|k: int| contains_at(h@, n@, k) ==> 0 <= k <= last);
        }
    }
    found
}

/// The sequence with every non-overlapping occurrence of `pat`, found left
/// to right, replaced by `rep`; an empty `pat` leaves the sequence as it is.
pub open spec fn replace_spec(s: Seq<char>, pat: Seq<char>, rep: Seq<char>) -> Seq<char>
    decreases s.len(),
{
    if pat.len() == 0 || s.len() < pat.len() {
        s
    } else if s.take(pat.len() as int) == pat {
        rep + replace_spec(s.skip(pat.len() as int), pat, rep)
    } else {
        seq![s[0]] + replace_spec(s.drop_first(), pat, rep)
    }
}

/// The characters with every occurrence of `pat` replaced by `rep`.
#[verifier::rlimit(60)]
pub fn replace_chars(s: &Vec<char>, pat: &Vec<char>, rep: &Vec<char>) -> (r: Vec<char>)
    ensures
        r@ == replace_spec(s@, pat@, rep@),
{
    if pat.len() == 0 {
        let mut r: Vec<char> = Vec::new();
        let mut i: usize = 0;
        while i < s.len()
            invariant
                i <= s@.len(),
                r@ == s@.take(i as int),
            decreases s@.len() - i,
        {
            r.push(s[i]);
            proof {
                assert(r@ =~= s@.take(i + 1));
            }
            i += 1;
        }
        proof {
            assert(s@.take(s@.len() as int) =~= s@);
        }
        return r;
    }
    let mut out: Vec<char> = Vec::new();
    let mut i: usize = 0;
    proof {
        assert(s@.skip(0) =~= s@);
        assert(Seq::<char>::empty() + replace_spec(s@, pat@, rep@) =~= replace_spec(
            s@,
            pat@,
            rep@,
        ));
    }
    while i < s.len()
        invariant
            i <= s@.len(),
            pat@.len() > 0,
            replace_spec(s@, pat@, rep@) == out@ + replace_spec(s@.skip(i as int), pat@, rep@),
        decreases s@.len() - i,
    {
        let remaining = s.len() - i;
        let mut matched = remaining >= pat.len();
        if matched {
            let mut j: usize = 0;
            while j < pat.len()
                invariant
                    i + pat@.len() <= s@.len(),
                    j <= pat@.len(),
                    matched ==> s@.subrange(i as int, i + j) =~= pat@.take(j as int),
                    !matched ==> s@.skip(i as int).take(pat@.len() as int) != pat@,
                decreases pat@.len() - j,
            {
                if s[i + j] != pat[j] {
                    proof {
                        assert(s@.skip(i as int).take(pat@.len() as int)[j as int] == s@[i + j]);
                    }
                    matched = false;
                    j = pat.len();
                } else {
                    proof {
                        if matched {
                            assert(s@.subrange(i as int, i + j + 1) =~= pat@.take(j + 1));
                        }
                    }
                    j += 1;
                }
            }
        }
        if matched {
            proof {
                assert(s@.skip(i as int).take(pat@.len() as int) =~= s@.subrange(
                    i as int,
                    i + pat@.len(),
                ));
                assert(s@.subrange(i as int, i + pat@.len()) =~= pat@.take(pat@.len() as int));
                assert(pat@.take(pat@.len() as int) =~= pat@);
                assert(s@.skip(i as int).skip(pat@.len() as int) =~= s@.skip(i + pat@.len()));
            }
            let ghost base = out@;
            let mut j: usize = 0;
            while j < rep.len()
                invariant
                    j <= rep@.len(),
                    out@ == base + rep@.take(j as int),
                decreases rep@.len() - j,
            {
                out.push(rep[j]);
                proof {
                    assert(out@ =~= base + rep@.take(j + 1));
                }
                j += 1;
            }
            proof {
                assert(rep@.take(rep@.len() as int) =~= rep@);
                assert((base + rep@) + replace_spec(s@.skip(i + pat@.len()), pat@, rep@) =~= base
                    + (rep@ + replace_spec(s@.skip(i + pat@.len()), pat@, rep@)));
            }
            i += pat.len();
        } else {
            proof {
                let ghost base = out@;
                let tail = replace_spec(s@.skip(i + 1), pat@, rep@);
                if remaining < pat.len() {
                    assert(s@.skip(i as int) =~= seq![s@[i as int]] + s@.skip(i + 1));
                    assert(s@.skip(i + 1).len() < pat@.len());
                } else {
                    assert(s@.skip(i as int)[0] == s@[i as int]);
                    assert(s@.skip(i as int).drop_first() =~= s@.skip(i + 1));
                }
                assert(replace_spec(s@.skip(i as int), pat@, rep@) == seq![s@[i as int]] + tail);
                assert(base.push(s@[i as int]) =~= base + seq![s@[i as int]]);
                assert((base + seq![s@[i as int]]) + tail =~= base + (seq![s@[i as int]] + tail));
            }
            out.push(s[i]);
            i += 1;
        }
    }
    proof {
        assert(s@.skip(s@.len() as int) =~= Seq::<char>::empty());
    }
    out
}

/// The string with every occurrence of `pat` replaced by `rep`.
pub fn replace_str(s: &str, pat: &str, rep: &str) -> (r: String)
    ensures
        r@ == replace_spec(s@, pat@, rep@),
{
    let sc = str_to_chars(s);
    let pc = str_to_chars(pat);
    let rc = str_to_chars(rep);
    let out = replace_chars(&sc, &pc, &rc);
    chars_to_string(&out)
}

} // verus!
