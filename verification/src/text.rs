//! Text operations used by the configuration reader: comparing, searching and
//! replacing within strings, over their character sequences.
use vstd::prelude::*;
use vstd::string::StrSliceExecFns;
use vstd::string::StringExecFns;

verus! {

/// Whether `pat` occurs in `s` at character position `i`.
pub open spec fn match_at(s: Seq<char>, pat: Seq<char>, i: int) -> bool {
    0 <= i && i + pat.len() <= s.len() && s.subrange(i, i + pat.len()) == pat
}

/// The first position at or after `i` where `pat` occurs in `s`.
pub open spec fn find_from(s: Seq<char>, pat: Seq<char>, i: int) -> Option<int>
    decreases s.len() - i,
{
    if i < 0 || i + pat.len() > s.len() {
        None
    } else if pat.len() == 0 || match_at(s, pat, i) {
        Some(i)
    } else {
        find_from(s, pat, i + 1)
    }
}

/// The number of bytes that the UTF-8 encoding of `c` takes.
pub open spec fn utf8_width(c: char) -> nat {
    if (c as u32) < 0x80 {
        1
    } else if (c as u32) < 0x800 {
        2
    } else if (c as u32) < 0x10000 {
        3
    } else {
        4
    }
}

/// The number of bytes that the UTF-8 encoding of `s` takes.
pub open spec fn utf8_len(s: Seq<char>) -> nat
    decreases s.len(),
{
    if s.len() == 0 {
        0
    } else {
        utf8_len(s.drop_last()) + utf8_width(s.last())
    }
}

/// The first `n` characters of `s`, or all of `s` when it is shorter.
pub open spec fn take_chars(s: Seq<char>, n: int) -> Seq<char> {
    if n < s.len() {
        s.take(n)
    } else {
        s
    }
}

/// `s` with every non-overlapping occurrence of `pat`, found from left to
/// right starting at position `i`, replaced by `rep`.
pub open spec fn replace_from(s: Seq<char>, pat: Seq<char>, rep: Seq<char>, i: int) -> Seq<char>
    decreases s.len() - i,
{
    if i < 0 || i >= s.len() {
        Seq::empty()
    } else if pat.len() > 0 && match_at(s, pat, i) {
        rep + replace_from(s, pat, rep, i + pat.len())
    } else {
        seq![s[i]] + replace_from(s, pat, rep, i + 1)
    }
}

/// `s` with every occurrence of the non-empty `pat` replaced by `rep`.
pub open spec fn replace_all(s: Seq<char>, pat: Seq<char>, rep: Seq<char>) -> Seq<char> {
    replace_from(s, pat, rep, 0)
}

/// Whether two strings hold the same characters.
pub fn str_eq(a: &str, b: &str) -> (r: bool)
    ensures
        r == (a@ == b@),
{
    a.to_owned() == b.to_owned()
}

/// The characters of `s`.
pub fn chars_of(s: &str) -> (r: Vec<char>)
    ensures
        r@ == s@,
{
    let n = s.unicode_len();
    let mut r: Vec<char> = Vec::new();
    let mut i: usize = 0;
    while i < n
        invariant
            n == s@.len(),
            i <= n,
            r@ == s@.take(i as int),
        decreases n - i,
    {
        let c = s.get_char(i);
        r.push(c);
        i = i + 1;
        proof {
            assert(r@ =~= s@.take(i as int));
        }
    }
    proof {
        assert(s@.take(n as int) =~= s@);
    }
    r
}

/// Whether `pat` occurs in `s` at position `i`.
fn match_at_exec(s: &Vec<char>, pat: &Vec<char>, i: usize) -> (r: bool)
    ensures
        r == match_at(s@, pat@, i as int),
{
    if i > s.len() || pat.len() > s.len() - i {
        return false;
    }
    let mut k: usize = 0;
    while k < pat.len()
        invariant
            k <= pat.len(),
            i + pat.len() <= s.len(),
            forall|m: int| 0 <= m < k ==> s@[i + m] == pat@[m],
        decreases pat.len() - k,
    {
        if s[i + k] != pat[k] {
            proof {
                assert(s@.subrange(i as int, i + pat.len())[k as int] != pat@[k as int]);
            }
            return false;
        }
        k = k + 1;
    }
    proof {
        assert(s@.subrange(i as int, i + pat.len()) =~= pat@);
    }
    true
}

/// The first position where `pat` occurs in `s`.
pub fn find_first(s: &Vec<char>, pat: &Vec<char>) -> (r: Option<usize>)
    ensures
        r matches Some(i) ==> find_from(s@, pat@, 0) == Some(i as int),
        r matches Some(i) ==> i + pat@.len() <= s@.len(),
        r is None ==> find_from(s@, pat@, 0) is None,
{
    if pat.len() > s.len() {
        return None;
    }
    let last = s.len() - pat.len();
    let mut i: usize = 0;
    while i <= last
        invariant
            last == s.len() - pat.len(),
            pat.len() <= s.len(),
            i <= last + 1,
            find_from(s@, pat@, 0) == find_from(s@, pat@, i as int),
        decreases last + 1 - i,
    {
        if pat.len() == 0 || match_at_exec(s, pat, i) {
            return Some(i);
        }
        i = i + 1;
    }
    None
}

/// The number of bytes that the UTF-8 encoding of `c` takes.
pub fn utf8_width_exec(c: char) -> (r: usize)
    ensures
        r == utf8_width(c),
{
    let v = c as u32;
    if v < 0x80 {
        1
    } else if v < 0x800 {
        2
    } else if v < 0x10000 {
        3
    } else {
        4
    }
}

/// The byte length of a prefix grows with the prefix.
proof fn lemma_utf8_len_monotonic(s: Seq<char>, i: int, j: int)
    requires
        0 <= i <= j <= s.len(),
    ensures
        utf8_len(s.take(i)) <= utf8_len(s.take(j)),
    decreases j - i,
{
    if i < j {
        lemma_utf8_len_monotonic(s, i, j - 1);
        assert(s.take(j).drop_last() =~= s.take(j - 1));
    }
}

/// The number of bytes that the UTF-8 encoding of the first `n` characters
/// of `s` takes, or `cap` when that is smaller.
pub fn utf8_prefix_len_capped(s: &Vec<char>, n: usize, cap: usize) -> (r: usize)
    requires
        n <= s.len(),
    ensures
        r == if utf8_len(s@.take(n as int)) < cap {
            utf8_len(s@.take(n as int))
        } else {
            cap as nat
        },
{
    let mut r: usize = 0;
    let mut i: usize = 0;
    while i < n
        invariant
            n <= s.len(),
            i <= n,
            r == utf8_len(s@.take(i as int)),
            r < cap || (r == 0 && cap == 0),
        decreases n - i,
    {
        proof {
            assert(s@.take(i + 1).drop_last() =~= s@.take(i as int));
        }
        if cap == 0 {
            proof {
                lemma_utf8_len_monotonic(s@, 0, n as int);
            }
            return 0;
        }
        let w = utf8_width_exec(s[i]);
        if w >= cap - r {
            proof {
                lemma_utf8_len_monotonic(s@, i + 1, n as int);
            }
            return cap;
        }
        r = r + w;
        i = i + 1;
    }
    if cap == 0 {
        proof {
            assert(s@.take(0) =~= Seq::<char>::empty());
            lemma_utf8_len_monotonic(s@, 0, n as int);
        }
        return 0;
    }
    r
}

/// `s` with every occurrence of the non-empty `pat` replaced by `rep`,
/// matches taken from left to right without overlap.
pub fn replace_all_exec(s: &str, pat: &str, rep: &str) -> (r: String)
    requires
        pat@.len() > 0,
    ensures
        r@ == replace_all(s@, pat@, rep@),
{
    let cs = chars_of(s);
    let ps = chars_of(pat);
    let mut r = String::new();
    let mut i: usize = 0;
    while i < cs.len()
        invariant
            cs@ == s@,
            ps@ == pat@,
            ps@.len() > 0,
            i <= cs.len(),
            r@ + replace_from(s@, pat@, rep@, i as int) == replace_from(s@, pat@, rep@, 0),
        decreases cs.len() - i,
    {
        if match_at_exec(&cs, &ps, i) {
            let ghost before = r@;
            r.append(rep);
            proof {
                assert(before + replace_from(s@, pat@, rep@, i as int) =~= r@ + replace_from(
                    s@,
                    pat@,
                    rep@,
                    i + ps.len(),
                ));
            }
            i = i + ps.len();
        } else {
            let ghost before = r@;
            let one = s.substring_char(i, i + 1);
            r.append(one);
            proof {
                assert(one@ =~= seq![s@[i as int]]);
                assert(before + replace_from(s@, pat@, rep@, i as int) =~= r@ + replace_from(
                    s@,
                    pat@,
                    rep@,
                    i + 1,
                ));
            }
            i = i + 1;
        }
    }
    proof {
        assert(r@ + replace_from(s@, pat@, rep@, i as int) =~= r@);
    }
    r
}

/// `a` followed by `b`.
pub fn concat_str(a: &str, b: &str) -> (r: String)
    ensures
        r@ == a@ + b@,
{
    let mut r = a.to_owned();
    r.append(b);
    r
}

} // verus!
