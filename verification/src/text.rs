//! Character-level scanning primitives shared by the two decoders: the
//! whitespace predicate, first-occurrence search, trimming, and splitting
//! on a separator character or on runs of whitespace.

use vstd::prelude::*;
use vstd::string::StrSliceExecFns;

verus! {

/// The whitespace recognized by the decoder: the characters with the
/// Unicode `White_Space` property, the set that surrounding-whitespace
/// trimming and whitespace splitting of text conventionally use. Only the
/// literal space character delimits segments; this wider set governs
/// trimming and parameter splitting.
pub open spec fn is_wsp(c: char) -> bool {
    c == ' ' || c == '\t' || c == '\n' || c == '\u{b}' || c == '\u{c}' || c == '\r' || c == '\u{85}'
        || c == '\u{a0}' || c == '\u{1680}' || c == '\u{2000}' || c == '\u{2001}' || c == '\u{2002}'
        || c == '\u{2003}' || c == '\u{2004}' || c == '\u{2005}' || c == '\u{2006}'
        || c == '\u{2007}' || c == '\u{2008}' || c == '\u{2009}' || c == '\u{200a}'
        || c == '\u{2028}' || c == '\u{2029}' || c == '\u{202f}' || c == '\u{205f}'
        || c == '\u{3000}'
}

/// Executable form of [`is_wsp`].
pub fn is_wsp_char(c: char) -> (r: bool)
    ensures
        r == is_wsp(c),
{
    c == ' ' || c == '\t' || c == '\n' || c == '\u{b}' || c == '\u{c}' || c == '\r' || c == '\u{85}'
        || c == '\u{a0}' || c == '\u{1680}' || c == '\u{2000}' || c == '\u{2001}' || c == '\u{2002}'
        || c == '\u{2003}' || c == '\u{2004}' || c == '\u{2005}' || c == '\u{2006}'
        || c == '\u{2007}' || c == '\u{2008}' || c == '\u{2009}' || c == '\u{200a}'
        || c == '\u{2028}' || c == '\u{2029}' || c == '\u{202f}' || c == '\u{205f}'
        || c == '\u{3000}'
}

/// Index of the first occurrence of `c` in `s`, or `-1` when `c` does not
/// occur at all.
pub open spec fn find_char(s: Seq<char>, c: char) -> int
    decreases s.len(),
{
    if s.len() == 0 {
        -1
    } else if s[0] == c {
        0
    } else {
        let r = find_char(s.subrange(1, s.len() as int), c);
        if r == -1 {
            -1
        } else {
            r + 1
        }
    }
}

/// `find_char` returns either `-1` (no occurrence anywhere) or the position
/// of an occurrence that no earlier position matches.
pub proof fn lemma_find_char_props(s: Seq<char>, c: char)
    ensures
        -1 <= find_char(s, c) < s.len(),
        find_char(s, c) >= 0 ==> s[find_char(s, c)] == c,
        forall|j: int| 0 <= j < find_char(s, c) ==> s[j] != c,
        find_char(s, c) == -1 ==> forall|j: int| 0 <= j < s.len() ==> s[j] != c,
    decreases s.len(),
{
    if s.len() == 0 {
    } else if s[0] == c {
    } else {
        let t = s.subrange(1, s.len() as int);
        lemma_find_char_props(t, c);
        let ft = find_char(t, c);
        if ft == -1 {
            assert forall|j: int| 0 <= j < s.len() implies s[j] != c by {
                if j >= 1 {
                    assert(s[j] == t[j - 1]);
                }
            }
        } else {
            assert(s[ft + 1] == t[ft]);
            assert forall|j: int| 0 <= j < ft + 1 implies s[j] != c by {
                if j >= 1 {
                    assert(s[j] == t[j - 1]);
                }
            }
        }
    }
}

/// The first occurrence determines `find_char`: if `c` stands at `i` and
/// nowhere earlier, then `find_char` is exactly `i`.
pub proof fn lemma_find_char_at(s: Seq<char>, c: char, i: int)
    requires
        0 <= i < s.len(),
        s[i] == c,
        forall|j: int| 0 <= j < i ==> s[j] != c,
    ensures
        find_char(s, c) == i,
{
    lemma_find_char_props(s, c);
    let r = find_char(s, c);
    if r == -1 {
        assert(s[i] != c);
    } else if r < i {
        assert(s[r] != c);
    } else if r > i {
        assert(s[i] != c);
    }
}

/// When `c` occurs nowhere in `s`, `find_char` is `-1`.
pub proof fn lemma_find_char_absent(s: Seq<char>, c: char)
    requires
        forall|j: int| 0 <= j < s.len() ==> s[j] != c,
    ensures
        find_char(s, c) == -1,
{
    lemma_find_char_props(s, c);
    if find_char(s, c) >= 0 {
        assert(s[find_char(s, c)] == c);
    }
}

/// Executable search for the first occurrence of `c` in `s`.
pub fn find_char_in(s: &str, c: char) -> (r: Option<usize>)
    ensures
        match r {
            Some(i) => i as int == find_char(s@, c) && i < s@.len(),
            None => find_char(s@, c) == -1,
        },
{
    let n = s.unicode_len();
    let mut i: usize = 0;
    while i < n
        invariant
            i <= n,
            n == s@.len(),
            forall|j: int| 0 <= j < i ==> s@[j] != c,
        decreases n - i,
    {
        if s.get_char(i) == c {
            proof {
                lemma_find_char_at(s@, c, i as int);
            }
            return Some(i);
        }
        i = i + 1;
    }
    proof {
        lemma_find_char_absent(s@, c);
    }
    None
}

/// `s` without its leading whitespace.
pub open spec fn trim_start_spec(s: Seq<char>) -> Seq<char>
    decreases s.len(),
{
    if s.len() > 0 && is_wsp(s[0]) {
        trim_start_spec(s.subrange(1, s.len() as int))
    } else {
        s
    }
}

/// `s` without its trailing whitespace.
pub open spec fn trim_end_spec(s: Seq<char>) -> Seq<char>
    decreases s.len(),
{
    if s.len() > 0 && is_wsp(s[s.len() - 1]) {
        trim_end_spec(s.subrange(0, s.len() - 1))
    } else {
        s
    }
}

/// `s` without leading and trailing whitespace.
pub open spec fn spec_trim(s: Seq<char>) -> Seq<char> {
    trim_end_spec(trim_start_spec(s))
}

/// Executable trim: the narrowest view of `s` that drops exactly the
/// leading and trailing whitespace.
pub fn trim_str<'a>(s: &'a str) -> (r: &'a str)
    ensures
        r@ == spec_trim(s@),
{
    let n = s.unicode_len();
    proof {
        assert(s@.subrange(0, n as int) =~= s@);
    }
    let mut a: usize = 0;
    while a < n && is_wsp_char(s.get_char(a))
        invariant
            a <= n,
            n == s@.len(),
            trim_start_spec(s@) == trim_start_spec(s@.subrange(a as int, n as int)),
        decreases n - a,
    {
        proof {
            assert(s@.subrange(a as int, n as int).subrange(1, (n - a) as int) =~= s@.subrange(
                a as int + 1,
                n as int,
            ));
        }
        a = a + 1;
    }
    proof {
        assert(trim_start_spec(s@) == s@.subrange(a as int, n as int));
    }
    let mut b: usize = n;
    while b > a && is_wsp_char(s.get_char(b - 1))
        invariant
            a <= b <= n,
            n == s@.len(),
            trim_start_spec(s@) == s@.subrange(a as int, n as int),
            trim_end_spec(s@.subrange(a as int, n as int)) == trim_end_spec(
                s@.subrange(a as int, b as int),
            ),
        decreases b,
    {
        proof {
            assert(s@.subrange(a as int, b as int).subrange(0, (b - a - 1) as int) =~= s@.subrange(
                a as int,
                b as int - 1,
            ));
        }
        b = b - 1;
    }
    proof {
        assert(trim_end_spec(s@.subrange(a as int, b as int)) == s@.subrange(a as int, b as int));
    }
    s.substring_char(a, b)
}

/// Splitting `s` at every occurrence of `sep`, keeping empty pieces: one
/// piece more than there are separators, in order.
pub open spec fn split_char(s: Seq<char>, sep: char) -> Seq<Seq<char>>
    decreases s.len(),
    via split_char_decreases
{
    let i = find_char(s, sep);
    if i >= 0 {
        seq![s.subrange(0, i)] + split_char(s.subrange(i + 1, s.len() as int), sep)
    } else {
        seq![s]
    }
}

#[via_fn]
proof fn split_char_decreases(s: Seq<char>, sep: char) {
    lemma_find_char_props(s, sep);
}

/// Executable split on a separator character.
pub fn split_char_str(s: &str, sep: char) -> (v: Vec<String>)
    ensures
        v.deep_view() == split_char(s@, sep),
{
    let mut v: Vec<String> = Vec::new();
    let mut rest: &str = s;
    let mut n = s.unicode_len();
    loop
        invariant
            n == rest@.len(),
            split_char(s@, sep) == v.deep_view() + split_char(rest@, sep),
        decreases rest@.len(),
    {
        let ghost pre = v.deep_view();
        match find_char_in(rest, sep) {
            Some(i) => {
                let piece = rest.substring_char(0, i).to_owned();
                v.push(piece);
                rest = rest.substring_char(i + 1, n);
                n = n - (i + 1);
                proof {
                    assert(v.deep_view() =~= pre + seq![piece@]);
                    assert(v.deep_view() + split_char(rest@, sep) =~= pre + (seq![piece@]
                        + split_char(rest@, sep)));
                }
            },
            None => {
                let piece = rest.to_owned();
                v.push(piece);
                proof {
                    assert(v.deep_view() =~= pre + seq![piece@]);
                    assert(pre + seq![piece@] =~= pre + split_char(rest@, sep));
                }
                return v;
            },
        }
    }
}

/// Length of the maximal whitespace-free run at the start of `s`: the index
/// of the first whitespace character, or the length of `s` when it holds
/// none.
pub open spec fn token_end(s: Seq<char>) -> int
    decreases s.len(),
{
    if s.len() == 0 {
        0
    } else if is_wsp(s[0]) {
        0
    } else {
        1 + token_end(s.subrange(1, s.len() as int))
    }
}

/// `token_end` lies within bounds, everything before it is non-whitespace,
/// and the character at it (when inside `s`) is whitespace.
pub proof fn lemma_token_end_props(s: Seq<char>)
    ensures
        0 <= token_end(s) <= s.len(),
        forall|j: int| 0 <= j < token_end(s) ==> !is_wsp(s[j]),
        token_end(s) < s.len() ==> is_wsp(s[token_end(s)]),
    decreases s.len(),
{
    if s.len() > 0 && !is_wsp(s[0]) {
        let t = s.subrange(1, s.len() as int);
        lemma_token_end_props(t);
        assert forall|j: int| 0 <= j < token_end(s) implies !is_wsp(s[j]) by {
            if j >= 1 {
                assert(s[j] == t[j - 1]);
            }
        }
        if token_end(s) < s.len() {
            assert(s[token_end(s)] == t[token_end(t)]);
        }
    }
}

/// The boundary determines `token_end`: if everything before `k` is
/// non-whitespace and `k` is the length of `s` or a whitespace position,
/// then `token_end` is exactly `k`.
pub proof fn lemma_token_end_at(s: Seq<char>, k: int)
    requires
        0 <= k <= s.len(),
        forall|j: int| 0 <= j < k ==> !is_wsp(s[j]),
        k < s.len() ==> is_wsp(s[k]),
    ensures
        token_end(s) == k,
{
    lemma_token_end_props(s);
    let t = token_end(s);
    if t < k {
        assert(!is_wsp(s[t]));
    } else if t > k {
        assert(!is_wsp(s[k]));
    }
}

/// Splitting `s` on runs of whitespace: the maximal whitespace-free runs,
/// in order, with empty pieces dropped.
pub open spec fn split_wsp(s: Seq<char>) -> Seq<Seq<char>>
    decreases s.len(),
    via split_wsp_decreases
{
    if s.len() == 0 {
        Seq::empty()
    } else if is_wsp(s[0]) {
        split_wsp(s.subrange(1, s.len() as int))
    } else {
        let k = token_end(s);
        seq![s.subrange(0, k)] + split_wsp(s.subrange(k, s.len() as int))
    }
}

#[via_fn]
proof fn split_wsp_decreases(s: Seq<char>) {
    if s.len() > 0 && !is_wsp(s[0]) {
        lemma_token_end_props(s);
    }
}

/// Trimming a text whose first and last characters are not whitespace
/// leaves it unchanged.
pub proof fn lemma_trim_noop(s: Seq<char>)
    requires
        s.len() > 0,
        !is_wsp(s[0]),
        !is_wsp(s[s.len() - 1]),
    ensures
        spec_trim(s) == s,
{
}

/// Splitting on whitespace takes a maximal whitespace-free run as one whole
/// piece: a non-empty run followed by nothing or by whitespace comes out
/// first, and the remainder splits on its own.
pub proof fn lemma_split_wsp_token(tok: Seq<char>, rest: Seq<char>)
    requires
        tok.len() > 0,
        forall|j: int| 0 <= j < tok.len() ==> !is_wsp(tok[j]),
        rest.len() == 0 || is_wsp(rest[0]),
    ensures
        split_wsp(tok + rest) == seq![tok] + split_wsp(rest),
{
    let s = tok + rest;
    lemma_token_end_at(s, tok.len() as int);
    assert(s.subrange(0, tok.len() as int) =~= tok);
    assert(s.subrange(tok.len() as int, s.len() as int) =~= rest);
}

/// Executable scan for [`token_end`].
fn token_end_in(s: &str) -> (k: usize)
    ensures
        k as int == token_end(s@),
{
    let n = s.unicode_len();
    let mut i: usize = 0;
    while i < n && !is_wsp_char(s.get_char(i))
        invariant
            i <= n,
            n == s@.len(),
            forall|j: int| 0 <= j < i ==> !is_wsp(s@[j]),
        decreases n - i,
    {
        i = i + 1;
    }
    proof {
        lemma_token_end_at(s@, i as int);
    }
    i
}

/// Executable split on runs of whitespace.
pub fn split_wsp_str(s: &str) -> (v: Vec<String>)
    ensures
        v.deep_view() == split_wsp(s@),
{
    let mut v: Vec<String> = Vec::new();
    let mut rest: &str = s;
    let mut n = s.unicode_len();
    while n > 0
        invariant
            n == rest@.len(),
            split_wsp(s@) == v.deep_view() + split_wsp(rest@),
        decreases n,
    {
        let ghost pre = v.deep_view();
        if is_wsp_char(rest.get_char(0)) {
            rest = rest.substring_char(1, n);
            n = n - 1;
        } else {
            let k = token_end_in(rest);
            proof {
                lemma_token_end_props(rest@);
            }
            let piece = rest.substring_char(0, k).to_owned();
            v.push(piece);
            let new_rest = rest.substring_char(k, n);
            proof {
                assert(v.deep_view() =~= pre + seq![piece@]);
                assert(v.deep_view() + split_wsp(new_rest@) =~= pre + (seq![piece@] + split_wsp(
                    new_rest@,
                )));
            }
            rest = new_rest;
            n = n - k;
        }
    }
    proof {
        assert(v.deep_view() + split_wsp(rest@) =~= v.deep_view());
    }
    v
}

} // verus!
