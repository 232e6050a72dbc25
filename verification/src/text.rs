use vstd::prelude::*;

verus! {

/// The pattern `pat` occurs in `s` starting at character index `i`.
pub open spec fn contains_at(s: Seq<char>, pat: Seq<char>, i: int) -> bool {
    &&& 0 <= i
    &&& i + pat.len() <= s.len()
    &&& s.subrange(i, i + pat.len() as int) == pat
}

/// The pattern `pat` occurs somewhere in `s`.
pub open spec fn spec_contains(s: Seq<char>, pat: Seq<char>) -> bool {
    exists|i: int| contains_at(s, pat, i)
}

/// Replace every non-overlapping occurrence of `pat` in `s` by `val`,
/// scanning left to right; occurrences are found in `s` only, never inside
/// an already substituted `val`.
pub open spec fn spec_replace(s: Seq<char>, pat: Seq<char>, val: Seq<char>) -> Seq<char>
    decreases s.len(),
{
    if pat.len() == 0 || s.len() < pat.len() {
        s
    } else if s.subrange(0, pat.len() as int) == pat {
        val + spec_replace(s.skip(pat.len() as int), pat, val)
    } else {
        seq![s[0]] + spec_replace(s.skip(1), pat, val)
    }
}

proof fn lemma_skip_parts(s: Seq<char>, i: int, n: int)
    requires
        0 <= i,
        0 <= n,
        i + n <= s.len(),
    ensures
        s.skip(i).subrange(0, n) =~= s.subrange(i, i + n),
        s.skip(i).skip(n) =~= s.skip(i + n),
{
}

/// Compare `pat` against the characters of `s` starting at index `i`.
pub fn match_at(s: &str, pat: &str, i: usize) -> (r: bool)
    requires
        i + pat@.len() <= s@.len(),
    ensures
        r == contains_at(s@, pat@, i as int),
{
    let slen = s.unicode_len();
    let plen = pat.unicode_len();
    let mut j: usize = 0;
    while j < plen
        invariant
            j <= plen,
            plen == pat@.len(),
            slen == s@.len(),
            i + plen <= slen,
            forall|k: int| 0 <= k < j ==> s@[i + k] == pat@[k],
        decreases plen - j,
    {
        if s.get_char(i + j) != pat.get_char(j) {
            assert(!contains_at(s@, pat@, i as int)) by {
                assert(s@.subrange(i as int, i + plen) != pat@) by {
                    assert(s@.subrange(i as int, i + plen)[j as int] != pat@[j as int]);
                }
            }
            return false;
        }
        j = j + 1;
    }
    assert(s@.subrange(i as int, i + pat@.len() as int) =~= pat@);
    true
}

/// Index of the first occurrence of `pat` in `s` at or after `from`, if any.
pub fn find_from(s: &str, pat: &str, from: usize) -> (r: Option<usize>)
    requires
        pat@.len() >= 1,
    ensures
        match r {
            Some(i) => {
                &&& from <= i
                &&& contains_at(s@, pat@, i as int)
                &&& forall|k: int| from <= k < i ==> !contains_at(s@, pat@, k)
            },
            None => forall|k: int| from <= k ==> !contains_at(s@, pat@, k),
        },
{
    let slen = s.unicode_len();
    let plen = pat.unicode_len();
    if plen > slen || from > slen - plen {
        assert(forall|k: int| from <= k ==> !contains_at(s@, pat@, k));
        return None;
    }
    let mut i: usize = from;
    while i <= slen - plen
        invariant
            from <= i,
            plen >= 1,
            plen <= slen,
            slen == s@.len(),
            plen == pat@.len(),
            forall|k: int| from <= k < i ==> !contains_at(s@, pat@, k),
        decreases slen - i,
    {
        if match_at(s, pat, i) {
            return Some(i);
        }
        i = i + 1;
    }
    assert(forall|k: int| from <= k ==> !contains_at(s@, pat@, k));
    None
}

/// Whether `pat` occurs in `s`.
pub fn contains_sub(s: &str, pat: &str) -> (r: bool)
    requires
        pat@.len() >= 1,
    ensures
        r == spec_contains(s@, pat@),
{
    match find_from(s, pat, 0) {
        Some(i) => {
            assert(contains_at(s@, pat@, i as int));
            true
        },
        None => {
            assert(forall|k: int| !contains_at(s@, pat@, k));
            false
        },
    }
}

/// Replace every non-overlapping occurrence of `pat` in `s` by `val`,
/// scanning left to right.
pub fn replace_all(s: &str, pat: &str, val: &str) -> (r: String)
    requires
        pat@.len() >= 1,
    ensures
        r@ == spec_replace(s@, pat@, val@),
{
    let slen = s.unicode_len();
    let plen = pat.unicode_len();
    let mut out = String::new();
    let mut i: usize = 0;
    proof {
        assert(s@.skip(0) =~= s@);
        assert(out@ + spec_replace(s@, pat@, val@) =~= spec_replace(s@, pat@, val@));
    }
    while i < slen
        invariant
            i <= slen,
            slen == s@.len(),
            plen == pat@.len(),
            plen >= 1,
            spec_replace(s@, pat@, val@) == out@ + spec_replace(s@.skip(i as int), pat@, val@),
        decreases slen - i,
    {
        let ghost suf = s@.skip(i as int);
        if plen <= slen - i && match_at(s, pat, i) {
            proof {
                lemma_skip_parts(s@, i as int, plen as int);
                assert(suf.subrange(0, plen as int) == pat@);
                assert(spec_replace(suf, pat@, val@) == val@ + spec_replace(
                    s@.skip(i + plen),
                    pat@,
                    val@,
                ));
            }
            out.append(val);
            i = i + plen;
            proof {
                assert(spec_replace(s@, pat@, val@) == out@ + spec_replace(
                    s@.skip(i as int),
                    pat@,
                    val@,
                )) by {
                    assert(out@ + (spec_replace(s@.skip(i as int), pat@, val@)) =~= (out@.subrange(
                        0,
                        out@.len() - val@.len(),
                    )) + (val@ + spec_replace(s@.skip(i as int), pat@, val@)));
                }
            }
        } else {
            let piece = s.substring_char(i, i + 1);
            proof {
                if plen <= slen - i {
                    lemma_skip_parts(s@, i as int, plen as int);
                    assert(suf.subrange(0, plen as int) != pat@);
                    assert(spec_replace(suf, pat@, val@) == seq![suf[0]] + spec_replace(
                        suf.skip(1),
                        pat@,
                        val@,
                    ));
                } else {
                    assert(spec_replace(suf, pat@, val@) =~= suf);
                    assert(suf.len() < plen);
                    assert(suf.skip(1).len() < plen);
                    assert(spec_replace(suf.skip(1), pat@, val@) =~= suf.skip(1));
                    assert(suf =~= seq![suf[0]] + suf.skip(1));
                }
                lemma_skip_parts(s@, i as int, 1);
                assert(piece@ =~= seq![suf[0]]);
            }
            out.append(piece);
            i = i + 1;
            proof {
                assert(spec_replace(s@, pat@, val@) == out@ + spec_replace(
                    s@.skip(i as int),
                    pat@,
                    val@,
                )) by {
                    assert(out@ + (spec_replace(s@.skip(i as int), pat@, val@)) =~= (out@.subrange(
                        0,
                        out@.len() - 1,
                    )) + (seq![s@[i - 1]] + spec_replace(s@.skip(i as int), pat@, val@)));
                }
            }
        }
    }
    proof {
        assert(s@.skip(slen as int) =~= Seq::<char>::empty());
        assert(spec_replace(Seq::<char>::empty(), pat@, val@) =~= Seq::<char>::empty());
        assert(out@ + Seq::<char>::empty() =~= out@);
    }
    out
}

/// If `pat` does not occur in `s`, replacement leaves `s` unchanged.
pub proof fn lemma_replace_absent(s: Seq<char>, pat: Seq<char>, val: Seq<char>)
    requires
        !spec_contains(s, pat),
        pat.len() >= 1,
    ensures
        spec_replace(s, pat, val) == s,
    decreases s.len(),
{
    if s.len() < pat.len() {
    } else {
        assert(!contains_at(s, pat, 0));
        assert(s.subrange(0, pat.len() as int) != pat);
        assert(!spec_contains(s.skip(1), pat)) by {
            if spec_contains(s.skip(1), pat) {
                let i = choose|i: int| contains_at(s.skip(1), pat, i);
                lemma_skip_parts(s, 1, s.len() - 1);
                assert(s.skip(1).subrange(i, i + pat.len()) =~= s.subrange(
                    i + 1,
                    i + 1 + pat.len(),
                ));
                assert(contains_at(s, pat, i + 1));
            }
        }
        lemma_replace_absent(s.skip(1), pat, val);
        assert(seq![s[0]] + s.skip(1) =~= s);
    }
}

/// An occurrence inside the right part of a concatenation is an occurrence
/// of the whole, shifted by the left part.
proof fn lemma_contains_at_shift(a: Seq<char>, b: Seq<char>, x: Seq<char>, j: int)
    requires
        contains_at(b, x, j),
    ensures
        contains_at(a + b, x, a.len() + j),
{
    assert((a + b).subrange(a.len() + j, a.len() + j + x.len() as int) =~= b.subrange(
        j,
        j + x.len() as int,
    ));
}

/// Replacement walks past a prefix in which no occurrence of the pattern
/// begins.
proof fn lemma_replace_clean_prefix(a: Seq<char>, b: Seq<char>, pat: Seq<char>, val: Seq<char>)
    requires
        pat.len() >= 1,
        forall|p: int| 0 <= p < a.len() ==> !contains_at(a + b, pat, p),
    ensures
        spec_replace(a + b, pat, val) == a + spec_replace(b, pat, val),
    decreases a.len(),
{
    let s = a + b;
    if a.len() == 0 {
        assert(s =~= b);
        assert(a + spec_replace(b, pat, val) =~= spec_replace(b, pat, val));
    } else if s.len() < pat.len() {
        assert(b.len() < pat.len());
        assert(spec_replace(s, pat, val) == s);
        assert(spec_replace(b, pat, val) == b);
    } else {
        assert(!contains_at(s, pat, 0));
        assert(s.subrange(0, pat.len() as int) != pat);
        assert(spec_replace(s, pat, val) == seq![s[0]] + spec_replace(s.skip(1), pat, val));
        let a1 = a.skip(1);
        assert(s.skip(1) =~= a1 + b);
        assert forall|p: int| 0 <= p < a1.len() implies !contains_at(a1 + b, pat, p) by {
            if contains_at(a1 + b, pat, p) {
                assert(s.subrange(p + 1, p + 1 + pat.len() as int) =~= (a1 + b).subrange(
                    p,
                    p + pat.len() as int,
                ));
                assert(contains_at(s, pat, p + 1));
            }
        }
        lemma_replace_clean_prefix(a1, b, pat, val);
        assert(seq![s[0]] + (a1 + spec_replace(b, pat, val)) =~= a + spec_replace(b, pat, val));
    }
}

/// After replacement the substituted value occurs wherever the pattern
/// occurred.
pub proof fn lemma_replace_contains_val(s: Seq<char>, pat: Seq<char>, val: Seq<char>)
    requires
        pat.len() >= 1,
        spec_contains(s, pat),
    ensures
        spec_contains(spec_replace(s, pat, val), val),
    decreases s.len(),
{
    let i = choose|i: int| contains_at(s, pat, i);
    if s.subrange(0, pat.len() as int) == pat {
        assert(spec_replace(s, pat, val) == val + spec_replace(s.skip(pat.len() as int), pat, val));
        assert((val + spec_replace(s.skip(pat.len() as int), pat, val)).subrange(
            0,
            val.len() as int,
        ) =~= val);
        assert(contains_at(spec_replace(s, pat, val), val, 0));
    } else {
        assert(i != 0);
        assert(spec_replace(s, pat, val) == seq![s[0]] + spec_replace(s.skip(1), pat, val));
        assert(contains_at(s.skip(1), pat, i - 1)) by {
            assert(s.skip(1).subrange(i - 1, i - 1 + pat.len() as int) =~= s.subrange(
                i,
                i + pat.len() as int,
            ));
        }
        lemma_replace_contains_val(s.skip(1), pat, val);
        let j = choose|j: int| contains_at(spec_replace(s.skip(1), pat, val), val, j);
        lemma_contains_at_shift(seq![s[0]], spec_replace(s.skip(1), pat, val), val, j);
    }
}

/// A pattern `pat` shaped like a placeholder: it opens with a brace and
/// holds no further brace.
pub open spec fn marker_shape(pat: Seq<char>) -> bool {
    &&& pat.len() >= 2
    &&& pat[0] == '{'
    &&& forall|k: int| 1 <= k < pat.len() ==> pat[k] != '{'
}

/// Replacing one placeholder with a brace-free value never creates nor
/// destroys an occurrence of a different placeholder.
pub proof fn lemma_replace_preserves_marker(
    s: Seq<char>,
    pat: Seq<char>,
    val: Seq<char>,
    m: Seq<char>,
)
    requires
        spec_contains(s, m),
        marker_shape(pat),
        marker_shape(m),
        pat[1] != m[1],
        char_free(val, '{'),
    ensures
        spec_contains(spec_replace(s, pat, val), m),
    decreases s.len(),
{
    let i = choose|i: int| contains_at(s, m, i);
    assert(s[i] == m[0]);
    if s.len() < pat.len() {
    } else if s.subrange(0, pat.len() as int) == pat {
        assert(spec_replace(s, pat, val) == val + spec_replace(s.skip(pat.len() as int), pat, val));
        assert(i != 0) by {
            if i == 0 {
                assert(s[1] == m[1]);
                assert(s[1] == pat[1]);
            }
        }
        assert(i >= pat.len()) by {
            if i < pat.len() {
                assert(s[i] == pat[i]);
                assert(pat[i] == '{');
            }
        }
        assert(contains_at(s.skip(pat.len() as int), m, i - pat.len())) by {
            assert(s.skip(pat.len() as int).subrange(
                i - pat.len(),
                i - pat.len() + m.len() as int,
            ) =~= s.subrange(i, i + m.len() as int));
        }
        lemma_replace_preserves_marker(s.skip(pat.len() as int), pat, val, m);
        let j = choose|j: int|
            contains_at(spec_replace(s.skip(pat.len() as int), pat, val), m, j);
        lemma_contains_at_shift(val, spec_replace(s.skip(pat.len() as int), pat, val), m, j);
    } else if i == 0 {
        // the occurrence of `m` opens the text; no occurrence of `pat` can
        // begin inside it, so replacement copies it verbatim
        let rest = s.skip(m.len() as int);
        assert(s =~= m + rest);
        assert forall|p: int| 0 <= p < m.len() implies !contains_at(m + rest, pat, p) by {
            if contains_at(m + rest, pat, p) {
                assert((m + rest).subrange(p, p + pat.len() as int) == pat);
                assert(s[p] == pat[0]);
                if p == 0 {
                    assert(s.subrange(0, pat.len() as int) == pat);
                } else {
                    assert(m[p] == '{');
                }
            }
        }
        lemma_replace_clean_prefix(m, rest, pat, val);
        assert((m + spec_replace(rest, pat, val)).subrange(0, m.len() as int) =~= m);
        assert(contains_at(spec_replace(s, pat, val), m, 0));
    } else {
        assert(spec_replace(s, pat, val) == seq![s[0]] + spec_replace(s.skip(1), pat, val));
        assert(contains_at(s.skip(1), m, i - 1)) by {
            assert(s.skip(1).subrange(i - 1, i - 1 + m.len() as int) =~= s.subrange(
                i,
                i + m.len() as int,
            ));
        }
        lemma_replace_preserves_marker(s.skip(1), pat, val, m);
        let j = choose|j: int| contains_at(spec_replace(s.skip(1), pat, val), m, j);
        lemma_contains_at_shift(seq![s[0]], spec_replace(s.skip(1), pat, val), m, j);
    }
}

/// The character `c` occurs nowhere in `s`.
pub open spec fn char_free(s: Seq<char>, c: char) -> bool {
    forall|k: int| 0 <= k < s.len() ==> s[k] != c
}

/// A character found in neither the text nor the substituted value is not
/// found in the replacement either.
pub proof fn lemma_replace_keeps_char_out(s: Seq<char>, pat: Seq<char>, val: Seq<char>, c: char)
    requires
        char_free(s, c),
        char_free(val, c),
    ensures
        char_free(spec_replace(s, pat, val), c),
    decreases s.len(),
{
    if pat.len() == 0 || s.len() < pat.len() {
    } else if s.subrange(0, pat.len() as int) == pat {
        let rest = spec_replace(s.skip(pat.len() as int), pat, val);
        assert(forall|k: int|
            0 <= k < s.skip(pat.len() as int).len() ==> s.skip(pat.len() as int)[k] != c);
        lemma_replace_keeps_char_out(s.skip(pat.len() as int), pat, val, c);
        assert(spec_replace(s, pat, val) == val + rest);
        assert forall|k: int| 0 <= k < (val + rest).len() implies (val + rest)[k] != c by {
            if k < val.len() {
                assert((val + rest)[k] == val[k]);
            } else {
                assert((val + rest)[k] == rest[k - val.len()]);
            }
        }
    } else {
        let rest = spec_replace(s.skip(1), pat, val);
        assert(forall|k: int| 0 <= k < s.skip(1).len() ==> s.skip(1)[k] != c);
        lemma_replace_keeps_char_out(s.skip(1), pat, val, c);
        assert(spec_replace(s, pat, val) == seq![s[0]] + rest);
        assert forall|k: int|
            0 <= k < (seq![s[0]] + rest).len() implies (seq![s[0]] + rest)[k] != c by {
            if k == 0 {
                assert((seq![s[0]] + rest)[k] == s[0]);
            } else {
                assert((seq![s[0]] + rest)[k] == rest[k - 1]);
            }
        }
    }
}

/// A sequence of `n` spaces.
pub open spec fn spec_spaces(n: nat) -> Seq<char> {
    Seq::new(n, |i: int| ' ')
}

/// Left-justify `s` in a field of minimum width 7 by appending spaces;
/// a value of 7 or more characters is kept as it is, never truncated.
pub open spec fn spec_pad7(s: Seq<char>) -> Seq<char> {
    if s.len() >= 7 {
        s
    } else {
        s + spec_spaces((7 - s.len()) as nat)
    }
}

/// Padding with spaces brings no other character in.
pub proof fn lemma_pad7_char_free(s: Seq<char>, c: char)
    requires
        char_free(s, c),
        c != ' ',
    ensures
        char_free(spec_pad7(s), c),
{
    if s.len() < 7 {
        assert forall|k: int| 0 <= k < spec_pad7(s).len() implies spec_pad7(s)[k] != c by {
            if k < s.len() {
                assert(spec_pad7(s)[k] == s[k]);
            } else {
                assert(spec_pad7(s)[k] == ' ');
            }
        }
    }
}

/// Pad `s` with trailing spaces to a minimum width of 7 characters.
pub fn pad_to_width7(s: String) -> (r: String)
    ensures
        r@ == spec_pad7(s@),
{
    let mut t = s;
    let ghost orig = t@;
    proof {
        assert(t@ =~= orig + spec_spaces(0));
    }
    while t.unicode_len() < 7
        invariant
            orig.len() <= t@.len(),
            t@ =~= orig + spec_spaces((t@.len() - orig.len()) as nat),
            t@.len() <= 7 || t@ == orig,
        decreases 7 - t@.len(),
    {
        t.append(" ");
        proof {
            reveal_strlit(" ");
            assert(t@ =~= orig + spec_spaces((t@.len() - orig.len()) as nat));
        }
    }
    proof {
        if orig.len() >= 7 {
            assert(t@ =~= orig);
        }
    }
    t
}

/// Append a trailing newline unless the text already ends with one.
pub open spec fn spec_with_newline(s: Seq<char>) -> Seq<char> {
    if s.len() > 0 && s[s.len() - 1] == '\n' {
        s
    } else {
        s.push('\n')
    }
}

/// A text that already ends in a newline is left exactly as it is: ensuring
/// the trailing newline never doubles it.
pub proof fn lemma_trailing_newline_idempotent(s: Seq<char>)
    requires
        s.len() > 0,
        s[s.len() - 1] == '\n',
    ensures
        spec_with_newline(s) == s,
{
}

/// Terminate the text with a newline: append one if missing, keep the text
/// unchanged if it already ends with one.
pub fn ensure_trailing_newline(s: String) -> (r: String)
    ensures
        r@ == spec_with_newline(s@),
{
    proof {
        reveal_strlit("\n");
    }
    let n = s.unicode_len();
    if n > 0 && s.as_str().get_char(n - 1) == '\n' {
        s
    } else {
        let mut t = s;
        t.append("\n");
        proof {
            assert(t@ =~= spec_with_newline(t@.subrange(0, t@.len() - 1)));
        }
        t
    }
}

} // verus!
