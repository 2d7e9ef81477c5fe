//! Character-level text helpers shared by the parser and the generators:
//! trimming, splitting, joining, prefix tests and replacement, each stated
//! over the characters of the text.

use vstd::prelude::*;

verus! {

/// Whether a character has the Unicode `White_Space` property: tab, line
/// feed, vertical tab, form feed, carriage return, space, next line,
/// no-break space, ogham space mark, the spaces U+2000 to U+200A, line and
/// paragraph separators, narrow no-break space, medium mathematical space
/// and ideographic space.
pub open spec fn spec_is_whitespace(c: char) -> bool {
    let u = c as u32;
    ||| 0x9 <= u <= 0xd
    ||| u == 0x20
    ||| u == 0x85
    ||| u == 0xa0
    ||| u == 0x1680
    ||| 0x2000 <= u <= 0x200a
    ||| u == 0x2028
    ||| u == 0x2029
    ||| u == 0x202f
    ||| u == 0x205f
    ||| u == 0x3000
}

/// Calls `char::is_whitespace`, which its documentation defines as the
/// Unicode `White_Space` property; the contract lists that property's
/// characters.
#[verifier::external_body]
pub(crate) fn char_is_whitespace(c: char) -> (r: bool)
    ensures
        r == spec_is_whitespace(c),
{
    c.is_whitespace()
}

/// Calls `String::push`, which appends one character to the string.
#[verifier::external_body]
pub(crate) fn push_char(s: &mut String, c: char)
    ensures
        final(s)@ == old(s)@.push(c),
{
    s.push(c)
}

/// The text with leading whitespace removed.
pub open spec fn trim_start_seq(s: Seq<char>) -> Seq<char>
    decreases s.len(),
{
    if s.len() > 0 && spec_is_whitespace(s[0]) {
        trim_start_seq(s.drop_first())
    } else {
        s
    }
}

/// The text with trailing whitespace removed (what `str::trim_end` gives).
pub open spec fn trim_end_seq(s: Seq<char>) -> Seq<char>
    decreases s.len(),
{
    if s.len() > 0 && spec_is_whitespace(s.last()) {
        trim_end_seq(s.drop_last())
    } else {
        s
    }
}

/// The text with leading and trailing whitespace removed (what `str::trim` gives).
pub open spec fn trim_seq(s: Seq<char>) -> Seq<char> {
    trim_end_seq(trim_start_seq(s))
}

/// `p` is a prefix of `s`.
pub open spec fn has_prefix_seq(s: Seq<char>, p: Seq<char>) -> bool {
    p.len() <= s.len() && s.take(p.len() as int) == p
}

/// `p` is a suffix of `s`.
pub open spec fn has_suffix_seq(s: Seq<char>, p: Seq<char>) -> bool {
    p.len() <= s.len() && s.skip(s.len() - p.len()) == p
}

/// The pieces of `s` between occurrences of `sep` (what `str::split` with a
/// character pattern gives): one more piece than there are separators.
pub open spec fn split_seq(s: Seq<char>, sep: char) -> Seq<Seq<char>>
    decreases s.len(),
{
    if s.len() == 0 {
        seq![Seq::<char>::empty()]
    } else if s.last() == sep {
        split_seq(s.drop_last(), sep).push(Seq::<char>::empty())
    } else {
        let p = split_seq(s.drop_last(), sep);
        p.update(p.len() - 1, p.last().push(s.last()))
    }
}

/// The parts joined with `sep` between each two neighbours.
pub open spec fn join_seq(parts: Seq<Seq<char>>, sep: Seq<char>) -> Seq<char>
    decreases parts.len(),
{
    if parts.len() == 0 {
        Seq::<char>::empty()
    } else if parts.len() == 1 {
        parts[0]
    } else {
        join_seq(parts.drop_last(), sep) + sep + parts.last()
    }
}

/// Every match of `pat` in `s`, taken from left to right without overlap,
/// replaced by `rep` (what `str::replace` gives for a non-empty pattern).
pub open spec fn replace_seq(s: Seq<char>, pat: Seq<char>, rep: Seq<char>) -> Seq<char>
    decreases s.len(),
{
    if pat.len() == 0 || s.len() < pat.len() {
        s
    } else if s.take(pat.len() as int) == pat {
        rep + replace_seq(s.skip(pat.len() as int), pat, rep)
    } else {
        seq![s[0]] + replace_seq(s.drop_first(), pat, rep)
    }
}

/// The views of a sequence of strings.
pub open spec fn views(v: Seq<String>) -> Seq<Seq<char>> {
    v.map_values(|s: String| s@)
}

/// The characters of a string slice.
pub fn chars_of(s: &str) -> (v: Vec<char>)
    ensures
        v@ == s@,
{
    let mut v: Vec<char> = Vec::new();
    for c in it: s.chars()
        invariant
            v@ == it.seq().take(it.index() as int),
            it.seq() == s@,
    {
        v.push(c);
    }
    v
}

/// A string made of the characters `v[lo..hi]`.
pub fn string_of(v: &Vec<char>, lo: usize, hi: usize) -> (r: String)
    requires
        lo <= hi <= v.len(),
    ensures
        r@ == v@.subrange(lo as int, hi as int),
{
    let mut r = String::new();
    let mut i = lo;
    while i < hi
        invariant
            lo <= i <= hi <= v.len(),
            r@ == v@.subrange(lo as int, i as int),
        decreases hi - i,
    {
        push_char(&mut r, v[i]);
        i = i + 1;
        assert(r@ =~= v@.subrange(lo as int, i as int));
    }
    r
}

/// The range `[r.0, r.1)` of `v[lo..hi]` that remains after trimming
/// whitespace at both ends.
pub fn trimmed_range(v: &Vec<char>, lo: usize, hi: usize) -> (r: (usize, usize))
    requires
        lo <= hi <= v.len(),
    ensures
        lo <= r.0 <= r.1 <= hi,
        v@.subrange(r.0 as int, r.1 as int) == trim_seq(v@.subrange(lo as int, hi as int)),
{
    let mut a = lo;
    while a < hi && char_is_whitespace(v[a])
        invariant
            lo <= a <= hi <= v.len(),
            trim_start_seq(v@.subrange(lo as int, hi as int)) == trim_start_seq(
                v@.subrange(a as int, hi as int),
            ),
        decreases hi - a,
    {
        assert(v@.subrange(a as int, hi as int).drop_first() =~= v@.subrange(a + 1, hi as int));
        a = a + 1;
    }
    let mut b = hi;
    while b > a && char_is_whitespace(v[b - 1])
        invariant
            lo <= a <= b <= hi <= v.len(),
            trim_end_seq(v@.subrange(a as int, hi as int)) == trim_end_seq(
                v@.subrange(a as int, b as int),
            ),
        decreases b - a,
    {
        assert(v@.subrange(a as int, b as int).drop_last() =~= v@.subrange(a as int, b - 1));
        b = b - 1;
    }
    (a, b)
}

/// The text with whitespace removed at both ends, as `str::trim` gives it.
pub fn trim_text(s: &str) -> (r: String)
    ensures
        r@ == trim_seq(s@),
{
    let v = chars_of(s);
    let (a, b) = trimmed_range(&v, 0, v.len());
    assert(v@.subrange(0, v.len() as int) =~= v@);
    string_of(&v, a, b)
}

/// Whether `v[lo..hi]` starts with `p`.
pub fn range_has_prefix(v: &Vec<char>, lo: usize, hi: usize, p: &Vec<char>) -> (r: bool)
    requires
        lo <= hi <= v.len(),
    ensures
        r == has_prefix_seq(v@.subrange(lo as int, hi as int), p@),
{
    if p.len() > hi - lo {
        return false;
    }
    let mut i: usize = 0;
    while i < p.len()
        invariant
            p.len() <= hi - lo,
            lo <= hi <= v.len(),
            i <= p.len(),
            forall|j: int| 0 <= j < i ==> v@[lo + j] == p@[j],
        decreases p.len() - i,
    {
        if v[lo + i] != p[i] {
            assert(v@.subrange(lo as int, hi as int).take(p.len() as int)[i as int] != p@[i as int]);
            return false;
        }
        i = i + 1;
    }
    assert(v@.subrange(lo as int, hi as int).take(p.len() as int) =~= p@);
    true
}

/// Whether `s` starts with `p`, as `str::starts_with` decides it.
pub fn text_starts_with(s: &str, p: &str) -> (r: bool)
    ensures
        r == has_prefix_seq(s@, p@),
{
    let v = chars_of(s);
    let pv = chars_of(p);
    assert(v@.subrange(0, v.len() as int) =~= v@);
    range_has_prefix(&v, 0, v.len(), &pv)
}

/// Whether the two texts are equal.
pub fn text_eq(a: &str, b: &str) -> (r: bool)
    ensures
        r == (a@ == b@),
{
    let va = chars_of(a);
    let vb = chars_of(b);
    if va.len() != vb.len() {
        return false;
    }
    let mut i: usize = 0;
    while i < va.len()
        invariant
            va.len() == vb.len(),
            va@ == a@,
            vb@ == b@,
            i <= va.len(),
            forall|j: int| 0 <= j < i ==> va@[j] == vb@[j],
        decreases va.len() - i,
    {
        if va[i] != vb[i] {
            assert(va@[i as int] != vb@[i as int]);
            return false;
        }
        i = i + 1;
    }
    assert(va@ =~= vb@);
    true
}

/// The pieces of `s` between occurrences of `sep`, as `str::split` gives them.
pub fn split_text(s: &str, sep: char) -> (r: Vec<String>)
    ensures
        views(r@) == split_seq(s@, sep),
{
    let v = chars_of(s);
    let mut out: Vec<String> = Vec::new();
    let mut start: usize = 0;
    let mut i: usize = 0;
    assert(views(out@).push(v@.subrange(0, 0)) =~= split_seq(v@.take(0), sep)) by {
        assert(v@.take(0) =~= Seq::<char>::empty());
        assert(v@.subrange(0, 0) =~= Seq::<char>::empty());
    }
    while i < v.len()
        invariant
            start <= i <= v.len(),
            v@ == s@,
            views(out@).push(v@.subrange(start as int, i as int)) == split_seq(
                v@.take(i as int),
                sep,
            ),
        decreases v.len() - i,
    {
        let ghost prev = v@.take(i as int);
        assert(v@.take(i + 1).drop_last() =~= prev);
        assert(v@.take(i + 1).last() == v@[i as int]);
        assert(v@.subrange(start as int, i + 1) =~= v@.subrange(start as int, i as int).push(v@[i as int]));
        assert(v@.subrange(i + 1, i + 1) =~= Seq::<char>::empty());
        if v[i] == sep {
            let piece = string_of(&v, start, i);
            out.push(piece);
            assert(views(out@) =~= views(out@.drop_last()).push(piece@));
            start = i + 1;
            assert(views(out@).push(v@.subrange(start as int, i + 1)) =~= split_seq(
                v@.take(i + 1),
                sep,
            ));
        } else {
            assert(views(out@).push(v@.subrange(start as int, i + 1)) =~= split_seq(
                v@.take(i + 1),
                sep,
            ));
        }
        i = i + 1;
    }
    let last = string_of(&v, start, v.len());
    out.push(last);
    assert(v@.take(v.len() as int) =~= v@);
    assert(views(out@) =~= views(out@.drop_last()).push(last@));
    out
}

/// The parts joined with `sep`, as `[String]::join` gives them.
pub fn join_texts(parts: &Vec<String>, sep: &str) -> (r: String)
    ensures
        r@ == join_seq(views(parts@), sep@),
{
    let mut r = String::new();
    let mut i: usize = 0;
    while i < parts.len()
        invariant
            i <= parts.len(),
            r@ == join_seq(views(parts@).take(i as int), sep@),
        decreases parts.len() - i,
    {
        let ghost before = views(parts@).take(i as int);
        assert(views(parts@).take(i + 1).drop_last() =~= before);
        if i > 0 {
            r.append(sep);
        }
        r.append(parts[i].as_str());
        i = i + 1;
        assert(r@ =~= join_seq(views(parts@).take(i as int), sep@));
    }
    assert(views(parts@).take(parts.len() as int) =~= views(parts@));
    r
}

/// `s` with every match of `pat` replaced by `rep`, as `str::replace` gives it.
pub fn replace_text(s: &str, pat: &str, rep: &str) -> (r: String)
    ensures
        r@ == replace_seq(s@, pat@, rep@),
{
    let v = chars_of(s);
    let pv = chars_of(pat);
    if pv.len() == 0 {
        return s.to_owned();
    }
    let mut r = String::new();
    let mut i: usize = 0;
    assert(v@.skip(0) =~= v@);
    while i < v.len()
        invariant
            i <= v.len(),
            v@ == s@,
            pv@ == pat@,
            pv.len() > 0,
            r@ + replace_seq(v@.skip(i as int), pv@, rep@) == replace_seq(v@, pv@, rep@),
        decreases v.len() - i,
    {
        let ghost rest = v@.skip(i as int);
        if range_has_prefix(&v, i, v.len(), &pv) {
            assert(v@.subrange(i as int, v.len() as int) =~= rest);
            assert(rest.skip(pv.len() as int) =~= v@.skip(i + pv.len()));
            r.append(rep);
            i = i + pv.len();
            assert(r@ + replace_seq(v@.skip(i as int), pv@, rep@) =~= replace_seq(v@, pv@, rep@));
        } else {
            assert(v@.subrange(i as int, v.len() as int) =~= rest);
            assert(rest.drop_first() =~= v@.skip(i + 1));
            push_char(&mut r, v[i]);
            i = i + 1;
            assert(r@ + replace_seq(v@.skip(i as int), pv@, rep@) =~= replace_seq(v@, pv@, rep@));
        }
    }
    assert(v@.skip(v.len() as int) =~= Seq::<char>::empty());
    r
}


/// The leading run of non-whitespace characters of `s`.
pub open spec fn word_prefix_seq(s: Seq<char>) -> Seq<char>
    decreases s.len(),
{
    if s.len() > 0 && !spec_is_whitespace(s[0]) {
        seq![s[0]] + word_prefix_seq(s.drop_first())
    } else {
        Seq::<char>::empty()
    }
}

/// The leading run of non-whitespace characters is a prefix of the text.
pub proof fn lemma_word_prefix(s: Seq<char>)
    ensures
        word_prefix_seq(s).len() <= s.len(),
        word_prefix_seq(s) == s.take(word_prefix_seq(s).len() as int),
        s.len() > 0 && !spec_is_whitespace(s[0]) ==> word_prefix_seq(s).len() > 0,
        word_prefix_seq(s).len() < s.len() ==> spec_is_whitespace(s[word_prefix_seq(s).len() as int]),
        forall|i: int| 0 <= i < word_prefix_seq(s).len() ==> !spec_is_whitespace(#[trigger] s[i]),
    decreases s.len(),
{
    if s.len() > 0 && !spec_is_whitespace(s[0]) {
        lemma_word_prefix(s.drop_first());
        assert(word_prefix_seq(s) =~= s.take(word_prefix_seq(s).len() as int));
        assert forall|i: int| 0 <= i < word_prefix_seq(s).len() implies !spec_is_whitespace(#[trigger] s[i]) by {
            if i > 0 {
                assert(s[i] == s.drop_first()[i - 1]);
            }
        }
    }
}

/// The whitespace-separated words of `s` (what `str::split_whitespace` gives).
pub open spec fn words_seq(s: Seq<char>) -> Seq<Seq<char>>
    decreases s.len(),
{
    if s.len() == 0 {
        Seq::<Seq<char>>::empty()
    } else if spec_is_whitespace(s[0]) {
        words_seq(s.drop_first())
    } else {
        proof {
            lemma_word_prefix(s);
        }
        seq![word_prefix_seq(s)] + words_seq(s.skip(word_prefix_seq(s).len() as int))
    }
}

/// The whitespace-separated words of `s`, as `str::split_whitespace` gives them.
pub fn words_text(s: &str) -> (r: Vec<String>)
    ensures
        views(r@) == words_seq(s@),
{
    let v = chars_of(s);
    let mut out: Vec<String> = Vec::new();
    let mut i: usize = 0;
    assert(v@.skip(0) =~= v@);
    assert(views(out@) =~= Seq::<Seq<char>>::empty());
    while i < v.len()
        invariant
            i <= v.len(),
            v@ == s@,
            views(out@) + words_seq(v@.skip(i as int)) == words_seq(v@),
        decreases v.len() - i,
    {
        let ghost rest = v@.skip(i as int);
        if char_is_whitespace(v[i]) {
            assert(rest.drop_first() =~= v@.skip(i + 1));
            i = i + 1;
        } else {
            let mut j = i;
            while j < v.len() && !char_is_whitespace(v[j])
                invariant
                    i <= j <= v.len(),
                    forall|k: int| i <= k < j ==> !spec_is_whitespace(#[trigger] v@[k]),
                decreases v.len() - j,
            {
                j = j + 1;
            }
            proof {
                lemma_word_prefix(rest);
                let w = word_prefix_seq(rest);
                let n = w.len() as int;
                assert(n == j - i) by {
                    if n < j - i {
                        assert(spec_is_whitespace(rest[n]));
                        assert(rest[n] == v@[i + n]);
                    } else if n > j - i {
                        assert(rest[j - i] == v@[j as int]);
                        assert(!spec_is_whitespace(rest[j - i]));
                    }
                }
                assert(w =~= v@.subrange(i as int, j as int));
                assert(rest.skip(n) =~= v@.skip(j as int));
            }
            let word = string_of(&v, i, j);
            let ghost before = views(out@);
            out.push(word);
            assert(views(out@) =~= before.push(word@));
            assert(views(out@) + words_seq(v@.skip(j as int)) =~= before + words_seq(rest));
            i = j;
        }
    }
    assert(v@.skip(v.len() as int) =~= Seq::<char>::empty());
    assert(views(out@) + Seq::<Seq<char>>::empty() =~= views(out@));
    out
}


/// The text with whitespace removed at its end, as `str::trim_end` gives it.
pub fn trim_end_text(s: &str) -> (r: String)
    ensures
        r@ == trim_end_seq(s@),
{
    let v = chars_of(s);
    let mut b = v.len();
    assert(v@.subrange(0, v.len() as int) =~= v@);
    while b > 0 && char_is_whitespace(v[b - 1])
        invariant
            b <= v.len(),
            v@ == s@,
            trim_end_seq(s@) == trim_end_seq(v@.subrange(0, b as int)),
        decreases b,
    {
        assert(v@.subrange(0, b as int).drop_last() =~= v@.subrange(0, b - 1));
        b = b - 1;
    }
    string_of(&v, 0, b)
}

/// `s` without one trailing carriage return.
pub open spec fn strip_cr_seq(s: Seq<char>) -> Seq<char> {
    if s.len() > 0 && s.last() == '\r' {
        s.drop_last()
    } else {
        s
    }
}

/// The lines of `s` (what `str::lines` gives): the pieces between newlines,
/// each without a `\r` that stood before its newline, and no empty last
/// piece after a final newline.
pub open spec fn lines_seq(s: Seq<char>) -> Seq<Seq<char>> {
    let p = split_seq(s, '\n');
    let body = p.drop_last().map_values(|l: Seq<char>| strip_cr_seq(l));
    if p.last().len() == 0 {
        body
    } else {
        body.push(p.last())
    }
}

/// The split of a text has at least one piece.
pub proof fn lemma_split_nonempty(s: Seq<char>, sep: char)
    ensures
        split_seq(s, sep).len() >= 1,
    decreases s.len(),
{
    if s.len() > 0 {
        lemma_split_nonempty(s.drop_last(), sep);
    }
}

/// The lines of a text, as `str::lines` gives them.
pub fn lines_text(s: &str) -> (r: Vec<String>)
    ensures
        views(r@) == lines_seq(s@),
{
    let pieces = split_text(s, '\n');
    proof {
        lemma_split_nonempty(s@, '\n');
    }
    let ghost p = split_seq(s@, '\n');
    let ghost body = p.drop_last().map_values(|l: Seq<char>| strip_cr_seq(l));
    let n = pieces.len();
    let mut out: Vec<String> = Vec::new();
    let mut k: usize = 0;
    while k + 1 < n
        invariant
            n == pieces.len(),
            n >= 1,
            k + 1 <= n,
            views(pieces@) == p,
            body == p.drop_last().map_values(|l: Seq<char>| strip_cr_seq(l)),
            views(out@) == body.take(k as int),
        decreases n - k,
    {
        let v = chars_of(pieces[k].as_str());
        let end = if v.len() > 0 && v[v.len() - 1] == '\r' {
            v.len() - 1
        } else {
            v.len()
        };
        let line = string_of(&v, 0, end);
        proof {
            assert(v@ == p[k as int]);
            if v.len() > 0 && v@.last() == '\r' {
                assert(line@ =~= strip_cr_seq(p[k as int]));
            } else {
                assert(line@ =~= strip_cr_seq(p[k as int]));
            }
        }
        let ghost before = views(out@);
        out.push(line);
        assert(views(out@) =~= before.push(line@));
        assert(p.len() == n);
        assert(p.drop_last()[k as int] == p[k as int]);
        assert(body[k as int] == strip_cr_seq(p[k as int]));
        k = k + 1;
        assert(views(out@) =~= body.take(k as int));
    }
    assert(body.take(k as int) =~= body);
    let last = &pieces[n - 1];
    assert(last@ == p.last());
    if last.unicode_len() > 0 {
        let ghost before = views(out@);
        out.push(last.clone());
        assert(views(out@) =~= before.push(p.last()));
    }
    out
}

/// `pat` occurs somewhere in `s`.
pub open spec fn occurs_in(s: Seq<char>, pat: Seq<char>) -> bool {
    exists|i: int| 0 <= i && i + pat.len() <= s.len() && #[trigger] s.subrange(i, i + pat.len()) == pat
}

/// Replacing a pattern that does not occur leaves the text unchanged.
pub proof fn law_replace_absent(s: Seq<char>, pat: Seq<char>, rep: Seq<char>)
    requires
        !occurs_in(s, pat),
    ensures
        replace_seq(s, pat, rep) == s,
    decreases s.len(),
{
    if pat.len() > 0 && s.len() >= pat.len() {
        assert(s.subrange(0int, 0int + pat.len()) != pat);
        assert(s.subrange(0int, 0int + pat.len()) == s.take(pat.len() as int));
        let t = s.drop_first();
        assert(!occurs_in(t, pat)) by {
            if occurs_in(t, pat) {
                let i = choose|i: int| 0 <= i && i + pat.len() <= t.len() && #[trigger] t.subrange(i, i + pat.len()) == pat;
                assert(s.subrange(i + 1, i + 1 + pat.len()) =~= t.subrange(i, i + pat.len()));
            }
        }
        law_replace_absent(t, pat, rep);
        assert(seq![s[0]] + t =~= s);
    }
}

/// Splitting a text whose first part is empty or ends with the separator
/// splits the two parts apart.
pub proof fn lemma_split_concat(a: Seq<char>, b: Seq<char>, sep: char)
    requires
        a.len() == 0 || a.last() == sep,
    ensures
        split_seq(a + b, sep) == split_seq(a, sep).drop_last() + split_seq(b, sep),
    decreases b.len(),
{
    lemma_split_nonempty(a, sep);
    if b.len() == 0 {
        assert(a + b =~= a);
        if a.len() > 0 {
            assert(split_seq(a, sep) == split_seq(a.drop_last(), sep).push(Seq::<char>::empty()));
        }
        assert(split_seq(a, sep).last() == Seq::<char>::empty());
        assert(split_seq(a, sep).drop_last() + split_seq(b, sep) =~= split_seq(a, sep));
    } else {
        let b2 = b.drop_last();
        lemma_split_concat(a, b2, sep);
        lemma_split_nonempty(b2, sep);
        assert((a + b).drop_last() =~= a + b2);
        assert((a + b).last() == b.last());
        let x = split_seq(a, sep).drop_last();
        if b.last() == sep {
            assert(split_seq(a + b, sep) =~= x + split_seq(b, sep));
        } else {
            let p = split_seq(b2, sep);
            assert((x + p).last() == p.last());
            assert((x + p).update((x + p).len() - 1, (x + p).last().push(b.last())) =~= x + p.update(
                p.len() - 1,
                p.last().push(b.last()),
            ));
        }
    }
}

/// Before the first separator: a separator-free start stays in the first
/// piece and adds no pieces.
pub proof fn lemma_split_free_prefix(x: Seq<char>, y: Seq<char>, sep: char)
    requires
        !x.contains(sep),
    ensures
        split_seq(x + y, sep).len() == split_seq(y, sep).len(),
        split_seq(x + y, sep)[0] == x + split_seq(y, sep)[0],
    decreases y.len(),
{
    lemma_split_nonempty(y, sep);
    if y.len() == 0 {
        assert(x + y =~= x);
        lemma_split_no_sep(x, sep);
        assert(x + Seq::<char>::empty() =~= x);
    } else {
        let y2 = y.drop_last();
        lemma_split_free_prefix(x, y2, sep);
        lemma_split_nonempty(y2, sep);
        assert((x + y).drop_last() =~= x + y2);
        assert((x + y).last() == y.last());
        if y.last() != sep {
            let p = split_seq(y2, sep);
            let q = split_seq(x + y2, sep);
            if p.len() == 1 {
                assert(x + p[0].push(y.last()) =~= (x + p[0]).push(y.last()));
            }
        }
    }
}

/// A text without the separator is one piece.
pub proof fn lemma_split_no_sep(x: Seq<char>, sep: char)
    requires
        !x.contains(sep),
    ensures
        split_seq(x, sep) == seq![x],
    decreases x.len(),
{
    if x.len() > 0 {
        assert(x.last() == x[x.len() - 1]);
        assert(!x.drop_last().contains(sep)) by {
            if x.drop_last().contains(sep) {
                let i = choose|i: int| 0 <= i < x.drop_last().len() && x.drop_last()[i] == sep;
                assert(x[i] == sep);
            }
        }
        lemma_split_no_sep(x.drop_last(), sep);
        assert(x.drop_last().push(x.last()) =~= x);
        assert(seq![x.drop_last()].update(0, x.drop_last().push(x.last())) =~= seq![x]);
    } else {
        assert(x =~= Seq::<char>::empty());
    }
}

/// The lines of a text whose first part is empty or ends with a newline are
/// the lines of the first part followed by those of the second.
pub proof fn lemma_lines_concat(a: Seq<char>, b: Seq<char>)
    requires
        a.len() == 0 || a.last() == '\n',
    ensures
        lines_seq(a + b) == lines_seq(a) + lines_seq(b),
{
    lemma_split_concat(a, b, '\n');
    lemma_split_nonempty(a, '\n');
    lemma_split_nonempty(b, '\n');
    let pa = split_seq(a, '\n');
    let pb = split_seq(b, '\n');
    if a.len() > 0 {
        assert(pa == split_seq(a.drop_last(), '\n').push(Seq::<char>::empty()));
    }
    assert(pa.last() == Seq::<char>::empty());
    let p = pa.drop_last() + pb;
    assert(p.last() == pb.last());
    assert(p.drop_last() =~= pa.drop_last() + pb.drop_last());
    assert(p.drop_last().map_values(|l: Seq<char>| strip_cr_seq(l)) =~= pa.drop_last().map_values(
        |l: Seq<char>| strip_cr_seq(l),
    ) + pb.drop_last().map_values(|l: Seq<char>| strip_cr_seq(l)));
    assert(lines_seq(a + b) =~= lines_seq(a) + lines_seq(b));
}

/// Leading whitespace of a text with one more character at its end.
pub proof fn lemma_trim_start_push(s: Seq<char>, c: char)
    ensures
        trim_start_seq(s.push(c)) == if trim_start_seq(s).len() == 0 {
            trim_start_seq(seq![c])
        } else {
            trim_start_seq(s).push(c)
        },
    decreases s.len(),
{
    if s.len() == 0 {
        assert(s.push(c) =~= seq![c]);
    } else {
        assert(s.push(c)[0] == s[0]);
        assert(s.push(c).drop_first() =~= s.drop_first().push(c));
        if spec_is_whitespace(s[0]) {
            lemma_trim_start_push(s.drop_first(), c);
        }
    }
}

/// Appending whitespace to a text does not change its trimmed form.
pub proof fn lemma_trim_push_whitespace(s: Seq<char>, c: char)
    requires
        spec_is_whitespace(c),
    ensures
        trim_seq(s.push(c)) == trim_seq(s),
{
    lemma_trim_start_push(s, c);
    let t = trim_start_seq(s);
    if t.len() == 0 {
        assert(seq![c].drop_first() =~= Seq::<char>::empty());
        assert(trim_start_seq(seq![c]) == trim_start_seq(Seq::<char>::empty()));
        assert(trim_end_seq(Seq::<char>::empty()) == Seq::<char>::empty());
        assert(t =~= Seq::<char>::empty());
    } else {
        assert(t.push(c).drop_last() =~= t);
        assert(t.push(c).last() == c);
    }
}

/// Trailing whitespace is removed from the second part only, when the first
/// part ends with a character that is not whitespace.
pub proof fn lemma_trim_end_concat(a: Seq<char>, b: Seq<char>)
    requires
        a.len() > 0,
        !spec_is_whitespace(a.last()),
    ensures
        trim_end_seq(a + b) == a + trim_end_seq(b),
    decreases b.len(),
{
    if b.len() == 0 {
        assert(a + b =~= a);
        assert(a + trim_end_seq(b) =~= a);
    } else {
        assert((a + b).last() == b.last());
        if spec_is_whitespace(b.last()) {
            assert((a + b).drop_last() =~= a + b.drop_last());
            lemma_trim_end_concat(a, b.drop_last());
        }
    }
}

/// A text without its trailing whitespace is a prefix of the text.
pub proof fn lemma_trim_end_prefix(s: Seq<char>)
    ensures
        trim_end_seq(s).len() <= s.len(),
        trim_end_seq(s) == s.take(trim_end_seq(s).len() as int),
    decreases s.len(),
{
    if s.len() > 0 && spec_is_whitespace(s.last()) {
        lemma_trim_end_prefix(s.drop_last());
        assert(s.drop_last().take(trim_end_seq(s).len() as int) =~= s.take(trim_end_seq(s).len() as int));
    } else {
        assert(s.take(s.len() as int) =~= s);
    }
}

/// The first piece of a split is a prefix of the text; it is the whole text
/// when there is one piece, and not empty when the text starts with another
/// character than the separator.
pub proof fn lemma_split_first(y: Seq<char>, sep: char)
    ensures
        split_seq(y, sep).len() >= 1,
        split_seq(y, sep)[0].len() <= y.len(),
        split_seq(y, sep)[0] == y.take(split_seq(y, sep)[0].len() as int),
        split_seq(y, sep).len() == 1 ==> split_seq(y, sep)[0] == y,
        y.len() > 0 && y[0] != sep ==> split_seq(y, sep)[0].len() > 0,
    decreases y.len(),
{
    lemma_split_nonempty(y, sep);
    if y.len() > 0 {
        let y2 = y.drop_last();
        lemma_split_first(y2, sep);
        let p = split_seq(y2, sep);
        let k = p[0].len() as int;
        assert(y2.take(k) =~= y.take(k));
        if y.last() != sep && p.len() == 1 {
            assert(p[0].push(y.last()) =~= y);
        }
        if y.len() > 1 {
            assert(y2[0] == y[0]);
        }
    }
}

/// The leading word of a text made of a word and then nothing or whitespace
/// is that word.
pub proof fn lemma_word_prefix_concat(a: Seq<char>, b: Seq<char>)
    requires
        forall|i: int| 0 <= i < a.len() ==> !spec_is_whitespace(#[trigger] a[i]),
        b.len() == 0 || spec_is_whitespace(b[0]),
    ensures
        word_prefix_seq(a + b) == a,
    decreases a.len(),
{
    if a.len() == 0 {
        assert(a + b =~= b);
    } else {
        assert((a + b)[0] == a[0]);
        assert((a + b).drop_first() =~= a.drop_first() + b);
        assert forall|i: int| 0 <= i < a.drop_first().len() implies !spec_is_whitespace(
            #[trigger] a.drop_first()[i],
        ) by {
            assert(a.drop_first()[i] == a[i + 1]);
        }
        lemma_word_prefix_concat(a.drop_first(), b);
        assert(seq![a[0]] + a.drop_first() =~= a);
    }
}

} // verus!
