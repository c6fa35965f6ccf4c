use vstd::prelude::*;

verus! {

/// Whether a character counts as whitespace for word splitting.
/// This is the Unicode `White_Space` set, as documented for
/// `char::is_whitespace` in std.
pub open spec fn is_space_char(c: char) -> bool {
    c == ' ' || c == '\t' || c == '\n' || c == '\u{b}' || c == '\u{c}' || c == '\r'
        || c == '\u{85}' || c == '\u{a0}' || c == '\u{1680}'
        || c == '\u{2000}' || c == '\u{2001}' || c == '\u{2002}' || c == '\u{2003}'
        || c == '\u{2004}' || c == '\u{2005}' || c == '\u{2006}' || c == '\u{2007}'
        || c == '\u{2008}' || c == '\u{2009}' || c == '\u{200a}'
        || c == '\u{2028}' || c == '\u{2029}' || c == '\u{202f}' || c == '\u{205f}'
        || c == '\u{3000}'
}

/// Executable test for `is_space_char`.
pub fn is_space(c: char) -> (r: bool)
    ensures
        r == is_space_char(c),
{
    c == ' ' || c == '\t' || c == '\n' || c == '\u{b}' || c == '\u{c}' || c == '\r'
        || c == '\u{85}' || c == '\u{a0}' || c == '\u{1680}'
        || c == '\u{2000}' || c == '\u{2001}' || c == '\u{2002}' || c == '\u{2003}'
        || c == '\u{2004}' || c == '\u{2005}' || c == '\u{2006}' || c == '\u{2007}'
        || c == '\u{2008}' || c == '\u{2009}' || c == '\u{200a}'
        || c == '\u{2028}' || c == '\u{2029}' || c == '\u{202f}' || c == '\u{205f}'
        || c == '\u{3000}'
}

/// State of a left-to-right word scan: the words completed so far and the
/// word currently being accumulated.
pub open spec fn split_step(st: (Seq<Seq<char>>, Seq<char>), c: char) -> (Seq<Seq<char>>, Seq<char>) {
    if is_space_char(c) {
        if st.1.len() == 0 {
            (st.0, Seq::empty())
        } else {
            (st.0.push(st.1), Seq::empty())
        }
    } else {
        (st.0, st.1.push(c))
    }
}

/// Run the word scan over a whole character sequence.
pub open spec fn split_run(st: (Seq<Seq<char>>, Seq<char>), s: Seq<char>) -> (Seq<Seq<char>>, Seq<char>)
    decreases s.len(),
{
    if s.len() == 0 {
        st
    } else {
        split_run(split_step(st, s[0]), s.drop_first())
    }
}

/// The sequence of whitespace-separated words of `s`, in order.
pub open spec fn words_of(s: Seq<char>) -> Seq<Seq<char>> {
    let st = split_run((Seq::empty(), Seq::empty()), s);
    if st.1.len() == 0 {
        st.0
    } else {
        st.0.push(st.1)
    }
}

/// A word is a maximal run of non-whitespace characters, so it is never
/// empty and never contains whitespace.
pub open spec fn no_space(w: Seq<char>) -> bool {
    forall|j: int| 0 <= j < w.len() ==> !is_space_char(w[j])
}

/// Well-formedness of a word list: every word is non-empty and free of
/// whitespace.
pub open spec fn wf_words(ws: Seq<Seq<char>>) -> bool {
    forall|i: int| 0 <= i < ws.len() ==> ws[i].len() > 0 && no_space(#[trigger] ws[i])
}

/// Running the scan over `a + b` is running it over `a`, then over `b`.
pub proof fn lemma_split_run_app(st: (Seq<Seq<char>>, Seq<char>), a: Seq<char>, b: Seq<char>)
    ensures
        split_run(st, a + b) == split_run(split_run(st, a), b),
    decreases a.len(),
{
    if a.len() == 0 {
        assert(a + b =~= b);
    } else {
        assert((a + b).drop_first() =~= a.drop_first() + b);
        lemma_split_run_app(split_step(st, a[0]), a.drop_first(), b);
    }
}

/// Scanning one more character applies one scan step.
pub proof fn lemma_split_run_snoc(st: (Seq<Seq<char>>, Seq<char>), s: Seq<char>, i: int)
    requires
        0 <= i < s.len(),
    ensures
        split_run(st, s.take(i + 1)) == split_step(split_run(st, s.take(i)), s[i]),
{
    assert(s.take(i + 1) =~= s.take(i) + seq![s[i]]);
    lemma_split_run_app(st, s.take(i), seq![s[i]]);
    let st2 = split_run(st, s.take(i));
    assert(split_run(st2, seq![s[i]]) == split_step(st2, s[i])) by {
        reveal_with_fuel(split_run, 2);
        assert(seq![s[i]].drop_first() =~= Seq::<char>::empty());
    }
}

/// The scan only produces well-formed words.
pub proof fn lemma_split_run_wf(st: (Seq<Seq<char>>, Seq<char>), s: Seq<char>)
    requires
        wf_words(st.0),
        no_space(st.1),
    ensures
        wf_words(split_run(st, s).0),
        no_space(split_run(st, s).1),
    decreases s.len(),
{
    if s.len() > 0 {
        let st1 = split_step(st, s[0]);
        assert(wf_words(st1.0) && no_space(st1.1)) by {
            if is_space_char(s[0]) {
                if st.1.len() > 0 {
                    assert(forall|i: int| 0 <= i < st.0.len() ==> st1.0[i] == st.0[i]);
                }
            } else {
                assert(forall|j: int| 0 <= j < st.1.len() ==> st1.1[j] == st.1[j]);
            }
        }
        lemma_split_run_wf(st1, s.drop_first());
    }
}

/// Every word produced by `words_of` is non-empty and free of whitespace.
pub proof fn lemma_words_of_wf(s: Seq<char>)
    ensures
        wf_words(words_of(s)),
{
    lemma_split_run_wf((Seq::empty(), Seq::empty()), s);
    let st = split_run((Seq::empty(), Seq::empty()), s);
    if st.1.len() > 0 {
        assert(forall|i: int| 0 <= i < st.0.len() ==> st.0.push(st.1)[i] == st.0[i]);
    }
}

/// The view of each string in a vector of words.
pub open spec fn views_of(ws: Seq<String>) -> Seq<Seq<char>> {
    ws.map_values(|w: String| w@)
}

/// Split a string into its whitespace-separated words.
/// Mirrors `str::split_whitespace`.
pub fn split_words(s: &str) -> (ws: Vec<String>)
    ensures
        views_of(ws@) == words_of(s@),
        wf_words(views_of(ws@)),
{
    let n = s.unicode_len();
    let mut ws: Vec<String> = Vec::new();
    let mut start: usize = 0;
    let mut in_word: bool = false;
    let mut i: usize = 0;
    proof {
        assert(s@.take(0) =~= Seq::<char>::empty());
    }
    while i < n
        invariant
            n == s@.len(),
            i <= n,
            in_word ==> start <= i,
            ({
                let st = split_run((Seq::empty(), Seq::empty()), s@.take(i as int));
                &&& st.0 == views_of(ws@)
                &&& st.1 == if in_word { s@.subrange(start as int, i as int) } else { Seq::<char>::empty() }
                &&& in_word ==> st.1.len() > 0
            }),
        decreases n - i,
    {
        let c = s.get_char(i);
        proof {
            lemma_split_run_snoc((Seq::empty(), Seq::empty()), s@, i as int);
        }
        if is_space(c) {
            if in_word {
                let w = String::from_str(s.substring_char(start, i));
                ws.push(w);
                in_word = false;
                proof {
                    let st = split_run((Seq::empty(), Seq::empty()), s@.take(i as int));
                    assert(views_of(ws@) =~= st.0.push(st.1));
                }
            }
        } else {
            if !in_word {
                start = i;
                in_word = true;
            }
            proof {
                assert(s@.subrange(start as int, i + 1) =~= s@.subrange(start as int, i as int).push(s@[i as int]));
            }
        }
        i = i + 1;
    }
    proof {
        assert(s@.take(n as int) =~= s@);
    }
    if in_word {
        let w = String::from_str(s.substring_char(start, n));
        ws.push(w);
        proof {
            let st = split_run((Seq::empty(), Seq::empty()), s@);
            assert(views_of(ws@) =~= st.0.push(st.1));
        }
    }
    proof {
        lemma_words_of_wf(s@);
    }
    ws
}

/// The needle occurs in `s` starting at position `k`.
pub open spec fn match_at(s: Seq<char>, needle: Seq<char>, k: int) -> bool {
    0 <= k && k + needle.len() <= s.len() && s.subrange(k, k + needle.len()) == needle
}

/// The needle occurs somewhere in `s` (as a contiguous run of characters).
pub open spec fn contains_seq(s: Seq<char>, needle: Seq<char>) -> bool {
    exists|k: int| match_at(s, needle, k)
}

/// Index of the leftmost occurrence of `needle` in `s`, or -1 if none.
pub open spec fn first_match(s: Seq<char>, needle: Seq<char>) -> int
    decreases s.len(),
{
    if needle.len() == 0 {
        0
    } else if s.len() < needle.len() {
        -1
    } else if s.take(needle.len() as int) == needle {
        0
    } else {
        let r = first_match(s.drop_first(), needle);
        if r < 0 {
            -1
        } else {
            1 + r
        }
    }
}

/// `first_match` finds the leftmost occurrence exactly when one exists.
pub proof fn lemma_first_match(s: Seq<char>, needle: Seq<char>)
    ensures
        first_match(s, needle) >= 0 ==> match_at(s, needle, first_match(s, needle))
            && (forall|j: int| 0 <= j < first_match(s, needle) ==> !match_at(s, needle, j)),
        first_match(s, needle) == -1 ==> forall|j: int| !match_at(s, needle, j),
        first_match(s, needle) >= 0 || first_match(s, needle) == -1,
    decreases s.len(),
{
    if needle.len() == 0 {
        assert(s.subrange(0, 0) =~= needle);
    } else if s.len() < needle.len() {
    } else if s.take(needle.len() as int) == needle {
        assert(s.subrange(0, needle.len() as int) =~= s.take(needle.len() as int));
    } else {
        lemma_first_match(s.drop_first(), needle);
        let t = s.drop_first();
        assert forall|j: int| 1 <= j implies match_at(s, needle, j) == match_at(t, needle, j - 1) by {
            if 0 <= j - 1 && j - 1 + needle.len() <= t.len() {
                assert(s.subrange(j, j + needle.len()) =~= t.subrange(j - 1, j - 1 + needle.len()));
            }
        }
        assert(!match_at(s, needle, 0)) by {
            if match_at(s, needle, 0) {
                assert(s.subrange(0, needle.len() as int) =~= s.take(needle.len() as int));
            }
        }
    }
}

/// Compare two string slices character by character.
pub fn str_eq(a: &str, b: &str) -> (r: bool)
    ensures
        r == (a@ == b@),
{
    let na = a.unicode_len();
    let nb = b.unicode_len();
    if na != nb {
        return false;
    }
    let mut i: usize = 0;
    while i < na
        invariant
            na == a@.len(),
            nb == b@.len(),
            na == nb,
            i <= na,
            forall|j: int| 0 <= j < i ==> a@[j] == b@[j],
        decreases na - i,
    {
        if a.get_char(i) != b.get_char(i) {
            return false;
        }
        i = i + 1;
    }
    proof {
        assert(a@ =~= b@);
    }
    true
}

/// Whether `p` occurs in `s` starting exactly at position `k`.
fn matches_at(s: &str, p: &str, k: usize) -> (r: bool)
    requires
        k + p@.len() <= s@.len(),
        s@.len() <= usize::MAX,
    ensures
        r == match_at(s@, p@, k as int),
{
    let m = p.unicode_len();
    let mut j: usize = 0;
    while j < m
        invariant
            m == p@.len(),
            k + m <= s@.len(),
            s@.len() <= usize::MAX,
            j <= m,
            forall|j2: int| 0 <= j2 < j ==> s@[k + j2] == p@[j2],
        decreases m - j,
    {
        if s.get_char(k + j) != p.get_char(j) {
            proof {
                assert(s@.subrange(k as int, k + m)[j as int] == s@[k + j]);
            }
            return false;
        }
        j = j + 1;
    }
    proof {
        assert(s@.subrange(k as int, k + m) =~= p@);
    }
    true
}

/// Position of the leftmost occurrence of `p` in `s`, if any.
/// Mirrors `str::find` on a plain-string pattern.
pub fn find_sub(s: &str, p: &str) -> (r: Option<usize>)
    ensures
        r matches Some(k) ==> k == first_match(s@, p@),
        r is None ==> first_match(s@, p@) == -1,
        r matches Some(k) ==> k + p@.len() <= s@.len(),
{
    proof {
        lemma_first_match(s@, p@);
    }
    let n = s.unicode_len();
    let m = p.unicode_len();
    if m > n {
        return None;
    }
    let mut k: usize = 0;
    while k <= n - m
        invariant
            n == s@.len(),
            m == p@.len(),
            m <= n,
            k <= n - m + 1,
            forall|j: int| 0 <= j < k ==> !match_at(s@, p@, j),
            first_match(s@, p@) >= 0 ==> match_at(s@, p@, first_match(s@, p@))
                && (forall|j: int| 0 <= j < first_match(s@, p@) ==> !match_at(s@, p@, j)),
            first_match(s@, p@) == -1 ==> forall|j: int| !match_at(s@, p@, j),
            first_match(s@, p@) >= 0 || first_match(s@, p@) == -1,
        decreases n - m - k + 1,
    {
        if matches_at(s, p, k) {
            return Some(k);
        }
        k = k + 1;
    }
    proof {
        assert(forall|j: int| k <= j ==> !match_at(s@, p@, j));
    }
    None
}

/// Whether `needle` occurs anywhere in `s`.
/// Mirrors `str::contains` on a plain-string pattern.
pub fn contains_sub(s: &str, needle: &str) -> (r: bool)
    ensures
        r == contains_seq(s@, needle@),
{
    proof {
        lemma_first_match(s@, needle@);
    }
    match find_sub(s, needle) {
        Some(_) => true,
        None => false,
    }
}

/// Whether `s` begins with `p`.
/// Mirrors `str::starts_with` on a plain-string pattern.
pub fn starts_with(s: &str, p: &str) -> (r: bool)
    ensures
        r == (p@.len() <= s@.len() && s@.take(p@.len() as int) == p@),
{
    let n = s.unicode_len();
    let m = p.unicode_len();
    if m > n {
        return false;
    }
    let r = matches_at(s, p, 0);
    proof {
        assert(s@.subrange(0, m as int) =~= s@.take(m as int));
    }
    r
}

/// The fields of `s` between non-overlapping leftmost occurrences of `sep`.
/// Mirrors `str::split` on a plain-string separator: empty fields are kept,
/// and an empty input yields one empty field.
pub open spec fn split_by(s: Seq<char>, sep: Seq<char>) -> Seq<Seq<char>>
    recommends
        sep.len() > 0,
    decreases s.len(),
    via split_by_decreases
{
    let k = first_match(s, sep);
    if k < 0 || sep.len() == 0 {
        seq![s]
    } else {
        seq![s.take(k)] + split_by(s.skip(k + sep.len()), sep)
    }
}

#[via_fn]
proof fn split_by_decreases(s: Seq<char>, sep: Seq<char>) {
    lemma_first_match(s, sep);
}

/// A split always yields at least one field.
pub proof fn lemma_split_by_nonempty(s: Seq<char>, sep: Seq<char>)
    requires
        sep.len() > 0,
    ensures
        split_by(s, sep).len() >= 1,
{
    lemma_first_match(s, sep);
}

/// Split a string on a plain-string separator, keeping empty fields.
pub fn split_str(s: &str, sep: &str) -> (fields: Vec<String>)
    requires
        sep@.len() > 0,
    ensures
        views_of(fields@) == split_by(s@, sep@),
{
    let mut fields: Vec<String> = Vec::new();
    let n = s.unicode_len();
    let m = sep.unicode_len();
    let mut off: usize = 0;
    let mut done: bool = false;
    proof {
        assert(s@.skip(0) =~= s@);
    }
    while !done
        invariant
            n == s@.len(),
            m == sep@.len(),
            m > 0,
            off <= n,
            !done ==> split_by(s@, sep@) == views_of(fields@) + split_by(s@.skip(off as int), sep@),
            done ==> views_of(fields@) == split_by(s@, sep@),
        decreases n - off + 1, (if done { 0int } else { 1int }),
    {
        let tail = s.substring_char(off, n);
        match find_sub(tail, sep) {
            None => {
                fields.push(String::from_str(tail));
                proof {
                    lemma_first_match(tail@, sep@);
                    assert(views_of(fields@) =~= (views_of(fields@).drop_last()).push(tail@));
                    assert(split_by(tail@, sep@) =~= seq![tail@]);
                    assert(views_of(fields@) =~= split_by(s@, sep@));
                }
                done = true;
            },
            Some(k) => {
                let piece = String::from_str(tail.substring_char(0, k));
                fields.push(piece);
                proof {
                    lemma_first_match(tail@, sep@);
                    assert(tail@.subrange(0, k as int) =~= tail@.take(k as int));
                    assert(tail@.skip(k + m) =~= s@.skip(off + k + m));
                    assert(split_by(tail@, sep@) == seq![tail@.take(k as int)] + split_by(s@.skip(off + k + m), sep@));
                    assert(views_of(fields@) + split_by(s@.skip(off + k + m), sep@)
                        =~= (views_of(fields@).drop_last() + seq![tail@.take(k as int)]) + split_by(s@.skip(off + k + m), sep@));
                    assert(views_of(fields@).drop_last() =~= views_of(fields@.drop_last()));
                }
                off = off + k + m;
            },
        }
    }
    fields
}

/// `s` with leading whitespace removed.
pub open spec fn trim_left_of(s: Seq<char>) -> Seq<char>
    decreases s.len(),
{
    if s.len() > 0 && is_space_char(s[0]) {
        trim_left_of(s.drop_first())
    } else {
        s
    }
}

/// `s` with trailing whitespace removed.
pub open spec fn trim_right_of(s: Seq<char>) -> Seq<char>
    decreases s.len(),
{
    if s.len() > 0 && is_space_char(s.last()) {
        trim_right_of(s.drop_last())
    } else {
        s
    }
}

/// `s` with both leading and trailing whitespace removed.
/// Mirrors `str::trim`.
pub open spec fn trim_of(s: Seq<char>) -> Seq<char> {
    trim_right_of(trim_left_of(s))
}

proof fn lemma_trim_left_skip(s: Seq<char>, i: int)
    requires
        0 <= i <= s.len(),
        forall|j: int| 0 <= j < i ==> is_space_char(s[j]),
    ensures
        trim_left_of(s) == trim_left_of(s.skip(i)),
    decreases i,
{
    assert(s.skip(0) =~= s);
    if i > 0 {
        assert(trim_left_of(s) == trim_left_of(s.drop_first())) by {
            assert(s.len() > 0 && is_space_char(s[0]));
        }
        assert(s.drop_first() =~= s.skip(1));
        let t = s.skip(1);
        assert(forall|j: int| 0 <= j < i - 1 ==> t[j] == s[j + 1] && is_space_char(t[j]));
        lemma_trim_left_skip(t, i - 1);
        assert(t.skip(i - 1) =~= s.skip(i));
    }
}

proof fn lemma_trim_right_take(s: Seq<char>, i: int)
    requires
        0 <= i <= s.len(),
        forall|j: int| i <= j < s.len() ==> is_space_char(s[j]),
    ensures
        trim_right_of(s) == trim_right_of(s.take(i)),
    decreases s.len() - i,
{
    assert(s.take(s.len() as int) =~= s);
    if i < s.len() {
        assert(trim_right_of(s) == trim_right_of(s.drop_last())) by {
            assert(is_space_char(s.last()));
        }
        assert(s.drop_last() =~= s.take(s.len() - 1));
        let t = s.take(s.len() - 1);
        lemma_trim_right_take(t, i);
        assert(t.take(i) =~= s.take(i));
    }
}

/// Remove leading and trailing whitespace.
/// Mirrors `str::trim`.
pub fn trim(s: &str) -> (r: String)
    ensures
        r@ == trim_of(s@),
{
    let n = s.unicode_len();
    let mut a: usize = 0;
    while a < n && is_space(s.get_char(a))
        invariant
            n == s@.len(),
            a <= n,
            forall|j: int| 0 <= j < a ==> is_space_char(s@[j]),
        decreases n - a,
    {
        a = a + 1;
    }
    if a == n {
        proof {
            lemma_trim_left_skip(s@, a as int);
            assert(s@.skip(n as int) =~= Seq::<char>::empty());
        }
        return String::new();
    }
    let mut b: usize = n;
    while b > a && is_space(s.get_char(b - 1))
        invariant
            n == s@.len(),
            a <= b <= n,
            forall|j: int| b <= j < n ==> is_space_char(s@[j]),
        decreases b,
    {
        b = b - 1;
    }
    proof {
        lemma_trim_left_skip(s@, a as int);
        let t = s@.skip(a as int);
        assert(forall|j: int| b - a <= j < t.len() ==> t[j] == s@[j + a] && is_space_char(t[j]));
        lemma_trim_right_take(t, b - a);
        assert(!is_space_char(s@[a as int]));
        assert(t.take(b - a) =~= s@.subrange(a as int, b as int));
        assert(trim_right_of(s@.subrange(a as int, b as int)) == s@.subrange(a as int, b as int)) by {
            if b > a {
                assert(!is_space_char(s@.subrange(a as int, b as int).last()));
            }
        }
    }
    String::from_str(s.substring_char(a, b))
}

/// `s` with every leading and trailing occurrence of `c` removed.
/// Mirrors `str::trim_matches` on a single-character pattern.
pub open spec fn trim_char_left_of(s: Seq<char>, c: char) -> Seq<char>
    decreases s.len(),
{
    if s.len() > 0 && s[0] == c {
        trim_char_left_of(s.drop_first(), c)
    } else {
        s
    }
}

/// Trailing part of `trim_char_of`.
pub open spec fn trim_char_of(s: Seq<char>, c: char) -> Seq<char>
    decreases s.len(),
{
    let t = trim_char_left_of(s, c);
    trim_char_right_rec(t, c)
}

/// `s` with every trailing occurrence of `c` removed.
pub open spec fn trim_char_right_rec(s: Seq<char>, c: char) -> Seq<char>
    decreases s.len(),
{
    if s.len() > 0 && s.last() == c {
        trim_char_right_rec(s.drop_last(), c)
    } else {
        s
    }
}

proof fn lemma_trim_char_left_skip(s: Seq<char>, c: char, i: int)
    requires
        0 <= i <= s.len(),
        forall|j: int| 0 <= j < i ==> s[j] == c,
    ensures
        trim_char_left_of(s, c) == trim_char_left_of(s.skip(i), c),
    decreases i,
{
    assert(s.skip(0) =~= s);
    if i > 0 {
        assert(s.drop_first() =~= s.skip(1));
        let t = s.skip(1);
        assert(forall|j: int| 0 <= j < i - 1 ==> t[j] == s[j + 1] && t[j] == c);
        lemma_trim_char_left_skip(t, c, i - 1);
        assert(t.skip(i - 1) =~= s.skip(i));
    }
}

proof fn lemma_trim_char_right_take(s: Seq<char>, c: char, i: int)
    requires
        0 <= i <= s.len(),
        forall|j: int| i <= j < s.len() ==> s[j] == c,
    ensures
        trim_char_right_rec(s, c) == trim_char_right_rec(s.take(i), c),
    decreases s.len() - i,
{
    assert(s.take(s.len() as int) =~= s);
    if i < s.len() {
        assert(s.drop_last() =~= s.take(s.len() - 1));
        let t = s.take(s.len() - 1);
        lemma_trim_char_right_take(t, c, i);
        assert(t.take(i) =~= s.take(i));
    }
}

/// Remove every leading and trailing occurrence of `c`.
/// Mirrors `str::trim_matches` with a char pattern.
pub fn trim_char(s: &str, c: char) -> (r: String)
    ensures
        r@ == trim_char_of(s@, c),
{
    let n = s.unicode_len();
    let mut a: usize = 0;
    while a < n && s.get_char(a) == c
        invariant
            n == s@.len(),
            a <= n,
            forall|j: int| 0 <= j < a ==> s@[j] == c,
        decreases n - a,
    {
        a = a + 1;
    }
    if a == n {
        proof {
            lemma_trim_char_left_skip(s@, c, a as int);
            assert(s@.skip(n as int) =~= Seq::<char>::empty());
        }
        return String::new();
    }
    let mut b: usize = n;
    while b > a && s.get_char(b - 1) == c
        invariant
            n == s@.len(),
            a <= b <= n,
            forall|j: int| b <= j < n ==> s@[j] == c,
        decreases b,
    {
        b = b - 1;
    }
    proof {
        lemma_trim_char_left_skip(s@, c, a as int);
        let t = s@.skip(a as int);
        assert(forall|j: int| b - a <= j < t.len() ==> t[j] == s@[j + a] && t[j] == c);
        lemma_trim_char_right_take(t, c, b - a);
        assert(s@[a as int] != c);
        assert(t.take(b - a) =~= s@.subrange(a as int, b as int));
        assert(trim_char_right_rec(s@.subrange(a as int, b as int), c) == s@.subrange(a as int, b as int)) by {
            if b > a {
                assert(s@.subrange(a as int, b as int).last() != c);
            }
        }
    }
    String::from_str(s.substring_char(a, b))
}

/// Whether `c` is an ASCII decimal digit.
pub open spec fn is_digit_char(c: char) -> bool {
    '0' <= c && c <= '9'
}

/// The numeric value of a digit character.
pub open spec fn digit_val(c: char) -> int {
    c as int - '0' as int
}

/// The number denoted by a digit sequence, read left to right.
pub open spec fn digits_val(s: Seq<char>) -> int
    decreases s.len(),
{
    if s.len() == 0 {
        0
    } else {
        digits_val(s.drop_last()) * 10 + digit_val(s.last())
    }
}

/// Whether every character of `s` is an ASCII decimal digit.
pub open spec fn all_digits(s: Seq<char>) -> bool {
    forall|j: int| 0 <= j < s.len() ==> is_digit_char(#[trigger] s[j])
}

/// The value a decimal parse of `s` yields: the denoted number if `s` is a
/// non-empty run of digits whose value fits in `u32`, and nothing otherwise.
pub open spec fn parsed_u32(s: Seq<char>) -> Option<u32> {
    if s.len() > 0 && all_digits(s) && digits_val(s) <= u32::MAX {
        Some(digits_val(s) as u32)
    } else {
        None
    }
}

proof fn lemma_digits_val_snoc(s: Seq<char>, i: int)
    requires
        0 <= i < s.len(),
    ensures
        digits_val(s.take(i + 1)) == digits_val(s.take(i)) * 10 + digit_val(s[i]),
{
    let t = s.take(i + 1);
    assert(t.drop_last() =~= s.take(i));
    assert(t.last() == s[i]);
}

/// Parse a non-empty run of ASCII digits as a `u32`, rejecting anything
/// else, including values that overflow.
pub fn parse_u32(s: &str) -> (r: Option<u32>)
    ensures
        r == parsed_u32(s@),
{
    let n = s.unicode_len();
    if n == 0 {
        return None;
    }
    let mut acc: u32 = 0;
    let mut i: usize = 0;
    proof {
        assert(s@.take(0) =~= Seq::<char>::empty());
    }
    while i < n
        invariant
            n == s@.len(),
            i <= n,
            all_digits(s@.take(i as int)),
            acc == digits_val(s@.take(i as int)),
        decreases n - i,
    {
        let c = s.get_char(i);
        if c < '0' || c > '9' {
            proof {
                assert(!is_digit_char(s@[i as int]));
            }
            return None;
        }
        let d: u32 = (c as u32) - 48;
        proof {
            lemma_digits_val_snoc(s@, i as int);
            assert(d == digit_val(s@[i as int]));
        }
        if acc > (u32::MAX - d) / 10 {
            proof {
                let t = s@.take(i + 1);
                assert(digits_val(t) > u32::MAX);
                if all_digits(s@) {
                    assert(forall|j: int| 0 <= j < t.len() ==> t[j] == s@[j]);
                    lemma_digits_prefix_overflow(s@, i + 1);
                }
            }
            return None;
        }
        acc = acc * 10 + d;
        proof {
            assert(all_digits(s@.take(i + 1))) by {
                assert(forall|j: int| 0 <= j < i ==> s@.take(i + 1)[j] == s@.take(i as int)[j]);
                assert(s@.take(i + 1)[i as int] == s@[i as int]);
            }
        }
        i = i + 1;
    }
    proof {
        assert(s@.take(n as int) =~= s@);
    }
    Some(acc)
}

/// A digit run whose prefix already exceeds `u32::MAX` denotes a value
/// that also exceeds it.
proof fn lemma_digits_prefix_overflow(s: Seq<char>, i: int)
    requires
        0 <= i <= s.len(),
        all_digits(s),
        digits_val(s.take(i)) > u32::MAX,
    ensures
        digits_val(s) > u32::MAX,
    decreases s.len() - i,
{
    if i < s.len() {
        lemma_digits_val_snoc(s, i);
        assert(is_digit_char(s[i]));
        lemma_digits_prefix_overflow(s, i + 1);
    } else {
        assert(s.take(i) =~= s);
    }
}

/// The character for a single decimal digit.
pub open spec fn digit_char_of(d: int) -> char {
    if d == 0 { '0' } else if d == 1 { '1' } else if d == 2 { '2' } else if d == 3 { '3' }
    else if d == 4 { '4' } else if d == 5 { '5' } else if d == 6 { '6' } else if d == 7 { '7' }
    else if d == 8 { '8' } else { '9' }
}

/// The decimal rendering of a natural number, without sign or padding.
pub open spec fn dec_str_of(n: nat) -> Seq<char>
    decreases n,
{
    if n < 10 {
        seq![digit_char_of(n as int)]
    } else {
        dec_str_of(n / 10).push(digit_char_of((n % 10) as int))
    }
}

/// Render a `u64` in decimal.
pub fn u64_to_string(n: u64) -> (r: String)
    ensures
        r@ == dec_str_of(n as nat),
    decreases n,
{
    let digits = "0123456789";
    proof {
        reveal_strlit("0123456789");
    }
    if n < 10 {
        let d = n as usize;
        let r = String::from_str(digits.substring_ascii(d, d + 1));
        proof {
            assert(digits@.subrange(n as int, n as int + 1) =~= seq![digit_char_of(n as int)]);
        }
        r
    } else {
        let mut r = u64_to_string(n / 10);
        let d = (n % 10) as usize;
        r.append(digits.substring_ascii(d, d + 1));
        proof {
            assert(digits@.subrange(d as int, d as int + 1) =~= seq![digit_char_of(d as int)]);
            assert(dec_str_of((n / 10) as nat) + seq![digit_char_of(d as int)]
                =~= dec_str_of((n / 10) as nat).push(digit_char_of(d as int)));
        }
        r
    }
}

/// Render a `usize` in decimal.
pub fn usize_to_string(n: usize) -> (r: String)
    ensures
        r@ == dec_str_of(n as nat),
{
    u64_to_string(n as u64)
}

/// Lexicographic order on texts, by character scalar value, a shorter
/// text coming before its extensions.
pub open spec fn lex_less(a: Seq<char>, b: Seq<char>) -> bool
    decreases a.len(),
{
    if b.len() == 0 {
        false
    } else if a.len() == 0 {
        true
    } else if a[0] != b[0] {
        (a[0] as int) < (b[0] as int)
    } else {
        lex_less(a.drop_first(), b.drop_first())
    }
}

/// The order of two texts is decided past any common prefix.
proof fn lemma_lex_less_skip(a: Seq<char>, b: Seq<char>, i: int)
    requires
        0 <= i <= a.len(),
        i <= b.len(),
        a.take(i) == b.take(i),
    ensures
        lex_less(a, b) == lex_less(a.skip(i), b.skip(i)),
    decreases i,
{
    assert(a.skip(0) =~= a);
    assert(b.skip(0) =~= b);
    if i > 0 {
        assert(a[0] == b[0]) by {
            assert(a.take(i)[0] == a[0]);
            assert(b.take(i)[0] == b[0]);
        }
        assert(a.len() > 0 && b.len() > 0);
        let a1 = a.drop_first();
        let b1 = b.drop_first();
        assert(a1.take(i - 1) =~= b1.take(i - 1)) by {
            assert(forall|j: int| 0 <= j < i - 1 ==> #[trigger] a1.take(i - 1)[j] == a[j + 1]
                && b1.take(i - 1)[j] == b[j + 1]);
            assert(forall|j: int| 0 <= j < i ==> #[trigger] a.take(i)[j] == a[j]
                && #[trigger] b.take(i)[j] == b[j]);
        }
        lemma_lex_less_skip(a1, b1, i - 1);
        assert(a1.skip(i - 1) =~= a.skip(i));
        assert(b1.skip(i - 1) =~= b.skip(i));
    }
}

/// Compare two texts lexicographically.
pub fn str_lex_less(a: &str, b: &str) -> (r: bool)
    ensures
        r == lex_less(a@, b@),
{
    let na = a.unicode_len();
    let nb = b.unicode_len();
    let mut i: usize = 0;
    while i < na && i < nb
        invariant
            na == a@.len(),
            nb == b@.len(),
            i <= na,
            i <= nb,
            a@.take(i as int) == b@.take(i as int),
        decreases na - i,
    {
        let ca = a.get_char(i);
        let cb = b.get_char(i);
        if ca != cb {
            proof {
                lemma_lex_less_skip(a@, b@, i as int);
                assert(a@.skip(i as int)[0] == a@[i as int]);
                assert(b@.skip(i as int)[0] == b@[i as int]);
            }
            return (ca as u32) < (cb as u32);
        }
        proof {
            assert(a@.take(i + 1) =~= b@.take(i + 1)) by {
                assert(forall|j: int| 0 <= j < i ==> #[trigger] a@.take(i + 1)[j] == a@.take(i as int)[j]
                    && b@.take(i + 1)[j] == b@.take(i as int)[j]);
            }
        }
        i = i + 1;
    }
    proof {
        lemma_lex_less_skip(a@, b@, i as int);
        if i == na {
            assert(a@.skip(i as int) =~= Seq::<char>::empty());
        } else {
            assert(b@.skip(i as int) =~= Seq::<char>::empty());
        }
    }
    na < nb
}

/// What `str::to_lowercase` returns: a function of the characters alone.
pub uninterp spec fn lower_of(s: Seq<char>) -> Seq<char>;

/// Relies on str::to_lowercase: the result depends only on the input text.
#[verifier::external_body]
pub fn to_lowercase(s: &str) -> (r: String)
    ensures
        r@ == lower_of(s@),
{
    s.to_lowercase()
}

} // verus!
