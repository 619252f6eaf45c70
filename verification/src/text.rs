//! Character-level text handling shared by the bridge, the command line and
//! the configuration: whitespace, trimming, substring search, word and line
//! splitting, and the conversions between `str`, `String` and `Vec<char>`.

use vstd::prelude::*;

verus! {

/// `String::push` appends one character at the end of the string.
pub assume_specification[ String::push ](s: &mut String, ch: char)
    ensures
        final(s)@ == old(s)@.push(ch),
;

/// The Unicode `White_Space` property, which is what `char::is_whitespace`
/// tests: the ASCII controls tab to carriage return, the space, NEL, NBSP,
/// the Ogham space mark, the spaces U+2000 to U+200A, the line and paragraph
/// separators, the narrow no-break space, the medium mathematical space and
/// the ideographic space.
pub open spec fn is_white_space(c: char) -> bool {
    ||| ('\u{0009}' <= c && c <= '\u{000D}')
    ||| c == ' '
    ||| c == '\u{0085}'
    ||| c == '\u{00A0}'
    ||| c == '\u{1680}'
    ||| ('\u{2000}' <= c && c <= '\u{200A}')
    ||| c == '\u{2028}'
    ||| c == '\u{2029}'
    ||| c == '\u{202F}'
    ||| c == '\u{205F}'
    ||| c == '\u{3000}'
}

pub fn is_whitespace(c: char) -> (b: bool)
    ensures
        b == is_white_space(c),
{
    ('\u{0009}' <= c && c <= '\u{000D}') || c == ' ' || c == '\u{0085}' || c == '\u{00A0}'
        || c == '\u{1680}' || ('\u{2000}' <= c && c <= '\u{200A}') || c == '\u{2028}'
        || c == '\u{2029}' || c == '\u{202F}' || c == '\u{205F}' || c == '\u{3000}'
}

/// Every character of `s` is whitespace (so `s.trim()` is empty).
pub open spec fn all_white(s: Seq<char>) -> bool {
    forall|i: int| 0 <= i < s.len() ==> is_white_space(#[trigger] s[i])
}

/// Number of leading whitespace characters of `s`.
pub open spec fn leading_white(s: Seq<char>) -> nat
    decreases s.len(),
{
    if s.len() > 0 && is_white_space(s[0]) {
        1 + leading_white(s.drop_first())
    } else {
        0
    }
}

/// Number of trailing whitespace characters of `s`.
pub open spec fn trailing_white(s: Seq<char>) -> nat
    decreases s.len(),
{
    if s.len() > 0 && is_white_space(s.last()) {
        1 + trailing_white(s.drop_last())
    } else {
        0
    }
}

/// What `str::trim` gives: `s` without its leading and trailing whitespace.
pub open spec fn trimmed(s: Seq<char>) -> Seq<char> {
    let t = s.skip(leading_white(s) as int);
    t.take(t.len() - trailing_white(t))
}

/// `needle` occurs in `hay` as a contiguous block (what `str::contains` tests).
pub open spec fn occurs_in(hay: Seq<char>, needle: Seq<char>) -> bool {
    exists|k: int| 0 <= k <= hay.len() - needle.len() && #[trigger] hay.subrange(k, k + needle.len()) == needle
}

/// The words of `s`, that is the maximal runs of non-whitespace characters, in
/// order (what `str::split_whitespace` yields). Appending a character either
/// ends nothing (whitespace), extends the last word, or starts a new one.
pub open spec fn words(s: Seq<char>) -> Seq<Seq<char>>
    decreases s.len(),
{
    if s.len() == 0 {
        seq![]
    } else {
        let p = s.drop_last();
        let c = s.last();
        if is_white_space(c) {
            words(p)
        } else if p.len() > 0 && !is_white_space(p.last()) {
            let w = words(p);
            w.update(w.len() - 1, w.last().push(c))
        } else {
            words(p).push(seq![c])
        }
    }
}

/// The pieces of `s` between the occurrences of `sep`, in order (what
/// `str::split(sep)` yields): there is always at least one, the one after the
/// last separator.
pub open spec fn pieces(s: Seq<char>, sep: char) -> Seq<Seq<char>>
    decreases s.len(),
{
    if s.len() == 0 {
        seq![seq![]]
    } else {
        let p = s.drop_last();
        if s.last() == sep {
            pieces(p, sep).push(seq![])
        } else {
            let l = pieces(p, sep);
            l.update(l.len() - 1, l.last().push(s.last()))
        }
    }
}

/// The pieces of `s` between line feeds (`str::split('\n')`).
pub open spec fn lines(s: Seq<char>) -> Seq<Seq<char>> {
    pieces(s, '\n')
}

/// The pieces of `parts` put end to end with one space between two of them.
pub open spec fn joined(parts: Seq<Seq<char>>) -> Seq<char>
    decreases parts.len(),
{
    if parts.len() == 0 {
        seq![]
    } else if parts.len() == 1 {
        parts[0]
    } else {
        joined(parts.drop_last()) + seq![' '] + parts.last()
    }
}

pub proof fn lemma_leading_white_bound(s: Seq<char>)
    ensures
        leading_white(s) <= s.len(),
        forall|i: int| 0 <= i < leading_white(s) ==> is_white_space(#[trigger] s[i]),
        leading_white(s) < s.len() ==> !is_white_space(s[leading_white(s) as int]),
    decreases s.len(),
{
    if s.len() > 0 && is_white_space(s[0]) {
        lemma_leading_white_bound(s.drop_first());
        assert forall|i: int| 0 <= i < leading_white(s) implies is_white_space(#[trigger] s[i]) by {
            if i > 0 {
                assert(s[i] == s.drop_first()[i - 1]);
            }
        }
    }
}

pub proof fn lemma_trailing_white_bound(s: Seq<char>)
    ensures
        trailing_white(s) <= s.len(),
        forall|i: int|
            s.len() - trailing_white(s) <= i < s.len() ==> is_white_space(#[trigger] s[i]),
        trailing_white(s) < s.len() ==> !is_white_space(s[s.len() - trailing_white(s) - 1]),
    decreases s.len(),
{
    if s.len() > 0 && is_white_space(s.last()) {
        lemma_trailing_white_bound(s.drop_last());
        assert forall|i: int| s.len() - trailing_white(s) <= i < s.len() implies is_white_space(
            #[trigger] s[i],
        ) by {
            if i < s.len() - 1 {
                assert(s[i] == s.drop_last()[i]);
            }
        }
    }
}

/// `leading_white` counts exactly the whitespace prefix.
pub proof fn lemma_leading_white_exact(s: Seq<char>, k: int)
    requires
        0 <= k <= s.len(),
        forall|i: int| 0 <= i < k ==> is_white_space(#[trigger] s[i]),
        k < s.len() ==> !is_white_space(s[k]),
    ensures
        leading_white(s) == k,
    decreases s.len(),
{
    if k > 0 {
        assert(is_white_space(s[0]));
        let t = s.drop_first();
        assert forall|i: int| 0 <= i < k - 1 implies is_white_space(#[trigger] t[i]) by {
            assert(t[i] == s[i + 1]);
        }
        if k - 1 < t.len() {
            assert(t[k - 1] == s[k]);
        }
        lemma_leading_white_exact(t, k - 1);
    } else if s.len() > 0 {
        assert(!is_white_space(s[0]));
    }
}

/// `trailing_white` counts exactly the whitespace suffix.
pub proof fn lemma_trailing_white_exact(s: Seq<char>, k: int)
    requires
        0 <= k <= s.len(),
        forall|i: int| s.len() - k <= i < s.len() ==> is_white_space(#[trigger] s[i]),
        k < s.len() ==> !is_white_space(s[s.len() - k - 1]),
    ensures
        trailing_white(s) == k,
    decreases s.len(),
{
    if k > 0 {
        assert(is_white_space(s[s.len() - 1]));
        let t = s.drop_last();
        assert forall|i: int| t.len() - (k - 1) <= i < t.len() implies is_white_space(
            #[trigger] t[i],
        ) by {
            assert(t[i] == s[i]);
        }
        if k - 1 < t.len() {
            assert(t[t.len() - (k - 1) - 1] == s[s.len() - k - 1]);
        }
        lemma_trailing_white_exact(t, k - 1);
    } else if s.len() > 0 {
        assert(!is_white_space(s.last()));
    }
}

/// `s.trim()` is empty exactly when every character of `s` is whitespace.
pub proof fn lemma_trimmed_empty(s: Seq<char>)
    ensures
        (trimmed(s).len() == 0) == all_white(s),
{
    lemma_leading_white_bound(s);
    let t = s.skip(leading_white(s) as int);
    lemma_trailing_white_bound(t);
    if all_white(s) {
        if leading_white(s) < s.len() {
            assert(is_white_space(s[leading_white(s) as int]));
        }
    } else {
        let i = choose|i: int| 0 <= i < s.len() && !is_white_space(s[i]);
        assert(i >= leading_white(s));
        assert(t[i - leading_white(s)] == s[i]);
        if trailing_white(t) == t.len() {
            assert(is_white_space(t[i - leading_white(s)]));
        }
    }
}

/// The characters of `s`, one by one.
pub fn chars_of(s: &str) -> (v: Vec<char>)
    ensures
        v@ == s@,
{
    let n = s.unicode_len();
    let mut v: Vec<char> = Vec::new();
    let mut i: usize = 0;
    while i < n
        invariant
            n == s@.len(),
            i <= n,
            v@ == s@.take(i as int),
        decreases n - i,
    {
        v.push(s.get_char(i));
        i = i + 1;
        assert(v@ =~= s@.take(i as int));
    }
    assert(v@ =~= s@);
    v
}

/// The string made of the characters of `v`.
pub fn string_from(v: &[char]) -> (s: String)
    ensures
        s@ == v@,
{
    let mut s = String::new();
    let mut i: usize = 0;
    while i < v.len()
        invariant
            i <= v@.len(),
            s@ == v@.take(i as int),
        decreases v@.len() - i,
    {
        s.push(v[i]);
        i = i + 1;
        assert(s@ =~= v@.take(i as int));
    }
    assert(s@ =~= v@);
    s
}

/// The string `a` followed by the string `b`.
pub fn concat(a: &str, b: &str) -> (s: String)
    ensures
        s@ == a@ + b@,
{
    let mut s = a.to_owned();
    s.append(b);
    s
}

/// `s` without its leading and trailing whitespace (`str::trim`).
pub fn trim_chars(s: &[char]) -> (r: Vec<char>)
    ensures
        r@ == trimmed(s@),
{
    let n = s.len();
    let mut start: usize = 0;
    while start < n && is_whitespace(s[start])
        invariant
            n == s@.len(),
            start <= n,
            forall|i: int| 0 <= i < start ==> is_white_space(#[trigger] s@[i]),
        decreases n - start,
    {
        start = start + 1;
    }
    proof {
        lemma_leading_white_exact(s@, start as int);
    }
    let mut end: usize = n;
    while end > start && is_whitespace(s[end - 1])
        invariant
            n == s@.len(),
            start <= end <= n,
            forall|i: int| end <= i < n ==> is_white_space(#[trigger] s@[i]),
        decreases end - start,
    {
        end = end - 1;
    }
    let ghost t = s@.skip(start as int);
    proof {
        assert forall|i: int| t.len() - (n - end) <= i < t.len() implies is_white_space(
            #[trigger] t[i],
        ) by {
            assert(t[i] == s@[i + start]);
        }
        if n - end < t.len() {
            assert(t[t.len() - (n - end) - 1] == s@[end - 1]);
        }
        lemma_trailing_white_exact(t, (n - end) as int);
    }
    let mut r: Vec<char> = Vec::new();
    let mut i: usize = start;
    while i < end
        invariant
            start <= i <= end <= n,
            n == s@.len(),
            r@ == s@.subrange(start as int, i as int),
        decreases end - i,
    {
        r.push(s[i]);
        i = i + 1;
        assert(r@ =~= s@.subrange(start as int, i as int));
    }
    assert(r@ =~= trimmed(s@));
    r
}

/// `s.trim()`, as a new string.
pub fn trim(s: &str) -> (r: String)
    ensures
        r@ == trimmed(s@),
{
    let v = chars_of(s);
    let t = trim_chars(v.as_slice());
    string_from(t.as_slice())
}

/// `s.trim().is_empty()`: `s` holds nothing but whitespace.
pub fn is_blank(s: &str) -> (b: bool)
    ensures
        b == all_white(s@),
        b == (trimmed(s@).len() == 0),
{
    let v = chars_of(s);
    let mut i: usize = 0;
    while i < v.len()
        invariant
            i <= v@.len(),
            v@ == s@,
            forall|j: int| 0 <= j < i ==> is_white_space(#[trigger] v@[j]),
        decreases v@.len() - i,
    {
        if !is_whitespace(v[i]) {
            proof {
                lemma_trimmed_empty(s@);
            }
            return false;
        }
        i = i + 1;
    }
    proof {
        lemma_trimmed_empty(s@);
    }
    true
}

/// Does `needle` occur in `hay` (`str::contains` with a string pattern)?
pub fn occurs(hay: &[char], needle: &[char]) -> (b: bool)
    ensures
        b == occurs_in(hay@, needle@),
{
    let n = hay.len();
    let m = needle.len();
    if m > n {
        return false;
    }
    let mut k: usize = 0;
    while k <= n - m
        invariant
            n == hay@.len(),
            m == needle@.len(),
            m <= n,
            k <= n - m + 1,
            forall|j: int| 0 <= j < k ==> #[trigger] hay@.subrange(j, j + m) != needle@,
        decreases n - m + 1 - k,
    {
        let mut i: usize = 0;
        while i < m && hay[k + i] == needle[i]
            invariant
                n == hay@.len(),
                m == needle@.len(),
                k + m <= n,
                i <= m,
                forall|j: int| 0 <= j < i ==> hay@[k + j] == needle@[j],
            decreases m - i,
        {
            i = i + 1;
        }
        if i == m {
            assert(hay@.subrange(k as int, k + m) =~= needle@);
            return true;
        }
        assert(hay@.subrange(k as int, k + m)[i as int] != needle@[i as int]);
        k = k + 1;
    }
    assert forall|j: int| 0 <= j <= n - m implies #[trigger] hay@.subrange(j, j + m) != needle@ by {}
    false
}

/// A vector of characters and its deep view are the same sequence.
pub proof fn lemma_chars_deep_view(v: &Vec<char>)
    ensures
        v.deep_view() == v@,
{
    assert(v.deep_view() =~= v@);
}

/// The words of `s` (`str::split_whitespace`), each as its characters.
pub fn split_words(s: &[char]) -> (r: Vec<Vec<char>>)
    ensures
        r.deep_view() == words(s@),
{
    let n = s.len();
    let mut done: Vec<Vec<char>> = Vec::new();
    let mut cur: Vec<char> = Vec::new();
    let mut i: usize = 0;
    while i < n
        invariant
            n == s@.len(),
            i <= n,
            cur@.len() > 0 ==> words(s@.take(i as int)) == done.deep_view().push(cur@),
            cur@.len() > 0 ==> i > 0 && !is_white_space(s@[i - 1]),
            cur@.len() == 0 ==> words(s@.take(i as int)) == done.deep_view(),
            cur@.len() == 0 ==> (i == 0 || is_white_space(s@[i - 1])),
        decreases n - i,
    {
        let c = s[i];
        let ghost before = s@.take(i as int);
        let ghost after = s@.take(i + 1);
        assert(after.drop_last() =~= before);
        assert(after.last() == c);
        if is_whitespace(c) {
            if cur.len() > 0 {
                let ghost dv = done.deep_view();
                let w = cur;
                proof {
                    lemma_chars_deep_view(&w);
                }
                done.push(w);
                cur = Vec::new();
                assert(done.deep_view() =~= dv.push(w@));
            }
        } else {
            if cur.len() > 0 {
                let ghost cv = cur@;
                cur.push(c);
                proof {
                    let wb = words(before);
                    assert(wb == done.deep_view().push(cv));
                    assert(words(after) == wb.update(wb.len() - 1, wb.last().push(c)));
                    assert(words(after) =~= done.deep_view().push(cur@));
                }
            } else {
                cur.push(c);
                assert(cur@ =~= seq![c]);
            }
        }
        i = i + 1;
    }
    assert(s@.take(n as int) =~= s@);
    if cur.len() > 0 {
        let ghost dv = done.deep_view();
        let w = cur;
        proof {
            lemma_chars_deep_view(&w);
        }
        done.push(w);
        assert(done.deep_view() =~= dv.push(w@));
    }
    done
}

/// The pieces of `s` between the occurrences of `sep` (`str::split(sep)`).
pub fn split_on(s: &[char], sep: char) -> (r: Vec<Vec<char>>)
    ensures
        r.deep_view() == pieces(s@, sep),
{
    let n = s.len();
    let mut done: Vec<Vec<char>> = Vec::new();
    let mut cur: Vec<char> = Vec::new();
    let mut i: usize = 0;
    assert(pieces(s@.take(0), sep) =~= seq![seq![]]);
    while i < n
        invariant
            n == s@.len(),
            i <= n,
            pieces(s@.take(i as int), sep) == done.deep_view().push(cur@),
        decreases n - i,
    {
        let c = s[i];
        let ghost before = s@.take(i as int);
        let ghost after = s@.take(i + 1);
        assert(after.drop_last() =~= before);
        assert(after.last() == c);
        if c == sep {
            let ghost dv = done.deep_view();
            let w = cur;
            proof {
                lemma_chars_deep_view(&w);
            }
            done.push(w);
            cur = Vec::new();
            assert(done.deep_view() =~= dv.push(w@));
            assert(pieces(after, sep) =~= done.deep_view().push(cur@));
        } else {
            let ghost cv = cur@;
            cur.push(c);
            assert(pieces(after, sep) =~= done.deep_view().push(cur@));
        }
        i = i + 1;
    }
    assert(s@.take(n as int) =~= s@);
    let ghost dv = done.deep_view();
    let w = cur;
    proof {
        lemma_chars_deep_view(&w);
    }
    done.push(w);
    assert(done.deep_view() =~= dv.push(w@));
    done
}

/// The pieces of `s` between line feeds (`str::split('\n')`).
pub fn split_lines(s: &[char]) -> (r: Vec<Vec<char>>)
    ensures
        r.deep_view() == lines(s@),
{
    split_on(s, '\n')
}

/// The pieces of `parts` from index `start` on, joined with single spaces
/// (`join(" ")` on what is left of an iterator after `start` items).
pub fn join_words_from(parts: &[Vec<char>], start: usize) -> (r: Vec<char>)
    requires
        start <= parts@.len(),
    ensures
        r@ == joined(parts.deep_view().skip(start as int)),
{
    let ghost all = parts.deep_view().skip(start as int);
    let mut r: Vec<char> = Vec::new();
    let mut i: usize = start;
    assert(all.take(0) =~= seq![]);
    while i < parts.len()
        invariant
            start <= i <= parts@.len(),
            all == parts.deep_view().skip(start as int),
            r@ == joined(all.take(i - start)),
        decreases parts@.len() - i,
    {
        let ghost next = all.take(i + 1 - start);
        assert(next.drop_last() =~= all.take(i - start));
        if i > start {
            r.push(' ');
        }
        let mut j: usize = 0;
        let ghost r0 = r@;
        while j < parts[i].len()
            invariant
                i < parts@.len(),
                j <= parts@[i as int]@.len(),
                r@ == r0 + parts@[i as int]@.take(j as int),
            decreases parts@[i as int]@.len() - j,
        {
            r.push(parts[i][j]);
            j = j + 1;
            assert(r@ =~= r0 + parts@[i as int]@.take(j as int));
        }
        assert(parts@[i as int]@.take(j as int) =~= parts@[i as int]@);
        assert(next.last() == parts@[i as int]@) by {
            lemma_chars_deep_view(&parts@[i as int]);
        }
        assert(r@ =~= joined(next));
        i = i + 1;
    }
    assert(all.take(parts@.len() - start) =~= all);
    r
}

/// Do the two texts hold the same characters?
pub fn same_chars(a: &[char], b: &[char]) -> (r: bool)
    ensures
        r == (a@ == b@),
{
    if a.len() != b.len() {
        return false;
    }
    let mut i: usize = 0;
    while i < a.len()
        invariant
            a@.len() == b@.len(),
            i <= a@.len(),
            forall|j: int| 0 <= j < i ==> a@[j] == b@[j],
        decreases a@.len() - i,
    {
        if a[i] != b[i] {
            return false;
        }
        i = i + 1;
    }
    assert(a@ =~= b@);
    true
}

/// The lower-case form of a text, as `str::to_lowercase` computes it from
/// the Unicode case tables.
pub uninterp spec fn lowercase_of(s: Seq<char>) -> Seq<char>;

/// Calls `str::to_lowercase`. The Unicode case mapping depends on the text
/// alone (no locale); its tables are not restated here, the result is the
/// name `lowercase_of` applied to the text.
#[verifier::external_body]
pub(crate) fn to_lowercase(s: &[char]) -> (r: Vec<char>)
    ensures
        r@ == lowercase_of(s@),
{
    let text: String = s.iter().collect();
    text.to_lowercase().chars().collect()
}

/// An ASCII character (code point below 128).
pub open spec fn is_ascii_char(c: char) -> bool {
    (c as u32) < 128
}

/// Every character of `s` is ASCII.
pub open spec fn all_ascii(s: Seq<char>) -> bool {
    forall|i: int| 0 <= i < s.len() ==> is_ascii_char(#[trigger] s[i])
}

/// The lower-case form of an ASCII character: `A` to `Z` become `a` to `z`,
/// every other character stays as it is (the Unicode mapping on ASCII).
pub open spec fn ascii_lower_char(c: char) -> char {
    if 'A' <= c && c <= 'Z' {
        ((c as u32) + 32) as char
    } else {
        c
    }
}

/// The lower-case form of a text, as `str::to_lowercase` gives it: on an
/// ASCII text, character by character; on any other text, the Unicode
/// mapping named `lowercase_of`.
pub open spec fn lowered(s: Seq<char>) -> Seq<char> {
    if all_ascii(s) {
        s.map_values(|c: char| ascii_lower_char(c))
    } else {
        lowercase_of(s)
    }
}

fn lower_ascii_char(c: char) -> (r: char)
    requires
        is_ascii_char(c),
    ensures
        r == ascii_lower_char(c),
{
    if 'A' <= c && c <= 'Z' {
        let b: u8 = c as u8;
        let l: u8 = b + 32;
        assert(b == c as u32);
        l as char
    } else {
        c
    }
}

/// The lower-case form of `s` (`str::to_lowercase`). An ASCII text is
/// lowered here, character by character; any other text goes to the
/// standard library.
pub fn lower_text(s: &[char]) -> (r: Vec<char>)
    ensures
        r@ == lowered(s@),
{
    let mut ascii = true;
    let mut i: usize = 0;
    while i < s.len()
        invariant
            i <= s@.len(),
            ascii == (forall|j: int| 0 <= j < i ==> is_ascii_char(#[trigger] s@[j])),
        decreases s@.len() - i,
    {
        if (s[i] as u32) >= 128 {
            ascii = false;
        }
        i = i + 1;
    }
    if !ascii {
        return to_lowercase(s);
    }
    let mut r: Vec<char> = Vec::new();
    let mut k: usize = 0;
    while k < s.len()
        invariant
            all_ascii(s@),
            k <= s@.len(),
            r@ == s@.take(k as int).map_values(|c: char| ascii_lower_char(c)),
        decreases s@.len() - k,
    {
        r.push(lower_ascii_char(s[k]));
        k = k + 1;
        assert(r@ =~= s@.take(k as int).map_values(|c: char| ascii_lower_char(c)));
    }
    assert(s@.take(s@.len() as int) =~= s@);
    r
}

/// `x` and `y` are the same character, or the same ASCII letter in its two
/// cases.
pub open spec fn same_up_to_case(x: char, y: char) -> bool {
    ||| x == y
    ||| ('A' <= x && x <= 'Z' && (y as u32) == (x as u32) + 32)
    ||| ('A' <= y && y <= 'Z' && (x as u32) == (y as u32) + 32)
}

/// Lowering an ASCII text keeps every character in its place: the result is
/// as long as the text, holds no upper-case ASCII letter, and each of its
/// characters is the text's character at the same place, or the lower-case
/// letter of that upper-case letter; lowering twice changes nothing more.
pub proof fn law_lowering_keeps_every_character(s: Seq<char>)
    requires
        all_ascii(s),
    ensures
        lowered(s).len() == s.len(),
        all_ascii(lowered(s)),
        forall|i: int| 0 <= i < s.len() ==> !('A' <= #[trigger] lowered(s)[i] && lowered(s)[i] <= 'Z'),
        forall|i: int| 0 <= i < s.len() ==> #[trigger] lowered(s)[i] == s[i] || ('A' <= s[i] && s[i] <= 'Z'
            && (lowered(s)[i] as u32) == (s[i] as u32) + 32),
        lowered(lowered(s)) == lowered(s),
{
    let r = lowered(s);
    assert forall|i: int| 0 <= i < s.len() implies is_ascii_char(#[trigger] r[i]) by {
        assert(is_ascii_char(s[i]));
    }
    assert(all_ascii(r));
    assert(lowered(r) =~= r);
}

/// Lowering keeps what a text holds: when `t` occurs in `s`, the lowered `t`
/// occurs in the lowered `s` (a title keeps every word it had).
pub proof fn law_lowering_keeps_occurrences(s: Seq<char>, t: Seq<char>)
    requires
        all_ascii(s),
        all_ascii(t),
        occurs_in(s, t),
    ensures
        occurs_in(lowered(s), lowered(t)),
{
    let k = choose|k: int| 0 <= k <= s.len() - t.len() && #[trigger] s.subrange(k, k + t.len()) == t;
    assert(lowered(s).subrange(k, k + t.len()) =~= lowered(t)) by {
        assert forall|j: int| 0 <= j < t.len() implies lowered(s).subrange(k, k + t.len())[j] == #[trigger] lowered(t)[j] by {
            assert(s[k + j] == s.subrange(k, k + t.len())[j]);
        }
    }
}

/// Texts that differ only in the case of their ASCII letters lower to the
/// same text (`Alacritty.Alacritty` and `alacritty.alacritty`).
pub proof fn law_lowering_ignores_case(a: Seq<char>, b: Seq<char>)
    requires
        all_ascii(a),
        all_ascii(b),
        a.len() == b.len(),
        forall|i: int| 0 <= i < a.len() ==> same_up_to_case(#[trigger] a[i], b[i]),
    ensures
        lowered(a) == lowered(b),
{
    assert forall|i: int| 0 <= i < a.len() implies #[trigger] lowered(a)[i] == lowered(b)[i] by {
        assert(same_up_to_case(a[i], b[i]));
    }
    assert(lowered(a) =~= lowered(b));
}

/// Lowering an ASCII text lowers each of its parts on its own.
pub proof fn law_lowering_distributes(a: Seq<char>, b: Seq<char>)
    requires
        all_ascii(a),
        all_ascii(b),
    ensures
        lowered(a + b) == lowered(a) + lowered(b),
{
    assert(all_ascii(a + b)) by {
        assert forall|i: int| 0 <= i < (a + b).len() implies is_ascii_char(#[trigger] (a + b)[i]) by {
            if i < a.len() {
                assert(is_ascii_char(a[i]));
            } else {
                assert(is_ascii_char(b[i - a.len()]));
            }
        }
    }
    assert(lowered(a + b) =~= lowered(a) + lowered(b));
}

/// A text that ends in a non-whitespace character has a word.
pub proof fn lemma_words_nonempty(s: Seq<char>)
    requires
        s.len() > 0,
        !is_white_space(s.last()),
    ensures
        words(s).len() > 0,
    decreases s.len(),
{
    let p = s.drop_last();
    if p.len() > 0 && !is_white_space(p.last()) {
        lemma_words_nonempty(p);
    }
}

/// The words of an ASCII text are ASCII.
pub proof fn lemma_words_ascii(s: Seq<char>)
    requires
        all_ascii(s),
    ensures
        forall|i: int| 0 <= i < words(s).len() ==> all_ascii(#[trigger] words(s)[i]),
    decreases s.len(),
{
    if s.len() > 0 {
        let p = s.drop_last();
        assert(all_ascii(p)) by {
            assert forall|i: int| 0 <= i < p.len() implies is_ascii_char(#[trigger] p[i]) by {
                assert(p[i] == s[i]);
            }
        }
        lemma_words_ascii(p);
        let c = s.last();
        assert(is_ascii_char(s[s.len() - 1]));
        let w = words(p);
        if !is_white_space(c) {
            if p.len() > 0 && !is_white_space(p.last()) {
                lemma_words_nonempty(p);
                assert forall|i: int| 0 <= i < words(s).len() implies all_ascii(#[trigger] words(s)[i]) by {
                    if i == w.len() - 1 {
                        let last = w.last().push(c);
                        assert(words(s)[i] == last);
                        assert(all_ascii(w[i]));
                        assert forall|j: int| 0 <= j < last.len() implies is_ascii_char(#[trigger] last[j]) by {
                            if j < w.last().len() {
                                assert(last[j] == w[i][j]);
                            }
                        }
                    } else {
                        assert(words(s)[i] == w[i]);
                    }
                }
            } else {
                assert forall|i: int| 0 <= i < words(s).len() implies all_ascii(#[trigger] words(s)[i]) by {
                    if i < w.len() {
                        assert(words(s)[i] == w[i]);
                    } else {
                        assert(words(s)[i] == seq![c]);
                    }
                }
            }
        }
    }
}

/// Parts that are all ASCII join into an ASCII text.
pub proof fn lemma_joined_ascii(parts: Seq<Seq<char>>)
    requires
        forall|i: int| 0 <= i < parts.len() ==> all_ascii(#[trigger] parts[i]),
    ensures
        all_ascii(joined(parts)),
    decreases parts.len(),
{
    if parts.len() == 1 {
        assert(all_ascii(parts[0]));
    } else if parts.len() > 1 {
        let init = parts.drop_last();
        assert forall|i: int| 0 <= i < init.len() implies all_ascii(#[trigger] init[i]) by {
            assert(init[i] == parts[i]);
        }
        lemma_joined_ascii(init);
        let j = joined(init) + seq![' '] + parts.last();
        assert(all_ascii(parts[parts.len() - 1]));
        assert forall|k: int| 0 <= k < j.len() implies is_ascii_char(#[trigger] j[k]) by {
            if k < joined(init).len() {
                assert(j[k] == joined(init)[k]);
            } else if k == joined(init).len() {
                assert(j[k] == ' ');
            } else {
                assert(j[k] == parts.last()[k - joined(init).len() - 1]);
            }
        }
    }
}

} // verus!
