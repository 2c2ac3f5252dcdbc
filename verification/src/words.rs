//! Splitting a command line into whitespace-separated words.
//!
//! Whitespace is Unicode `White_Space`, the set that `char::is_whitespace`,
//! `str::trim` and `str::split_whitespace` use.
use vstd::prelude::*;

verus! {

/// Unicode `White_Space`.
pub open spec fn is_ws(c: char) -> bool {
    let u = c as u32;
    ||| 0x09 <= u <= 0x0D
    ||| u == 0x20
    ||| u == 0x85
    ||| u == 0xA0
    ||| u == 0x1680
    ||| 0x2000 <= u <= 0x200A
    ||| u == 0x2028
    ||| u == 0x2029
    ||| u == 0x202F
    ||| u == 0x205F
    ||| u == 0x3000
}

/// The first position at or after `i` that does not hold whitespace
/// (`s.len()` if there is none).
pub open spec fn skip_ws_from(s: Seq<char>, i: int) -> int
    decreases s.len() - i,
{
    if 0 <= i < s.len() && is_ws(s[i]) {
        skip_ws_from(s, i + 1)
    } else {
        i
    }
}

/// The first position at or after `i` that holds whitespace (`s.len()` if
/// there is none).
pub open spec fn word_end_from(s: Seq<char>, i: int) -> int
    decreases s.len() - i,
{
    if 0 <= i < s.len() && !is_ws(s[i]) {
        word_end_from(s, i + 1)
    } else {
        i
    }
}

/// The end of `s.subrange(0, j)` once trailing whitespace is dropped.
pub open spec fn back_ws_from(s: Seq<char>, j: int) -> int
    decreases j,
{
    if 0 < j <= s.len() && is_ws(s[j - 1]) {
        back_ws_from(s, j - 1)
    } else {
        j
    }
}

pub proof fn lemma_skip_ws(s: Seq<char>, i: int)
    requires
        0 <= i <= s.len(),
    ensures
        i <= skip_ws_from(s, i) <= s.len(),
        skip_ws_from(s, i) < s.len() ==> !is_ws(s[skip_ws_from(s, i)]),
        forall|k: int| i <= k < skip_ws_from(s, i) ==> is_ws(#[trigger] s[k]),
    decreases s.len() - i,
{
    if i < s.len() && is_ws(s[i]) {
        lemma_skip_ws(s, i + 1);
    }
}

pub proof fn lemma_word_end(s: Seq<char>, i: int)
    requires
        0 <= i <= s.len(),
    ensures
        i <= word_end_from(s, i) <= s.len(),
        word_end_from(s, i) < s.len() ==> is_ws(s[word_end_from(s, i)]),
        forall|k: int| i <= k < word_end_from(s, i) ==> !is_ws(#[trigger] s[k]),
        i < s.len() && !is_ws(s[i]) ==> i < word_end_from(s, i),
    decreases s.len() - i,
{
    if i < s.len() && !is_ws(s[i]) {
        lemma_word_end(s, i + 1);
    }
}

pub proof fn lemma_back_ws(s: Seq<char>, j: int)
    requires
        0 <= j <= s.len(),
    ensures
        0 <= back_ws_from(s, j) <= j,
        back_ws_from(s, j) > 0 ==> !is_ws(s[back_ws_from(s, j) - 1]),
        forall|k: int| back_ws_from(s, j) <= k < j ==> is_ws(#[trigger] s[k]),
    decreases j,
{
    if 0 < j && is_ws(s[j - 1]) {
        lemma_back_ws(s, j - 1);
    }
}

/// The whitespace-separated words of `s` from position `i` on, in order.
pub open spec fn words_from(s: Seq<char>, i: int) -> Seq<Seq<char>>
    decreases s.len() - i,
    when 0 <= i <= s.len()
{
    let a = skip_ws_from(s, i);
    if a >= s.len() {
        Seq::empty()
    } else {
        let e = word_end_from(s, a);
        proof {
            lemma_skip_ws(s, i);
            lemma_word_end(s, a);
        }
        seq![s.subrange(a, e)] + words_from(s, e)
    }
}

/// The whitespace-separated words of `s`, in order.
pub open spec fn words(s: Seq<char>) -> Seq<Seq<char>> {
    words_from(s, 0)
}

/// `s` without leading and trailing whitespace.
pub open spec fn trim(s: Seq<char>) -> Seq<char> {
    let a = skip_ws_from(s, 0);
    if a >= s.len() {
        Seq::empty()
    } else {
        s.subrange(a, back_ws_from(s, s.len() as int))
    }
}

/// Every character of `p` is whitespace.
pub open spec fn all_ws(p: Seq<char>) -> bool {
    forall|i: int| 0 <= i < p.len() ==> is_ws(#[trigger] p[i])
}

proof fn lemma_skip_to_end(t: Seq<char>, j: int)
    requires
        0 <= j <= t.len(),
        forall|m: int| j <= m < t.len() ==> is_ws(#[trigger] t[m]),
    ensures
        skip_ws_from(t, j) == t.len(),
    decreases t.len() - j,
{
    if j < t.len() {
        lemma_skip_to_end(t, j + 1);
    }
}

proof fn lemma_skip_over(t: Seq<char>, j: int, k: int)
    requires
        0 <= j <= k <= t.len(),
        forall|m: int| j <= m < k ==> is_ws(#[trigger] t[m]),
    ensures
        skip_ws_from(t, j) == skip_ws_from(t, k),
    decreases k - j,
{
    if j < k {
        lemma_skip_over(t, j + 1, k);
    }
}

proof fn lemma_back_over(t: Seq<char>, j: int, k: int)
    requires
        0 <= j <= k <= t.len(),
        forall|m: int| j <= m < k ==> is_ws(#[trigger] t[m]),
    ensures
        back_ws_from(t, k) == back_ws_from(t, j),
    decreases k - j,
{
    if j < k {
        lemma_back_over(t, j, k - 1);
    }
}

proof fn lemma_skip_shift(p: Seq<char>, s: Seq<char>, q: Seq<char>, i: int)
    requires
        all_ws(p),
        all_ws(q),
        0 <= i <= s.len(),
    ensures
        skip_ws_from(s, i) < s.len() ==> skip_ws_from(p + s + q, p.len() + i) == p.len()
            + skip_ws_from(s, i),
        skip_ws_from(s, i) >= s.len() ==> skip_ws_from(p + s + q, p.len() + i) == (p + s
            + q).len(),
    decreases s.len() - i,
{
    let t = p + s + q;
    let k = p.len() as int;
    if i < s.len() {
        assert(t[k + i] == s[i]);
        if is_ws(s[i]) {
            lemma_skip_shift(p, s, q, i + 1);
        }
    } else {
        assert forall|m: int| k + i <= m < t.len() implies is_ws(#[trigger] t[m]) by {
            assert(t[m] == q[m - k - s.len()]);
        }
        lemma_skip_to_end(t, k + i);
    }
}

proof fn lemma_word_end_shift(p: Seq<char>, s: Seq<char>, q: Seq<char>, j: int)
    requires
        all_ws(p),
        all_ws(q),
        0 <= j <= s.len(),
    ensures
        word_end_from(p + s + q, p.len() + j) == p.len() + word_end_from(s, j),
    decreases s.len() - j,
{
    let t = p + s + q;
    let k = p.len() as int;
    if j < s.len() {
        assert(t[k + j] == s[j]);
        if !is_ws(s[j]) {
            lemma_word_end_shift(p, s, q, j + 1);
        }
    } else if q.len() > 0 {
        assert(t[k + j] == q[0]);
    }
}

proof fn lemma_back_shift(p: Seq<char>, s: Seq<char>, q: Seq<char>, j: int)
    requires
        all_ws(p),
        all_ws(q),
        0 <= j <= s.len(),
    ensures
        back_ws_from(s, j) > 0 ==> back_ws_from(p + s + q, p.len() + j) == p.len() + back_ws_from(
            s,
            j,
        ),
    decreases j,
{
    let t = p + s + q;
    let k = p.len() as int;
    if j > 0 {
        assert(t[k + j - 1] == s[j - 1]);
        if is_ws(s[j - 1]) {
            lemma_back_shift(p, s, q, j - 1);
        }
    }
}

proof fn lemma_words_shift(p: Seq<char>, s: Seq<char>, q: Seq<char>, i: int)
    requires
        all_ws(p),
        all_ws(q),
        0 <= i <= s.len(),
    ensures
        words_from(p + s + q, p.len() + i) == words_from(s, i),
    decreases s.len() - i,
{
    let t = p + s + q;
    let k = p.len() as int;
    lemma_skip_shift(p, s, q, i);
    lemma_skip_ws(s, i);
    let a = skip_ws_from(s, i);
    if a < s.len() {
        lemma_word_end(s, a);
        lemma_word_end_shift(p, s, q, a);
        let e = word_end_from(s, a);
        assert(t.subrange(k + a, k + e) =~= s.subrange(a, e));
        lemma_words_shift(p, s, q, e);
    }
}

/// Whitespace around a text changes neither its words nor its trimmed form.
pub proof fn lemma_surrounding_blanks(p: Seq<char>, s: Seq<char>, q: Seq<char>)
    requires
        all_ws(p),
        all_ws(q),
    ensures
        words(p + s + q) == words(s),
        trim(p + s + q) == trim(s),
{
    let t = p + s + q;
    let k = p.len() as int;
    assert forall|m: int| 0 <= m < k implies is_ws(#[trigger] t[m]) by {
        assert(t[m] == p[m]);
    }
    lemma_skip_over(t, 0, k);
    lemma_words_shift(p, s, q, 0);
    lemma_skip_shift(p, s, q, 0);
    lemma_skip_ws(s, 0);
    lemma_skip_ws(t, k);
    assert(words_from(t, 0) == words_from(t, k));
    let a = skip_ws_from(s, 0);
    if a < s.len() {
        lemma_back_ws(s, s.len() as int);
        assert(!is_ws(s[a]));
        let b = back_ws_from(s, s.len() as int);
        assert(a < b);
        assert forall|m: int| k + s.len() <= m < t.len() implies is_ws(#[trigger] t[m]) by {
            assert(t[m] == q[m - k - s.len()]);
        }
        lemma_back_over(t, k + s.len(), t.len() as int);
        lemma_back_shift(p, s, q, s.len() as int);
        assert(t.subrange(k + a, k + b) =~= s.subrange(a, b));
    }
}

/// Whether `c` is whitespace.
pub fn is_whitespace(c: char) -> (r: bool)
    ensures
        r == is_ws(c),
{
    let u = c as u32;
    (0x09 <= u && u <= 0x0D) || u == 0x20 || u == 0x85 || u == 0xA0 || u == 0x1680 || (0x2000
        <= u && u <= 0x200A) || u == 0x2028 || u == 0x2029 || u == 0x202F || u == 0x205F || u
        == 0x3000
}

/// The characters of `s`.
pub fn chars_of(s: &str) -> (v: Vec<char>)
    ensures
        v@ == s@,
{
    let n = s.unicode_len();
    let mut v: Vec<char> = Vec::new();
    let mut i: usize = 0;
    while i < n
        invariant
            n == s@.len(),
            i <= n,
            v@ == s@.subrange(0, i as int),
        decreases n - i,
    {
        v.push(s.get_char(i));
        i = i + 1;
    }
    v
}

/// The first position at or after `i` that does not hold whitespace.
pub fn skip_ws(v: &Vec<char>, i: usize) -> (r: usize)
    requires
        i <= v.len(),
    ensures
        r == skip_ws_from(v@, i as int),
{
    let mut j = i;
    while j < v.len() && is_whitespace(v[j])
        invariant
            i <= j <= v.len(),
            skip_ws_from(v@, j as int) == skip_ws_from(v@, i as int),
        decreases v.len() - j,
    {
        j = j + 1;
    }
    j
}

/// The first position at or after `i` that holds whitespace.
pub fn word_end(v: &Vec<char>, i: usize) -> (r: usize)
    requires
        i <= v.len(),
    ensures
        r == word_end_from(v@, i as int),
{
    let mut j = i;
    while j < v.len() && !is_whitespace(v[j])
        invariant
            i <= j <= v.len(),
            word_end_from(v@, j as int) == word_end_from(v@, i as int),
        decreases v.len() - j,
    {
        j = j + 1;
    }
    j
}

/// The end of `v[..j]` once trailing whitespace is dropped.
pub fn back_ws(v: &Vec<char>, j: usize) -> (r: usize)
    requires
        j <= v.len(),
    ensures
        r == back_ws_from(v@, j as int),
{
    let mut k = j;
    while k > 0 && is_whitespace(v[k - 1])
        invariant
            k <= j <= v.len(),
            back_ws_from(v@, k as int) == back_ws_from(v@, j as int),
        decreases k,
    {
        k = k - 1;
    }
    k
}

/// The bounds `(a, e)` of the first word at or after `i`; `a == v.len()`
/// when there is none. The words from `i` on are that word followed by the
/// words from `e` on.
pub fn next_word(v: &Vec<char>, i: usize) -> (r: (usize, usize))
    requires
        i <= v.len(),
    ensures
        r.0 <= r.1 <= v.len(),
        r.0 == v.len() <==> words_from(v@, i as int).len() == 0,
        r.0 == v.len() ==> r.1 == v.len(),
        r.0 < v.len() ==> words_from(v@, i as int) == seq![v@.subrange(r.0 as int, r.1 as int)]
            + words_from(v@, r.1 as int),
        r.0 < v.len() ==> r.0 < r.1,
        i <= r.0,
{
    let a = skip_ws(v, i);
    proof {
        lemma_skip_ws(v@, i as int);
    }
    if a >= v.len() {
        (a, a)
    } else {
        let e = word_end(v, a);
        proof {
            lemma_word_end(v@, a as int);
        }
        (a, e)
    }
}

/// Whether the two texts are the same.
pub fn same_text(a: &str, b: &str) -> (r: bool)
    ensures
        r == (a@ == b@),
{
    let n = a.unicode_len();
    if n != b.unicode_len() {
        return false;
    }
    let mut i: usize = 0;
    while i < n
        invariant
            n == a@.len(),
            n == b@.len(),
            i <= n,
            forall|k: int| 0 <= k < i ==> a@[k] == b@[k],
        decreases n - i,
    {
        if a.get_char(i) != b.get_char(i) {
            return false;
        }
        i = i + 1;
    }
    assert(a@ =~= b@);
    true
}

/// `s` without leading and trailing whitespace.
pub fn trimmed(s: &str) -> (r: String)
    ensures
        r@ == trim(s@),
{
    let v = chars_of(s);
    let a = skip_ws(&v, 0);
    proof {
        lemma_skip_ws(v@, 0);
    }
    if a >= v.len() {
        return String::new();
    }
    let b = back_ws(&v, v.len());
    proof {
        lemma_back_ws(v@, v@.len() as int);
        assert(!is_ws(v@[a as int]));
    }
    String::from_str(s.substring_char(a, b))
}

/// The word `s[a..e]`, counted in characters.
pub fn word_at(s: &str, a: usize, e: usize) -> (r: String)
    requires
        a <= e <= s@.len(),
    ensures
        r@ == s@.subrange(a as int, e as int),
{
    String::from_str(s.substring_char(a, e))
}

} // verus!
