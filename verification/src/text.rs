//! Small text questions the domain rules ask.
use vstd::prelude::*;

verus! {

/// Whether `c` has the Unicode `White_Space` property: tab to carriage return, space,
/// next line, no-break space, Ogham space mark, the spaces from en quad to hair space, line
/// and paragraph separators, narrow no-break space, medium mathematical space and
/// ideographic space.
pub open spec fn unicode_white_space(c: char) -> bool {
    let u = c as u32;
    (0x9 <= u <= 0xD) || u == 0x20 || u == 0x85 || u == 0xA0 || u == 0x1680 || (0x2000 <= u <= 0x200A)
        || u == 0x2028 || u == 0x2029 || u == 0x202F || u == 0x205F || u == 0x3000
}

/// Whether every character of `s` is ASCII.
pub open spec fn ascii_text(s: Seq<char>) -> bool {
    forall|i: int| 0 <= i < s.len() ==> (#[trigger] s[i] as u32) < 128
}

/// Whether `r` is ASCII text `s` with each upper-case letter made lower case.
pub open spec fn ascii_lowered(s: Seq<char>, r: Seq<char>) -> bool {
    &&& r.len() == s.len()
    &&& forall|i: int| 0 <= i < s.len() ==> (#[trigger] r[i] as u32) as int == if 65 <= (s[i] as u32) <= 90 {
        (s[i] as u32) + 32
    } else {
        (s[i] as u32) as int
    }
}

/// Whether `r` is ASCII text `s` with each lower-case letter made upper case.
pub open spec fn ascii_uppered(s: Seq<char>, r: Seq<char>) -> bool {
    &&& r.len() == s.len()
    &&& forall|i: int| 0 <= i < s.len() ==> (#[trigger] r[i] as u32) as int == if 97 <= (s[i] as u32) <= 122 {
        (s[i] as u32) - 32
    } else {
        (s[i] as u32) as int
    }
}

/// The lower-case form of `s` by the Unicode case mappings (as `str::to_lowercase` gives it,
/// with a final capital sigma mapped by its context).
pub uninterp spec fn unicode_lowercase(s: Seq<char>) -> Seq<char>;

/// The upper-case form of `s` by the Unicode case mappings (as `str::to_uppercase` gives it).
pub uninterp spec fn unicode_uppercase(s: Seq<char>) -> Seq<char>;

/// Whether `s` is made of ASCII lower-case letters only.
pub open spec fn ascii_lower_word(s: Seq<char>) -> bool {
    forall|i: int| 0 <= i < s.len() ==> 'a' <= #[trigger] s[i] <= 'z'
}

/// Whether every character of `s` is white space (so that trimming leaves nothing).
pub open spec fn blank(s: Seq<char>) -> bool {
    forall|i: int| 0 <= i < s.len() ==> unicode_white_space(#[trigger] s[i])
}

/// Whether `c` is white space (the `White_Space` property).
fn is_white_space(c: char) -> (r: bool)
    ensures
        r == unicode_white_space(c),
{
    let u = c as u32;
    (0x9 <= u && u <= 0xD) || u == 0x20 || u == 0x85 || u == 0xA0 || u == 0x1680 || (0x2000 <= u && u <= 0x200A)
        || u == 0x2028 || u == 0x2029 || u == 0x202F || u == 0x205F || u == 0x3000
}

/// Whether two texts are equal.
pub fn text_eq(a: &str, b: &str) -> (r: bool)
    ensures
        r == (a@ == b@),
{
    a.to_string() == b.to_string()
}

/// Whether `s` is empty once leading and trailing white space is removed.
pub fn is_blank(s: &str) -> (r: bool)
    ensures
        r == blank(s@),
{
    let n = s.unicode_len();
    let mut i: usize = 0;
    while i < n
        invariant
            n == s@.len(),
            i <= n,
            forall|j: int| 0 <= j < i ==> unicode_white_space(#[trigger] s@[j]),
        decreases n - i,
    {
        if !is_white_space(s.get_char(i)) {
            return false;
        }
        i += 1;
    }
    true
}

/// The lower-case form of `s`, through `str::to_lowercase`. Claimed of std: the result is
/// the named `unicode_lowercase` of `s`; ASCII text has each upper-case letter made lower
/// case and the rest kept, so text of ASCII lower-case letters only is left as it is.
#[verifier::external_body]
pub(crate) fn lowercase(s: &str) -> (r: String)
    ensures
        r@ == unicode_lowercase(s@),
        ascii_text(s@) ==> ascii_lowered(s@, r@),
        ascii_lower_word(s@) ==> r@ == s@,
{
    s.to_lowercase()
}

/// The upper-case form of `s`, through `str::to_uppercase`. Claimed of std: the result is
/// the named `unicode_uppercase` of `s`; ASCII text has each lower-case letter made upper
/// case and the rest kept.
#[verifier::external_body]
pub(crate) fn uppercase(s: &str) -> (r: String)
    ensures
        r@ == unicode_uppercase(s@),
        ascii_text(s@) ==> ascii_uppered(s@, r@),
{
    s.to_uppercase()
}

} // verus!

verus! {

/// The code of `c` with ASCII upper-case letters folded to lower case
/// (SQL `LIKE` compares letters this way).
pub open spec fn ascii_fold(c: char) -> u32 {
    let v = c as u32;
    if 65 <= v <= 90 {
        (v + 32) as u32
    } else {
        v
    }
}

fn fold_char(c: char) -> (r: u32)
    ensures
        r == ascii_fold(c),
{
    let v = c as u32;
    if 65 <= v && v <= 90 {
        v + 32
    } else {
        v
    }
}

/// The characters of `s`.
pub fn chars_of(s: &str) -> (r: Vec<char>)
    ensures
        r@ == s@,
{
    let n = s.unicode_len();
    let mut r: Vec<char> = Vec::new();
    let mut i: usize = 0;
    while i < n
        invariant
            n == s@.len(),
            i <= n,
            r@ == s@.take(i as int),
        decreases n - i,
    {
        r.push(s.get_char(i));
        assert(s@.take(i + 1) =~= s@.take(i as int).push(s@[i as int]));
        i += 1;
    }
    assert(s@.take(n as int) =~= s@);
    r
}

/// Whether `text` matches the SQL `LIKE` pattern `pat` (without an escape character):
/// `%` stands for any run of characters, `_` for any one character, and any other
/// character for itself, ASCII letters compared without case.
pub open spec fn like_match(pat: Seq<char>, text: Seq<char>) -> bool
    decreases pat.len(), text.len(),
{
    if pat.len() == 0 {
        text.len() == 0
    } else if pat[0] == '%' {
        like_match(pat.drop_first(), text) || (text.len() > 0 && like_match(pat, text.drop_first()))
    } else if text.len() == 0 {
        false
    } else if pat[0] == '_' {
        like_match(pat.drop_first(), text.drop_first())
    } else {
        ascii_fold(pat[0]) == ascii_fold(text[0]) && like_match(pat.drop_first(), text.drop_first())
    }
}

/// The pattern `%query%`: text containing `query` as a `LIKE` pattern.
pub open spec fn containing_pattern(query: Seq<char>) -> Seq<char> {
    seq!['%'] + query + seq!['%']
}

/// Entry `j` of a table row held as its first `row.len()` entries and its last one.
spec fn row_at(row: Seq<bool>, last: bool, j: int) -> bool {
    if j == row.len() {
        last
    } else {
        row[j]
    }
}

/// One step of the `LIKE` recurrence: a pattern suffix starting with `p[i]` against a text
/// suffix starting at `j`, in terms of the shorter suffixes.
proof fn lemma_like_step(p: Seq<char>, t: Seq<char>, i: int, j: int)
    requires
        0 <= i < p.len(),
        0 <= j <= t.len(),
    ensures
        like_match(p.skip(i), t.skip(j)) == if p[i] == '%' {
            like_match(p.skip(i + 1), t.skip(j)) || (j < t.len() && like_match(p.skip(i), t.skip(j + 1)))
        } else if j == t.len() {
            false
        } else if p[i] == '_' {
            like_match(p.skip(i + 1), t.skip(j + 1))
        } else {
            ascii_fold(p[i]) == ascii_fold(t[j]) && like_match(p.skip(i + 1), t.skip(j + 1))
        },
{
    assert(p.skip(i).drop_first() =~= p.skip(i + 1));
    assert(p.skip(i)[0] == p[i]);
    if j < t.len() {
        assert(t.skip(j).drop_first() =~= t.skip(j + 1));
        assert(t.skip(j)[0] == t[j]);
    }
}

/// Whether the characters `t` match the `LIKE` pattern `p`, by a table of which pattern
/// suffixes match which text suffixes, filled from the ends.
fn like_chars(p: &Vec<char>, t: &Vec<char>) -> (r: bool)
    ensures
        r == like_match(p@, t@),
{
    let m = p.len();
    let n = t.len();
    let mut next: Vec<bool> = Vec::new();
    let mut k: usize = 0;
    while k < n
        invariant
            k <= n,
            n == t@.len(),
            next@.len() == k,
            forall|q: int| 0 <= q < k ==> !#[trigger] next@[q],
        decreases n - k,
    {
        next.push(false);
        k += 1;
    }
    let mut next_last = true;
    proof {
        assert(p@.skip(m as int).len() == 0);
        assert forall|q: int| 0 <= q <= n implies #[trigger] like_match(p@.skip(m as int), t@.skip(q))
            == row_at(next@, next_last, q) by {}
    }
    let mut i: usize = m;
    while i > 0
        invariant
            i <= m,
            m == p@.len(),
            n == t@.len(),
            next@.len() == n,
            forall|q: int| 0 <= q <= n ==> #[trigger] like_match(p@.skip(i as int), t@.skip(q))
                == row_at(next@, next_last, q),
        decreases i,
    {
        i -= 1;
        let c = p[i];
        let cur_last = c == '%' && next_last;
        proof {
            lemma_like_step(p@, t@, i as int, n as int);
        }
        let mut cur: Vec<bool> = next.clone();
        let mut j: usize = n;
        while j > 0
            invariant
                j <= n,
                i < m,
                m == p@.len(),
                n == t@.len(),
                c == p@[i as int],
                next@.len() == n,
                cur@.len() == n,
                cur_last == like_match(p@.skip(i as int), t@.skip(n as int)),
                forall|q: int| 0 <= q <= n ==> #[trigger] like_match(p@.skip(i + 1), t@.skip(q))
                    == row_at(next@, next_last, q),
                forall|q: int| j <= q < n ==> #[trigger] cur@[q] == like_match(p@.skip(i as int), t@.skip(q)),
            decreases j,
        {
            j -= 1;
            let after_same = if j + 1 == n { cur_last } else { cur[j + 1] };
            let after_next = if j + 1 == n { next_last } else { next[j + 1] };
            let v = if c == '%' {
                next[j] || after_same
            } else if c == '_' {
                after_next
            } else {
                fold_char(c) == fold_char(t[j]) && after_next
            };
            proof {
                lemma_like_step(p@, t@, i as int, j as int);
                assert(like_match(p@.skip(i + 1), t@.skip(j as int)) == row_at(next@, next_last, j as int));
                assert(like_match(p@.skip(i + 1), t@.skip(j + 1)) == row_at(next@, next_last, j + 1));
            }
            cur.set(j, v);
        }
        next = cur;
        next_last = cur_last;
    }
    proof {
        assert(p@.skip(0) =~= p@);
        assert(t@.skip(0) =~= t@);
        assert(like_match(p@.skip(0), t@.skip(0)) == row_at(next@, next_last, 0));
    }
    if n == 0 {
        next_last
    } else {
        next[0]
    }
}

/// Whether `text` matches the pattern `%query%`, as SQL `description LIKE '%' || query || '%'`
/// does: `%` and `_` in `query` keep their pattern meaning.
pub fn like_containing(text: &str, query: &str) -> (r: bool)
    ensures
        r == like_match(containing_pattern(query@), text@),
{
    let q = chars_of(query);
    let mut p: Vec<char> = Vec::new();
    p.push('%');
    let mut k: usize = 0;
    while k < q.len()
        invariant
            k <= q@.len(),
            p@ == seq!['%'] + q@.take(k as int),
        decreases q@.len() - k,
    {
        p.push(q[k]);
        assert(q@.take(k + 1) =~= q@.take(k as int).push(q@[k as int]));
        k += 1;
    }
    p.push('%');
    assert(q@.take(q@.len() as int) =~= q@);
    assert(p@ =~= containing_pattern(query@));
    let t = chars_of(text);
    like_chars(&p, &t)
}

/// Whether `a` comes strictly before `b` in the order of their characters' code points
/// (a proper prefix first), the order of their UTF-8 bytes.
pub open spec fn text_before(a: Seq<char>, b: Seq<char>) -> bool
    decreases a.len(),
{
    if a.len() == 0 {
        b.len() > 0
    } else if b.len() == 0 {
        false
    } else if a[0] != b[0] {
        (a[0] as u32) < (b[0] as u32)
    } else {
        text_before(a.drop_first(), b.drop_first())
    }
}

/// Whether `a` comes strictly before `b` in code point order.
pub fn is_text_before(a: &str, b: &str) -> (r: bool)
    ensures
        r == text_before(a@, b@),
{
    let x = chars_of(a);
    let y = chars_of(b);
    let n = x.len();
    let m = y.len();
    let mut i: usize = 0;
    assert(a@.skip(0) =~= a@ && b@.skip(0) =~= b@);
    while i < n && i < m && x[i] == y[i]
        invariant
            x@ == a@,
            y@ == b@,
            n == x@.len(),
            m == y@.len(),
            i <= n,
            i <= m,
            text_before(a@, b@) == text_before(a@.skip(i as int), b@.skip(i as int)),
        decreases n - i,
    {
        proof {
            let sa = a@.skip(i as int);
            let sb = b@.skip(i as int);
            assert(sa.drop_first() =~= a@.skip(i + 1));
            assert(sb.drop_first() =~= b@.skip(i + 1));
        }
        i += 1;
    }
    if i == n {
        i < m
    } else if i == m {
        false
    } else {
        assert(a@.skip(i as int)[0] == x@[i as int] && b@.skip(i as int)[0] == y@[i as int]);
        (x[i] as u32) < (y[i] as u32)
    }
}

} // verus!
