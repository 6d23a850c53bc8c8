//! Character-level helpers shared by the parsers and validators.

use vstd::prelude::*;

verus! {

/// The characters of a string slice, in order.
pub fn chars_of(s: &str) -> (v: Vec<char>)
    ensures
        v@ == s@,
{
    let mut v: Vec<char> = Vec::new();
    for c in it: s.chars()
        invariant
            v@ == it.seq().take(it.index() as int),
    {
        v.push(c);
    }
    v
}

/// Builds a `String` from a sequence of characters.
///
/// Trusted: collects the characters with `Iterator::collect::<String>()`,
/// whose documented result is the string made of exactly those characters
/// in order.
#[verifier::external_body]
pub fn string_of(v: &[char]) -> (s: String)
    ensures
        s@ == v@,
{
    v.iter().collect::<String>()
}

} // verus!

verus! {

/// The pieces of `s` between occurrences of `sep`, in order, as
/// `str::split` yields them: an empty `s` is one empty piece, and two
/// adjacent separators enclose an empty piece.
pub open spec fn split_on(s: Seq<char>, sep: char) -> Seq<Seq<char>>
    decreases s.len(),
{
    if s.len() == 0 {
        seq![Seq::<char>::empty()]
    } else {
        let pieces = split_on(s.drop_last(), sep);
        if s.last() == sep {
            pieces.push(Seq::<char>::empty())
        } else {
            pieces.update(pieces.len() - 1, pieces.last().push(s.last()))
        }
    }
}

/// `parts` joined with `sep` between consecutive parts.
pub open spec fn join_with(parts: Seq<Seq<char>>, sep: Seq<char>) -> Seq<char>
    decreases parts.len(),
{
    if parts.len() == 0 {
        Seq::<char>::empty()
    } else if parts.len() == 1 {
        parts[0]
    } else {
        join_with(parts.drop_last(), sep) + sep + parts.last()
    }
}

pub proof fn lemma_split_on_nonempty(s: Seq<char>, sep: char)
    ensures
        split_on(s, sep).len() >= 1,
    decreases s.len(),
{
    if s.len() > 0 {
        lemma_split_on_nonempty(s.drop_last(), sep);
    }
}

/// The first piece is no longer than the text, and shorter when a
/// separator follows it.
pub proof fn lemma_split_on_first(s: Seq<char>, sep: char)
    ensures
        split_on(s, sep)[0].len() <= s.len(),
        split_on(s, sep).len() >= 2 ==> split_on(s, sep)[0].len() < s.len(),
    decreases s.len(),
{
    lemma_split_on_nonempty(s, sep);
    if s.len() > 0 {
        lemma_split_on_first(s.drop_last(), sep);
        lemma_split_on_nonempty(s.drop_last(), sep);
    }
}

/// Extending the text by one character extends the last piece, or starts a
/// new one at a separator.
pub proof fn lemma_split_on_push(s: Seq<char>, c: char, sep: char)
    ensures
        split_on(s.push(c), sep) == (if c == sep {
            split_on(s, sep).push(Seq::<char>::empty())
        } else {
            split_on(s, sep).update(
                split_on(s, sep).len() - 1,
                split_on(s, sep).last().push(c),
            )
        }),
{
    assert(s.push(c).drop_last() =~= s);
}

/// Splits `s` at every `sep`, exactly as `split_on` describes.
pub fn split_chars(s: &[char], sep: char) -> (pieces: Vec<Vec<char>>)
    ensures
        pieces@.len() == split_on(s@, sep).len(),
        forall|i: int| 0 <= i < pieces@.len() ==> #[trigger] pieces@[i]@ == split_on(s@, sep)[i],
{
    let mut pieces: Vec<Vec<char>> = Vec::new();
    let mut current: Vec<char> = Vec::new();
    let mut i: usize = 0;
    while i < s.len()
        invariant
            i <= s.len(),
            pieces@.len() + 1 == split_on(s@.take(i as int), sep).len(),
            forall|k: int|
                0 <= k < pieces@.len() ==> #[trigger] pieces@[k]@ == split_on(
                    s@.take(i as int),
                    sep,
                )[k],
            current@ == split_on(s@.take(i as int), sep).last(),
        decreases s.len() - i,
    {
        let c = s[i];
        proof {
            lemma_split_on_push(s@.take(i as int), c, sep);
            assert(s@.take(i as int).push(c) =~= s@.take(i + 1));
            lemma_split_on_nonempty(s@.take(i as int), sep);
        }
        if c == sep {
            let done = current;
            pieces.push(done);
            current = Vec::new();
        } else {
            current.push(c);
        }
        i = i + 1;
    }
    proof {
        assert(s@.take(s@.len() as int) =~= s@);
        lemma_split_on_nonempty(s@, sep);
    }
    pieces.push(current);
    pieces
}

} // verus!

verus! {

pub proof fn lemma_join_with_push(parts: Seq<Seq<char>>, x: Seq<char>, sep: Seq<char>)
    ensures
        join_with(parts.push(x), sep) == (if parts.len() == 0 {
            x
        } else {
            join_with(parts, sep) + sep + x
        }),
{
    assert(parts.push(x).drop_last() =~= parts);
    if parts.len() == 0 {
        assert(parts.push(x)[0] == x);
    }
}

/// Appends `src` to `dst`.
pub fn append_chars(dst: &mut Vec<char>, src: &[char])
    ensures
        final(dst)@ == old(dst)@ + src@,
{
    let mut i: usize = 0;
    while i < src.len()
        invariant
            i <= src.len(),
            dst@ == old(dst)@ + src@.take(i as int),
        decreases src.len() - i,
    {
        dst.push(src[i]);
        i = i + 1;
        proof {
            assert(src@.take(i as int) =~= src@.take(i - 1).push(src@[i - 1]));
        }
    }
    proof {
        assert(src@.take(src@.len() as int) =~= src@);
    }
}

/// Whether `s` holds the character `c` anywhere.
pub fn contains_char(s: &[char], c: char) -> (found: bool)
    ensures
        found == s@.contains(c),
{
    let mut i: usize = 0;
    while i < s.len()
        invariant
            i <= s.len(),
            forall|k: int| 0 <= k < i ==> s@[k] != c,
        decreases s.len() - i,
    {
        if s[i] == c {
            proof {
                assert(s@[i as int] == c);
            }
            return true;
        }
        i = i + 1;
    }
    false
}

/// Whether two character slices are equal.
pub fn chars_equal(a: &[char], b: &[char]) -> (eq: bool)
    ensures
        eq == (a@ == b@),
{
    if a.len() != b.len() {
        return false;
    }
    let mut i: usize = 0;
    while i < a.len()
        invariant
            i <= a.len(),
            a@.len() == b@.len(),
            forall|k: int| 0 <= k < i ==> a@[k] == b@[k],
        decreases a.len() - i,
    {
        if a[i] != b[i] {
            return false;
        }
        i = i + 1;
    }
    proof {
        assert(a@ =~= b@);
    }
    true
}

/// Whether `s` is exactly the text `lit`.
pub fn is_text(s: &[char], lit: &str) -> (eq: bool)
    ensures
        eq == (s@ == lit@),
{
    let l = chars_of(lit);
    chars_equal(s, &l)
}

} // verus!

verus! {

/// `s` without its leading run of `c`.
pub open spec fn trim_start_char(s: Seq<char>, c: char) -> Seq<char>
    decreases s.len(),
{
    if s.len() > 0 && s[0] == c {
        trim_start_char(s.drop_first(), c)
    } else {
        s
    }
}

/// `s` without its trailing run of `c`.
pub open spec fn trim_end_char(s: Seq<char>, c: char) -> Seq<char>
    decreases s.len(),
{
    if s.len() > 0 && s.last() == c {
        trim_end_char(s.drop_last(), c)
    } else {
        s
    }
}

/// `s` without leading or trailing runs of `c`, like `str::trim_matches`.
pub open spec fn trim_char(s: Seq<char>, c: char) -> Seq<char> {
    trim_end_char(trim_start_char(s, c), c)
}

/// The characters of `s` from `start` to `end`.
pub fn slice_chars(s: &[char], start: usize, end: usize) -> (r: Vec<char>)
    requires
        start <= end <= s@.len(),
    ensures
        r@ == s@.subrange(start as int, end as int),
{
    let mut r: Vec<char> = Vec::new();
    let mut i = start;
    while i < end
        invariant
            start <= i <= end <= s@.len(),
            r@ == s@.subrange(start as int, i as int),
        decreases end - i,
    {
        r.push(s[i]);
        i = i + 1;
        proof {
            assert(r@ =~= s@.subrange(start as int, i as int));
        }
    }
    r
}

/// The index of the first character of `s` that is not `c`.
pub fn skip_leading(s: &[char], c: char) -> (i: usize)
    ensures
        i <= s@.len(),
        trim_start_char(s@, c) == s@.subrange(i as int, s@.len() as int),
{
    let mut i: usize = 0;
    proof {
        assert(s@.subrange(0, s@.len() as int) =~= s@);
    }
    while i < s.len() && s[i] == c
        invariant
            i <= s@.len(),
            trim_start_char(s@, c) == trim_start_char(s@.subrange(i as int, s@.len() as int), c),
        decreases s.len() - i,
    {
        proof {
            let sub = s@.subrange(i as int, s@.len() as int);
            assert(sub.drop_first() =~= s@.subrange(i + 1, s@.len() as int));
        }
        i = i + 1;
    }
    i
}

/// The index just past the last character of `s[..end]` that is not `c`.
pub fn skip_trailing(s: &[char], start: usize, c: char) -> (j: usize)
    requires
        start <= s@.len(),
    ensures
        start <= j <= s@.len(),
        trim_end_char(s@.subrange(start as int, s@.len() as int), c) == s@.subrange(
            start as int,
            j as int,
        ),
{
    let mut j: usize = s.len();
    while j > start && s[j - 1] == c
        invariant
            start <= j <= s@.len(),
            trim_end_char(s@.subrange(start as int, s@.len() as int), c) == trim_end_char(
                s@.subrange(start as int, j as int),
                c,
            ),
        decreases j - start,
    {
        proof {
            let sub = s@.subrange(start as int, j as int);
            assert(sub.drop_last() =~= s@.subrange(start as int, j - 1));
        }
        j = j - 1;
    }
    j
}

/// `s` without leading or trailing runs of `c`.
pub fn trim_char_exec(s: &[char], c: char) -> (r: Vec<char>)
    ensures
        r@ == trim_char(s@, c),
{
    let i = skip_leading(s, c);
    let j = skip_trailing(s, i, c);
    slice_chars(s, i, j)
}

} // verus!

verus! {

pub open spec fn spec_is_ascii_alphabetic(c: char) -> bool {
    ('a' <= c && c <= 'z') || ('A' <= c && c <= 'Z')
}

pub open spec fn spec_is_ascii_digit(c: char) -> bool {
    '0' <= c && c <= '9'
}

pub open spec fn spec_is_ascii_alphanumeric(c: char) -> bool {
    spec_is_ascii_alphabetic(c) || spec_is_ascii_digit(c)
}

/// Unicode general category Cc (`char::is_control`): U+0000..=U+001F and
/// U+007F..=U+009F.
pub open spec fn spec_is_control(c: char) -> bool {
    (c as u32) <= 0x1F || (0x7F <= (c as u32) && (c as u32) <= 0x9F)
}

/// The Unicode `White_Space` property (`char::is_whitespace`).
pub open spec fn spec_is_whitespace(c: char) -> bool {
    let u = c as u32;
    (0x09 <= u && u <= 0x0D) || u == 0x20 || u == 0x85 || u == 0xA0 || u == 0x1680 || (0x2000 <= u
        && u <= 0x200A) || u == 0x2028 || u == 0x2029 || u == 0x202F || u == 0x205F || u == 0x3000
}

pub fn is_ascii_alphabetic(c: char) -> (r: bool)
    ensures
        r == spec_is_ascii_alphabetic(c),
{
    ('a' <= c && c <= 'z') || ('A' <= c && c <= 'Z')
}

pub fn is_ascii_digit(c: char) -> (r: bool)
    ensures
        r == spec_is_ascii_digit(c),
{
    '0' <= c && c <= '9'
}

pub fn is_ascii_alphanumeric(c: char) -> (r: bool)
    ensures
        r == spec_is_ascii_alphanumeric(c),
{
    is_ascii_alphabetic(c) || is_ascii_digit(c)
}

pub fn is_control(c: char) -> (r: bool)
    ensures
        r == spec_is_control(c),
{
    let u = c as u32;
    u <= 0x1F || (0x7F <= u && u <= 0x9F)
}

pub fn is_whitespace(c: char) -> (r: bool)
    ensures
        r == spec_is_whitespace(c),
{
    let u = c as u32;
    (0x09 <= u && u <= 0x0D) || u == 0x20 || u == 0x85 || u == 0xA0 || u == 0x1680 || (0x2000 <= u
        && u <= 0x200A) || u == 0x2028 || u == 0x2029 || u == 0x202F || u == 0x205F || u == 0x3000
}

} // verus!

verus! {

/// `s` without leading Unicode white space.
pub open spec fn trim_start_ws(s: Seq<char>) -> Seq<char>
    decreases s.len(),
{
    if s.len() > 0 && spec_is_whitespace(s[0]) {
        trim_start_ws(s.drop_first())
    } else {
        s
    }
}

/// `s` without trailing Unicode white space.
pub open spec fn trim_end_ws(s: Seq<char>) -> Seq<char>
    decreases s.len(),
{
    if s.len() > 0 && spec_is_whitespace(s.last()) {
        trim_end_ws(s.drop_last())
    } else {
        s
    }
}

/// `s` without leading and trailing Unicode white space (`str::trim`).
pub open spec fn trim_ws(s: Seq<char>) -> Seq<char> {
    trim_end_ws(trim_start_ws(s))
}

/// `str::trim` on characters.
pub fn trim_ws_exec(s: &[char]) -> (r: Vec<char>)
    ensures
        r@ == trim_ws(s@),
{
    let mut i: usize = 0;
    proof {
        assert(s@.subrange(0, s@.len() as int) =~= s@);
    }
    while i < s.len() && is_whitespace(s[i])
        invariant
            i <= s@.len(),
            trim_start_ws(s@) == trim_start_ws(s@.subrange(i as int, s@.len() as int)),
        decreases s.len() - i,
    {
        proof {
            let sub = s@.subrange(i as int, s@.len() as int);
            assert(sub.drop_first() =~= s@.subrange(i + 1, s@.len() as int));
        }
        i = i + 1;
    }
    let mut j: usize = s.len();
    while j > i && is_whitespace(s[j - 1])
        invariant
            i <= j <= s@.len(),
            trim_end_ws(s@.subrange(i as int, s@.len() as int)) == trim_end_ws(
                s@.subrange(i as int, j as int),
            ),
        decreases j - i,
    {
        proof {
            let sub = s@.subrange(i as int, j as int);
            assert(sub.drop_last() =~= s@.subrange(i as int, j - 1));
        }
        j = j - 1;
    }
    slice_chars(s, i, j)
}

/// `str::trim` on a string slice.
pub fn trim_str(s: &str) -> (r: String)
    ensures
        r@ == trim_ws(s@),
{
    let v = chars_of(s);
    let t = trim_ws_exec(&v);
    string_of(t.as_slice())
}

/// `parts[start..]` joined with `sep`.
pub fn join_from(parts: &Vec<Vec<char>>, start: usize, sep: char) -> (r: Vec<char>)
    requires
        start <= parts@.len(),
    ensures
        r@ == join_with(
            Seq::new((parts@.len() - start) as nat, |i: int| parts@[start + i]@),
            seq![sep],
        ),
{
    let ghost whole = Seq::new((parts@.len() - start) as nat, |i: int| parts@[start + i]@);
    let mut r: Vec<char> = Vec::new();
    let mut k = start;
    proof {
        assert(whole.take(0) =~= Seq::<Seq<char>>::empty());
    }
    while k < parts.len()
        invariant
            start <= k <= parts@.len(),
            whole == Seq::new((parts@.len() - start) as nat, |i: int| parts@[start + i]@),
            r@ == join_with(whole.take(k - start), seq![sep]),
        decreases parts@.len() - k,
    {
        proof {
            assert(whole.take(k - start + 1) =~= whole.take(k - start).push(parts@[k as int]@));
            lemma_join_with_push(whole.take(k - start), parts@[k as int]@, seq![sep]);
        }
        if k > start {
            r.push(sep);
        }
        append_chars(&mut r, parts[k].as_slice());
        k = k + 1;
    }
    proof {
        assert(whole.take(parts@.len() - start) =~= whole);
    }
    r
}

} // verus!

verus! {

/// What `str::to_lowercase` returns for `s` (Unicode case mapping).
pub uninterp spec fn lowercase_of(s: Seq<char>) -> Seq<char>;

/// Unicode lowercase of `s`.
///
/// Trusted: calls `str::to_lowercase`; the contract only names its result,
/// a function of the input text alone.
#[verifier::external_body]
pub fn to_lowercase(s: &str) -> (r: String)
    ensures
        r@ == lowercase_of(s@),
{
    s.to_lowercase()
}

/// Whether `needle` occurs in `hay` starting at `i`.
pub open spec fn occurs_at(hay: Seq<char>, needle: Seq<char>, i: int) -> bool {
    0 <= i && i + needle.len() <= hay.len() && hay.subrange(i, i + needle.len()) == needle
}

/// Whether `needle` occurs anywhere in `hay` (`str::contains`).
pub open spec fn contains_text(hay: Seq<char>, needle: Seq<char>) -> bool {
    exists|i: int| occurs_at(hay, needle, i)
}

/// Whether `needle` occurs in `hay` at `i`.
pub fn occurs_at_exec(hay: &[char], needle: &[char], i: usize) -> (r: bool)
    ensures
        r == occurs_at(hay@, needle@, i as int),
{
    if i > hay.len() || needle.len() > hay.len() - i {
        return false;
    }
    let mut k: usize = 0;
    while k < needle.len()
        invariant
            k <= needle@.len(),
            i <= hay.len(),
            i + needle.len() <= hay.len(),
            forall|j: int| 0 <= j < k ==> hay@[i + j] == needle@[j],
        decreases needle@.len() - k,
    {
        if hay[i + k] != needle[k] {
            proof {
                assert(hay@.subrange(i as int, i + needle@.len())[k as int] != needle@[k as int]);
            }
            return false;
        }
        k = k + 1;
    }
    proof {
        assert(hay@.subrange(i as int, i + needle@.len()) =~= needle@);
    }
    true
}

/// The first position at which `needle` occurs in `hay`, if any.
pub fn find_text(hay: &[char], needle: &[char]) -> (r: Option<usize>)
    ensures
        match r {
            Some(i) => occurs_at(hay@, needle@, i as int) && forall|j: int|
                0 <= j < i ==> !#[trigger] occurs_at(hay@, needle@, j),
            None => !contains_text(hay@, needle@),
        },
{
    if needle.len() == 0 {
        proof {
            assert(hay@.subrange(0, 0) =~= needle@);
        }
        return Some(0);
    }
    let mut i: usize = 0;
    while i < hay.len()
        invariant
            i <= hay@.len(),
            needle@.len() > 0,
            forall|j: int| 0 <= j < i ==> !#[trigger] occurs_at(hay@, needle@, j),
        decreases hay@.len() - i,
    {
        if occurs_at_exec(hay, needle, i) {
            return Some(i);
        }
        i = i + 1;
    }
    proof {
        assert forall|j: int| !#[trigger] occurs_at(hay@, needle@, j) by {
            if 0 <= j && j < i {
            }
        }
    }
    None
}

/// Whether `hay` contains `needle`.
pub fn contains_text_exec(hay: &[char], needle: &[char]) -> (r: bool)
    ensures
        r == contains_text(hay@, needle@),
{
    find_text(hay, needle).is_some()
}

} // verus!

verus! {

/// Lexicographic order on texts, by code point.
pub open spec fn lex_le(a: Seq<char>, b: Seq<char>) -> bool
    decreases a.len(),
{
    if a.len() == 0 {
        true
    } else if b.len() == 0 {
        false
    } else if a[0] != b[0] {
        a[0] < b[0]
    } else {
        lex_le(a.drop_first(), b.drop_first())
    }
}

/// Whether `a` sorts before or equal to `b`.
pub fn lex_le_exec(a: &[char], b: &[char]) -> (r: bool)
    ensures
        r == lex_le(a@, b@),
{
    let mut i: usize = 0;
    proof {
        assert(a@.skip(0) =~= a@);
        assert(b@.skip(0) =~= b@);
    }
    while i < a.len() && i < b.len() && a[i] == b[i]
        invariant
            i <= a@.len(),
            i <= b@.len(),
            lex_le(a@, b@) == lex_le(a@.skip(i as int), b@.skip(i as int)),
        decreases a@.len() - i,
    {
        proof {
            assert(a@.skip(i as int).drop_first() =~= a@.skip(i + 1));
            assert(b@.skip(i as int).drop_first() =~= b@.skip(i + 1));
        }
        i = i + 1;
    }
    if i == a.len() {
        true
    } else if i == b.len() {
        false
    } else {
        a[i] < b[i]
    }
}

/// Every text sorts before or equal to itself.
pub proof fn lemma_lex_le_reflexive(a: Seq<char>)
    ensures
        lex_le(a, a),
    decreases a.len(),
{
    if a.len() > 0 {
        lemma_lex_le_reflexive(a.drop_first());
    }
}

/// Any two texts are ordered one way or the other.
pub proof fn lemma_lex_le_total(a: Seq<char>, b: Seq<char>)
    ensures
        lex_le(a, b) || lex_le(b, a),
    decreases a.len(),
{
    if a.len() > 0 && b.len() > 0 && a[0] == b[0] {
        lemma_lex_le_total(a.drop_first(), b.drop_first());
    }
}

/// The text order is transitive.
pub proof fn lemma_lex_le_transitive(a: Seq<char>, b: Seq<char>, c: Seq<char>)
    requires
        lex_le(a, b),
        lex_le(b, c),
    ensures
        lex_le(a, c),
    decreases a.len(),
{
    if a.len() > 0 && b.len() > 0 && c.len() > 0 && a[0] == b[0] && b[0] == c[0] {
        lemma_lex_le_transitive(a.drop_first(), b.drop_first(), c.drop_first());
    }
}

} // verus!

verus! {

/// Appending text without a separator extends the last piece.
pub proof fn lemma_split_on_append_plain(s: Seq<char>, x: Seq<char>, sep: char)
    requires
        !x.contains(sep),
    ensures
        split_on(s + x, sep) == split_on(s, sep).update(
            split_on(s, sep).len() - 1,
            split_on(s, sep).last() + x,
        ),
    decreases x.len(),
{
    lemma_split_on_nonempty(s, sep);
    let p = split_on(s, sep);
    if x.len() == 0 {
        assert(s + x =~= s);
        assert(p.last() + x =~= p.last());
        assert(p.update(p.len() - 1, p.last()) =~= p);
    } else {
        let x0 = x.drop_last();
        let c = x.last();
        assert(!x0.contains(sep)) by {
            if x0.contains(sep) {
                let k = choose|k: int| 0 <= k < x0.len() && x0[k] == sep;
                assert(x[k] == sep);
            }
        }
        assert(c != sep) by {
            assert(x[x.len() - 1] == c);
        }
        lemma_split_on_append_plain(s, x0, sep);
        lemma_split_on_push(s + x0, c, sep);
        assert((s + x0).push(c) =~= s + x);
        lemma_split_on_nonempty(s + x0, sep);
        let q = split_on(s + x0, sep);
        assert(q.update(q.len() - 1, q.last().push(c)) =~= p.update(p.len() - 1, p.last() + x)) by {
            assert(q.len() == p.len());
            assert(q.last() == p.last() + x0);
            assert((p.last() + x0).push(c) =~= p.last() + x);
        }
    }
}

/// Joining pieces that hold no separator and splitting again gives the
/// pieces back.
pub proof fn lemma_split_join(parts: Seq<Seq<char>>, sep: char)
    requires
        parts.len() >= 1,
        forall|i: int| 0 <= i < parts.len() ==> !(#[trigger] parts[i]).contains(sep),
    ensures
        split_on(join_with(parts, seq![sep]), sep) == parts,
    decreases parts.len(),
{
    if parts.len() == 1 {
        lemma_split_on_append_plain(Seq::empty(), parts[0], sep);
        assert(Seq::<char>::empty() + parts[0] =~= parts[0]);
        assert(split_on(Seq::<char>::empty(), sep) =~= seq![Seq::<char>::empty()]);
        assert(Seq::<char>::empty() + parts[0] =~= parts[0]);
        assert(seq![Seq::<char>::empty()].update(0, Seq::<char>::empty() + parts[0]) =~= parts);
    } else {
        let init = parts.drop_last();
        assert forall|i: int| 0 <= i < init.len() implies !(#[trigger] init[i]).contains(sep) by {
            assert(init[i] == parts[i]);
        }
        lemma_split_join(init, sep);
        let j = join_with(init, seq![sep]);
        assert(join_with(parts, seq![sep]) == j + seq![sep] + parts.last());
        lemma_split_on_push(j, sep, sep);
        assert(j + seq![sep] =~= j.push(sep));
        assert(!parts.last().contains(sep)) by {
            assert(parts[parts.len() - 1] == parts.last());
        }
        lemma_split_on_append_plain(j + seq![sep], parts.last(), sep);
        let q = init.push(Seq::<char>::empty());
        assert(q.update(q.len() - 1, q.last() + parts.last()) =~= parts) by {
            assert(Seq::<char>::empty() + parts.last() =~= parts.last());
        }
    }
}

/// No piece holds the separator.
pub proof fn lemma_split_on_no_sep(s: Seq<char>, sep: char)
    ensures
        forall|i: int|
            0 <= i < split_on(s, sep).len() ==> !(#[trigger] split_on(s, sep)[i]).contains(sep),
    decreases s.len(),
{
    if s.len() > 0 {
        lemma_split_on_no_sep(s.drop_last(), sep);
        lemma_split_on_nonempty(s.drop_last(), sep);
        let p = split_on(s.drop_last(), sep);
        assert forall|i: int| 0 <= i < split_on(s, sep).len() implies !(#[trigger] split_on(
            s,
            sep,
        )[i]).contains(sep) by {
            if s.last() != sep && i == p.len() - 1 {
                let piece = p.last().push(s.last());
                if piece.contains(sep) {
                    let k = choose|k: int| 0 <= k < piece.len() && piece[k] == sep;
                    if k < p.last().len() {
                        assert(p.last()[k] == sep);
                        assert(p[p.len() - 1] == p.last());
                    }
                }
            }
        }
    }
}

/// A character absent from the text is absent from every piece.
pub proof fn lemma_split_on_absent(s: Seq<char>, sep: char, c: char)
    requires
        !s.contains(c),
    ensures
        forall|i: int|
            0 <= i < split_on(s, sep).len() ==> !(#[trigger] split_on(s, sep)[i]).contains(c),
    decreases s.len(),
{
    if s.len() > 0 {
        assert(!s.drop_last().contains(c)) by {
            if s.drop_last().contains(c) {
                let k = choose|k: int| 0 <= k < s.drop_last().len() && s.drop_last()[k] == c;
                assert(s[k] == c);
            }
        }
        lemma_split_on_absent(s.drop_last(), sep, c);
        lemma_split_on_nonempty(s.drop_last(), sep);
        let p = split_on(s.drop_last(), sep);
        assert(s.last() != c) by {
            assert(s[s.len() - 1] == s.last());
        }
        assert forall|i: int| 0 <= i < split_on(s, sep).len() implies !(#[trigger] split_on(
            s,
            sep,
        )[i]).contains(c) by {
            if s.last() != sep && i == p.len() - 1 {
                let piece = p.last().push(s.last());
                if piece.contains(c) {
                    let k = choose|k: int| 0 <= k < piece.len() && piece[k] == c;
                    if k < p.last().len() {
                        assert(p.last()[k] == c);
                        assert(p[p.len() - 1] == p.last());
                    }
                }
            }
        }
    }
}

/// Joined text holds a character only if a piece or the separator does.
pub proof fn lemma_join_absent(parts: Seq<Seq<char>>, sep: Seq<char>, c: char)
    requires
        !sep.contains(c),
        forall|i: int| 0 <= i < parts.len() ==> !(#[trigger] parts[i]).contains(c),
    ensures
        !join_with(parts, sep).contains(c),
    decreases parts.len(),
{
    if parts.len() > 1 {
        let init = parts.drop_last();
        assert forall|i: int| 0 <= i < init.len() implies !(#[trigger] init[i]).contains(c) by {
            assert(init[i] == parts[i]);
        }
        lemma_join_absent(init, sep, c);
        let j = join_with(init, sep);
        let last = parts.last();
        assert(!last.contains(c)) by {
            assert(parts[parts.len() - 1] == last);
        }
        let whole = j + sep + last;
        if whole.contains(c) {
            let k = choose|k: int| 0 <= k < whole.len() && whole[k] == c;
            if k < j.len() {
                assert(j[k] == c);
            } else if k < j.len() + sep.len() {
                assert(sep[k - j.len()] == c);
            } else {
                assert(last[k - j.len() - sep.len()] == c);
            }
        }
    } else if parts.len() == 1 {
        assert(!parts[0].contains(c));
    }
}

} // verus!
