//! Character-level text rules used throughout the library.
use vstd::prelude::*;
use vstd::std_specs::iter::IteratorSpec;

verus! {

/// Unicode `White_Space` characters, the set that `char::is_whitespace` tests.
pub open spec fn is_white_space(c: char) -> bool {
    ||| ('\u{9}' <= c && c <= '\u{d}')
    ||| c == ' '
    ||| c == '\u{85}'
    ||| c == '\u{a0}'
    ||| c == '\u{1680}'
    ||| ('\u{2000}' <= c && c <= '\u{200a}')
    ||| c == '\u{2028}'
    ||| c == '\u{2029}'
    ||| c == '\u{202f}'
    ||| c == '\u{205f}'
    ||| c == '\u{3000}'
}

/// `s` without its leading white space.
pub open spec fn trim_start_spec(s: Seq<char>) -> Seq<char>
    decreases s.len(),
{
    if s.len() > 0 && is_white_space(s[0]) {
        trim_start_spec(s.drop_first())
    } else {
        s
    }
}

/// `s` without its trailing white space.
pub open spec fn trim_end_spec(s: Seq<char>) -> Seq<char>
    decreases s.len(),
{
    if s.len() > 0 && is_white_space(s.last()) {
        trim_end_spec(s.drop_last())
    } else {
        s
    }
}

/// `s` without leading and trailing white space (`str::trim`).
pub open spec fn trim_spec(s: Seq<char>) -> Seq<char> {
    trim_end_spec(trim_start_spec(s))
}

/// `s` without any trailing copies of `c` (`str::trim_end_matches` with a char).
pub open spec fn trim_end_char_spec(s: Seq<char>, c: char) -> Seq<char>
    decreases s.len(),
{
    if s.len() > 0 && s.last() == c {
        trim_end_char_spec(s.drop_last(), c)
    } else {
        s
    }
}

/// Whether `s` begins with `p`.
pub open spec fn starts_with_spec(s: Seq<char>, p: Seq<char>) -> bool {
    p.len() <= s.len() && s.take(p.len() as int) == p
}

/// Whether `s` ends with `p`.
pub open spec fn ends_with_spec(s: Seq<char>, p: Seq<char>) -> bool {
    p.len() <= s.len() && s.skip(s.len() - p.len()) == p
}

/// Whether `p` occurs in `s` at some position.
pub open spec fn contains_spec(s: Seq<char>, p: Seq<char>) -> bool {
    exists|i: int| 0 <= i && i + p.len() <= s.len() && #[trigger] s.subrange(i, i + p.len()) == p
}

/// `s` without any leading copies of the non-empty `p` (`str::trim_start_matches`).
pub open spec fn strip_prefixes_spec(s: Seq<char>, p: Seq<char>) -> Seq<char>
    decreases s.len(),
{
    if p.len() > 0 && starts_with_spec(s, p) {
        strip_prefixes_spec(s.skip(p.len() as int), p)
    } else {
        s
    }
}

/// The ASCII lower-case form of a character (`char::to_ascii_lowercase`).
pub open spec fn lower_char(c: char) -> char {
    if 'A' <= c && c <= 'Z' {
        ((c as u32) + 32) as char
    } else {
        c
    }
}

/// The ASCII lower-case form of a text (`str::to_ascii_lowercase`).
pub open spec fn ascii_lower(s: Seq<char>) -> Seq<char> {
    s.map_values(|c: char| lower_char(c))
}

/// The text of an optional string.
pub open spec fn opt_text(value: Option<String>) -> Option<Seq<char>> {
    match value {
        Some(text) => Some(text@),
        None => None,
    }
}

/// The text of an optional string slice.
pub open spec fn opt_str_view(value: Option<&str>) -> Option<Seq<char>> {
    match value {
        Some(text) => Some(text@),
        None => None,
    }
}

/// The characters of a string slice, in order.
pub fn chars_of(s: &str) -> (v: Vec<char>)
    ensures
        v@ == s@,
{
    let mut v: Vec<char> = Vec::new();
    for c in it: s.chars()
        invariant
            v@ == it.seq().take(it.index() as int),
            it.seq() == s@,
    {
        v.push(c);
    }
    v
}

/// Whether `c` is Unicode white space.
pub fn is_white_space_char(c: char) -> (r: bool)
    ensures
        r == is_white_space(c),
{
    ('\u{9}' <= c && c <= '\u{d}') || c == ' ' || c == '\u{85}' || c == '\u{a0}' || c == '\u{1680}'
        || ('\u{2000}' <= c && c <= '\u{200a}') || c == '\u{2028}' || c == '\u{2029}' || c
        == '\u{202f}' || c == '\u{205f}' || c == '\u{3000}'
}

/// The ASCII lower-case form of one character.
pub fn lower_ascii_char(c: char) -> (r: char)
    ensures
        r == lower_char(c),
{
    if 'A' <= c && c <= 'Z' {
        let b: u8 = c as u8;
        assert(b as u32 == c as u32);
        ((b + 32) as char)
    } else {
        c
    }
}

/// Whether `p` occurs in `v` starting at position `i`.
pub fn matches_at(v: &Vec<char>, i: usize, p: &Vec<char>) -> (r: bool)
    requires
        i <= v.len(),
    ensures
        r == (i + p.len() <= v.len() && v@.subrange(i as int, i + p.len()) == p@),
{
    if p.len() > v.len() - i {
        return false;
    }
    let mut k: usize = 0;
    while k < p.len()
        invariant
            i + p.len() <= v.len(),
            0 <= k <= p.len(),
            forall|j: int| 0 <= j < k ==> v@[i + j] == p@[j],
        decreases p.len() - k,
    {
        if v[i + k] != p[k] {
            assert(v@.subrange(i as int, i + p.len())[k as int] != p@[k as int]);
            return false;
        }
        k = k + 1;
    }
    assert(v@.subrange(i as int, i + p.len()) =~= p@);
    true
}

/// Whether `p` occurs anywhere in `v`.
pub fn contains_chars(v: &Vec<char>, p: &Vec<char>) -> (r: bool)
    ensures
        r == contains_spec(v@, p@),
{
    if p.len() > v.len() {
        return false;
    }
    let last: usize = v.len() - p.len();
    let mut i: usize = 0;
    while i < last
        invariant
            i <= last,
            last + p.len() == v.len(),
            forall|j: int| 0 <= j < i ==> #[trigger] v@.subrange(j, j + p.len()) != p@,
        decreases last - i,
    {
        if matches_at(v, i, p) {
            return true;
        }
        i = i + 1;
    }
    if matches_at(v, last, p) {
        return true;
    }
    assert forall|j: int| 0 <= j && j + p.len() <= v.len() implies #[trigger] v@.subrange(
        j,
        j + p.len(),
    ) != p@ by {
        assert(j <= last);
    }
    false
}

/// Whether `v` ends with `p`.
pub fn ends_with_chars(v: &Vec<char>, p: &Vec<char>) -> (r: bool)
    ensures
        r == ends_with_spec(v@, p@),
{
    if p.len() > v.len() {
        return false;
    }
    let r = matches_at(v, v.len() - p.len(), p);
    assert(v@.skip(v.len() - p.len()) =~= v@.subrange(v.len() - p.len(), v.len() as int));
    r
}

/// Whether `v` starts with `p`.
pub fn starts_with_chars(v: &Vec<char>, p: &Vec<char>) -> (r: bool)
    ensures
        r == starts_with_spec(v@, p@),
{
    let r = matches_at(v, 0, p);
    assert(r ==> v@.take(p.len() as int) =~= v@.subrange(0, p.len() as int));
    r
}

/// Whether `v` and `p` hold the same characters.
pub fn equal_chars(v: &Vec<char>, p: &Vec<char>) -> (r: bool)
    ensures
        r == (v@ == p@),
{
    if v.len() != p.len() {
        return false;
    }
    assert(v@ =~= v@.subrange(0, p.len() as int));
    matches_at(v, 0, p)
}

/// The characters of `v[from..to]`.
pub fn slice_chars(v: &Vec<char>, from: usize, to: usize) -> (r: Vec<char>)
    requires
        from <= to <= v.len(),
    ensures
        r@ == v@.subrange(from as int, to as int),
{
    let mut r: Vec<char> = Vec::new();
    let mut i: usize = from;
    while i < to
        invariant
            from <= i <= to <= v.len(),
            r@ == v@.subrange(from as int, i as int),
        decreases to - i,
    {
        r.push(v[i]);
        i = i + 1;
        assert(r@ =~= v@.subrange(from as int, i as int));
    }
    r
}

/// The ASCII lower-case form of `v`.
pub fn lower_chars(v: &Vec<char>) -> (r: Vec<char>)
    ensures
        r@ == ascii_lower(v@),
{
    let mut r: Vec<char> = Vec::new();
    let mut i: usize = 0;
    while i < v.len()
        invariant
            i <= v.len(),
            r@ == ascii_lower(v@.take(i as int)),
        decreases v.len() - i,
    {
        r.push(lower_ascii_char(v[i]));
        i = i + 1;
        assert(r@ =~= ascii_lower(v@.take(i as int)));
    }
    assert(v@.take(v.len() as int) =~= v@);
    r
}

/// The start of `v[from..to]` once its leading white space is skipped.
pub fn skip_white_space(v: &Vec<char>, from: usize, to: usize) -> (i: usize)
    requires
        from <= to <= v.len(),
    ensures
        from <= i <= to,
        v@.subrange(i as int, to as int) == trim_start_spec(v@.subrange(from as int, to as int)),
{
    let mut i: usize = from;
    while i < to && is_white_space_char(v[i])
        invariant
            from <= i <= to <= v.len(),
            trim_start_spec(v@.subrange(from as int, to as int)) == trim_start_spec(
                v@.subrange(i as int, to as int),
            ),
        decreases to - i,
    {
        assert(v@.subrange(i as int, to as int).drop_first() =~= v@.subrange(i + 1, to as int));
        i = i + 1;
    }
    i
}

/// The end of `v[from..to]` once its trailing white space is dropped.
pub fn drop_white_space(v: &Vec<char>, from: usize, to: usize) -> (j: usize)
    requires
        from <= to <= v.len(),
    ensures
        from <= j <= to,
        v@.subrange(from as int, j as int) == trim_end_spec(v@.subrange(from as int, to as int)),
{
    let mut j: usize = to;
    while j > from && is_white_space_char(v[j - 1])
        invariant
            from <= j <= to <= v.len(),
            trim_end_spec(v@.subrange(from as int, to as int)) == trim_end_spec(
                v@.subrange(from as int, j as int),
            ),
        decreases j,
    {
        assert(v@.subrange(from as int, j as int).drop_last() =~= v@.subrange(
            from as int,
            j - 1,
        ));
        j = j - 1;
    }
    j
}

/// The end of `v[from..to]` once its trailing copies of `c` are dropped.
pub fn drop_trailing(v: &Vec<char>, from: usize, to: usize, c: char) -> (j: usize)
    requires
        from <= to <= v.len(),
    ensures
        from <= j <= to,
        v@.subrange(from as int, j as int) == trim_end_char_spec(
            v@.subrange(from as int, to as int),
            c,
        ),
{
    let mut j: usize = to;
    while j > from && v[j - 1] == c
        invariant
            from <= j <= to <= v.len(),
            trim_end_char_spec(v@.subrange(from as int, to as int), c) == trim_end_char_spec(
                v@.subrange(from as int, j as int),
                c,
            ),
        decreases j,
    {
        assert(v@.subrange(from as int, j as int).drop_last() =~= v@.subrange(
            from as int,
            j - 1,
        ));
        j = j - 1;
    }
    j
}

/// The start of `v[from..to]` once the leading copies of `p` are skipped.
pub fn skip_prefixes(v: &Vec<char>, from: usize, to: usize, p: &Vec<char>) -> (i: usize)
    requires
        from <= to <= v.len(),
        p.len() > 0,
    ensures
        from <= i <= to,
        v@.subrange(i as int, to as int) == strip_prefixes_spec(
            v@.subrange(from as int, to as int),
            p@,
        ),
{
    let mut i: usize = from;
    loop
        invariant
            from <= i <= to <= v.len(),
            p.len() > 0,
            strip_prefixes_spec(v@.subrange(from as int, to as int), p@) == strip_prefixes_spec(
                v@.subrange(i as int, to as int),
                p@,
            ),
        decreases to - i,
    {
        let ghost rest = v@.subrange(i as int, to as int);
        if p.len() <= to - i && matches_at(v, i, p) {
            assert(rest.take(p.len() as int) =~= v@.subrange(i as int, i + p.len()));
            assert(rest.skip(p.len() as int) =~= v@.subrange(i + p.len(), to as int));
            i = i + p.len();
        } else {
            assert(!starts_with_spec(rest, p@)) by {
                if starts_with_spec(rest, p@) {
                    assert(rest.take(p.len() as int) =~= v@.subrange(i as int, i + p.len()));
                }
            }
            return i;
        }
    }
}

/// Whether two string slices hold the same text.
pub fn str_equal(a: &str, b: &str) -> (r: bool)
    ensures
        r == (a@ == b@),
{
    equal_chars(&chars_of(a), &chars_of(b))
}

/// Lower-casing a text twice changes nothing the first time did not.
pub proof fn lemma_ascii_lower_idempotent(s: Seq<char>)
    ensures
        ascii_lower(ascii_lower(s)) == ascii_lower(s),
{
    assert forall|i: int| 0 <= i < s.len() implies lower_char(lower_char(s[i])) == lower_char(
        s[i],
    ) by {
        let c = s[i];
        if 'A' <= c && c <= 'Z' {
            assert('a' <= lower_char(c) && lower_char(c) <= 'z');
        }
    }
    assert(ascii_lower(ascii_lower(s)) =~= ascii_lower(s));
}

/// Lower-casing keeps white space and does not make any.
proof fn lemma_lower_keeps_white_space(c: char)
    ensures
        is_white_space(lower_char(c)) == is_white_space(c),
{
}

/// Trimming and ASCII lower-casing can be done in either order.
pub proof fn lemma_trim_lower_commute(s: Seq<char>)
    ensures
        trim_spec(ascii_lower(s)) == ascii_lower(trim_spec(s)),
{
    lemma_trim_start_lower(s);
    lemma_trim_end_lower(trim_start_spec(s));
}

proof fn lemma_trim_start_lower(s: Seq<char>)
    ensures
        trim_start_spec(ascii_lower(s)) == ascii_lower(trim_start_spec(s)),
    decreases s.len(),
{
    if s.len() > 0 {
        lemma_lower_keeps_white_space(s[0]);
        assert(ascii_lower(s).drop_first() =~= ascii_lower(s.drop_first()));
        lemma_trim_start_lower(s.drop_first());
    }
}

proof fn lemma_trim_end_lower(s: Seq<char>)
    ensures
        trim_end_spec(ascii_lower(s)) == ascii_lower(trim_end_spec(s)),
    decreases s.len(),
{
    if s.len() > 0 {
        lemma_lower_keeps_white_space(s.last());
        assert(ascii_lower(s).drop_last() =~= ascii_lower(s.drop_last()));
        lemma_trim_end_lower(s.drop_last());
    }
}

/// What is left after skipping leading white space starts with a character
/// other than white space, if anything is left.
proof fn lemma_trim_start_first(s: Seq<char>)
    ensures
        trim_start_spec(s).len() > 0 ==> !is_white_space(trim_start_spec(s)[0]),
    decreases s.len(),
{
    if s.len() > 0 && is_white_space(s[0]) {
        lemma_trim_start_first(s.drop_first());
    }
}

/// Dropping trailing white space leaves a prefix that ends with a character
/// other than white space, if anything is left.
proof fn lemma_trim_end_prefix(s: Seq<char>)
    ensures
        trim_end_spec(s).len() <= s.len(),
        trim_end_spec(s) == s.take(trim_end_spec(s).len() as int),
        trim_end_spec(s).len() > 0 ==> !is_white_space(trim_end_spec(s).last()),
    decreases s.len(),
{
    if s.len() > 0 && is_white_space(s.last()) {
        lemma_trim_end_prefix(s.drop_last());
        assert(s.drop_last().take(trim_end_spec(s).len() as int) =~= s.take(
            trim_end_spec(s).len() as int,
        ));
    } else {
        assert(s.take(s.len() as int) =~= s);
    }
}

/// Trimming a trimmed text changes nothing.
pub proof fn lemma_trim_idempotent(s: Seq<char>)
    ensures
        trim_spec(trim_spec(s)) == trim_spec(s),
{
    let t = trim_spec(s);
    lemma_trim_start_first(s);
    lemma_trim_end_prefix(trim_start_spec(s));
    if t.len() > 0 {
        let ts = trim_start_spec(s);
        assert(t == ts.take(t.len() as int));
        assert(t[0] == ts.take(t.len() as int)[0]);
        assert(t[0] == ts[0]);
        assert(trim_start_spec(t) == t);
        assert(trim_end_spec(t) == t);
    } else {
        assert(trim_start_spec(t) == t);
    }
}

} // verus!
