//! Text helpers: the model of strings as sequences of characters, and the
//! executable functions over it that the rest of the crate is built on.
use vstd::prelude::*;
use vstd::utf8::encode_utf8;

verus! {

broadcast use vstd::string::group_string_axioms;

// ── trusted string primitives ────────────────────────────────────────────────

/// `String::push`: appends one character.
#[verifier::external_body]
pub(crate) fn push_char(s: &mut String, c: char)
    ensures
        final(s)@ == old(s)@.push(c),
{
    s.push(c)
}

/// `str`'s `==`: two strings are equal when they hold the same characters.
#[verifier::external_body]
pub(crate) fn same(a: &str, b: &str) -> (r: bool)
    ensures
        r == (a@ == b@),
{
    a == b
}

/// The lower-case form that `str::to_lowercase` gives, by the Unicode tables
/// of the standard library.
pub uninterp spec fn lowercase(s: Seq<char>) -> Seq<char>;

/// The lower-case form of an ASCII character.
pub open spec fn ascii_lower(c: char) -> char {
    if 'A' <= c && c <= 'Z' {
        (c as u32 + 32) as char
    } else {
        c
    }
}

/// `str::to_lowercase`: the result is a function of the text alone; every
/// character gives at least one, and in ASCII text each upper-case letter
/// becomes its lower-case letter.
#[verifier::external_body]
pub(crate) fn to_lower(s: &str) -> (r: String)
    ensures
        r@ == lowercase(s@),
        (r@.len() == 0) == (s@.len() == 0),
        vstd::utf8::is_ascii_chars(s@) ==> r@ == s@.map_values(|c: char| ascii_lower(c)),
{
    s.to_lowercase()
}

// ── UTF-8 sizes ──────────────────────────────────────────────────────────────

/// Number of bytes of `c` in UTF-8.
pub open spec fn width(c: char) -> nat {
    if (c as u32) < 0x80 {
        1
    } else if (c as u32) < 0x800 {
        2
    } else if (c as u32) < 0x10000 {
        3
    } else {
        4
    }
}

/// Number of bytes of `s` in UTF-8.
pub open spec fn bytes(s: Seq<char>) -> nat
    decreases s.len(),
{
    if s.len() == 0 {
        0
    } else {
        bytes(s.drop_last()) + width(s.last())
    }
}

/// The sizes of two texts add up when they are joined.
pub proof fn lemma_bytes_concat(a: Seq<char>, b: Seq<char>)
    ensures
        bytes(a + b) == bytes(a) + bytes(b),
    decreases b.len(),
{
    if b.len() == 0 {
        assert(a + b =~= a);
    } else {
        assert((a + b).drop_last() =~= a + b.drop_last());
        lemma_bytes_concat(a, b.drop_last());
    }
}

pub proof fn lemma_bytes_push(a: Seq<char>, c: char)
    ensures
        bytes(a.push(c)) == bytes(a) + width(c),
{
    assert(a.push(c).drop_last() =~= a);
}

pub proof fn lemma_bytes_at_least_len(a: Seq<char>)
    ensures
        a.len() <= bytes(a) <= 4 * a.len(),
    decreases a.len(),
{
    if a.len() > 0 {
        lemma_bytes_at_least_len(a.drop_last());
    }
}

pub proof fn lemma_bytes_take(s: Seq<char>, k: int)
    requires
        0 <= k < s.len(),
    ensures
        bytes(s.take(k + 1)) == bytes(s.take(k)) + width(s[k]),
{
    assert(s.take(k + 1).drop_last() =~= s.take(k));
}

pub proof fn lemma_bytes_take_le(s: Seq<char>, i: int, j: int)
    requires
        0 <= i <= j <= s.len(),
    ensures
        bytes(s.take(i)) + (j - i) <= bytes(s.take(j)) <= bytes(s),
    decreases s.len() - i,
{
    if i == s.len() {
        assert(s.take(i) =~= s);
    } else if i == j {
        lemma_bytes_take_le(s, i + 1, i + 1);
        lemma_bytes_take(s, i);
    } else {
        lemma_bytes_take_le(s, i + 1, j);
        lemma_bytes_take(s, i);
    }
}

proof fn lemma_encoded_len(s: Seq<char>)
    ensures
        encode_utf8(s).len() == bytes(s),
    decreases s.len(),
{
    if s.len() > 0 {
        lemma_encoded_len(s.drop_first());
        let one = seq![s[0]];
        assert(one.drop_last() =~= Seq::<char>::empty());
        assert(bytes(one) == width(s[0])) by {
            assert(bytes(one.drop_last()) == 0);
        }
        assert(s =~= one + s.drop_first());
        lemma_bytes_concat(one, s.drop_first());
        let c = s[0] as u32;
        vstd::utf8::char_is_scalar(s[0]);
        assert(vstd::utf8::encode_scalar(c).len() == width(s[0]));
    }
}

/// `str::len`: the size of the text in bytes.
pub fn byte_len(s: &str) -> (r: usize)
    ensures
        r == bytes(s@),
{
    proof {
        lemma_encoded_len(s@);
    }
    s.as_bytes().len()
}

/// Number of bytes of `c` in UTF-8.
pub fn char_width(c: char) -> (r: usize)
    ensures
        r == width(c),
{
    let u: u32 = c as u32;
    if u < 0x80 {
        1
    } else if u < 0x800 {
        2
    } else if u < 0x10000 {
        3
    } else {
        4
    }
}

/// Number of whole characters that lie before byte `b`, rounded up when `b`
/// falls inside a character.
pub open spec fn char_pos(s: Seq<char>, b: int) -> int
    decreases s.len(),
{
    if s.len() == 0 || bytes(s.drop_last()) < b {
        s.len() as int
    } else {
        char_pos(s.drop_last(), b)
    }
}

/// Byte `b` is the start of a character of `s`, or its end.
pub open spec fn on_boundary(s: Seq<char>, b: int) -> bool {
    bytes(s.take(char_pos(s, b))) == b
}

pub proof fn lemma_char_pos(s: Seq<char>, b: int)
    ensures
        0 <= char_pos(s, b) <= s.len(),
        forall|k: int| 0 <= k < char_pos(s, b) ==> bytes(#[trigger] s.take(k)) < b,
        forall|k: int|
            char_pos(s, b) <= k < s.len() ==> bytes(#[trigger] s.take(k)) >= b,
    decreases s.len(),
{
    if s.len() == 0 {
    } else if bytes(s.drop_last()) < b {
        assert forall|k: int| 0 <= k < s.len() implies bytes(#[trigger] s.take(k)) < b by {
            lemma_bytes_take_le(s, k, s.len() - 1);
            assert(s.take(s.len() - 1) =~= s.drop_last());
        }
    } else {
        let d = s.drop_last();
        lemma_char_pos(d, b);
        assert forall|k: int| 0 <= k < char_pos(s, b) implies bytes(#[trigger] s.take(k)) < b by {
            assert(s.take(k) =~= d.take(k));
        }
        assert forall|k: int| char_pos(s, b) <= k < s.len() implies bytes(#[trigger] s.take(k))
            >= b by {
            if k == s.len() - 1 {
                assert(s.take(k) =~= d);
            } else {
                assert(s.take(k) =~= d.take(k));
            }
        }
    }
}

/// The position of a prefix of `k` characters is `k`.
pub proof fn lemma_char_pos_of_prefix(s: Seq<char>, k: int)
    requires
        0 <= k <= s.len(),
    ensures
        char_pos(s, bytes(s.take(k)) as int) == k,
        on_boundary(s, bytes(s.take(k)) as int),
{
    let b = bytes(s.take(k)) as int;
    lemma_char_pos(s, b);
    let p = char_pos(s, b);
    if p < k {
        lemma_bytes_take_le(s, p, k);
        assert(bytes(s.take(p)) >= b);
    } else if k < p {
        assert(bytes(s.take(k)) < b);
    }
}

// ── characters in and out of strings ─────────────────────────────────────────

/// The characters of a string.
pub fn to_chars(s: &str) -> (r: Vec<char>)
    ensures
        r@ == s@,
{
    let mut out: Vec<char> = Vec::new();
    for c in it: s.chars()
        invariant
            it.seq() == s@,
            out@ == s@.take(it.index()),
    {
        out.push(c);
    }
    assert(s@.take(s@.len() as int) =~= s@);
    out
}

/// The characters `from..to` as a string.
pub fn from_chars(v: &Vec<char>, from: usize, to: usize) -> (r: String)
    requires
        from <= to <= v@.len(),
    ensures
        r@ == v@.subrange(from as int, to as int),
{
    let mut out = String::new();
    let mut i: usize = from;
    while i < to
        invariant
            from <= i <= to <= v@.len(),
            out@ == v@.subrange(from as int, i as int),
        decreases to - i,
    {
        push_char(&mut out, v[i]);
        i = i + 1;
    }
    out
}

/// A copy of `s`.
pub fn owned(s: &str) -> (r: String)
    ensures
        r@ == s@,
{
    s.to_owned()
}

/// A string of one character.
pub fn one_char(c: char) -> (r: String)
    ensures
        r@ == seq![c],
{
    let mut s = String::new();
    push_char(&mut s, c);
    assert(s@ =~= seq![c]);
    s
}

/// The first `n` characters.
pub fn take_chars(s: &str, n: usize) -> (r: String)
    ensures
        r@ == s@.take(if n <= s@.len() { n as int } else { s@.len() as int }),
{
    let v = to_chars(s);
    let k: usize = if n <= v.len() { n } else { v.len() };
    from_chars(&v, 0, k)
}

/// The text up to byte `b`, and the rest.
pub fn split_at_byte(s: &str, b: usize) -> (r: (String, String))
    ensures
        r.0@ == s@.take(char_pos(s@, b as int)),
        r.1@ == s@.skip(char_pos(s@, b as int)),
{
    let v = to_chars(s);
    let k = char_pos_of(&v, b);
    proof {
        lemma_char_pos(s@, b as int);
    }
    let n: usize = v.len();
    (from_chars(&v, 0, k), from_chars(&v, k, n))
}

/// Number of whole characters before byte `b`.
pub fn char_pos_of(v: &Vec<char>, b: usize) -> (r: usize)
    ensures
        r == char_pos(v@, b as int),
{
    let mut i: usize = 0;
    let mut at: usize = 0;
    proof {
        lemma_char_pos(v@, b as int);
    }
    while i < v.len() && at < b
        invariant
            i <= v@.len(),
            at == bytes(v@.take(i as int)),
            i <= char_pos(v@, b as int) <= v@.len(),
            at <= b + 3,
            forall|k: int| 0 <= k < char_pos(v@, b as int) ==> bytes(#[trigger] v@.take(k)) < b,
            forall|k: int|
                char_pos(v@, b as int) <= k < v@.len() ==> bytes(#[trigger] v@.take(k)) >= b,
        decreases v@.len() - i,
    {
        proof {
            lemma_bytes_take(v@, i as int);
        }
        let w = char_width(v[i]);
        if b - at <= w {
            proof {
                let n = i + 1;
                if n < char_pos(v@, b as int) {
                    assert(bytes(v@.take(n as int)) < b);
                }
                assert(v@.take(i as int) =~= v@.take(i as int));
            }
            return i + 1;
        }
        at = at + w;
        i = i + 1;
    }
    proof {
        if i < char_pos(v@, b as int) {
            assert(bytes(v@.take(i as int)) < b);
        }
    }
    i
}

/// Two texts, one behind the other.
pub fn cat2(a: &str, b: &str) -> (r: String)
    ensures
        r@ == a@ + b@,
{
    let mut s = a.to_owned();
    s.append(b);
    s
}

/// Three texts, one behind the other.
pub fn cat3(a: &str, b: &str, c: &str) -> (r: String)
    ensures
        r@ == a@ + b@ + c@,
{
    let mut s = a.to_owned();
    s.append(b);
    s.append(c);
    s
}

/// Whether two optional texts are the same.
pub fn same_opt(a: &Option<String>, b: &Option<String>) -> (r: bool)
    ensures
        r == (a.deep_view() == b.deep_view()),
{
    match (a, b) {
        (None, None) => true,
        (Some(x), Some(y)) => same(x.as_str(), y.as_str()),
        _ => false,
    }
}

/// Whether an optional text is there and is `b`.
pub fn opt_is(a: &Option<String>, b: &str) -> (r: bool)
    ensures
        r == (a.deep_view() == Some(b@)),
{
    match a {
        Some(x) => same(x.as_str(), b),
        None => false,
    }
}

/// A copy of an optional text.
pub fn copy_opt(a: &Option<String>) -> (r: Option<String>)
    ensures
        r.deep_view() == a.deep_view(),
{
    match a {
        Some(x) => Some(x.clone()),
        None => None,
    }
}

/// Being the character `c`.
pub open spec fn is_char(c: char) -> spec_fn(char) -> bool {
    |d: char| d == c
}

/// The text ends with the character.
pub open spec fn ends(hay: Seq<char>, c: char) -> bool {
    hay.len() > 0 && hay.last() == c
}

/// `str::ends_with` with a character.
pub fn ends_with(s: &str, c: char) -> (r: bool)
    ensures
        r == ends(s@, c),
{
    let v = to_chars(s);
    v.len() > 0 && v[v.len() - 1] == c
}

/// The text before the first `sep` and the text behind it.
pub open spec fn cut_once(s: Seq<char>, sep: char) -> Option<(Seq<char>, Seq<char>)> {
    match crate::seqs::first_index(s, is_char(sep)) {
        Some(k) => Some((s.take(k), s.skip(k + 1))),
        None => None,
    }
}

/// `str::split_once` with a character.
pub fn split_once(s: &str, sep: char) -> (r: Option<(String, String)>)
    ensures
        r.deep_view() == cut_once(s@, sep),
{
    let v = to_chars(s);
    let n: usize = v.len();
    let ghost p = is_char(sep);
    let mut i: usize = 0;
    while i < n
        invariant
            i <= n,
            n == v@.len(),
            v@ == s@,
            p == is_char(sep),
            forall|j: int| 0 <= j < i ==> !p(#[trigger] s@[j]),
        decreases n - i,
    {
        if v[i] == sep {
            proof {
                crate::seqs::lemma_first_is(s@, p, i as int);
            }
            let before = from_chars(&v, 0, i);
            let behind = from_chars(&v, i + 1, n);
            assert(before@ =~= s@.take(i as int));
            assert(behind@ =~= s@.skip(i + 1));
            return Some((before, behind));
        }
        i = i + 1;
    }
    proof {
        crate::seqs::lemma_first_none(s@, p);
    }
    None
}

/// `String::pop`, without the character.
pub fn drop_last_char(s: &mut String)
    ensures
        final(s)@ == (if old(s)@.len() > 0 {
            old(s)@.drop_last()
        } else {
            old(s)@
        }),
{
    let v = to_chars(s.as_str());
    if v.len() > 0 {
        *s = from_chars(&v, 0, v.len() - 1);
    }
}

/// The part of a path behind its last slash but one.
pub open spec fn short_form(path: Seq<char>) -> Seq<char> {
    match crate::seqs::final_index(path, is_char('/')) {
        Some(b) => match crate::seqs::final_index(path.take(b), is_char('/')) {
            Some(a) => path.skip(a + 1),
            None => path,
        },
        None => path,
    }
}

fn last_slash(v: &Vec<char>, n: usize) -> (r: Option<usize>)
    requires
        n <= v@.len(),
    ensures
        match r {
            Some(k) => k < n && crate::seqs::final_index(v@.take(n as int), is_char('/')) == Some(
                k as int,
            ),
            None => crate::seqs::final_index(v@.take(n as int), is_char('/')) is None,
        },
{
    let ghost s = v@.take(n as int);
    let ghost p = is_char('/');
    let mut i: usize = n;
    while i > 0
        invariant
            i <= n <= v@.len(),
            s == v@.take(n as int),
            p == is_char('/'),
            forall|j: int| i <= j < n ==> !p(#[trigger] s[j]),
        decreases i,
    {
        i = i - 1;
        if v[i] == '/' {
            proof {
                crate::seqs::lemma_final_index_is(s, p, i as int);
            }
            return Some(i);
        }
    }
    proof {
        crate::seqs::lemma_final_index_none(s, p);
    }
    None
}

/// The last two components of a path.
pub fn short_path(path: &str) -> (r: String)
    ensures
        r@ == short_form(path@),
{
    let v = to_chars(path);
    let n: usize = v.len();
    assert(v@.take(n as int) =~= path@);
    match last_slash(&v, n) {
        Some(b) => {
            match last_slash(&v, b) {
                Some(a) => {
                    let r = from_chars(&v, a + 1, n);
                    assert(r@ =~= path@.skip(a + 1));
                    r
                },
                None => owned(path),
            }
        },
        None => owned(path),
    }
}

/// The text, or its first `limit` bytes and a mark where it is longer; a
/// character that begins within the limit is kept whole.
pub open spec fn clipped(s: Seq<char>, limit: nat, mark: Seq<char>) -> Seq<char> {
    if bytes(s) > limit {
        s.take(char_pos(s, limit as int)) + mark
    } else {
        s
    }
}

/// The text, or its first `limit` bytes and a mark where it is longer.
pub fn clip(s: &str, limit: usize, mark: &str) -> (r: String)
    ensures
        r@ == clipped(s@, limit as nat, mark@),
{
    if byte_len(s) > limit {
        let parts = split_at_byte(s, limit);
        let mut out = parts.0;
        out.append(mark);
        out
    } else {
        owned(s)
    }
}

// ── white space ──────────────────────────────────────────────────────────────

/// The Unicode `White_Space` property.
pub open spec fn white(c: char) -> bool {
    let u = c as u32;
    ||| 0x09 <= u <= 0x0D
    ||| u == 0x20
    ||| u == 0x85
    ||| u == 0xA0
    ||| u == 0x1680
    ||| 0x2000 <= u <= 0x200A
    ||| u == 0x2028
    ||| u == 0x2029
    ||| u == 0x202F
    ||| u == 0x205F
    ||| u == 0x3000
}

/// `char::is_whitespace`.
pub fn is_white(c: char) -> (r: bool)
    ensures
        r == white(c),
{
    let u: u32 = c as u32;
    (0x09 <= u && u <= 0x0D) || u == 0x20 || u == 0x85 || u == 0xA0 || u == 0x1680 || (0x2000 <= u
        && u <= 0x200A) || u == 0x2028 || u == 0x2029 || u == 0x202F || u == 0x205F || u == 0x3000
}

/// The text without the white space at its end.
pub open spec fn trim_end(s: Seq<char>) -> Seq<char>
    decreases s.len(),
{
    if s.len() > 0 && white(s.last()) {
        trim_end(s.drop_last())
    } else {
        s
    }
}

/// The text without the white space at its start.
pub open spec fn trim_start(s: Seq<char>) -> Seq<char>
    decreases s.len(),
{
    if s.len() > 0 && white(s[0]) {
        trim_start(s.drop_first())
    } else {
        s
    }
}

/// `str::trim`.
pub open spec fn trimmed(s: Seq<char>) -> Seq<char> {
    trim_end(trim_start(s))
}

/// `str::trim`.
pub fn trim(s: &str) -> (r: String)
    ensures
        r@ == trimmed(s@),
{
    let v = to_chars(s);
    let mut a: usize = 0;
    assert(v@.skip(0) =~= v@);
    while a < v.len() && is_white(v[a])
        invariant
            a <= v@.len(),
            v@ == s@,
            trim_start(v@.skip(a as int)) == trim_start(s@),
        decreases v@.len() - a,
    {
        assert(v@.skip(a as int).drop_first() =~= v@.skip(a as int + 1));
        a = a + 1;
    }
    let mut b: usize = v.len();
    assert(trim_start(v@.skip(a as int)) == v@.skip(a as int));
    assert(v@.subrange(a as int, b as int) =~= v@.skip(a as int));
    while a < b && is_white(v[b - 1])
        invariant
            a <= b <= v@.len(),
            trim_end(v@.subrange(a as int, b as int)) == trimmed(s@),
        decreases b,
    {
        assert(v@.subrange(a as int, b as int).drop_last() =~= v@.subrange(a as int, b - 1));
        b = b - 1;
    }
    from_chars(&v, a, b)
}

/// Nothing but white space.
pub open spec fn blank(s: Seq<char>) -> bool {
    forall|i: int| 0 <= i < s.len() ==> white(#[trigger] s[i])
}

/// `s.trim().is_empty()`.
pub fn is_blank(s: &str) -> (r: bool)
    ensures
        r == blank(s@),
{
    let v = to_chars(s);
    let mut i: usize = 0;
    while i < v.len()
        invariant
            i <= v@.len(),
            v@ == s@,
            forall|k: int| 0 <= k < i ==> white(#[trigger] s@[k]),
        decreases v@.len() - i,
    {
        if !is_white(v[i]) {
            return false;
        }
        i = i + 1;
    }
    true
}

/// Trimming leaves nothing exactly when there is nothing but white space.
pub proof fn law_blank_trims_to_nothing(s: Seq<char>)
    ensures
        blank(s) <==> trimmed(s).len() == 0,
{
    lemma_trim_start(s);
    lemma_trim_end(trim_start(s));
}

proof fn lemma_trim_start(s: Seq<char>)
    ensures
        blank(s) <==> trim_start(s).len() == 0,
        trim_start(s).len() > 0 ==> !white(trim_start(s)[0]),
    decreases s.len(),
{
    if s.len() > 0 && white(s[0]) {
        let d = s.drop_first();
        lemma_trim_start(d);
        assert forall|i: int| blank(d) && 0 <= i < s.len() implies white(#[trigger] s[i]) by {
            if i > 0 {
                assert(white(d[i - 1]));
            }
        }
        assert forall|i: int| blank(s) && 0 <= i < d.len() implies white(#[trigger] d[i]) by {
            assert(white(s[i + 1]));
        }
    } else if s.len() > 0 {
        assert(!white(s[0]));
    }
}

proof fn lemma_trim_end(s: Seq<char>)
    ensures
        s.len() > 0 && !white(s[0]) ==> trim_end(s).len() > 0,
        s.len() == 0 ==> trim_end(s).len() == 0,
    decreases s.len(),
{
    if s.len() > 0 && white(s.last()) {
        lemma_trim_end(s.drop_last());
    }
}

// ── searching ────────────────────────────────────────────────────────────────

/// `needle` stands in `hay` at position `i`.
pub open spec fn occurs_at(hay: Seq<char>, needle: Seq<char>, i: int) -> bool {
    0 <= i && i + needle.len() <= hay.len() && hay.subrange(i, i + needle.len()) == needle
}

/// `needle` stands somewhere in `hay`.
pub open spec fn contains(hay: Seq<char>, needle: Seq<char>) -> bool {
    exists|i: int| occurs_at(hay, needle, i)
}

/// `needle` stands at the start of `hay`.
pub open spec fn starts(hay: Seq<char>, needle: Seq<char>) -> bool {
    needle.len() <= hay.len() && hay.take(needle.len() as int) == needle
}

/// A text holds another where that is a part of it, and starts with it where it is the
/// part at the start.
pub proof fn law_contained_texts_are_parts(hay: Seq<char>, needle: Seq<char>)
    ensures
        contains(hay, needle) <==> exists|k: int|
            0 <= k <= hay.len() - needle.len() && needle == #[trigger] hay.subrange(
                k,
                k + needle.len(),
            ),
        starts(hay, needle) <==> needle.is_prefix_of(hay),
        contains(hay, Seq::empty()),
        starts(hay, needle) ==> contains(hay, needle),
{
    if contains(hay, needle) {
        let i = choose|i: int| occurs_at(hay, needle, i);
        assert(needle == hay.subrange(i, i + needle.len()));
    }
    if exists|k: int|
        0 <= k <= hay.len() - needle.len() && needle == #[trigger] hay.subrange(
            k,
            k + needle.len(),
        ) {
        let k = choose|k: int|
            0 <= k <= hay.len() - needle.len() && needle == #[trigger] hay.subrange(
                k,
                k + needle.len(),
            );
        assert(occurs_at(hay, needle, k));
    }
    assert(hay.subrange(0, 0) =~= Seq::<char>::empty());
    assert(occurs_at(hay, Seq::empty(), 0));
    if starts(hay, needle) {
        assert(hay.subrange(0, needle.len() as int) =~= hay.take(needle.len() as int));
        assert(occurs_at(hay, needle, 0));
    }
    if needle.is_prefix_of(hay) {
        assert(hay.take(needle.len() as int) =~= needle);
    }
}

fn matches_at(hay: &Vec<char>, needle: &Vec<char>, i: usize) -> (r: bool)
    requires
        i + needle@.len() <= hay@.len(),
    ensures
        r == occurs_at(hay@, needle@, i as int),
{
    let mut k: usize = 0;
    let n: usize = hay.len();
    while k < needle.len()
        invariant
            k <= needle@.len(),
            i + needle@.len() <= hay@.len(),
            n == hay@.len(),
            forall|j: int| 0 <= j < k ==> hay@[i + j] == needle@[j],
        decreases needle@.len() - k,
    {
        if hay[i + k] != needle[k] {
            assert(hay@.subrange(i as int, i + needle@.len())[k as int] == hay@[i + k]);
            return false;
        }
        k = k + 1;
    }
    assert(hay@.subrange(i as int, i + needle@.len()) =~= needle@);
    true
}

/// `str::contains` with a string.
pub fn has(hay: &str, needle: &str) -> (r: bool)
    ensures
        r == contains(hay@, needle@),
{
    let h = to_chars(hay);
    let n = to_chars(needle);
    if n.len() > h.len() {
        return false;
    }
    let last: usize = h.len() - n.len();
    let mut i: usize = 0;
    while i <= last
        invariant
            i <= last + 1,
            last + n@.len() == h@.len(),
            h@ == hay@,
            n@ == needle@,
            forall|j: int| 0 <= j < i ==> !occurs_at(hay@, needle@, j),
        decreases last + 1 - i,
    {
        if matches_at(&h, &n, i) {
            return true;
        }
        if i == last {
            assert forall|j: int| !occurs_at(hay@, needle@, j) by {
                if 0 <= j && j + needle@.len() <= hay@.len() {
                    assert(j <= last);
                }
            }
            return false;
        }
        i = i + 1;
    }
    false
}

/// `str::starts_with`.
pub fn has_prefix(hay: &str, needle: &str) -> (r: bool)
    ensures
        r == starts(hay@, needle@),
{
    let h = to_chars(hay);
    let n = to_chars(needle);
    if n.len() > h.len() {
        return false;
    }
    let r = matches_at(&h, &n, 0);
    assert(hay@.subrange(0, needle@.len() as int) =~= hay@.take(needle@.len() as int));
    r
}

/// `c` stands in `s`.
pub fn has_char(s: &str, c: char) -> (r: bool)
    ensures
        r == s@.contains(c),
{
    let v = to_chars(s);
    let mut i: usize = 0;
    while i < v.len()
        invariant
            i <= v@.len(),
            v@ == s@,
            forall|k: int| 0 <= k < i ==> s@[k] != c,
        decreases v@.len() - i,
    {
        if v[i] == c {
            assert(s@[i as int] == c);
            return true;
        }
        i = i + 1;
    }
    false
}

// ── pieces, lines, joining ───────────────────────────────────────────────────

/// `str::split` at every character of `seps`.
pub open spec fn pieces(s: Seq<char>, seps: Seq<char>) -> Seq<Seq<char>>
    decreases s.len(),
{
    if s.len() == 0 {
        seq![Seq::<char>::empty()]
    } else {
        let before = pieces(s.drop_last(), seps);
        if seps.contains(s.last()) {
            before.push(Seq::<char>::empty())
        } else {
            before.drop_last().push(before.last().push(s.last()))
        }
    }
}

pub proof fn lemma_pieces_nonempty(s: Seq<char>, seps: Seq<char>)
    ensures
        pieces(s, seps).len() > 0,
    decreases s.len(),
{
    if s.len() > 0 {
        lemma_pieces_nonempty(s.drop_last(), seps);
    }
}

/// `str::split` at every character of `seps`.
pub fn split(s: &str, seps: &str) -> (r: Vec<String>)
    ensures
        r.deep_view() == pieces(s@, seps@),
        r@.len() > 0,
{
    let v = to_chars(s);
    let mut out: Vec<String> = Vec::new();
    let mut cur = String::new();
    let mut i: usize = 0;
    proof {
        assert(out.deep_view().push(cur@) =~= pieces(s@.take(0), seps@));
    }
    while i < v.len()
        invariant
            i <= v@.len(),
            v@ == s@,
            out.deep_view().push(cur@) == pieces(s@.take(i as int), seps@),
        decreases v@.len() - i,
    {
        let ghost before = out.deep_view().push(cur@);
        let c = v[i];
        proof {
            assert(s@.take(i + 1).drop_last() =~= s@.take(i as int));
            assert(before.drop_last() =~= out.deep_view());
        }
        if has_char(seps, c) {
            out.push(cur);
            cur = String::new();
            assert(out.deep_view() =~= before);
        } else {
            push_char(&mut cur, c);
        }
        i = i + 1;
    }
    assert(s@.take(s@.len() as int) =~= s@);
    out.push(cur);
    assert(out.deep_view() =~= pieces(s@, seps@));
    out
}

/// A line without the carriage return that stood before its line feed.
pub open spec fn strip_cr(s: Seq<char>) -> Seq<char> {
    if s.len() > 0 && s.last() == '\r' {
        s.drop_last()
    } else {
        s
    }
}

/// `str::lines`: the text cut at line feeds, with a carriage return before a
/// line feed taken off, and no line for what follows a final line feed.
pub open spec fn lines(s: Seq<char>) -> Seq<Seq<char>> {
    let p = pieces(s, seq!['\n']);
    let done = Seq::new((p.len() - 1) as nat, |i: int| strip_cr(p[i]));
    if p.last().len() == 0 {
        done
    } else {
        done.push(p.last())
    }
}

/// `str::lines`.
pub fn split_lines(s: &str) -> (r: Vec<String>)
    ensures
        r.deep_view() == lines(s@),
{
    proof {
        reveal_strlit("\n");
        assert("\n"@ =~= seq!['\n']);
    }
    let p = split(s, "\n");
    let ghost pv = p.deep_view();
    let mut out: Vec<String> = Vec::new();
    let last: usize = p.len() - 1;
    let mut i: usize = 0;
    while i < last
        invariant
            i <= last,
            last == p@.len() - 1,
            pv == p.deep_view(),
            out.deep_view() == Seq::new(i as nat, |k: int| strip_cr(pv[k])),
        decreases last - i,
    {
        let c = to_chars(p[i].as_str());
        let n: usize = c.len();
        let k: usize = if n > 0 && c[n - 1] == '\r' {
            n - 1
        } else {
            n
        };
        let line = from_chars(&c, 0, k);
        assert(line@ =~= strip_cr(pv[i as int]));
        let ghost before = out.deep_view();
        out.push(line);
        assert(out.deep_view() =~= before.push(line@));
        assert(out.deep_view() =~= Seq::new((i + 1) as nat, |k: int| strip_cr(pv[k])));
        i = i + 1;
    }
    if !p[last].as_str().is_empty() {
        out.push(p[last].clone());
    }
    assert(out.deep_view() =~= lines(s@));
    out
}

/// `[String]::join`.
pub open spec fn joined(parts: Seq<Seq<char>>, sep: Seq<char>) -> Seq<char>
    decreases parts.len(),
{
    if parts.len() == 0 {
        Seq::empty()
    } else if parts.len() == 1 {
        parts[0]
    } else {
        joined(parts.drop_last(), sep) + sep + parts.last()
    }
}

/// `[String]::join`.
pub fn join(parts: &Vec<String>, sep: &str) -> (r: String)
    ensures
        r@ == joined(parts.deep_view(), sep@),
{
    let mut out = String::new();
    let ghost pv = parts.deep_view();
    let mut i: usize = 0;
    while i < parts.len()
        invariant
            i <= parts@.len(),
            pv == parts.deep_view(),
            out@ == joined(pv.take(i as int), sep@),
        decreases parts@.len() - i,
    {
        proof {
            assert(pv.take(i + 1).drop_last() =~= pv.take(i as int));
            if i == 0 {
                assert(pv.take(1)[0] == pv[0]);
            }
        }
        if i > 0 {
            out.append(sep);
        }
        out.append(parts[i].as_str());
        assert(out@ =~= joined(pv.take(i + 1), sep@));
        i = i + 1;
    }
    assert(pv.take(pv.len() as int) =~= pv);
    out
}

// ── numbers ──────────────────────────────────────────────────────────────────

/// The character of one decimal digit.
pub open spec fn digit(d: nat) -> char {
    (48 + d) as char
}

/// The decimal form of a natural number.
pub open spec fn decimal(n: nat) -> Seq<char>
    decreases n,
{
    if n < 10 {
        seq![digit(n)]
    } else {
        decimal(n / 10).push(digit(n % 10))
    }
}

/// The decimal form of a whole number.
pub open spec fn signed_decimal(n: int) -> Seq<char> {
    if n < 0 {
        seq!['-'] + decimal((-n) as nat)
    } else {
        decimal(n as nat)
    }
}

/// The decimal form of `n`.
pub fn number(n: u128) -> (r: String)
    ensures
        r@ == decimal(n as nat),
    decreases n,
{
    let mut out = if n < 10 {
        String::new()
    } else {
        number(n / 10)
    };
    let d: u8 = (n % 10) as u8;
    push_char(&mut out, (48 + d) as char);
    assert(out@ =~= decimal(n as nat));
    out
}

/// The decimal form of a length or an index.
pub fn count_text(n: usize) -> (r: String)
    ensures
        r@ == decimal(n as nat),
{
    number(n as u128)
}

/// Being a decimal digit.
pub open spec fn is_digit(c: char) -> bool {
    '0' <= c && c <= '9'
}

/// Nothing but decimal digits, and at least one.
pub open spec fn all_digits(s: Seq<char>) -> bool {
    s.len() > 0 && forall|i: int| 0 <= i < s.len() ==> is_digit(#[trigger] s[i])
}

/// The number that digits stand for.
pub open spec fn digits_value(s: Seq<char>) -> int
    decreases s.len(),
{
    if s.len() == 0 {
        0
    } else {
        digits_value(s.drop_last()) * 10 + (s.last() as int - '0' as int)
    }
}

/// The whole number that a text stands for: digits, with or without a sign.
pub open spec fn whole_number(s: Seq<char>) -> Option<int> {
    if s.len() > 0 && s[0] == '-' && all_digits(s.skip(1)) {
        Some(-digits_value(s.skip(1)))
    } else if s.len() > 0 && s[0] == '+' && all_digits(s.skip(1)) {
        Some(digits_value(s.skip(1)))
    } else if all_digits(s) {
        Some(digits_value(s))
    } else {
        None
    }
}

/// What `str::parse` into an `i64` gives.
pub open spec fn i64_of(s: Seq<char>) -> Option<i64> {
    match whole_number(s) {
        Some(n) => if i64::MIN <= n <= i64::MAX {
            Some(n as i64)
        } else {
            None
        },
        None => None,
    }
}

proof fn lemma_digits_bound(s: Seq<char>, k: int)
    requires
        0 <= k <= s.len(),
        forall|i: int| 0 <= i < s.len() ==> is_digit(#[trigger] s[i]),
    ensures
        0 <= digits_value(s.take(k)) <= digits_value(s),
    decreases s.len(),
{
    if k == s.len() {
        assert(s.take(k) =~= s);
        if s.len() > 0 {
            let d = s.drop_last();
            lemma_digits_bound(d, d.len() as int);
            assert(d.take(d.len() as int) =~= d);
            assert(is_digit(s[s.len() - 1]));
        }
    } else {
        let d = s.drop_last();
        lemma_digits_bound(d, k);
        assert(d.take(k) =~= s.take(k));
        assert(is_digit(s[s.len() - 1]));
    }
}

/// The number that the characters from `from` on stand for, up to a bound.
fn parse_digits(v: &Vec<char>, from: usize) -> (r: Option<u64>)
    requires
        from <= v@.len(),
    ensures
        match r {
            Some(n) => all_digits(v@.skip(from as int)) && n == digits_value(
                v@.skip(from as int),
            ) && n <= 0x8000_0000_0000_0000,
            None => !(all_digits(v@.skip(from as int)) && digits_value(v@.skip(from as int))
                <= 0x8000_0000_0000_0000),
        },
{
    let ghost all = v@.skip(from as int);
    if from == v.len() {
        return None;
    }
    let mut k: usize = from;
    while k < v.len()
        invariant
            from <= k <= v@.len(),
            all == v@.skip(from as int),
            forall|i: int| 0 <= i < k - from ==> is_digit(#[trigger] all[i]),
        decreases v@.len() - k,
    {
        assert(all[k - from] == v@[k as int]);
        if !('0' <= v[k] && v[k] <= '9') {
            return None;
        }
        k = k + 1;
    }
    let mut n: u64 = 0;
    let mut i: usize = from;
    while i < v.len()
        invariant
            from <= i <= v@.len(),
            all == v@.skip(from as int),
            all.len() > 0,
            forall|j: int| 0 <= j < all.len() ==> is_digit(#[trigger] all[j]),
            n == digits_value(all.take(i - from)),
            n <= 0x8000_0000_0000_0000,
        decreases v@.len() - i,
    {
        let ghost m = (i - from) as int;
        assert(all[m] == v@[i as int]);
        assert(is_digit(all[m]));
        assert(all.take(m + 1).drop_last() =~= all.take(m));
        assert(all.take(m + 1).last() == all[m]);
        let d: u64 = (v[i] as u32 - '0' as u32) as u64;
        let wide: u128 = (n as u128) * 10 + d as u128;
        if wide > 0x8000_0000_0000_0000 {
            proof {
                lemma_digits_bound(all, m + 1);
            }
            return None;
        }
        n = wide as u64;
        i = i + 1;
    }
    assert(all.take(all.len() as int) =~= all);
    Some(n)
}

/// `str::parse` into an `i64`.
pub fn parse_i64(s: &str) -> (r: Option<i64>)
    ensures
        r == i64_of(s@),
{
    let v = to_chars(s);
    if v.len() == 0 {
        return None;
    }
    assert(v@.skip(0) =~= v@);
    let ghost rest = v@.skip(1);
    if v[0] == '-' {
        assert(!is_digit(v@[0]));
        match parse_digits(&v, 1) {
            Some(n) => if n == 0x8000_0000_0000_0000 {
                Some(i64::MIN)
            } else {
                Some(-(n as i64))
            },
            None => {
                proof {
                    if all_digits(rest) {
                        lemma_digits_bound(rest, 0);
                    }
                }
                None
            },
        }
    } else {
        let from: usize = if v[0] == '+' {
            1
        } else {
            0
        };
        assert('+' == v@[0] ==> !is_digit(v@[0]));
        match parse_digits(&v, from) {
            Some(n) => if n <= 0x7fff_ffff_ffff_ffff {
                Some(n as i64)
            } else {
                None
            },
            None => None,
        }
    }
}

/// The decimal form of `n`.
pub fn signed_number(n: i64) -> (r: String)
    ensures
        r@ == signed_decimal(n as int),
{
    if n < 0 {
        let mut s = one_char('-');
        let m: u128 = (-(n as i128)) as u128;
        s.append(number(m).as_str());
        s
    } else {
        number(n as u128)
    }
}

/// `n` spaces.
pub open spec fn spaces(n: nat) -> Seq<char> {
    Seq::new(n, |i: int| ' ')
}

/// `format!("{:>w$}", s)`: `s` with spaces before it up to `w` characters.
pub open spec fn right_aligned(s: Seq<char>, w: nat) -> Seq<char> {
    if s.len() >= w {
        s
    } else {
        spaces((w - s.len()) as nat) + s
    }
}

/// `" ".repeat(n)`.
pub fn blanks(n: usize) -> (r: String)
    ensures
        r@ == spaces(n as nat),
{
    repeat(' ', n)
}

/// `c` repeated `n` times.
pub fn repeat(c: char, n: usize) -> (r: String)
    ensures
        r@ == Seq::new(n as nat, |i: int| c),
{
    let mut out = String::new();
    let mut i: usize = 0;
    while i < n
        invariant
            i <= n,
            out@ == Seq::new(i as nat, |k: int| c),
        decreases n - i,
    {
        push_char(&mut out, c);
        assert(out@ =~= Seq::new((i + 1) as nat, |k: int| c));
        i = i + 1;
    }
    assert(out@ =~= Seq::new(n as nat, |k: int| c));
    out
}

/// `format!("{:>w$}", s)`.
pub fn align_right(s: &str, w: usize) -> (r: String)
    ensures
        r@ == right_aligned(s@, w as nat),
{
    let n: usize = s.unicode_len();
    if n >= w {
        owned(s)
    } else {
        let mut out = blanks(w - n);
        out.append(s);
        out
    }
}

// ── order ────────────────────────────────────────────────────────────────────

/// `a` comes before `b` in the order of `str`, or equals it.  UTF-8 keeps the
/// order of the code points, so comparing characters is comparing bytes.
pub open spec fn ordered(a: Seq<char>, b: Seq<char>) -> bool
    decreases a.len(),
{
    if a.len() == 0 {
        true
    } else if b.len() == 0 {
        false
    } else if a[0] == b[0] {
        ordered(a.drop_first(), b.drop_first())
    } else {
        a[0] < b[0]
    }
}

/// `a <= b` on strings.
pub fn text_le(a: &str, b: &str) -> (r: bool)
    ensures
        r == ordered(a@, b@),
{
    let x = to_chars(a);
    let y = to_chars(b);
    let mut i: usize = 0;
    assert(x@.skip(0) =~= x@);
    assert(y@.skip(0) =~= y@);
    while i < x.len()
        invariant
            i <= x@.len(),
            i <= y@.len(),
            x@ == a@,
            y@ == b@,
            ordered(x@.skip(i as int), y@.skip(i as int)) == ordered(a@, b@),
        decreases x@.len() - i,
    {
        if i >= y.len() {
            return false;
        }
        if x[i] != y[i] {
            return x[i] < y[i];
        }
        assert(x@.skip(i as int).drop_first() =~= x@.skip(i + 1));
        assert(y@.skip(i as int).drop_first() =~= y@.skip(i + 1));
        i = i + 1;
    }
    true
}

} // verus!
