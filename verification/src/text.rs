//! Text primitives shared by every module: searching, trimming, ASCII case
//! folding, decimal rendering and line extraction, each stated over the
//! character sequence of the text.

use vstd::prelude::*;
use vstd::utf8::encode_utf8;

verus! {

/// The characters of `s`, in order.
pub fn chars_of(s: &str) -> (v: Vec<char>)
    ensures
        v@ == s@,
{
    let mut v: Vec<char> = Vec::new();
    for c in it: s.chars()
        invariant
            it.seq() == s@,
            v@ == s@.take(it.index() as int),
    {
        v.push(c);
        assert(v@ =~= s@.take(it.index() + 1));
    }
    assert(s@.take(s@.len() as int) =~= s@);
    v
}

/// Calls `<String as FromIterator<char>>::from_iter`: the text whose
/// characters are those of `chars`, in order.
#[verifier::external_body]
fn text_of(chars: Vec<char>) -> (s: String)
    ensures
        s@ == chars@,
{
    String::from_iter(chars)
}

/// Whether two texts hold the same characters.
pub fn same(a: &str, b: &str) -> (r: bool)
    ensures
        r == (a@ == b@),
{
    let x: Vec<char> = chars_of(a);
    let y: Vec<char> = chars_of(b);
    same_chars(&x, &y)
}

fn same_chars(x: &Vec<char>, y: &Vec<char>) -> (r: bool)
    ensures
        r == (x@ == y@),
{
    if x.len() != y.len() {
        return false;
    }
    let mut i: usize = 0;
    while i < x.len()
        invariant
            i <= x.len(),
            x.len() == y.len(),
            forall|j: int| 0 <= j < i ==> x@[j] == y@[j],
        decreases x.len() - i,
    {
        if x[i] != y[i] {
            return false;
        }
        i += 1;
    }
    assert(x@ =~= y@);
    true
}

/// Whether two optional texts are both absent or both present and the same.
pub open spec fn opt_view(s: Option<String>) -> Option<Seq<char>> {
    match s {
        Some(t) => Some(t@),
        None => None,
    }
}

/// `needle` stands in `hay` at position `i`.
pub open spec fn occurs_at(hay: Seq<char>, needle: Seq<char>, i: int) -> bool {
    0 <= i && i + needle.len() <= hay.len() && hay.subrange(i, i + needle.len()) == needle
}

/// `needle` stands somewhere in `hay`.
pub open spec fn has_text(hay: Seq<char>, needle: Seq<char>) -> bool {
    exists|i: int| occurs_at(hay, needle, i)
}

fn matches_at(hay: &Vec<char>, needle: &Vec<char>, i: usize) -> (r: bool)
    requires
        i + needle.len() <= hay.len(),
    ensures
        r == occurs_at(hay@, needle@, i as int),
{
    let mut j: usize = 0;
    while j < needle.len()
        invariant
            i + needle.len() <= hay.len(),
            j <= needle.len(),
            forall|k: int| 0 <= k < j ==> hay@[i + k] == needle@[k],
        decreases needle.len() - j,
    {
        if hay[i + j] != needle[j] {
            assert(hay@.subrange(i as int, i + needle@.len())[j as int] != needle@[j as int]);
            return false;
        }
        j += 1;
    }
    assert(hay@.subrange(i as int, i + needle@.len()) =~= needle@);
    true
}

/// Whether `needle` stands somewhere in `hay`.
pub fn contains(hay: &str, needle: &str) -> (r: bool)
    ensures
        r == has_text(hay@, needle@),
{
    let h: Vec<char> = chars_of(hay);
    let n: Vec<char> = chars_of(needle);
    if n.len() > h.len() {
        return false;
    }
    let mut i: usize = 0;
    while i <= h.len() - n.len()
        invariant
            h@ == hay@,
            n@ == needle@,
            n.len() <= h.len(),
            i <= h.len() - n.len() + 1,
            forall|j: int| 0 <= j < i ==> !occurs_at(hay@, needle@, j),
        decreases h.len() - n.len() + 1 - i,
    {
        if matches_at(&h, &n, i) {
            return true;
        }
        if i == h.len() - n.len() {
            return false;
        }
        i += 1;
    }
    false
}

/// Whether `hay` begins with `needle`.
pub fn starts_with(hay: &str, needle: &str) -> (r: bool)
    ensures
        r == needle@.is_prefix_of(hay@),
{
    let h: Vec<char> = chars_of(hay);
    let n: Vec<char> = chars_of(needle);
    if n.len() > h.len() {
        return false;
    }
    matches_at(&h, &n, 0)
}

/// Whether `hay` ends with `needle`.
pub fn ends_with(hay: &str, needle: &str) -> (r: bool)
    ensures
        r == needle@.is_suffix_of(hay@),
{
    let h: Vec<char> = chars_of(hay);
    let n: Vec<char> = chars_of(needle);
    if n.len() > h.len() {
        return false;
    }
    let at: usize = h.len() - n.len();
    matches_at(&h, &n, at)
}

/// What follows `prefix` in `hay`, where `hay` begins with it.
pub fn strip_prefix(hay: &str, prefix: &str) -> (r: Option<String>)
    ensures
        r is Some <==> prefix@.is_prefix_of(hay@),
        r matches Some(rest) ==> rest@ == hay@.skip(prefix@.len() as int),
{
    if !starts_with(hay, prefix) {
        return None;
    }
    let total: usize = hay.unicode_len();
    let from: usize = prefix.unicode_len();
    let rest = hay.substring_char(from, total);
    Some(rest.to_owned())
}

/// The ASCII upper-case letters mapped to lower case; every other character
/// unchanged.
pub open spec fn ascii_lower(c: char) -> char {
    if 'A' <= c && c <= 'Z' {
        (c as u32 + 32) as char
    } else {
        c
    }
}

/// `ascii_lower` on each character.
pub open spec fn ascii_lowercase(s: Seq<char>) -> Seq<char> {
    s.map_values(|c: char| ascii_lower(c))
}

fn lower_char(c: char) -> (r: char)
    ensures
        r == ascii_lower(c),
{
    if 'A' <= c && c <= 'Z' {
        (c as u8 + 32) as char
    } else {
        c
    }
}

/// `s` with its ASCII letters in lower case.
pub fn to_ascii_lowercase(s: &str) -> (r: String)
    ensures
        r@ == ascii_lowercase(s@),
{
    let v: Vec<char> = chars_of(s);
    let mut out: Vec<char> = Vec::new();
    let mut i: usize = 0;
    while i < v.len()
        invariant
            i <= v.len(),
            out@ == ascii_lowercase(v@.take(i as int)),
        decreases v.len() - i,
    {
        out.push(lower_char(v[i]));
        i += 1;
        assert(out@ =~= ascii_lowercase(v@.take(i as int)));
    }
    assert(v@.take(i as int) =~= s@);
    text_of(out)
}

/// Whether two texts are the same up to ASCII case.
pub fn eq_ignore_ascii_case(a: &str, b: &str) -> (r: bool)
    ensures
        r == (ascii_lowercase(a@) == ascii_lowercase(b@)),
{
    let x: String = to_ascii_lowercase(a);
    let y: String = to_ascii_lowercase(b);
    same(x.as_str(), y.as_str())
}

/// The characters with the Unicode `White_Space` property.
pub open spec fn is_space(c: char) -> bool {
    let u = c as u32;
    ||| 0x9 <= u <= 0xd
    ||| u == 0x20
    ||| u == 0x85
    ||| u == 0xa0
    ||| u == 0x1680
    ||| 0x2000 <= u <= 0x200a
    ||| u == 0x2028
    ||| u == 0x2029
    ||| u == 0x202f
    ||| u == 0x205f
    ||| u == 0x3000
}

fn space_char(c: char) -> (r: bool)
    ensures
        r == is_space(c),
{
    let u: u32 = c as u32;
    (0x9 <= u && u <= 0xd) || u == 0x20 || u == 0x85 || u == 0xa0 || u == 0x1680 || (0x2000 <= u
        && u <= 0x200a) || u == 0x2028 || u == 0x2029 || u == 0x202f || u == 0x205f || u == 0x3000
}

/// Nothing but white space.
pub open spec fn blank(s: Seq<char>) -> bool {
    forall|i: int| 0 <= i < s.len() ==> is_space(#[trigger] s[i])
}

/// `s` without its leading white space.
pub open spec fn trimmed_start(s: Seq<char>) -> Seq<char>
    decreases s.len(),
{
    if s.len() > 0 && is_space(s[0]) {
        trimmed_start(s.skip(1))
    } else {
        s
    }
}

/// `s` without its trailing white space.
pub open spec fn trimmed_end(s: Seq<char>) -> Seq<char>
    decreases s.len(),
{
    if s.len() > 0 && is_space(s.last()) {
        trimmed_end(s.drop_last())
    } else {
        s
    }
}

/// `s` without white space at either end.
pub open spec fn trimmed(s: Seq<char>) -> Seq<char> {
    trimmed_end(trimmed_start(s))
}

proof fn lemma_trimmed_start(s: Seq<char>, k: int)
    requires
        0 <= k <= s.len(),
        forall|i: int| 0 <= i < k ==> is_space(#[trigger] s[i]),
        k < s.len() ==> !is_space(s[k]),
    ensures
        trimmed_start(s) == s.skip(k),
    decreases k,
{
    if k == 0 {
        assert(s.skip(0) =~= s);
    } else {
        assert(is_space(s[0]));
        let t = s.skip(1);
        assert forall|i: int| 0 <= i < k - 1 implies is_space(#[trigger] t[i]) by {
            assert(t[i] == s[i + 1]);
        }
        lemma_trimmed_start(t, k - 1);
        assert(t.skip(k - 1) =~= s.skip(k));
    }
}

proof fn lemma_trimmed_end(s: Seq<char>, k: int)
    requires
        0 <= k <= s.len(),
        forall|i: int| k <= i < s.len() ==> is_space(#[trigger] s[i]),
        k > 0 ==> !is_space(s[k - 1]),
    ensures
        trimmed_end(s) == s.take(k),
    decreases s.len() - k,
{
    if k == s.len() {
        assert(s.take(k) =~= s);
    } else {
        assert(is_space(s[s.len() - 1]));
        let t = s.drop_last();
        assert forall|i: int| k <= i < t.len() implies is_space(#[trigger] t[i]) by {
            assert(t[i] == s[i]);
        }
        lemma_trimmed_end(t, k);
        assert(t.take(k) =~= s.take(k));
    }
}

/// Trimming leaves nothing exactly where there was nothing but white space.
pub proof fn trim_empties_only_blank_text(s: Seq<char>)
    ensures
        trimmed(s).len() == 0 <==> blank(s),
        trimmed_end(s).len() == 0 <==> blank(s),
{
    lemma_trim_start_blank(s);
    lemma_trim_end_blank(s);
    lemma_trim_end_blank(trimmed_start(s));
}

proof fn lemma_trim_start_blank(s: Seq<char>)
    ensures
        blank(trimmed_start(s)) <==> blank(s),
    decreases s.len(),
{
    if s.len() > 0 && is_space(s[0]) {
        lemma_trim_start_blank(s.skip(1));
        if blank(s.skip(1)) {
            assert forall|i: int| 0 <= i < s.len() implies is_space(#[trigger] s[i]) by {
                if i > 0 {
                    assert(s.skip(1)[i - 1] == s[i]);
                }
            }
        }
        if blank(s) {
            assert forall|i: int| 0 <= i < s.skip(1).len() implies is_space(
                #[trigger] s.skip(1)[i],
            ) by {
                assert(s.skip(1)[i] == s[i + 1]);
            }
        }
    }
}

proof fn lemma_trim_end_blank(s: Seq<char>)
    ensures
        trimmed_end(s).len() == 0 <==> blank(s),
    decreases s.len(),
{
    if s.len() > 0 && is_space(s.last()) {
        lemma_trim_end_blank(s.drop_last());
        if blank(s.drop_last()) {
            assert forall|i: int| 0 <= i < s.len() implies is_space(#[trigger] s[i]) by {
                if i < s.len() - 1 {
                    assert(s.drop_last()[i] == s[i]);
                }
            }
        }
        if blank(s) {
            assert forall|i: int| 0 <= i < s.drop_last().len() implies is_space(
                #[trigger] s.drop_last()[i],
            ) by {
                assert(s.drop_last()[i] == s[i]);
            }
        }
    } else if s.len() > 0 {
        assert(!is_space(s[s.len() - 1]));
    }
}

/// `s` without white space at either end.
pub fn trim(s: &str) -> (r: String)
    ensures
        r@ == trimmed(s@),
{
    let v: Vec<char> = chars_of(s);
    let mut from: usize = 0;
    while from < v.len() && space_char(v[from])
        invariant
            from <= v.len(),
            forall|i: int| 0 <= i < from ==> is_space(#[trigger] v@[i]),
        decreases v.len() - from,
    {
        from += 1;
    }
    proof {
        lemma_trimmed_start(v@, from as int);
    }
    let ghost rest = v@.skip(from as int);
    let mut to: usize = v.len();
    while to > from && space_char(v[to - 1])
        invariant
            from <= to <= v.len(),
            rest == v@.skip(from as int),
            forall|i: int| to - from <= i < rest.len() ==> is_space(#[trigger] rest[i]),
        decreases to,
    {
        to -= 1;
        assert(rest[to - from] == v@[to as int]);
    }
    proof {
        if to > from {
            assert(rest[to - from - 1] == v@[to - 1]);
        }
        lemma_trimmed_end(rest, to - from);
        assert(rest.take(to - from) =~= v@.subrange(from as int, to as int));
    }
    s.substring_char(from, to).to_owned()
}

/// Whether `s` holds nothing but white space.
pub fn is_blank(s: &str) -> (r: bool)
    ensures
        r == blank(s@),
{
    let v: Vec<char> = chars_of(s);
    let mut i: usize = 0;
    while i < v.len()
        invariant
            v@ == s@,
            i <= v.len(),
            forall|j: int| 0 <= j < i ==> is_space(#[trigger] v@[j]),
        decreases v.len() - i,
    {
        if !space_char(v[i]) {
            assert(!is_space(s@[i as int]));
            return false;
        }
        i += 1;
    }
    true
}

/// What stands behind the last line break of `s`.
pub open spec fn after_last_break(s: Seq<char>) -> Seq<char>
    decreases s.len(),
{
    if s.len() == 0 || s.last() == '\n' {
        Seq::empty()
    } else {
        after_last_break(s.drop_last()).push(s.last())
    }
}

/// The last line of `s` that is not blank, trimmed.
pub open spec fn last_line_spec(s: Seq<char>) -> Option<Seq<char>> {
    let t = trimmed_end(s);
    if t.len() == 0 {
        None
    } else {
        Some(trimmed_start(after_last_break(t)))
    }
}

proof fn lemma_after_last_break(s: Seq<char>, k: int)
    requires
        0 <= k <= s.len(),
        forall|i: int| k <= i < s.len() ==> s[i] != '\n',
        k > 0 ==> s[k - 1] == '\n',
    ensures
        after_last_break(s) == s.skip(k),
    decreases s.len() - k,
{
    if k == s.len() {
        assert(s.skip(k) =~= Seq::<char>::empty());
    } else {
        lemma_after_last_break(s.drop_last(), k);
        assert(s.drop_last().skip(k).push(s.last()) =~= s.skip(k));
    }
}

/// The last line of `s` that is not blank, trimmed.
pub fn last_line(s: &str) -> (r: Option<String>)
    ensures
        opt_view(r) == last_line_spec(s@),
{
    let v: Vec<char> = chars_of(s);
    let mut to: usize = v.len();
    while to > 0 && space_char(v[to - 1])
        invariant
            to <= v.len(),
            forall|i: int| to <= i < v.len() ==> is_space(#[trigger] v@[i]),
        decreases to,
    {
        to -= 1;
    }
    proof {
        lemma_trimmed_end(v@, to as int);
    }
    if to == 0 {
        return None;
    }
    let ghost t = v@.take(to as int);
    let mut from: usize = to;
    while from > 0 && v[from - 1] != '\n'
        invariant
            from <= to <= v.len(),
            forall|i: int| from <= i < to ==> v@[i] != '\n',
        decreases from,
    {
        from -= 1;
    }
    proof {
        lemma_after_last_break(t, from as int);
    }
    let ghost line = t.skip(from as int);
    let mut begin: usize = from;
    while begin < to && space_char(v[begin])
        invariant
            from <= begin <= to <= v.len(),
            line == v@.take(to as int).skip(from as int),
            forall|i: int| 0 <= i < begin - from ==> is_space(#[trigger] line[i]),
        decreases to - begin,
    {
        begin += 1;
    }
    proof {
        lemma_trimmed_start(line, begin - from);
        assert(line.skip(begin - from) =~= v@.subrange(begin as int, to as int));
    }
    Some(s.substring_char(begin, to).to_owned())
}

/// The decimal digit for `d`, for `d` below ten.
pub open spec fn digit(d: nat) -> char {
    (48 + d) as char
}

/// `n` in decimal, without leading zeros.
pub open spec fn decimal(n: nat) -> Seq<char>
    decreases n,
{
    if n < 10 {
        seq![digit(n)]
    } else {
        decimal(n / 10).push(digit(n % 10))
    }
}

fn decimal_chars(n: u64) -> (v: Vec<char>)
    ensures
        v@ == decimal(n as nat),
    decreases n,
{
    let d: u8 = (n % 10) as u8;
    let c: char = (48 + d) as char;
    if n < 10 {
        let mut v: Vec<char> = Vec::new();
        v.push(c);
        assert(v@ =~= seq![digit(n as nat)]);
        v
    } else {
        let mut v: Vec<char> = decimal_chars(n / 10);
        v.push(c);
        v
    }
}

/// `n` in decimal.
pub fn decimal_text(n: u64) -> (s: String)
    ensures
        s@ == decimal(n as nat),
{
    text_of(decimal_chars(n))
}

/// The number of bytes of `s` in UTF-8.
pub open spec fn byte_count(s: Seq<char>) -> nat {
    encode_utf8(s).len()
}

/// The number of bytes of `s`.
pub fn byte_len(s: &str) -> (n: usize)
    ensures
        n == byte_count(s@),
{
    s.as_bytes().len()
}

/// The texts of `parts`, with `sep` between two neighbours.
pub open spec fn joined(parts: Seq<Seq<char>>, sep: Seq<char>) -> Seq<char>
    decreases parts.len(),
{
    if parts.len() == 0 {
        Seq::empty()
    } else if parts.len() == 1 {
        parts[0]
    } else {
        joined(parts.drop_last(), sep) + sep + parts.last()
    }
}

/// The texts of a vector of strings.
pub open spec fn texts(v: Seq<String>) -> Seq<Seq<char>> {
    v.map_values(|s: String| s@)
}

/// The texts of `parts`, with `sep` between two neighbours.
pub fn join(parts: &Vec<String>, sep: &str) -> (r: String)
    ensures
        r@ == joined(texts(parts@), sep@),
{
    let mut out: String = String::new();
    let mut i: usize = 0;
    while i < parts.len()
        invariant
            i <= parts.len(),
            out@ == joined(texts(parts@.take(i as int)), sep@),
        decreases parts.len() - i,
    {
        let ghost before = texts(parts@.take(i as int));
        if i > 0 {
            out.append(sep);
        }
        out.append(parts[i].as_str());
        i += 1;
        proof {
            let after = texts(parts@.take(i as int));
            assert(after.drop_last() =~= before);
            assert(after.last() == parts@[i - 1]@);
            if i == 1 {
                assert(out@ =~= parts@[0]@);
            }
        }
    }
    assert(parts@.take(i as int) =~= parts@);
    out
}

/// Whether some text of `items` equals `wanted`.
pub fn any_same(items: &Vec<String>, wanted: &str) -> (r: bool)
    ensures
        r == texts(items@).contains(wanted@),
{
    let mut i: usize = 0;
    while i < items.len()
        invariant
            i <= items.len(),
            forall|j: int| 0 <= j < i ==> items@[j]@ != wanted@,
        decreases items.len() - i,
    {
        if same(items[i].as_str(), wanted) {
            assert(texts(items@)[i as int] == wanted@);
            return true;
        }
        i += 1;
    }
    false
}

/// The order of two texts, character by character.
pub open spec fn lex_le(a: Seq<char>, b: Seq<char>) -> bool
    decreases a.len(),
{
    if a.len() == 0 {
        true
    } else if b.len() == 0 {
        false
    } else if a[0] != b[0] {
        a[0] < b[0]
    } else {
        lex_le(a.skip(1), b.skip(1))
    }
}

/// Of two texts one comes first, and both do only where they are the same.
pub proof fn lex_le_is_total(a: Seq<char>, b: Seq<char>)
    ensures
        lex_le(a, b) || lex_le(b, a),
        lex_le(a, b) && lex_le(b, a) ==> a == b,
        lex_le(a, a),
    decreases a.len(),
{
    if a.len() > 0 {
        lex_le_is_total(a.skip(1), a.skip(1));
        if b.len() > 0 {
            lex_le_is_total(a.skip(1), b.skip(1));
            if a[0] == b[0] && a.skip(1) == b.skip(1) {
                assert(a =~= seq![a[0]] + a.skip(1));
                assert(b =~= seq![b[0]] + b.skip(1));
            }
        }
    } else if b.len() == 0 {
        assert(a =~= b);
    }
}

/// The order of texts carries over.
pub proof fn lex_le_is_transitive(a: Seq<char>, b: Seq<char>, c: Seq<char>)
    requires
        lex_le(a, b),
        lex_le(b, c),
    ensures
        lex_le(a, c),
    decreases a.len(),
{
    if a.len() > 0 && b.len() > 0 && c.len() > 0 && a[0] == b[0] && b[0] == c[0] {
        lex_le_is_transitive(a.skip(1), b.skip(1), c.skip(1));
    }
}

/// Whether `a` comes before `b` or is the same.
pub fn text_le(a: &str, b: &str) -> (r: bool)
    ensures
        r == lex_le(a@, b@),
{
    let x: Vec<char> = chars_of(a);
    let y: Vec<char> = chars_of(b);
    let mut i: usize = 0;
    assert(a@.skip(0) =~= a@);
    assert(b@.skip(0) =~= b@);
    while i < x.len() && i < y.len()
        invariant
            x@ == a@,
            y@ == b@,
            i <= x.len(),
            i <= y.len(),
            lex_le(a@, b@) == lex_le(a@.skip(i as int), b@.skip(i as int)),
        decreases x.len() - i,
    {
        if x[i] != y[i] {
            return x[i] < y[i];
        }
        assert(a@.skip(i as int).skip(1) =~= a@.skip(i + 1));
        assert(b@.skip(i as int).skip(1) =~= b@.skip(i + 1));
        i += 1;
    }
    i == x.len()
}

/// A copy of a list of texts.
pub fn copy_all(v: &Vec<String>) -> (r: Vec<String>)
    ensures
        r@ == v@,
{
    let mut out: Vec<String> = Vec::new();
    let mut i: usize = 0;
    while i < v.len()
        invariant
            i <= v.len(),
            out@ == v@.take(i as int),
        decreases v.len() - i,
    {
        out.push(v[i].clone());
        i += 1;
        assert(out@ =~= v@.take(i as int));
    }
    assert(v@.take(i as int) =~= v@);
    out
}

/// Lower case moves the letters from `A` to `Z` by the distance of `a` from `A`, and
/// no other character.
pub proof fn only_capitals_change_their_case(s: Seq<char>, i: int)
    requires
        0 <= i < s.len(),
    ensures
        ascii_lowercase(s).len() == s.len(),
        'A' <= s[i] <= 'Z' ==> ascii_lowercase(s)[i] as u32 == s[i] as u32 + 32,
        !('A' <= s[i] <= 'Z') ==> ascii_lowercase(s)[i] == s[i],
{
}

/// A text between white space is what is left when the text is trimmed.
pub proof fn trimming_leaves_what_stands_between(
    before: Seq<char>,
    core: Seq<char>,
    after: Seq<char>,
)
    requires
        blank(before),
        blank(after),
        core.len() > 0,
        !is_space(core[0]),
        !is_space(core.last()),
    ensures
        trimmed(before + core + after) == core,
    decreases before.len() + after.len(),
{
    let s = before + core + after;
    if before.len() > 0 {
        assert(s[0] == before[0]);
        assert(s.skip(1) =~= before.skip(1) + core + after);
        assert forall|i: int| 0 <= i < before.skip(1).len() implies is_space(
            #[trigger] before.skip(1)[i],
        ) by {
            assert(before.skip(1)[i] == before[i + 1]);
        }
        trimming_leaves_what_stands_between(before.skip(1), core, after);
    } else {
        assert(s[0] == core[0]);
        assert(trimmed_start(s) == s);
        if after.len() > 0 {
            assert(s.last() == after.last());
            assert(is_space(after[after.len() - 1]));
            let less = before + core + after.drop_last();
            assert(s.drop_last() =~= less);
            assert forall|i: int| 0 <= i < after.drop_last().len() implies is_space(
                #[trigger] after.drop_last()[i],
            ) by {
                assert(after.drop_last()[i] == after[i]);
            }
            trimming_leaves_what_stands_between(before, core, after.drop_last());
            assert(less[0] == core[0]);
            assert(trimmed_start(less) == less);
        } else {
            assert(s =~= core);
        }
    }
}

/// The number that decimal digits stand for.
pub open spec fn number_of(digits: Seq<char>) -> int
    decreases digits.len(),
{
    if digits.len() == 0 {
        0
    } else {
        number_of(digits.drop_last()) * 10 + (digits.last() as int - '0' as int)
    }
}

/// A number can be read back from its decimal digits, of which the first is no zero
/// unless it is the only one.
pub proof fn decimal_can_be_read_back(n: nat)
    ensures
        number_of(decimal(n)) == n,
        decimal(n).len() > 0,
        n > 0 ==> decimal(n)[0] != '0',
        forall|i: int| 0 <= i < decimal(n).len() ==> '0' <= #[trigger] decimal(n)[i] <= '9',
    decreases n,
{
    if n >= 10 {
        let front = decimal(n / 10);
        decimal_can_be_read_back(n / 10);
        assert(decimal(n).drop_last() =~= front);
        assert(decimal(n)[0] == front[0]);
        assert forall|i: int| 0 <= i < decimal(n).len() implies '0' <= #[trigger] decimal(n)[i]
            <= '9' by {
            if i < front.len() {
                assert(decimal(n)[i] == front[i]);
            }
        }
    } else {
        assert(decimal(n).drop_last() =~= Seq::<char>::empty());
        assert(number_of(decimal(n).drop_last()) == 0);
    }
}

/// Parts are joined in their order, with the separator between neighbours only.
pub proof fn joining_separates_neighbours(parts: Seq<Seq<char>>, part: Seq<char>, sep: Seq<char>)
    ensures
        joined(Seq::empty(), sep).len() == 0,
        joined(seq![part], sep) == part,
        parts.len() > 0 ==> joined(parts.push(part), sep) == joined(parts, sep) + sep + part,
{
    assert(parts.push(part).drop_last() =~= parts);
}

/// The last line of a text that ends in one, with white space round it, is that line.
pub proof fn the_last_line_is_what_was_said_last(earlier: Seq<char>, line: Seq<char>)
    requires
        line.len() > 0,
        !is_space(line[0]),
        !is_space(line.last()),
        forall|i: int| 0 <= i < line.len() ==> #[trigger] line[i] != '\n',
    ensures
        last_line_spec(earlier + seq!['\n'] + line) == Some(line),
{
    let s = earlier + seq!['\n'] + line;
    assert(s.last() == line.last());
    assert(trimmed_end(s) == s);
    let k = earlier.len() + 1;
    assert(s[k - 1] == '\n');
    assert forall|i: int| k <= i < s.len() implies s[i] != '\n' by {
        assert(s[i] == line[i - k]);
    }
    lemma_after_last_break(s, k as int);
    assert(s.skip(k as int) =~= line);
}

/// The first place where two texts differ decides their order, and a text comes
/// before every longer one that begins with it.
pub proof fn the_first_difference_decides(a: Seq<char>, b: Seq<char>, k: int)
    requires
        0 <= k <= a.len(),
        k <= b.len(),
        forall|i: int| 0 <= i < k ==> #[trigger] a[i] == b[i],
    ensures
        k < a.len() && k < b.len() && a[k] < b[k] ==> lex_le(a, b) && !lex_le(b, a),
        k == a.len() ==> lex_le(a, b),
        k == a.len() && k < b.len() ==> !lex_le(b, a),
    decreases k,
{
    if k > 0 {
        assert(a[0] == b[0]);
        let x = a.skip(1);
        let y = b.skip(1);
        assert forall|i: int| 0 <= i < k - 1 implies #[trigger] x[i] == y[i] by {
            assert(x[i] == a[i + 1]);
            assert(y[i] == b[i + 1]);
            assert(a[i + 1] == b[i + 1]);
        }
        if k < a.len() {
            assert(x[k - 1] == a[k]);
        }
        if k < b.len() {
            assert(y[k - 1] == b[k]);
        }
        the_first_difference_decides(x, y, k - 1);
    }
}

/// Blanks, tabs and line ends are white space; printed ASCII characters are not.
pub proof fn printed_characters_are_no_space(c: char)
    ensures
        c == ' ' || c == '\t' || c == '\n' || c == '\r' ==> is_space(c),
        '!' <= c <= '~' ==> !is_space(c),
{
}

/// A text is found wherever it stands in another one, and only where it does.
pub proof fn a_text_is_found_where_it_stands(
    before: Seq<char>,
    needle: Seq<char>,
    after: Seq<char>,
    hay: Seq<char>,
) -> (at: int)
    ensures
        has_text(before + needle + after, needle),
        has_text(hay, needle) ==> 0 <= at <= hay.len() - needle.len() && hay.subrange(
            at,
            at + needle.len(),
        ) == needle,
{
    let whole = before + needle + after;
    let k = before.len() as int;
    assert(whole.subrange(k, k + needle.len()) =~= needle);
    assert(occurs_at(whole, needle, k));
    choose|i: int| occurs_at(hay, needle, i)
}

} // verus!
