//! Text as a sequence of characters: the string operations the other modules are written in.

use vstd::prelude::*;

verus! {

/// `String::push` appends the given character to the end of the string.
pub assume_specification[ String::push ](s: &mut String, c: char)
    ensures
        final(s)@ == old(s)@.push(c),
;

/// `char::is_whitespace` answers whether the character has the Unicode property
/// `White_Space`; [`is_space`] lists the characters that have it.
pub assume_specification[ char::is_whitespace ](c: char) -> (b: bool)
    ensures
        b == is_space(c),
;

/// The characters with the Unicode property `White_Space`.
pub open spec fn is_space(c: char) -> bool {
    let u = c as u32;
    ||| 0x9 <= u <= 0xd
    ||| u == 0x20
    ||| u == 0x85
    ||| u == 0xa0
    ||| u == 0x1680
    ||| 0x2000 <= u <= 0x200a
    ||| u == 0x2028
    ||| u == 0x2029
    ||| u == 0x202f
    ||| u == 0x205f
    ||| u == 0x3000
}

/// An ASCII digit.
pub open spec fn is_digit(c: char) -> bool {
    '0' <= c <= '9'
}

/// An ASCII letter.
pub open spec fn is_letter(c: char) -> bool {
    'a' <= c <= 'z' || 'A' <= c <= 'Z'
}

/// `c` with an ASCII capital made small.
pub open spec fn lower(c: char) -> char {
    if 'A' <= c <= 'Z' {
        ((c as u32) + 32) as char
    } else {
        c
    }
}

/// `s` with every ASCII capital made small.
pub open spec fn lowered(s: Seq<char>) -> Seq<char> {
    s.map_values(|c: char| lower(c))
}

/// Equal but for the case of ASCII letters.
pub open spec fn same_ignoring_case(a: Seq<char>, b: Seq<char>) -> bool {
    lowered(a) == lowered(b)
}

/// The texts that a list of strings holds.
pub open spec fn texts(v: Seq<String>) -> Seq<Seq<char>> {
    v.map_values(|s: String| s@)
}

/// The text that an optional string holds.
pub open spec fn text_opt(o: Option<String>) -> Option<Seq<char>> {
    match o {
        Some(s) => Some(s@),
        None => None,
    }
}

/// The text that an optional string slice holds.
pub open spec fn str_opt(o: Option<&str>) -> Option<Seq<char>> {
    match o {
        Some(s) => Some(s@),
        None => None,
    }
}

/// The characters of `s`, in order.
pub fn to_chars(s: &str) -> (v: Vec<char>)
    ensures
        v@ == s@,
{
    let mut v: Vec<char> = Vec::new();
    for c in it: s.chars()
        invariant
            v@ == it.seq().take(it.index()),
            it.seq() == s@,
    {
        v.push(c);
    }
    v
}

/// The string made of the characters of `v`.
pub fn from_chars(v: &[char]) -> (s: String)
    ensures
        s@ == v@,
{
    let mut s = String::new();
    let mut i: usize = 0;
    while i < v.len()
        invariant
            0 <= i <= v@.len(),
            s@ == v@.take(i as int),
        decreases v@.len() - i,
    {
        s.push(v[i]);
        i += 1;
    }
    s
}

/// Whether two character lists are the same.
pub fn same_chars(a: &[char], b: &[char]) -> (r: bool)
    ensures
        r == (a@ == b@),
{
    if a.len() != b.len() {
        return false;
    }
    let mut i: usize = 0;
    while i < a.len()
        invariant
            0 <= i <= a@.len(),
            a@.len() == b@.len(),
            forall|j: int| 0 <= j < i ==> a@[j] == b@[j],
        decreases a@.len() - i,
    {
        if a[i] != b[i] {
            return false;
        }
        i += 1;
    }
    assert(a@ =~= b@);
    true
}

/// Whether two strings are the same text.
pub fn same_text(a: &str, b: &str) -> (r: bool)
    ensures
        r == (a@ == b@),
{
    let x = to_chars(a);
    let y = to_chars(b);
    same_chars(x.as_slice(), y.as_slice())
}

/// Whether two optional strings are the same.
pub fn same_option(a: &Option<String>, b: &Option<String>) -> (r: bool)
    ensures
        r == (text_opt(*a) == text_opt(*b)),
{
    match (a, b) {
        (Some(x), Some(y)) => same_text(x.as_str(), y.as_str()),
        (None, None) => true,
        _ => false,
    }
}

/// Whether `v` holds the text `s`.
pub fn holds_text(v: &Vec<String>, s: &str) -> (r: bool)
    ensures
        r == texts(v@).contains(s@),
{
    let mut i: usize = 0;
    while i < v.len()
        invariant
            0 <= i <= v@.len(),
            forall|j: int| 0 <= j < i ==> v@[j]@ != s@,
        decreases v@.len() - i,
    {
        if same_text(v[i].as_str(), s) {
            assert(texts(v@)[i as int] == s@);
            return true;
        }
        i += 1;
    }
    assert(!texts(v@).contains(s@));
    false
}

/// A copy of an optional string.
pub fn copy_option(o: &Option<String>) -> (r: Option<String>)
    ensures
        text_opt(r) == text_opt(*o),
{
    match o {
        Some(s) => Some(s.clone()),
        None => None,
    }
}

// ---------------------------------------------------------------- case

/// [`lower`], as code.
pub fn to_lower(c: char) -> (r: char)
    ensures
        r == lower(c),
{
    if 'A' <= c && c <= 'Z' {
        (c as u8 + 32) as char
    } else {
        c
    }
}

/// Whether two strings are equal but for the case of ASCII letters.
pub fn eq_ignore_ascii_case(a: &str, b: &str) -> (r: bool)
    ensures
        r == same_ignoring_case(a@, b@),
{
    let x = to_chars(a);
    let y = to_chars(b);
    if x.len() != y.len() {
        assert(lowered(a@).len() != lowered(b@).len());
        return false;
    }
    let mut i: usize = 0;
    while i < x.len()
        invariant
            0 <= i <= x@.len(),
            x@.len() == y@.len(),
            x@ == a@,
            y@ == b@,
            forall|j: int| 0 <= j < i ==> lower(x@[j]) == lower(y@[j]),
        decreases x@.len() - i,
    {
        if to_lower(x[i]) != to_lower(y[i]) {
            assert(lowered(a@)[i as int] != lowered(b@)[i as int]);
            return false;
        }
        i += 1;
    }
    assert(lowered(a@) =~= lowered(b@));
    true
}

/// `s` with every ASCII capital made small.
pub fn to_ascii_lowercase(s: &str) -> (r: String)
    ensures
        r@ == lowered(s@),
{
    let v = to_chars(s);
    let mut r = String::new();
    let mut i: usize = 0;
    while i < v.len()
        invariant
            0 <= i <= v@.len(),
            v@ == s@,
            r@ == lowered(s@.take(i as int)),
        decreases v@.len() - i,
    {
        r.push(to_lower(v[i]));
        assert(lowered(s@.take(i + 1)) =~= lowered(s@.take(i as int)).push(lower(s@[i as int])));
        i += 1;
    }
    assert(s@.take(s@.len() as int) =~= s@);
    r
}

// ---------------------------------------------------------------- trimming

/// `s` without the white space it starts with.
pub open spec fn trimmed_start(s: Seq<char>) -> Seq<char>
    decreases s.len(),
{
    if s.len() > 0 && is_space(s[0]) {
        trimmed_start(s.drop_first())
    } else {
        s
    }
}

/// `s` without the white space it ends in.
pub open spec fn trimmed_end(s: Seq<char>) -> Seq<char>
    decreases s.len(),
{
    if s.len() > 0 && is_space(s.last()) {
        trimmed_end(s.drop_last())
    } else {
        s
    }
}

/// `s` without the white space it starts with and ends in.
pub open spec fn trimmed(s: Seq<char>) -> Seq<char> {
    trimmed_end(trimmed_start(s))
}

/// `s` without leading and trailing white space.
pub fn trim(s: &str) -> (r: String)
    ensures
        r@ == trimmed(s@),
{
    let v = to_chars(s);
    let mut a: usize = 0;
    assert(v@.skip(0) =~= v@);
    while a < v.len() && v[a].is_whitespace()
        invariant
            0 <= a <= v@.len(),
            trimmed_start(v@) == trimmed_start(v@.skip(a as int)),
        decreases v@.len() - a,
    {
        assert(v@.skip(a as int).drop_first() =~= v@.skip(a + 1));
        a += 1;
    }
    let mut b: usize = v.len();
    let ghost t = v@.skip(a as int);
    assert(trimmed_start(v@) == t);
    assert(v@.subrange(a as int, b as int) =~= t);
    while a < b && v[b - 1].is_whitespace()
        invariant
            0 <= a <= b <= v@.len(),
            trimmed_end(t) == trimmed_end(v@.subrange(a as int, b as int)),
        decreases b - a,
    {
        assert(v@.subrange(a as int, b as int).drop_last() =~= v@.subrange(a as int, b - 1));
        b -= 1;
    }
    from_chars(&v[a..b])
}

/// A text without white space at its ends stays as it is.
pub proof fn lemma_trimmed_same(s: Seq<char>)
    requires
        s.len() > 0 ==> !is_space(s[0]) && !is_space(s.last()),
    ensures
        trimmed(s) == s,
{
}

/// What is trimmed has nothing left to trim.
pub proof fn lemma_trimmed_twice(s: Seq<char>)
    ensures
        trimmed(trimmed(s)) == trimmed(s),
{
    let t = trimmed_start(s);
    lemma_trimmed_start_first(s);
    lemma_trimmed_end_last(t);
    lemma_trimmed_end_part(t);
    let r = trimmed(s);
    let b = choose|b: int| 0 <= b <= t.len() && trimmed_end(t) == #[trigger] t.take(b);
    if r.len() > 0 {
        assert(r[0] == t[0]);
    }
    lemma_trimmed_same(r);
}

/// Trimming the start leaves no white space there.
proof fn lemma_trimmed_start_first(s: Seq<char>)
    ensures
        trimmed_start(s).len() > 0 ==> !is_space(trimmed_start(s)[0]),
    decreases s.len(),
{
    if s.len() > 0 && is_space(s[0]) {
        lemma_trimmed_start_first(s.drop_first());
    }
}

/// Trimming the end leaves no white space there.
proof fn lemma_trimmed_end_last(s: Seq<char>)
    ensures
        trimmed_end(s).len() > 0 ==> !is_space(trimmed_end(s).last()),
    decreases s.len(),
{
    if s.len() > 0 && is_space(s.last()) {
        lemma_trimmed_end_last(s.drop_last());
    }
}

/// Trimming leaves a stretch of the text.
pub proof fn lemma_trimmed_part(s: Seq<char>)
    ensures
        exists|a: int, b: int|
            0 <= a <= b <= s.len() && trimmed(s) == #[trigger] s.subrange(a, b),
{
    let t = trimmed_start(s);
    lemma_trimmed_start_part(s);
    lemma_trimmed_end_part(t);
    let a = choose|a: int| 0 <= a <= s.len() && t == #[trigger] s.skip(a);
    let b = choose|b: int| 0 <= b <= t.len() && trimmed_end(t) == #[trigger] t.take(b);
    assert(s.subrange(a, a + b) =~= t.take(b));
}

/// Trimming the start leaves an ending.
proof fn lemma_trimmed_start_part(s: Seq<char>)
    ensures
        exists|a: int| 0 <= a <= s.len() && trimmed_start(s) == #[trigger] s.skip(a),
    decreases s.len(),
{
    if s.len() > 0 && is_space(s[0]) {
        let t = s.drop_first();
        lemma_trimmed_start_part(t);
        let a = choose|a: int| 0 <= a <= t.len() && trimmed_start(t) == #[trigger] t.skip(a);
        assert(t.skip(a) =~= s.skip(a + 1));
    } else {
        assert(s.skip(0) =~= s);
    }
}

/// Trimming the end leaves a beginning.
proof fn lemma_trimmed_end_part(s: Seq<char>)
    ensures
        exists|b: int| 0 <= b <= s.len() && trimmed_end(s) == #[trigger] s.take(b),
    decreases s.len(),
{
    if s.len() > 0 && is_space(s.last()) {
        let t = s.drop_last();
        lemma_trimmed_end_part(t);
        let b = choose|b: int| 0 <= b <= t.len() && trimmed_end(t) == #[trigger] t.take(b);
        assert(t.take(b) =~= s.take(b));
    } else {
        assert(s.take(s.len() as int) =~= s);
    }
}

/// `s` without the characters `c` that it ends in.
pub open spec fn trimmed_end_of(s: Seq<char>, c: char) -> Seq<char>
    decreases s.len(),
{
    if s.len() > 0 && s.last() == c {
        trimmed_end_of(s.drop_last(), c)
    } else {
        s
    }
}

/// `s` without the characters `c` that it ends in.
pub fn trim_end_matches(s: &str, c: char) -> (r: String)
    ensures
        r@ == trimmed_end_of(s@, c),
{
    let v = to_chars(s);
    let mut b: usize = v.len();
    assert(v@.take(b as int) =~= v@);
    while 0 < b && v[b - 1] == c
        invariant
            0 <= b <= v@.len(),
            trimmed_end_of(v@, c) == trimmed_end_of(v@.take(b as int), c),
        decreases b,
    {
        assert(v@.take(b as int).drop_last() =~= v@.take(b - 1));
        b -= 1;
    }
    assert(v@.subrange(0, b as int) =~= v@.take(b as int));
    from_chars(&v[0..b])
}

/// `s` without its white space.
pub open spec fn without_space(s: Seq<char>) -> Seq<char> {
    s.filter(|c: char| !is_space(c))
}

/// `s` without its white space.
pub fn remove_space(s: &str) -> (r: String)
    ensures
        r@ == without_space(s@),
{
    let v = to_chars(s);
    let mut r = String::new();
    let mut i: usize = 0;
    let ghost keep = |c: char| !is_space(c);
    while i < v.len()
        invariant
            0 <= i <= v@.len(),
            keep == (|c: char| !is_space(c)),
            r@ == v@.take(i as int).filter(keep),
        decreases v@.len() - i,
    {
        assert(v@.take(i + 1).drop_last() =~= v@.take(i as int));
        reveal(Seq::filter);
        if !v[i].is_whitespace() {
            r.push(v[i]);
        }
        i += 1;
    }
    assert(v@.take(v@.len() as int) =~= v@);
    r
}

// ---------------------------------------------------------------- searching

/// `needle` stands in `s` at position `i`.
pub open spec fn occurs_at(s: Seq<char>, needle: Seq<char>, i: int) -> bool {
    &&& 0 <= i
    &&& i + needle.len() <= s.len()
    &&& s.subrange(i, i + needle.len()) == needle
}

/// `i` is the first position at which `needle` stands in `s`.
pub open spec fn first_occurs_at(s: Seq<char>, needle: Seq<char>, i: int) -> bool {
    &&& occurs_at(s, needle, i)
    &&& forall|j: int| 0 <= j < i ==> !occurs_at(s, needle, j)
}

/// The first position at which `needle` stands in `s`.
pub open spec fn found_at(s: Seq<char>, needle: Seq<char>) -> Option<int> {
    if exists|i: int| first_occurs_at(s, needle, i) {
        Some(choose|i: int| first_occurs_at(s, needle, i))
    } else {
        None
    }
}

/// `needle` stands somewhere in `s`.
pub open spec fn has_within(s: Seq<char>, needle: Seq<char>) -> bool {
    exists|i: int| occurs_at(s, needle, i)
}

/// `s` starts with `prefix`.
pub open spec fn has_prefix(s: Seq<char>, prefix: Seq<char>) -> bool {
    occurs_at(s, prefix, 0)
}

/// The first position is the only first position.
pub proof fn lemma_found_at(s: Seq<char>, needle: Seq<char>, i: int)
    requires
        first_occurs_at(s, needle, i),
    ensures
        found_at(s, needle) == Some(i),
        has_within(s, needle),
{
    let k = choose|k: int| first_occurs_at(s, needle, k);
    assert(first_occurs_at(s, needle, k));
    if k < i {
        assert(occurs_at(s, needle, k));
    } else if i < k {
        assert(occurs_at(s, needle, i));
    }
}

/// A text that stands somewhere has a first position.
pub proof fn lemma_first_exists(s: Seq<char>, needle: Seq<char>, i: int)
    requires
        occurs_at(s, needle, i),
    ensures
        found_at(s, needle) is Some,
    decreases i,
{
    if exists|j: int| 0 <= j < i && occurs_at(s, needle, j) {
        let j = choose|j: int| 0 <= j < i && occurs_at(s, needle, j);
        lemma_first_exists(s, needle, j);
    } else {
        assert(first_occurs_at(s, needle, i));
    }
}

/// Whether `needle` stands in `s` at position `i`.
fn matches_at(s: &[char], needle: &[char], i: usize) -> (r: bool)
    requires
        i <= s@.len(),
    ensures
        r == occurs_at(s@, needle@, i as int),
{
    if needle.len() > s.len() - i {
        return false;
    }
    let mut k: usize = 0;
    while k < needle.len()
        invariant
            0 <= k <= needle@.len(),
            i + needle@.len() <= s.len(),
            s.len() == s@.len(),
            forall|j: int| 0 <= j < k ==> s@[i + j] == needle@[j],
        decreases needle@.len() - k,
    {
        if s[i + k] != needle[k] {
            assert(s@.subrange(i as int, i + needle@.len())[k as int] != needle@[k as int]);
            return false;
        }
        k += 1;
    }
    assert(s@.subrange(i as int, i + needle@.len()) =~= needle@);
    true
}

/// The first position at which `needle` stands in `s`.
pub fn find_chars(s: &[char], needle: &[char]) -> (r: Option<usize>)
    ensures
        match r {
            Some(i) => found_at(s@, needle@) == Some(i as int) && first_occurs_at(
                s@,
                needle@,
                i as int,
            ),
            None => found_at(s@, needle@) is None && !has_within(s@, needle@),
        },
{
    let mut i: usize = 0;
    loop
        invariant
            0 <= i <= s@.len(),
            forall|j: int| 0 <= j < i ==> !occurs_at(s@, needle@, j),
        decreases s@.len() - i,
    {
        if matches_at(s, needle, i) {
            proof {
                lemma_found_at(s@, needle@, i as int);
            }
            return Some(i);
        }
        if i == s.len() {
            assert forall|j: int| !occurs_at(s@, needle@, j) by {}
            return None;
        }
        i += 1;
    }
}

/// Whether `needle` stands somewhere in `s`.
pub fn contains(s: &str, needle: &str) -> (r: bool)
    ensures
        r == has_within(s@, needle@),
{
    let v = to_chars(s);
    let n = to_chars(needle);
    find_chars(v.as_slice(), n.as_slice()).is_some()
}

/// Whether `s` starts with `prefix`.
pub fn starts_with(s: &str, prefix: &str) -> (r: bool)
    ensures
        r == has_prefix(s@, prefix@),
{
    let v = to_chars(s);
    let n = to_chars(prefix);
    matches_at(v.as_slice(), n.as_slice(), 0)
}

/// `s` with each occurrence of `from` made `to`, from left to right.
pub open spec fn replaced(s: Seq<char>, from: Seq<char>, to: Seq<char>) -> Seq<char>
    decreases s.len(),
{
    match found_at(s, from) {
        Some(i) => if from.len() > 0 && first_occurs_at(s, from, i) {
            s.take(i) + to + replaced(s.skip(i + from.len()), from, to)
        } else {
            s
        },
        None => s,
    }
}

/// `s` with each occurrence of the non-empty `from` made `to`, from left to right.
pub fn replace(s: &str, from: &str, to: &str) -> (r: String)
    requires
        from@.len() > 0,
    ensures
        r@ == replaced(s@, from@, to@),
{
    let v = to_chars(s);
    let n = to_chars(from);
    let mut r = String::new();
    let mut p: usize = 0;
    assert(v@.skip(0) =~= v@);
    loop
        invariant
            0 <= p <= v@.len(),
            v@ == s@,
            n@ == from@,
            from@.len() > 0,
            replaced(s@, from@, to@) == r@ + replaced(s@.skip(p as int), from@, to@),
        decreases v@.len() - p,
    {
        let rest = &v[p..v.len()];
        assert(rest@ =~= s@.skip(p as int));
        match find_chars(rest, n.as_slice()) {
            Some(i) => {
                r.append(from_chars(&rest[0..i]).as_str());
                r.append(to);
                proof {
                    let t = s@.skip(p as int);
                    assert(t.subrange(0, i as int) =~= t.take(i as int));
                    assert(t.skip(i + n@.len()) =~= s@.skip(p + i + n@.len()));
                }
                p = p + i + n.len();
            },
            None => {
                r.append(from_chars(rest).as_str());
                return r;
            },
        }
    }
}

// ---------------------------------------------------------------- lines and lists

/// `s` without one carriage return that it ends in.
pub open spec fn without_cr(s: Seq<char>) -> Seq<char> {
    if s.len() > 0 && s.last() == '\r' {
        s.drop_last()
    } else {
        s
    }
}

/// The lines of `s`: each is ended by a line feed, which may have a carriage return before it;
/// after the last one the ending may be missing.
pub open spec fn line_list(s: Seq<char>) -> Seq<Seq<char>>
    decreases s.len(),
{
    if s.len() == 0 {
        Seq::empty()
    } else if s.contains('\n') {
        let i = s.index_of_first('\n')->0;
        if 0 <= i < s.len() {
            seq![without_cr(s.take(i))] + line_list(s.skip(i + 1))
        } else {
            Seq::empty()
        }
    } else {
        seq![s]
    }
}

/// The lines of `s`.
pub fn lines(s: &str) -> (r: Vec<String>)
    ensures
        texts(r@) == line_list(s@),
{
    let v = to_chars(s);
    let mut r: Vec<String> = Vec::new();
    let mut p: usize = 0;
    assert(v@.skip(0) =~= v@);
    assert(texts(r@) =~= Seq::empty());
    while p < v.len()
        invariant
            0 <= p <= v@.len(),
            v@ == s@,
            line_list(s@) == texts(r@) + line_list(s@.skip(p as int)),
        decreases v@.len() - p,
    {
        let ghost t = s@.skip(p as int);
        let ghost before = r@;
        let mut e: usize = p;
        while e < v.len() && v[e] != '\n'
            invariant
                p <= e <= v@.len(),
                v@ == s@,
                forall|j: int| p <= j < e ==> v@[j] != '\n',
            decreases v@.len() - e,
        {
            e += 1;
        }
        if e == v.len() {
            assert(!t.contains('\n'));
            let line = from_chars(&v[p..e]);
            assert(line@ =~= t);
            r.push(line);
            assert(texts(r@) =~= texts(before).push(t));
            assert(line_list(s@) =~= texts(r@));
            return r;
        }
        proof {
            let i = e - p;
            assert(t[i] == '\n');
            assert(t.contains('\n'));
            t.index_of_first_ensures('\n');
            let k = t.index_of_first('\n')->0;
            assert(t[k] == '\n');
            if k < i {
                assert(v@[p + k] != '\n');
            }
            assert(k == i);
            assert(t.skip(i + 1) =~= s@.skip(e + 1));
            assert(t.take(i) =~= s@.subrange(p as int, e as int));
        }
        let mut q: usize = e;
        if q > p && v[q - 1] == '\r' {
            q = q - 1;
        }
        let line = from_chars(&v[p..q]);
        assert(line@ =~= without_cr(t.take(e - p)));
        r.push(line);
        assert(texts(r@) =~= texts(before).push(without_cr(t.take(e - p))));
        assert(line_list(s@) =~= texts(r@) + line_list(s@.skip(e + 1)));
        p = e + 1;
    }
    assert(line_list(s@.skip(p as int)) =~= Seq::empty());
    assert(line_list(s@) =~= texts(r@));
    r
}

/// The parts one after another, with `sep` between two of them.
pub open spec fn joined(parts: Seq<Seq<char>>, sep: Seq<char>) -> Seq<char>
    decreases parts.len(),
{
    if parts.len() == 0 {
        Seq::empty()
    } else if parts.len() == 1 {
        parts[0]
    } else {
        joined(parts.drop_last(), sep) + sep + parts.last()
    }
}

/// A joined text ends as its last part ends.
pub proof fn lemma_joined_last(parts: Seq<Seq<char>>, sep: Seq<char>)
    requires
        parts.len() > 0,
        parts.last().len() > 0,
    ensures
        joined(parts, sep).len() > 0,
        joined(parts, sep).last() == parts.last().last(),
{
}

/// The strings one after another, with `sep` between two of them.
pub fn join(parts: &Vec<String>, sep: &str) -> (r: String)
    ensures
        r@ == joined(texts(parts@), sep@),
{
    let mut r = String::new();
    let mut i: usize = 0;
    let ghost all = texts(parts@);
    while i < parts.len()
        invariant
            0 <= i <= parts@.len(),
            all == texts(parts@),
            r@ == joined(all.take(i as int), sep@),
        decreases parts@.len() - i,
    {
        assert(all.take(i + 1).drop_last() =~= all.take(i as int));
        if i > 0 {
            r.append(sep);
        } else {
            assert(all.take(0) =~= Seq::empty());
        }
        r.append(parts[i].as_str());
        assert(r@ =~= joined(all.take(i + 1), sep@));
        i += 1;
    }
    assert(all.take(all.len() as int) =~= all);
    r
}

/// What a filter leaves stood in the list before.
pub proof fn lemma_filter_from<A>(s: Seq<A>, keep: spec_fn(A) -> bool, i: int)
    requires
        0 <= i < s.filter(keep).len(),
    ensures
        s.contains(s.filter(keep)[i]),
        keep(s.filter(keep)[i]),
    decreases s.len(),
{
    reveal(Seq::filter);
    let t = s.drop_last();
    if i < t.filter(keep).len() {
        lemma_filter_from(t, keep, i);
        let j = choose|j: int| 0 <= j < t.len() && t[j] == t.filter(keep)[i];
        assert(s[j] == t[j]);
    } else {
        assert(s[s.len() - 1] == s.last());
    }
}

// ---------------------------------------------------------------- numbers

/// The character of a decimal digit.
pub open spec fn digit(d: int) -> char {
    (('0' as u32) + d) as char
}

/// `n` in decimal.
pub open spec fn digits(n: nat) -> Seq<char>
    decreases n,
{
    if n < 10 {
        seq![digit(n as int)]
    } else {
        digits(n / 10).push(digit((n % 10) as int))
    }
}

/// `n` in decimal, with a minus sign before a negative number.
pub open spec fn decimal_text(n: int) -> Seq<char> {
    if n < 0 {
        seq!['-'] + digits((-n) as nat)
    } else {
        digits(n as nat)
    }
}

/// `n` in decimal, with a zero before it where it has one character only.
pub open spec fn two_digits(n: int) -> Seq<char> {
    let t = decimal_text(n);
    if t.len() < 2 {
        seq!['0'] + t
    } else {
        t
    }
}

/// The decimal digits of `n`.
fn write_digits(n: u128) -> (v: Vec<char>)
    ensures
        v@ == digits(n as nat),
    decreases n,
{
    if n < 10 {
        let mut v: Vec<char> = Vec::new();
        v.push((48u8 + n as u8) as char);
        assert(v@ =~= digits(n as nat));
        v
    } else {
        let mut v = write_digits(n / 10);
        v.push((48u8 + (n % 10) as u8) as char);
        v
    }
}

/// `n` in decimal.
pub fn decimal(n: i128) -> (r: String)
    requires
        n > i128::MIN,
    ensures
        r@ == decimal_text(n as int),
{
    if n < 0 {
        let v = write_digits((-n) as u128);
        let mut r = String::new();
        r.push('-');
        r.append(from_chars(v.as_slice()).as_str());
        assert(r@ =~= decimal_text(n as int));
        r
    } else {
        let v = write_digits(n as u128);
        from_chars(v.as_slice())
    }
}

/// `n` in decimal, in two characters at least.
pub fn two_digit(n: i128) -> (r: String)
    requires
        n > i128::MIN,
    ensures
        r@ == two_digits(n as int),
{
    if 0 <= n && n < 10 {
        let mut r = String::new();
        r.push('0');
        r.append(decimal(n).as_str());
        assert(r@ =~= two_digits(n as int));
        r
    } else {
        proof {
            if n >= 10 {
                lemma_digits_len((n / 10) as nat);
            } else {
                lemma_digits_len((-n) as nat);
            }
        }
        decimal(n)
    }
}

/// A number has at least one digit.
pub proof fn lemma_digits_len(n: nat)
    ensures
        digits(n).len() >= 1,
    decreases n,
{
    if n >= 10 {
        lemma_digits_len(n / 10);
    }
}

// ---------------------------------------------------------------- building

/// A string of its own with the text of `s`.
pub fn copy(s: &str) -> (r: String)
    ensures
        r@ == s@,
{
    let mut r = String::new();
    r.append(s);
    assert(r@ =~= s@);
    r
}

/// Two texts, one after the other.
pub fn concat2(a: &str, b: &str) -> (r: String)
    ensures
        r@ == a@ + b@,
{
    let mut r = String::new();
    r.append(a);
    r.append(b);
    assert(r@ =~= a@ + b@);
    r
}

/// Three texts, one after the other.
pub fn concat3(a: &str, b: &str, c: &str) -> (r: String)
    ensures
        r@ == a@ + b@ + c@,
{
    let mut r = concat2(a, b);
    r.append(c);
    r
}

// ---------------------------------------------------------------- laws

/// Texts are the same but for case where they have the same characters, place by place, or the
/// small and the capital form of one ASCII letter.
pub proof fn law_case_of_letters_is_ignored(a: Seq<char>, b: Seq<char>)
    ensures
        same_ignoring_case(a, b) <==> a.len() == b.len() && forall|i: int|
            0 <= i < a.len() ==> {
                ||| #[trigger] a[i] == b[i]
                ||| 'A' <= a[i] <= 'Z' && b[i] as u32 == a[i] as u32 + 32
                ||| 'A' <= b[i] <= 'Z' && a[i] as u32 == b[i] as u32 + 32
            },
{
    let la = lowered(a);
    let lb = lowered(b);
    assert(la.len() == a.len() && lb.len() == b.len());
    if la == lb {
        assert forall|i: int| 0 <= i < a.len() implies {
            ||| #[trigger] a[i] == b[i]
            ||| 'A' <= a[i] <= 'Z' && b[i] as u32 == a[i] as u32 + 32
            ||| 'A' <= b[i] <= 'Z' && a[i] as u32 == b[i] as u32 + 32
        } by {
            assert(la[i] == lower(a[i]) && lb[i] == lower(b[i]));
        }
    }
    if a.len() == b.len() && forall|i: int|
        0 <= i < a.len() ==> {
            ||| #[trigger] a[i] == b[i]
            ||| 'A' <= a[i] <= 'Z' && b[i] as u32 == a[i] as u32 + 32
            ||| 'A' <= b[i] <= 'Z' && a[i] as u32 == b[i] as u32 + 32
        } {
        assert forall|i: int| 0 <= i < la.len() implies la[i] == lb[i] by {
            assert(a[i] == a[i]);
        }
        assert(la =~= lb);
    }
}

/// Making letters small changes the ASCII capitals and nothing else.
pub proof fn law_lowered_by_place(s: Seq<char>)
    ensures
        lowered(s).len() == s.len(),
        forall|i: int|
            0 <= i < s.len() ==> #[trigger] lowered(s)[i] as u32 == if 'A' <= s[i] <= 'Z' {
                s[i] as u32 + 32
            } else {
                s[i] as int
            },
{
}

/// Trimming the start cuts off white space, and all of it.
proof fn lemma_trimmed_start_cut(s: Seq<char>) -> (a: int)
    ensures
        0 <= a <= s.len(),
        trimmed_start(s) == s.skip(a),
        forall|i: int| 0 <= i < a ==> is_space(#[trigger] s[i]),
    decreases s.len(),
{
    if s.len() > 0 && is_space(s[0]) {
        let t = s.drop_first();
        let a = lemma_trimmed_start_cut(t);
        assert(t.skip(a) =~= s.skip(a + 1));
        assert forall|i: int| 0 <= i < a + 1 implies is_space(#[trigger] s[i]) by {
            if i > 0 {
                assert(s[i] == t[i - 1]);
            }
        }
        a + 1
    } else {
        assert(s.skip(0) =~= s);
        0
    }
}

/// Trimming the end cuts off white space, and all of it.
proof fn lemma_trimmed_end_cut(s: Seq<char>) -> (b: int)
    ensures
        0 <= b <= s.len(),
        trimmed_end(s) == s.take(b),
        forall|i: int| b <= i < s.len() ==> is_space(#[trigger] s[i]),
    decreases s.len(),
{
    if s.len() > 0 && is_space(s.last()) {
        let t = s.drop_last();
        let b = lemma_trimmed_end_cut(t);
        assert(t.take(b) =~= s.take(b));
        assert forall|i: int| b <= i < s.len() implies is_space(#[trigger] s[i]) by {
            if i < t.len() {
                assert(s[i] == t[i]);
            }
        }
        b
    } else {
        assert(s.take(s.len() as int) =~= s);
        s.len() as int
    }
}

/// Trimming cuts white space off at both ends, all of it and nothing else.
pub proof fn law_trim_cuts_space_off(s: Seq<char>)
    ensures
        exists|a: int, b: int|
            {
                &&& 0 <= a <= b <= s.len()
                &&& trimmed(s) == #[trigger] s.subrange(a, b)
                &&& forall|i: int| 0 <= i < a ==> is_space(#[trigger] s[i])
                &&& forall|i: int| b <= i < s.len() ==> is_space(#[trigger] s[i])
                &&& a < b ==> !is_space(s[a]) && !is_space(s[b - 1])
            },
{
    let a = lemma_trimmed_start_cut(s);
    let t = trimmed_start(s);
    let n = lemma_trimmed_end_cut(t);
    lemma_trimmed_start_first(s);
    lemma_trimmed_end_last(t);
    let b = a + n;
    assert(s.subrange(a, b) =~= t.take(n));
    assert forall|i: int| b <= i < s.len() implies is_space(#[trigger] s[i]) by {
        assert(s[i] == t[i - a]);
    }
    if a < b {
        assert(t[0] == s[a]);
        assert(trimmed(s).last() == s[b - 1]);
        assert(t.take(n).last() == t[n - 1]);
    }
}

/// Trimming a character off the end cuts off all that stand there, and nothing else.
pub proof fn law_trim_end_cuts_character_off(s: Seq<char>, c: char)
    ensures
        exists|b: int|
            {
                &&& 0 <= b <= s.len()
                &&& trimmed_end_of(s, c) == #[trigger] s.take(b)
                &&& forall|i: int| b <= i < s.len() ==> #[trigger] s[i] == c
                &&& b > 0 ==> s[b - 1] != c
            },
    decreases s.len(),
{
    if s.len() > 0 && s.last() == c {
        let t = s.drop_last();
        law_trim_end_cuts_character_off(t, c);
        let b = choose|b: int|
            {
                &&& 0 <= b <= t.len()
                &&& trimmed_end_of(t, c) == #[trigger] t.take(b)
                &&& forall|i: int| b <= i < t.len() ==> #[trigger] t[i] == c
                &&& b > 0 ==> t[b - 1] != c
            };
        assert(t.take(b) =~= s.take(b));
        assert forall|i: int| b <= i < s.len() implies #[trigger] s[i] == c by {
            if i < t.len() {
                assert(s[i] == t[i]);
            }
        }
    } else {
        assert(s.take(s.len() as int) =~= s);
    }
}

/// Taking white space out keeps every other character, in order.
pub proof fn law_without_space_keeps_the_rest(s: Seq<char>, c: char)
    ensures
        without_space(s.push(c)) == if is_space(c) {
            without_space(s)
        } else {
            without_space(s).push(c)
        },
        without_space(Seq::empty()) == Seq::<char>::empty(),
{
    reveal(Seq::filter);
    assert(s.push(c).drop_last() =~= s);
}

/// A text starts with another where it has that one's characters in its first places.
pub proof fn law_prefix_by_place(s: Seq<char>, prefix: Seq<char>)
    ensures
        has_prefix(s, prefix) <==> prefix.len() <= s.len() && forall|i: int|
            0 <= i < prefix.len() ==> #[trigger] s[i] == prefix[i],
{
    if has_prefix(s, prefix) {
        assert forall|i: int| 0 <= i < prefix.len() implies #[trigger] s[i] == prefix[i] by {
            assert(s.subrange(0, prefix.len() as int)[i] == s[i]);
        }
    }
    if prefix.len() <= s.len() && forall|i: int|
        0 <= i < prefix.len() ==> #[trigger] s[i] == prefix[i] {
        assert(s.subrange(0, prefix.len() as int) =~= prefix);
    }
}

/// A text holds another where it is that one with something before and behind it.
pub proof fn law_within_between_parts(s: Seq<char>, needle: Seq<char>)
    ensures
        has_within(s, needle) <==> exists|a: Seq<char>, b: Seq<char>|
            s == #[trigger] a.add(needle).add(b),
{
    if has_within(s, needle) {
        let i = choose|i: int| occurs_at(s, needle, i);
        let a = s.take(i);
        let b = s.skip(i + needle.len());
        assert(s =~= a.add(s.subrange(i, i + needle.len())).add(b));
        assert(s == a.add(needle).add(b));
    }
    if exists|a: Seq<char>, b: Seq<char>| s == #[trigger] a.add(needle).add(b) {
        let (a, b) = choose|a: Seq<char>, b: Seq<char>| s == #[trigger] a.add(needle).add(b);
        let i = a.len() as int;
        assert(s.subrange(i, i + needle.len()) =~= needle);
        assert(occurs_at(s, needle, i));
    }
}

/// Replacing goes from left to right: what stands before the first place stays, and replacing goes
/// on behind it.
pub proof fn law_replace_left_to_right(
    a: Seq<char>,
    from: Seq<char>,
    b: Seq<char>,
    to: Seq<char>,
)
    requires
        from.len() > 0,
        forall|k: int| 0 <= k < a.len() ==> !#[trigger] occurs_at(a + from + b, from, k),
    ensures
        replaced(a + from + b, from, to) == a + to + replaced(b, from, to),
{
    let s = a + from + b;
    let i = a.len() as int;
    assert(s.subrange(i, i + from.len()) =~= from);
    assert(first_occurs_at(s, from, i));
    lemma_found_at(s, from, i);
    assert(s.take(i) =~= a);
    assert(s.skip(i + from.len()) =~= b);
}

/// Where there is nothing to replace the text stays.
pub proof fn law_replace_nothing(s: Seq<char>, from: Seq<char>, to: Seq<char>)
    requires
        !has_within(s, from),
    ensures
        replaced(s, from, to) == s,
{
    if found_at(s, from) is Some {
        let i = choose|i: int| first_occurs_at(s, from, i);
        assert(occurs_at(s, from, i));
    }
}

/// A line ends at a line feed, and a carriage return right before that belongs to the ending.
pub proof fn law_line_ends_at_feed(a: Seq<char>, rest: Seq<char>)
    requires
        !a.contains('\n'),
    ensures
        line_list(a + seq!['\n'] + rest) == seq![
            if a.len() > 0 && a[a.len() - 1] == '\r' {
                a.take(a.len() - 1)
            } else {
                a
            },
        ] + line_list(rest),
{
    let s = a + seq!['\n'] + rest;
    let i = a.len() as int;
    assert(s[i] == '\n');
    s.index_of_first_ensures('\n');
    let k = s.index_of_first('\n')->0;
    if k < i {
        assert(a[k] == '\n');
    }
    if i < k {
        assert(s[i] != '\n');
    }
    assert(s.take(i) =~= a);
    assert(s.skip(i + 1) =~= rest);
    if a.len() > 0 {
        assert(a.drop_last() =~= a.take(a.len() - 1));
    }
}

/// What stands behind the last line feed is a line too, where there is anything.
pub proof fn law_last_line_needs_no_feed(s: Seq<char>)
    requires
        !s.contains('\n'),
    ensures
        line_list(s) == if s.len() == 0 {
            Seq::<Seq<char>>::empty()
        } else {
            seq![s]
        },
{
}

/// Joining puts the separator between parts, and nowhere else.
pub proof fn law_join_part_by_part(parts: Seq<Seq<char>>, x: Seq<char>, sep: Seq<char>)
    ensures
        joined(Seq::empty(), sep) == Seq::<char>::empty(),
        joined(parts.push(x), sep) == if parts.len() == 0 {
            x
        } else {
            joined(parts, sep) + sep + x
        },
{
    assert(parts.push(x).drop_last() =~= parts);
}

/// The number that digits stand for, each place ten times the one behind it.
pub open spec fn place_value(s: Seq<char>) -> nat
    decreases s.len(),
{
    if s.len() == 0 {
        0
    } else {
        10 * place_value(s.drop_last()) + ((s.last() as u32) - 48) as nat
    }
}

/// A number is written in digits that read back to it, without a zero in front.
pub proof fn law_digits_read_back(n: nat)
    ensures
        place_value(digits(n)) == n,
        digits(n).len() > 0,
        forall|i: int| 0 <= i < digits(n).len() ==> 48 <= #[trigger] digits(n)[i] as u32 <= 57,
        digits(n).len() > 1 ==> digits(n)[0] as u32 > 48,
    decreases n,
{
    assert(place_value(Seq::empty()) == 0);
    if n < 10 {
        assert(digits(n).drop_last() =~= Seq::empty());
        assert(digits(n).last() as u32 == 48 + n);
    } else {
        let before = digits(n / 10);
        law_digits_read_back(n / 10);
        assert(digits(n).drop_last() =~= before);
        assert(digits(n)[0] == before[0]);
        if before.len() == 1 {
            assert(before.drop_last() =~= Seq::empty());
            assert(place_value(before) == ((before[0] as u32) - 48) as nat);
        }
    }
}

/// A negative number is a minus sign before its size, any other just its digits.
pub proof fn law_sign_stands_in_front(n: int)
    ensures
        n >= 0 ==> decimal_text(n) == digits(n as nat),
        n < 0 ==> decimal_text(n) == seq!['-'] + digits((0 - n) as nat),
{
}

/// A one-digit number gets a zero in front of it, a longer one stays.
pub proof fn law_two_digits_are_padded(n: int)
    requires
        0 <= n,
    ensures
        n < 10 ==> two_digits(n) == seq!['0'] + digits(n as nat),
        n >= 10 ==> two_digits(n) == digits(n as nat),
{
    if n >= 10 {
        lemma_digits_len((n / 10) as nat);
    }
}

/// A list of strings holds one text for each, in order.
pub proof fn law_one_text_for_each(v: Seq<String>, i: int)
    requires
        0 <= i < v.len(),
    ensures
        texts(v).len() == v.len(),
        texts(v)[i] == v[i]@,
{
}

/// A string that is there holds its text, and one that is missing none.
pub proof fn law_text_of_option(s: String, t: &str)
    ensures
        text_opt(Some(s)) == Some(s@),
        text_opt(None) is None,
        str_opt(Some(t)) == Some(t@),
        str_opt(None) is None,
{
}

} // verus!
