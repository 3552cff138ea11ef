//! Aliases made from the names of devices.

use crate::text;
use vstd::prelude::*;

verus! {

/// An ASCII letter or digit.
pub open spec fn is_alnum(c: char) -> bool {
    text::is_letter(c) || text::is_digit(c)
}

/// The longest runs of letters and digits in `s`, in order.
pub open spec fn runs(s: Seq<char>) -> Seq<Seq<char>>
    decreases s.len(),
{
    if s.len() == 0 {
        Seq::empty()
    } else {
        let before = runs(s.drop_last());
        let c = s.last();
        if !is_alnum(c) {
            before
        } else if s.len() > 1 && is_alnum(s[s.len() - 2]) {
            before.drop_last().push(before.last().push(c))
        } else {
            before.push(seq![c])
        }
    }
}

/// The runs of letters and digits of `s` in small letters with dashes between them, or `tv`
/// where there is none.
pub open spec fn slug(s: Seq<char>) -> Seq<char> {
    if runs(s).len() == 0 {
        "tv"@
    } else {
        text::lowered(text::joined(runs(s), "-"@))
    }
}

/// Letters and digits alone, and not empty.
pub open spec fn is_run(x: Seq<char>) -> bool {
    x.len() > 0 && forall|j: int| 0 <= j < x.len() ==> is_alnum(#[trigger] x[j])
}

/// Every part is a run.
pub open spec fn all_runs(r: Seq<Seq<char>>) -> bool {
    forall|i: int| 0 <= i < r.len() ==> is_run(#[trigger] r[i])
}

/// What [`runs`] gives are runs; there is one that touches the end where `s` ends in one.
proof fn lemma_runs(s: Seq<char>)
    ensures
        all_runs(runs(s)),
        s.len() > 0 && is_alnum(s.last()) ==> runs(s).len() > 0,
    decreases s.len(),
{
    if s.len() > 0 {
        let t = s.drop_last();
        lemma_runs(t);
        let r = runs(s);
        let before = runs(t);
        assert forall|i: int| 0 <= i < r.len() implies is_run(#[trigger] r[i]) by {
            if i < before.len() {
                assert(is_run(before[i]));
            }
        }
    }
}

/// Growing the last part grows the joined text.
proof fn lemma_joined_grow(r: Seq<Seq<char>>, sep: Seq<char>, c: char)
    requires
        r.len() > 0,
    ensures
        text::joined(r.drop_last().push(r.last().push(c)), sep) == text::joined(r, sep).push(c),
{
    let g = r.drop_last().push(r.last().push(c));
    assert(g.drop_last() =~= r.drop_last());
    assert(text::joined(g, sep) =~= text::joined(r, sep).push(c));
}

/// A new part is joined behind a separator.
proof fn lemma_joined_push(r: Seq<Seq<char>>, sep: Seq<char>, x: Seq<char>)
    ensures
        text::joined(r.push(x), sep) == if r.len() == 0 {
            x
        } else {
            text::joined(r, sep) + sep + x
        },
{
    assert(r.push(x).drop_last() =~= r);
}

/// The alias made from a name.
pub fn slugify(s: &str) -> (r: String)
    ensures
        r@ == slug(s@),
{
    let v = text::to_chars(s);
    let mut out = String::new();
    let mut inside = false;
    let mut i: usize = 0;
    proof {
        reveal_strlit("-");
    }
    while i < v.len()
        invariant
            0 <= i <= v@.len(),
            v@ == s@,
            "-"@ == seq!['-'],
            inside == (i > 0 && is_alnum(v@[i - 1])),
            out@ == text::lowered(text::joined(runs(v@.take(i as int)), "-"@)),
            out@.len() == 0 <==> runs(v@.take(i as int)).len() == 0,
        decreases v@.len() - i,
    {
        let c = v[i];
        let ghost t = v@.take(i + 1);
        let ghost before = runs(v@.take(i as int));
        let ghost old_out = out@;
        proof {
            assert(t.drop_last() =~= v@.take(i as int));
            assert(t.last() == c);
            lemma_runs(v@.take(i as int));
            if i > 0 {
                assert(v@.take(i as int).last() == v@[i - 1]);
                assert(t[t.len() - 2] == v@[i - 1]);
            }
        }
        let alnum = ('a' <= c && c <= 'z') || ('A' <= c && c <= 'Z') || ('0' <= c && c <= '9');
        if alnum {
            if inside {
                out.push(text::to_lower(c));
                proof {
                    lemma_joined_grow(before, "-"@, c);
                    assert(out@ =~= text::lowered(text::joined(runs(t), "-"@)));
                }
            } else {
                if !out.as_str().is_empty() {
                    out.push('-');
                }
                out.push(text::to_lower(c));
                proof {
                    lemma_joined_push(before, "-"@, seq![c]);
                    assert(out@ =~= text::lowered(text::joined(runs(t), "-"@)));
                }
            }
        }
        inside = alnum;
        i += 1;
    }
    assert(v@.take(v@.len() as int) =~= v@);
    if out.as_str().is_empty() {
        text::from_chars(text::to_chars("tv").as_slice())
    } else {
        out
    }
}

// ---------------------------------------------------------------- laws

/// The characters that an alias is made of.
pub open spec fn is_slug_char(c: char) -> bool {
    'a' <= c <= 'z' || text::is_digit(c) || c == '-'
}

/// A text with the form of an alias: not empty, made of small letters, digits and dashes, with
/// no dash at either end and no two dashes side by side.
pub open spec fn is_slug(s: Seq<char>) -> bool {
    &&& s.len() > 0
    &&& forall|i: int| 0 <= i < s.len() ==> is_slug_char(#[trigger] s[i])
    &&& s[0] != '-'
    &&& s.last() != '-'
    &&& !text::has_within(s, "--"@)
}

/// The joined text of runs: its characters, its ends, and that no two dashes meet.
proof fn lemma_joined_shape(r: Seq<Seq<char>>)
    requires
        r.len() > 0,
        all_runs(r),
    ensures
        ({
            let t = text::joined(r, "-"@);
            &&& t.len() > 0
            &&& is_alnum(t[0])
            &&& is_alnum(t.last())
            &&& forall|i: int| 0 <= i < t.len() ==> is_alnum(#[trigger] t[i]) || t[i] == '-'
            &&& forall|i: int|
                0 <= i && i + 1 < t.len() ==> is_alnum(#[trigger] t[i]) || is_alnum(t[i + 1])
        }),
    decreases r.len(),
{
    reveal_strlit("-");
    let last = r.last();
    let n = r.len() - 1;
    assert(is_run(r[n]));
    assert(is_alnum(last[0]) && is_alnum(last[last.len() - 1]));
    if r.len() > 1 {
        let q = r.drop_last();
        assert forall|i: int| 0 <= i < q.len() implies is_run(#[trigger] q[i]) by {
            assert(is_run(r[i]));
        }
        lemma_joined_shape(q);
        let a = text::joined(q, "-"@);
        let t = text::joined(r, "-"@);
        assert(t =~= a + seq!['-'] + last);
        assert forall|i: int| 0 <= i && i + 1 < t.len() implies is_alnum(#[trigger] t[i])
            || is_alnum(t[i + 1]) by {
            if i + 1 < a.len() {
                assert(is_alnum(a[i]) || is_alnum(a[i + 1]));
            }
        }
    }
}

/// Every alias made from a name has the form of an alias.
pub proof fn law_slug_shape(s: Seq<char>)
    ensures
        is_slug(slug(s)),
{
    reveal_strlit("--");
    reveal_strlit("tv");
    let r = runs(s);
    lemma_runs(s);
    let t = slug(s);
    if r.len() > 0 {
        lemma_joined_shape(r);
        let u = text::joined(r, "-"@);
        assert(t == text::lowered(u));
        assert forall|i: int| 0 <= i < t.len() implies is_slug_char(#[trigger] t[i]) by {
            assert(is_alnum(u[i]) || u[i] == '-');
        }
        assert forall|i: int| !text::occurs_at(t, "--"@, i) by {
            if text::occurs_at(t, "--"@, i) {
                assert(t.subrange(i, i + 2)[0] == '-');
                assert(t.subrange(i, i + 2)[1] == '-');
                assert(t[i] == '-' && t[i + 1] == '-');
                assert(is_alnum(u[i]) || is_alnum(u[i + 1]));
            }
        }
    } else {
        assert forall|i: int| !text::occurs_at(t, "--"@, i) by {
            if text::occurs_at(t, "--"@, i) {
                assert(t.subrange(i, i + 2)[0] == '-');
                assert(t[i] == '-');
            }
        }
    }
}

/// The runs of one run.
proof fn lemma_runs_append(s: Seq<char>, x: Seq<char>)
    requires
        s.len() == 0 || !is_alnum(s.last()),
        x.len() > 0,
        forall|j: int| 0 <= j < x.len() ==> is_alnum(#[trigger] x[j]),
    ensures
        runs(s + x) == runs(s).push(x),
    decreases x.len(),
{
    let t = s + x;
    let y = x.drop_last();
    assert(t.drop_last() =~= s + y);
    assert(t.last() == x.last());
    assert(is_alnum(x[x.len() - 1]));
    if y.len() > 0 {
        assert forall|j: int| 0 <= j < y.len() implies is_alnum(#[trigger] y[j]) by {
            assert(is_alnum(x[j]));
        }
        lemma_runs_append(s, y);
        assert(is_alnum(x[x.len() - 2]));
        assert(t[t.len() - 2] == x[x.len() - 2]);
        let b = runs(s).push(y);
        assert(b.drop_last() =~= runs(s));
        assert(b.last() == y);
        assert(y.push(x.last()) =~= x);
        assert(runs(t) =~= runs(s).push(x));
    } else {
        assert(s + y =~= s);
        assert(x =~= seq![x.last()]);
        if t.len() > 1 {
            assert(t[t.len() - 2] == s.last());
        }
    }
}

/// Joining runs and taking the runs of the result gives them back.
proof fn lemma_runs_of_joined(r: Seq<Seq<char>>)
    requires
        all_runs(r),
    ensures
        runs(text::joined(r, "-"@)) == r,
    decreases r.len(),
{
    reveal_strlit("-");
    if r.len() > 0 {
        let q = r.drop_last();
        let x = r.last();
        let n = r.len() - 1;
        assert(is_run(r[n]));
        assert forall|i: int| 0 <= i < q.len() implies is_run(#[trigger] q[i]) by {
            assert(is_run(r[i]));
        }
        lemma_runs_of_joined(q);
        if q.len() == 0 {
            let e = Seq::<char>::empty();
            lemma_runs_append(e, x);
            assert(e + x =~= x);
            assert(runs(e) =~= q);
        } else {
            let a = text::joined(q, "-"@);
            let d = a + "-"@;
            assert(d.drop_last() =~= a);
            assert(runs(d) == runs(a));
            lemma_runs_append(d, x);
            assert(text::joined(r, "-"@) =~= d + x);
        }
        assert(q.push(x) =~= r);
    } else {
        assert(text::joined(r, "-"@) =~= Seq::empty());
        assert(r =~= Seq::empty());
    }
}

/// Runs taken of a text in small letters are the runs in small letters.
proof fn lemma_runs_lowered(s: Seq<char>)
    ensures
        runs(text::lowered(s)).len() == runs(s).len(),
        forall|i: int| 0 <= i < runs(s).len() ==> #[trigger] runs(text::lowered(s))[i] == text::lowered(
            runs(s)[i],
        ),
    decreases s.len(),
{
    if s.len() > 0 {
        let t = s.drop_last();
        lemma_runs_lowered(t);
        lemma_runs(t);
        assert(text::lowered(s).drop_last() =~= text::lowered(t));
        let a = runs(s);
        let b = runs(text::lowered(s));
        if s.len() > 1 && is_alnum(s[s.len() - 2]) {
            assert(t.last() == s[s.len() - 2]);
        }
        assert forall|i: int| 0 <= i < a.len() implies #[trigger] b[i] == text::lowered(a[i]) by {
            assert(b[i] =~= text::lowered(a[i]));
        }
    }
}

/// Making an alias of an alias changes nothing.
pub proof fn law_slug_idempotent(s: Seq<char>)
    ensures
        slug(slug(s)) == slug(s),
{
    reveal_strlit("tv");
    lemma_runs(s);
    if runs(s).len() == 0 {
        let e = Seq::<char>::empty();
        let t = "tv"@;
        lemma_runs_append(e, t);
        assert(e + t =~= t);
        assert(runs(t) =~= seq![t]);
        assert(text::joined(runs(t), "-"@) == t);
        assert(text::lowered(t) =~= t);
    } else {
        let u = text::joined(runs(s), "-"@);
        lemma_runs_of_joined(runs(s));
        lemma_runs_lowered(u);
        lemma_lowered_joined(runs(s));
        let b = runs(text::lowered(u));
        assert(b =~= runs(s).map_values(|x: Seq<char>| text::lowered(x)));
        assert(text::lowered(text::lowered(u)) =~= text::lowered(u));
    }
}

/// Making small letters before joining or after is the same.
proof fn lemma_lowered_joined(r: Seq<Seq<char>>)
    ensures
        text::joined(r.map_values(|x: Seq<char>| text::lowered(x)), "-"@) == text::lowered(text::joined(r, "-"@)),
    decreases r.len(),
{
    reveal_strlit("-");
    let m = r.map_values(|x: Seq<char>| text::lowered(x));
    if r.len() > 1 {
        lemma_lowered_joined(r.drop_last());
        assert(m.drop_last() =~= r.drop_last().map_values(|x: Seq<char>| text::lowered(x)));
    }
    assert(text::joined(m, "-"@) =~= text::lowered(text::joined(r, "-"@)));
}

/// Text that has no letter or digit adds no run.
proof fn lemma_runs_gap(a: Seq<char>, gap: Seq<char>)
    requires
        forall|i: int| 0 <= i < gap.len() ==> !is_alnum(#[trigger] gap[i]),
    ensures
        runs(a + gap) == runs(a),
    decreases gap.len(),
{
    if gap.len() == 0 {
        assert(a + gap =~= a);
    } else {
        let g = gap.drop_last();
        assert forall|i: int| 0 <= i < g.len() implies !is_alnum(#[trigger] g[i]) by {
            assert(g[i] == gap[i]);
        }
        lemma_runs_gap(a, g);
        assert((a + gap).drop_last() =~= a + g);
        assert(!is_alnum(gap[gap.len() - 1]));
    }
}

/// Behind a gap the runs start anew.
proof fn lemma_runs_behind_gap(x: Seq<char>, b: Seq<char>)
    requires
        x.len() == 0 || !is_alnum(x.last()),
    ensures
        runs(x + b) == runs(x) + runs(b),
    decreases b.len(),
{
    if b.len() == 0 {
        assert(x + b =~= x);
        assert(runs(x) + runs(b) =~= runs(x));
    } else {
        let t = b.drop_last();
        let c = b.last();
        lemma_runs_behind_gap(x, t);
        lemma_runs(t);
        assert((x + b).drop_last() =~= x + t);
        assert((x + b).last() == c);
        if is_alnum(c) {
            if b.len() > 1 && is_alnum(b[b.len() - 2]) {
                assert((x + b)[(x + b).len() - 2] == b[b.len() - 2]);
                assert(t.last() == b[b.len() - 2]);
                let before = runs(x) + runs(t);
                assert(before.last() == runs(t).last());
                assert(before.drop_last() =~= runs(x) + runs(t).drop_last());
                assert(runs(x + b) =~= runs(x) + runs(b));
            } else {
                if b.len() == 1 {
                    if x.len() > 0 {
                        assert((x + b)[(x + b).len() - 2] == x.last());
                    }
                } else {
                    assert((x + b)[(x + b).len() - 2] == b[b.len() - 2]);
                }
                assert(runs(x + b) =~= runs(x) + runs(b));
            }
        }
    }
}

/// Joining two lists is joining each, with the separator between them.
proof fn lemma_joined_lists(a: Seq<Seq<char>>, b: Seq<Seq<char>>, sep: Seq<char>)
    requires
        a.len() > 0,
        b.len() > 0,
    ensures
        text::joined(a + b, sep) == text::joined(a, sep) + sep + text::joined(b, sep),
    decreases b.len(),
{
    let all = a + b;
    assert(all.drop_last() =~= a + b.drop_last());
    assert(all.last() == b.last());
    if b.len() == 1 {
        assert(a + b.drop_last() =~= a);
    } else {
        lemma_joined_lists(a, b.drop_last(), sep);
        assert(text::joined(all, sep) =~= text::joined(a, sep) + sep + text::joined(b, sep));
    }
}

/// A text with a letter or digit has a run.
proof fn lemma_runs_some(s: Seq<char>, i: int)
    requires
        0 <= i < s.len(),
        is_alnum(s[i]),
    ensures
        runs(s).len() > 0,
    decreases s.len(),
{
    if i < s.len() - 1 {
        lemma_runs_some(s.drop_last(), i);
    }
}

/// A word of letters and digits makes the alias that is it in small letters.
pub proof fn law_slug_of_word(s: Seq<char>)
    requires
        s.len() > 0,
        forall|i: int|
            0 <= i < s.len() ==> {
                ||| 'a' <= #[trigger] s[i] <= 'z'
                ||| 'A' <= s[i] <= 'Z'
                ||| '0' <= s[i] <= '9'
            },
    ensures
        slug(s) == text::lowered(s),
{
    assert forall|i: int| 0 <= i < s.len() implies is_alnum(#[trigger] s[i]) by {}
    let none = Seq::<char>::empty();
    lemma_runs_append(none, s);
    assert(none + s =~= s);
    assert(runs(none).push(s) =~= seq![s]);
}

/// A name without a letter or digit makes the alias `tv`.
pub proof fn law_slug_without_words(s: Seq<char>)
    requires
        forall|i: int|
            0 <= i < s.len() ==> !('a' <= #[trigger] s[i] <= 'z') && !('A' <= s[i] <= 'Z') && !('0'
                <= s[i] <= '9'),
    ensures
        slug(s) == "tv"@,
{
    let none = Seq::<char>::empty();
    lemma_runs_gap(none, s);
    assert(none + s =~= s);
}

/// What stands between words makes one dash, however long it is, and what stands around them
/// nothing.
pub proof fn law_slug_joins_words(a: Seq<char>, gap: Seq<char>, b: Seq<char>, i: int, j: int)
    requires
        gap.len() > 0,
        forall|k: int|
            0 <= k < gap.len() ==> !('a' <= #[trigger] gap[k] <= 'z') && !('A' <= gap[k] <= 'Z')
                && !('0' <= gap[k] <= '9'),
        0 <= i < a.len(),
        'a' <= a[i] <= 'z' || 'A' <= a[i] <= 'Z' || '0' <= a[i] <= '9',
        0 <= j < b.len(),
        'a' <= b[j] <= 'z' || 'A' <= b[j] <= 'Z' || '0' <= b[j] <= '9',
    ensures
        slug(a + gap + b) == slug(a) + seq!['-'] + slug(b),
        slug(a + gap) == slug(a),
        slug(gap + b) == slug(b),
{
    reveal_strlit("-");
    assert("-"@ =~= seq!['-']);
    lemma_runs_some(a, i);
    lemma_runs_some(b, j);
    lemma_runs_gap(a, gap);
    let x = a + gap;
    assert(x.last() == gap[gap.len() - 1]);
    lemma_runs_behind_gap(x, b);
    let none = Seq::<char>::empty();
    assert(none + gap =~= gap);
    lemma_runs_gap(none, gap);
    assert(gap.last() == gap[gap.len() - 1]);
    lemma_runs_behind_gap(gap, b);
    assert(runs(gap) + runs(b) =~= runs(b));
    lemma_joined_lists(runs(a), runs(b), "-"@);
    let ja = text::joined(runs(a), "-"@);
    let jb = text::joined(runs(b), "-"@);
    assert(text::lowered(ja + "-"@ + jb) =~= text::lowered(ja) + seq!['-'] + text::lowered(jb));
}

} // verus!
