//! Text handling shared by the tooling: building strings character by
//! character, template substitution, decimal numbers, ordering, joining and
//! trimming.

use vstd::prelude::*;

verus! {

/// `String::push`: appends `c` to `s`.
#[verifier::external_body]
pub(crate) fn push_char(s: &mut String, c: char)
    ensures
        final(s)@ == old(s)@.push(c),
{
    s.push(c)
}

/// The characters of `s`.
pub fn chars_of(s: &str) -> (r: Vec<char>)
    ensures
        r@ == s@,
{
    let n = s.unicode_len();
    let mut out: Vec<char> = Vec::new();
    let mut i: usize = 0;
    while i < n
        invariant
            n == s@.len(),
            i <= n,
            out@ == s@.take(i as int),
        decreases n - i,
    {
        out.push(s.get_char(i));
        i = i + 1;
        assert(out@ =~= s@.take(i as int));
    }
    assert(out@ =~= s@);
    out
}

/// Appends the characters `cs[from..to]` to `out`.
pub fn push_chars(out: &mut String, cs: &Vec<char>, from: usize, to: usize)
    requires
        from <= to <= cs@.len(),
    ensures
        final(out)@ == old(out)@ + cs@.subrange(from as int, to as int),
{
    let mut i = from;
    while i < to
        invariant
            from <= i <= to <= cs@.len(),
            out@ == old(out)@ + cs@.subrange(from as int, i as int),
        decreases to - i,
    {
        push_char(out, cs[i]);
        i = i + 1;
        assert(out@ =~= old(out)@ + cs@.subrange(from as int, i as int));
    }
}

/// `s` with every occurrence of `pat` replaced by `to`, scanning from the
/// left and never overlapping (what `str::replace` does). The empty pattern
/// occurs before every character and at the end.
pub open spec fn replaced(s: Seq<char>, pat: Seq<char>, to: Seq<char>) -> Seq<char>
    decreases s.len(),
{
    if s.len() == 0 {
        if pat.len() == 0 {
            to
        } else {
            s
        }
    } else if pat.len() == 0 {
        to + seq![s[0]] + replaced(s.skip(1), pat, to)
    } else if pat.len() <= s.len() && s.take(pat.len() as int) == pat {
        to + replaced(s.skip(pat.len() as int), pat, to)
    } else {
        seq![s[0]] + replaced(s.skip(1), pat, to)
    }
}

/// Whether `pat` occurs in `cs` at position `i`.
pub fn occurs_at(cs: &Vec<char>, i: usize, pat: &Vec<char>) -> (r: bool)
    requires
        i <= cs@.len(),
    ensures
        r == (i + pat@.len() <= cs@.len() && cs@.subrange(i as int, i + pat@.len()) == pat@),
{
    if pat.len() > cs.len() - i {
        return false;
    }
    let mut k: usize = 0;
    while k < pat.len()
        invariant
            i + pat@.len() <= cs@.len(),
            cs@.len() == cs.len(),
            pat@.len() == pat.len(),
            k <= pat@.len(),
            forall|j: int| 0 <= j < k ==> cs@[i + j] == pat@[j],
        decreases pat@.len() - k,
    {
        if cs[i + k] != pat[k] {
            assert(cs@.subrange(i as int, i + pat@.len())[k as int] != pat@[k as int]);
            return false;
        }
        k = k + 1;
    }
    assert(cs@.subrange(i as int, i + pat@.len()) =~= pat@);
    true
}

/// `s` with every occurrence of `pat` replaced by `to`.
pub fn replace_all(s: &str, pat: &str, to: &str) -> (r: String)
    ensures
        r@ == replaced(s@, pat@, to@),
{
    let cs = chars_of(s);
    let ps = chars_of(pat);
    let n = cs.len();
    let mut out = String::new();
    let mut i: usize = 0;
    assert(cs@.skip(0) =~= cs@);
    if ps.len() == 0 {
        while i < n
            invariant
                n == cs@.len(),
                cs@ == s@,
                pat@.len() == 0,
                i <= n,
                out@ + replaced(cs@.skip(i as int), pat@, to@) == replaced(s@, pat@, to@),
            decreases n - i,
        {
            let ghost rest = cs@.skip(i as int);
            assert(rest.skip(1) =~= cs@.skip(i + 1));
            out.append(to);
            push_char(&mut out, cs[i]);
            i = i + 1;
            assert(out@ + replaced(cs@.skip(i as int), pat@, to@) =~= replaced(s@, pat@, to@));
        }
        assert(cs@.skip(n as int) =~= Seq::<char>::empty());
        out.append(to);
        return out;
    }
    while i < n
        invariant
            n == cs@.len(),
            cs@ == s@,
            ps@ == pat@,
            pat@.len() > 0,
            i <= n,
            out@ + replaced(cs@.skip(i as int), pat@, to@) == replaced(s@, pat@, to@),
        decreases n - i,
    {
        let ghost rest = cs@.skip(i as int);
        if occurs_at(&cs, i, &ps) {
            assert(rest.take(pat@.len() as int) =~= cs@.subrange(i as int, i + pat@.len()));
            assert(rest.skip(pat@.len() as int) =~= cs@.skip(i + pat@.len()));
            out.append(to);
            i = i + ps.len();
            assert(out@ + replaced(cs@.skip(i as int), pat@, to@) =~= replaced(s@, pat@, to@));
        } else {
            assert(rest.take(pat@.len() as int) =~= cs@.subrange(i as int, i + pat@.len())
                || pat@.len() > rest.len());
            assert(rest.skip(1) =~= cs@.skip(i + 1));
            push_char(&mut out, cs[i]);
            i = i + 1;
            assert(out@ + replaced(cs@.skip(i as int), pat@, to@) =~= replaced(s@, pat@, to@));
        }
    }
    assert(cs@.skip(n as int) =~= Seq::<char>::empty());
    assert(out@ + Seq::<char>::empty() =~= out@);
    out
}

/// The decimal digit character for `d` (below 10).
pub open spec fn digit_char(d: nat) -> char {
    (48 + d) as char
}

/// The decimal representation of `n`, without leading zeros.
pub open spec fn decimal(n: nat) -> Seq<char>
    decreases n,
{
    if n < 10 {
        seq![digit_char(n)]
    } else {
        decimal(n / 10).push(digit_char(n % 10))
    }
}

/// Appends the decimal representation of `n` to `out`.
pub fn push_decimal(out: &mut String, n: usize)
    ensures
        final(out)@ == old(out)@ + decimal(n as nat),
    decreases n,
{
    if n >= 10 {
        push_decimal(out, n / 10);
    }
    let d = (n % 10) as u8;
    let c = (48u8 + d) as char;
    push_char(out, c);
    assert(final(out)@ =~= old(out)@ + decimal(n as nat));
}


/// `a` comes strictly before `b` in lexicographic order of code points
/// (which is also the byte order of their UTF-8 encodings, the order that
/// `Ord` gives `str`).
pub open spec fn lex_lt(a: Seq<char>, b: Seq<char>) -> bool
    decreases a.len(),
{
    if a.len() == 0 {
        b.len() > 0
    } else if b.len() == 0 {
        false
    } else if a[0] != b[0] {
        a[0] < b[0]
    } else {
        lex_lt(a.drop_first(), b.drop_first())
    }
}

/// No sequence comes before itself.
pub proof fn lemma_lex_irreflexive(a: Seq<char>)
    ensures
        !lex_lt(a, a),
    decreases a.len(),
{
    if a.len() > 0 {
        lemma_lex_irreflexive(a.drop_first());
    }
}

/// Lexicographic order is transitive.
pub proof fn lemma_lex_transitive(a: Seq<char>, b: Seq<char>, c: Seq<char>)
    requires
        lex_lt(a, b),
        lex_lt(b, c),
    ensures
        lex_lt(a, c),
    decreases a.len(),
{
    if a.len() > 0 && b.len() > 0 && c.len() > 0 && a[0] == b[0] && b[0] == c[0] {
        lemma_lex_transitive(a.drop_first(), b.drop_first(), c.drop_first());
    }
}

/// Of two different sequences, one comes before the other, and not both.
pub proof fn lemma_lex_total(a: Seq<char>, b: Seq<char>)
    ensures
        a != b ==> lex_lt(a, b) || lex_lt(b, a),
        !(lex_lt(a, b) && lex_lt(b, a)),
    decreases a.len(),
{
    if a.len() > 0 && b.len() > 0 && a[0] != b[0] {
        assert(a[0] < b[0] || b[0] < a[0]);
    } else if a.len() > 0 && b.len() > 0 && a[0] == b[0] {
        lemma_lex_total(a.drop_first(), b.drop_first());
        if a != b {
            assert(a =~= seq![a[0]] + a.drop_first());
            assert(b =~= seq![b[0]] + b.drop_first());
        }
    } else if a.len() == 0 && b.len() == 0 {
        assert(a =~= b);
    }
}

/// Whether the characters `a` come strictly before `b`.
pub fn chars_lt(a: &Vec<char>, b: &Vec<char>) -> (r: bool)
    ensures
        r == lex_lt(a@, b@),
{
    let mut i: usize = 0;
    assert(a@.skip(0) =~= a@);
    assert(b@.skip(0) =~= b@);
    while i < a.len() && i < b.len()
        invariant
            i <= a@.len(),
            i <= b@.len(),
            lex_lt(a@, b@) == lex_lt(a@.skip(i as int), b@.skip(i as int)),
        decreases a@.len() - i,
    {
        if a[i] != b[i] {
            return a[i] < b[i];
        }
        assert(a@.skip(i as int).drop_first() =~= a@.skip(i + 1));
        assert(b@.skip(i as int).drop_first() =~= b@.skip(i + 1));
        i = i + 1;
    }
    i < b.len()
}

/// The contents of a sequence of strings.
pub open spec fn views(v: Seq<String>) -> Seq<Seq<char>> {
    v.map_values(|s: String| s@)
}

/// Every element comes strictly before every later one.
pub open spec fn strictly_sorted(s: Seq<Seq<char>>) -> bool {
    forall|i: int, j: int| 0 <= i < j < s.len() ==> lex_lt(#[trigger] s[i], #[trigger] s[j])
}

/// Pushing `x` adds exactly `x` to what a sequence contains.
pub proof fn lemma_push_contains(s: Seq<Seq<char>>, x: Seq<char>)
    ensures
        forall|y: Seq<char>| #[trigger] s.push(x).contains(y) <==> s.contains(y) || y == x,
{
    assert forall|y: Seq<char>| #[trigger] s.push(x).contains(y) <==> s.contains(y) || y == x by {
        if s.push(x).contains(y) {
            let a = choose|a: int| 0 <= a < s.push(x).len() && s.push(x)[a] == y;
            if a < s.len() {
                assert(s[a] == y);
            }
        }
        if s.contains(y) {
            let a = choose|a: int| 0 <= a < s.len() && s[a] == y;
            assert(s.push(x)[a] == y);
        }
        if y == x {
            assert(s.push(x)[s.len() as int] == y);
        }
    }
}

/// Inserting `x` adds exactly `x` to what a sequence contains.
pub proof fn lemma_insert_contains(s: Seq<Seq<char>>, k: int, x: Seq<char>)
    requires
        0 <= k <= s.len(),
    ensures
        forall|y: Seq<char>| #[trigger] s.insert(k, x).contains(y) <==> s.contains(y) || y == x,
{
    let t = s.insert(k, x);
    assert forall|y: Seq<char>| #[trigger] t.contains(y) <==> s.contains(y) || y == x by {
        if t.contains(y) {
            let a = choose|a: int| 0 <= a < t.len() && t[a] == y;
            if a < k {
                assert(s[a] == y);
            } else if a > k {
                assert(s[a - 1] == y);
            }
        }
        if s.contains(y) {
            let a = choose|a: int| 0 <= a < s.len() && s[a] == y;
            if a < k {
                assert(t[a] == y);
            } else {
                assert(t[a + 1] == y);
            }
        }
        if y == x {
            assert(t[k] == y);
        }
    }
}

/// The strings of `v` in increasing order, each once.
pub fn sort_dedup(v: &Vec<String>) -> (r: Vec<String>)
    ensures
        strictly_sorted(views(r@)),
        forall|x: Seq<char>| views(r@).contains(x) <==> views(v@).contains(x),
{
    let mut out: Vec<String> = Vec::new();
    let mut i: usize = 0;
    while i < v.len()
        invariant
            i <= v@.len(),
            strictly_sorted(views(out@)),
            forall|x: Seq<char>|
                views(out@).contains(x) <==> views(v@.take(i as int)).contains(x),
        decreases v@.len() - i,
    {
        let x = &v[i];
        let xc = chars_of(x.as_str());
        let mut k: usize = 0;
        while k < out.len() && chars_lt(&chars_of(out[k].as_str()), &xc)
            invariant
                k <= out@.len(),
                xc@ == x@,
                forall|j: int| 0 <= j < k ==> lex_lt(#[trigger] out@[j]@, x@),
            decreases out@.len() - k,
        {
            k = k + 1;
        }
        let ghost old_out = out@;
        let present = k < out.len() && out[k] == *x;
        if !present {
            proof {
                if k < out@.len() {
                    lemma_lex_total(out@[k as int]@, x@);
                    assert forall|j: int| k <= j < out@.len() implies lex_lt(
                        x@,
                        #[trigger] out@[j]@,
                    ) by {
                        if j > k {
                            assert(lex_lt(views(out@)[k as int], views(out@)[j]));
                            lemma_lex_transitive(x@, out@[k as int]@, out@[j]@);
                        }
                    }
                }
            }
            let xs = x.clone();
            out.insert(k, xs);
            proof {
                assert(out@ == old_out.insert(k as int, xs));
                assert(forall|j: int| 0 <= j < k ==> out@[j] == old_out[j]);
                assert(forall|j: int| k < j < out@.len() ==> out@[j] == old_out[j - 1]);
                assert(out@[k as int]@ == x@);
                assert forall|a: int, b: int| 0 <= a < b < out@.len() implies lex_lt(
                    #[trigger] views(out@)[a],
                    #[trigger] views(out@)[b],
                ) by {
                    if a < k && b < k {
                        assert(lex_lt(views(old_out)[a], views(old_out)[b]));
                    } else if a < k && b > k {
                        assert(lex_lt(views(old_out)[a], x@));
                        assert(lex_lt(x@, views(old_out)[b - 1]));
                        lemma_lex_transitive(views(old_out)[a], x@, views(old_out)[b - 1]);
                    } else if a > k {
                        assert(lex_lt(views(old_out)[a - 1], views(old_out)[b - 1]));
                    }
                }
            }
        }
        proof {
            let w0 = views(v@.take(i as int));
            let w1 = views(v@.take(i + 1));
            let o0 = views(old_out);
            let o1 = views(out@);
            assert(v@.take(i + 1) =~= v@.take(i as int).push(v@[i as int]));
            assert(w1 =~= w0.push(x@));
            lemma_push_contains(w0, x@);
            if present {
                assert(o1 =~= o0);
                assert(o0[k as int] == x@);
            } else {
                assert(o1 =~= o0.insert(k as int, x@));
                lemma_insert_contains(o0, k as int, x@);
            }
        }
        i = i + 1;
    }
    assert(v@.take(v@.len() as int) =~= v@);
    out
}

/// No element comes strictly before an earlier one.
pub open spec fn sorted(s: Seq<Seq<char>>) -> bool {
    forall|i: int, j: int| 0 <= i < j < s.len() ==> !lex_lt(#[trigger] s[j], #[trigger] s[i])
}

/// The strings of `v` in increasing order (equal ones kept, in their order).
pub fn sort_strings(v: &Vec<String>) -> (r: Vec<String>)
    ensures
        sorted(views(r@)),
        views(r@).to_multiset() == views(v@).to_multiset(),
{
    let mut out: Vec<String> = Vec::new();
    let mut i: usize = 0;
    assert(views(v@.take(0)) =~= Seq::<Seq<char>>::empty());
    assert(views(out@) =~= Seq::<Seq<char>>::empty());
    while i < v.len()
        invariant
            i <= v@.len(),
            sorted(views(out@)),
            views(out@).to_multiset() == views(v@.take(i as int)).to_multiset(),
        decreases v@.len() - i,
    {
        let x = &v[i];
        let xc = chars_of(x.as_str());
        let mut k: usize = 0;
        while k < out.len() && !chars_lt(&xc, &chars_of(out[k].as_str()))
            invariant
                k <= out@.len(),
                xc@ == x@,
                forall|j: int| 0 <= j < k ==> !lex_lt(x@, #[trigger] out@[j]@),
            decreases out@.len() - k,
        {
            k = k + 1;
        }
        let ghost old_out = out@;
        let xs = x.clone();
        out.insert(k, xs);
        proof {
            let o0 = views(old_out);
            let o1 = views(out@);
            assert(o1 =~= o0.insert(k as int, x@));
            assert forall|a: int, b: int| 0 <= a < b < o1.len() implies !lex_lt(
                #[trigger] o1[b],
                #[trigger] o1[a],
            ) by {
                if a < k && b < k {
                    assert(!lex_lt(o0[b], o0[a]));
                } else if a < k && b == k {
                    assert(!lex_lt(x@, old_out[a]@));
                } else if a < k && b > k {
                    assert(!lex_lt(o0[b - 1], o0[a]));
                } else if a == k {
                    // x comes strictly before old_out[k], which nothing after
                    // it comes strictly before.
                    assert(lex_lt(x@, o0[k as int]));
                    if b - 1 > k {
                        assert(!lex_lt(o0[b - 1], o0[k as int]));
                    }
                    if lex_lt(o0[b - 1], x@) {
                        lemma_lex_transitive(o0[b - 1], x@, o0[k as int]);
                        lemma_lex_irreflexive(o0[k as int]);
                    }
                } else {
                    assert(!lex_lt(o0[b - 1], o0[a - 1]));
                }
            }
            assert(v@.take(i + 1) =~= v@.take(i as int).push(v@[i as int]));
            assert(views(v@.take(i + 1)) =~= views(v@.take(i as int)).push(x@));
            vstd::seq_lib::to_multiset_insert(o0, k as int, x@);
            vstd::seq_lib::to_multiset_build(views(v@.take(i as int)), x@);
        }
        i = i + 1;
    }
    assert(v@.take(v@.len() as int) =~= v@);
    out
}

/// The parts joined with `sep` between each two neighbours.
pub open spec fn joined(parts: Seq<Seq<char>>, sep: Seq<char>) -> Seq<char>
    decreases parts.len(),
{
    if parts.len() == 0 {
        seq![]
    } else if parts.len() == 1 {
        parts[0]
    } else {
        joined(parts.drop_last(), sep) + sep + parts.last()
    }
}

/// The strings of `parts` joined with `sep` between each two neighbours.
pub fn join(parts: &Vec<String>, sep: &str) -> (r: String)
    ensures
        r@ == joined(views(parts@), sep@),
{
    let mut out = String::new();
    let mut i: usize = 0;
    while i < parts.len()
        invariant
            i <= parts@.len(),
            out@ == joined(views(parts@.take(i as int)), sep@),
        decreases parts@.len() - i,
    {
        assert(views(parts@.take(i + 1)).drop_last() =~= views(parts@.take(i as int)));
        if i > 0 {
            out.append(sep);
        }
        out.append(parts[i].as_str());
        i = i + 1;
        assert(out@ =~= joined(views(parts@.take(i as int)), sep@));
    }
    assert(parts@.take(parts@.len() as int) =~= parts@);
    out
}

/// Characters with the Unicode `White_Space` property.
pub open spec fn is_white_space(c: char) -> bool {
    let u = c as u32;
    (9 <= u <= 13) || u == 32 || u == 133 || u == 160 || u == 5760 || (8192 <= u <= 8202) || u
        == 8232 || u == 8233 || u == 8239 || u == 8287 || u == 12288
}

/// Whether `c` has the Unicode `White_Space` property (what
/// `char::is_whitespace` answers).
pub fn is_whitespace(c: char) -> (r: bool)
    ensures
        r == is_white_space(c),
{
    let u = c as u32;
    (9 <= u && u <= 13) || u == 32 || u == 133 || u == 160 || u == 5760 || (8192 <= u && u
        <= 8202) || u == 8232 || u == 8233 || u == 8239 || u == 8287 || u == 12288
}

/// `s` without its leading white space.
pub open spec fn trimmed_start(s: Seq<char>) -> Seq<char>
    decreases s.len(),
{
    if s.len() > 0 && is_white_space(s[0]) {
        trimmed_start(s.drop_first())
    } else {
        s
    }
}

/// `s` without its trailing white space.
pub open spec fn trimmed_end(s: Seq<char>) -> Seq<char>
    decreases s.len(),
{
    if s.len() > 0 && is_white_space(s.last()) {
        trimmed_end(s.drop_last())
    } else {
        s
    }
}

/// `s` without leading or trailing white space.
pub open spec fn trimmed(s: Seq<char>) -> Seq<char> {
    trimmed_end(trimmed_start(s))
}

/// Index of the first character of `cs` at or after `from` that is not white
/// space (or the length).
fn skip_white_space(cs: &Vec<char>, from: usize) -> (r: usize)
    requires
        from <= cs@.len(),
    ensures
        from <= r <= cs@.len(),
        trimmed_start(cs@.skip(from as int)) == trimmed_start(cs@.skip(r as int)),
        trimmed_start(cs@.skip(r as int)) == cs@.skip(r as int),
{
    let mut i = from;
    while i < cs.len() && is_whitespace(cs[i])
        invariant
            from <= i <= cs@.len(),
            trimmed_start(cs@.skip(from as int)) == trimmed_start(cs@.skip(i as int)),
        decreases cs@.len() - i,
    {
        assert(cs@.skip(i as int).drop_first() =~= cs@.skip(i + 1));
        i = i + 1;
    }
    i
}

/// `s` without its leading white space.
pub fn trim_start(s: &str) -> (r: String)
    ensures
        r@ == trimmed_start(s@),
{
    let cs = chars_of(s);
    assert(cs@.skip(0) =~= cs@);
    let lo = skip_white_space(&cs, 0);
    let mut out = String::new();
    push_chars(&mut out, &cs, lo, cs.len());
    assert(out@ =~= cs@.skip(lo as int));
    out
}

/// `s` without leading or trailing white space.
pub fn trim(s: &str) -> (r: String)
    ensures
        r@ == trimmed(s@),
{
    let cs = chars_of(s);
    assert(cs@.skip(0) =~= cs@);
    let lo = skip_white_space(&cs, 0);
    let ghost t = cs@.skip(lo as int);
    let mut hi = cs.len();
    assert(t.take(t.len() as int) =~= t);
    while hi > lo && is_whitespace(cs[hi - 1])
        invariant
            lo <= hi <= cs@.len(),
            t == cs@.skip(lo as int),
            trimmed_end(t) == trimmed_end(t.take(hi - lo)),
        decreases hi,
    {
        assert(t.take(hi - lo).drop_last() =~= t.take(hi - 1 - lo));
        hi = hi - 1;
    }
    let mut out = String::new();
    push_chars(&mut out, &cs, lo, hi);
    assert(out@ =~= t.take(hi - lo));
    out
}

/// `prefix` is where `s` starts.
pub open spec fn has_prefix(s: Seq<char>, prefix: Seq<char>) -> bool {
    prefix.len() <= s.len() && s.take(prefix.len() as int) == prefix
}

/// `suffix` is where `s` ends.
pub open spec fn has_suffix(s: Seq<char>, suffix: Seq<char>) -> bool {
    suffix.len() <= s.len() && s.skip(s.len() - suffix.len()) == suffix
}

/// Whether `s` starts with `prefix`.
pub fn starts_with(s: &str, prefix: &str) -> (r: bool)
    ensures
        r == has_prefix(s@, prefix@),
{
    let cs = chars_of(s);
    let ps = chars_of(prefix);
    let r = occurs_at(&cs, 0, &ps);
    assert(cs@.take(ps@.len() as int) =~= cs@.subrange(0, ps@.len() as int));
    r
}

/// Whether `s` ends with `suffix`.
pub fn ends_with(s: &str, suffix: &str) -> (r: bool)
    ensures
        r == has_suffix(s@, suffix@),
{
    let cs = chars_of(s);
    let ps = chars_of(suffix);
    if ps.len() > cs.len() {
        return false;
    }
    let r = occurs_at(&cs, cs.len() - ps.len(), &ps);
    assert(cs@.skip(cs@.len() - ps@.len()) =~= cs@.subrange(
        cs@.len() - ps@.len(),
        cs@.len() as int,
    ));
    r
}

/// Whether `a` and `b` hold the same characters.
pub fn str_eq(a: &str, b: &str) -> (r: bool)
    ensures
        r == (a@ == b@),
{
    let ac = chars_of(a);
    let bc = chars_of(b);
    if ac.len() != bc.len() {
        return false;
    }
    let r = occurs_at(&ac, 0, &bc);
    assert(ac@.subrange(0, bc@.len() as int) =~= ac@);
    r
}

/// A copy of `v`.
pub fn clone_strings(v: &Vec<String>) -> (r: Vec<String>)
    ensures
        views(r@) == views(v@),
{
    let mut out: Vec<String> = Vec::new();
    let mut i: usize = 0;
    while i < v.len()
        invariant
            i <= v@.len(),
            views(out@) == views(v@.take(i as int)),
        decreases v@.len() - i,
    {
        let c = v[i].clone();
        let ghost before = out@;
        out.push(c);
        assert(out@ =~= before.push(v@[i as int]));
        assert(views(v@.take(i + 1)) =~= views(v@.take(i as int)).push(v@[i as int]@));
        assert(views(out@) =~= views(before).push(v@[i as int]@));
        i = i + 1;
    }
    assert(v@.take(v@.len() as int) =~= v@);
    out
}

/// Two strictly sorted sequences with the same elements are equal.
pub proof fn lemma_strictly_sorted_unique(a: Seq<Seq<char>>, b: Seq<Seq<char>>)
    requires
        strictly_sorted(a),
        strictly_sorted(b),
        forall|x: Seq<char>| a.contains(x) <==> b.contains(x),
    ensures
        a == b,
    decreases a.len(),
{
    if a.len() == 0 {
        if b.len() > 0 {
            assert(b.contains(b[0]));
        }
        assert(a =~= b);
    } else {
        assert(a.contains(a[0]));
        assert(b.contains(a[0]));
        assert(b.contains(b[0]));
        assert(a.contains(b[0]));
        let i = choose|i: int| 0 <= i < a.len() && a[i] == b[0];
        let j = choose|j: int| 0 <= j < b.len() && b[j] == a[0];
        if i > 0 {
            assert(lex_lt(a[0], a[i]));
        }
        if j > 0 {
            assert(lex_lt(b[0], b[j]));
        }
        lemma_lex_total(a[0], b[0]);
        assert(a[0] == b[0]);
        let a1 = a.drop_first();
        let b1 = b.drop_first();
        assert forall|x: Seq<char>| a1.contains(x) <==> b1.contains(x) by {
            if a1.contains(x) {
                let k = choose|k: int| 0 <= k < a1.len() && a1[k] == x;
                assert(a[k + 1] == x);
                assert(lex_lt(a[0], a[k + 1]));
                lemma_lex_irreflexive(x);
                assert(b.contains(x));
                let m = choose|m: int| 0 <= m < b.len() && b[m] == x;
                assert(m != 0);
                assert(b1[m - 1] == x);
            }
            if b1.contains(x) {
                let k = choose|k: int| 0 <= k < b1.len() && b1[k] == x;
                assert(b[k + 1] == x);
                assert(lex_lt(b[0], b[k + 1]));
                lemma_lex_irreflexive(x);
                assert(a.contains(x));
                let m = choose|m: int| 0 <= m < a.len() && a[m] == x;
                assert(m != 0);
                assert(a1[m - 1] == x);
            }
        }
        assert(strictly_sorted(a1)) by {
            assert forall|p: int, q: int| 0 <= p < q < a1.len() implies lex_lt(
                #[trigger] a1[p],
                #[trigger] a1[q],
            ) by {
                assert(lex_lt(a[p + 1], a[q + 1]));
            }
        }
        assert(strictly_sorted(b1)) by {
            assert forall|p: int, q: int| 0 <= p < q < b1.len() implies lex_lt(
                #[trigger] b1[p],
                #[trigger] b1[q],
            ) by {
                assert(lex_lt(b[p + 1], b[q + 1]));
            }
        }
        lemma_strictly_sorted_unique(a1, b1);
        assert(a =~= seq![a[0]] + a1);
        assert(b =~= seq![b[0]] + b1);
    }
}

/// The elements of `s` in increasing order, each once.
pub open spec fn sorted_set(s: Seq<Seq<char>>) -> Seq<Seq<char>> {
    choose|r: Seq<Seq<char>>|
        strictly_sorted(r) && forall|x: Seq<char>| #[trigger] r.contains(x) <==> s.contains(x)
}

/// The strings of `v` in increasing order, each once (as `sorted_set`).
pub fn sorted_unique(v: &Vec<String>) -> (r: Vec<String>)
    ensures
        views(r@) == sorted_set(views(v@)),
{
    let r = sort_dedup(v);
    proof {
        let s = views(v@);
        let c = sorted_set(s);
        assert(strictly_sorted(views(r@)) && forall|x: Seq<char>|
            #[trigger] views(r@).contains(x) <==> s.contains(x));
        assert(strictly_sorted(c) && forall|x: Seq<char>| #[trigger] c.contains(x) <==> s.contains(x));
        lemma_strictly_sorted_unique(views(r@), c);
    }
    r
}
} // verus!
