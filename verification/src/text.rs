//! Character-level helpers shared by the validators and the map parser.

use vstd::prelude::*;

verus! {

/// The characters of a string slice, in order.
pub fn chars_of(s: &str) -> (v: Vec<char>)
    ensures
        v@ == s@,
{
    let mut v: Vec<char> = Vec::new();
    for c in it: s.chars()
        invariant
            v@ == it.seq().take(it.index() as int),
    {
        v.push(c);
    }
    v
}

} // verus!

verus! {

/// Unicode `White_Space`, the property `char::is_whitespace` tests.
pub open spec fn is_white_space(c: char) -> bool {
    let u = c as u32;
    ||| 0x9 <= u <= 0xd
    ||| u == 0x20
    ||| u == 0x85
    ||| u == 0xa0
    ||| u == 0x1680
    ||| 0x2000 <= u <= 0x200a
    ||| u == 0x2028
    ||| u == 0x2029
    ||| u == 0x202f
    ||| u == 0x205f
    ||| u == 0x3000
}

/// General category `Cc`, the property `char::is_control` tests.
pub open spec fn is_control(c: char) -> bool {
    let u = c as u32;
    u <= 0x1f || (0x7f <= u <= 0x9f)
}

pub fn is_white_space_char(c: char) -> (r: bool)
    ensures
        r == is_white_space(c),
{
    let u = c as u32;
    (0x9 <= u && u <= 0xd) || u == 0x20 || u == 0x85 || u == 0xa0 || u == 0x1680 || (0x2000 <= u
        && u <= 0x200a) || u == 0x2028 || u == 0x2029 || u == 0x202f || u == 0x205f || u == 0x3000
}

pub fn is_control_char(c: char) -> (r: bool)
    ensures
        r == is_control(c),
{
    let u = c as u32;
    u <= 0x1f || (0x7f <= u && u <= 0x9f)
}

/// `s` without its leading whitespace.
pub open spec fn trim_start(s: Seq<char>) -> Seq<char>
    decreases s.len(),
{
    if s.len() > 0 && is_white_space(s[0]) {
        trim_start(s.drop_first())
    } else {
        s
    }
}

/// `s` without its trailing whitespace.
pub open spec fn trim_end(s: Seq<char>) -> Seq<char>
    decreases s.len(),
{
    if s.len() > 0 && is_white_space(s.last()) {
        trim_end(s.drop_last())
    } else {
        s
    }
}

/// `s` without leading and trailing whitespace, as `str::trim` gives it.
pub open spec fn trim(s: Seq<char>) -> Seq<char> {
    trim_end(trim_start(s))
}

proof fn lemma_trim_start_skip(s: Seq<char>, i: int)
    requires
        0 <= i <= s.len(),
        forall|k: int| 0 <= k < i ==> is_white_space(#[trigger] s[k]),
    ensures
        trim_start(s) == trim_start(s.subrange(i, s.len() as int)),
    decreases i,
{
    if i > 0 {
        let t = s.drop_first();
        assert forall|k: int| 0 <= k < i - 1 implies is_white_space(#[trigger] t[k]) by {
            assert(t[k] == s[k + 1]);
        }
        lemma_trim_start_skip(t, i - 1);
        assert(t.subrange(i - 1, t.len() as int) =~= s.subrange(i, s.len() as int));
    } else {
        assert(s.subrange(0, s.len() as int) =~= s);
    }
}

proof fn lemma_trim_end_skip(s: Seq<char>, j: int)
    requires
        0 <= j <= s.len(),
        forall|k: int| j <= k < s.len() ==> is_white_space(#[trigger] s[k]),
    ensures
        trim_end(s) == trim_end(s.subrange(0, j)),
    decreases s.len() - j,
{
    if j < s.len() {
        let t = s.drop_last();
        assert forall|k: int| j <= k < t.len() implies is_white_space(#[trigger] t[k]) by {
            assert(t[k] == s[k]);
        }
        lemma_trim_end_skip(t, j);
        assert(t.subrange(0, j) =~= s.subrange(0, j));
    } else {
        assert(s.subrange(0, j) =~= s);
    }
}

/// The range of `v` that trimming keeps.
pub fn trim_bounds(v: &Vec<char>) -> (r: (usize, usize))
    ensures
        r.0 <= r.1 <= v.len(),
        trim(v@) == v@.subrange(r.0 as int, r.1 as int),
{
    let n = v.len();
    let mut start: usize = 0;
    while start < n && is_white_space_char(v[start])
        invariant
            start <= n == v.len(),
            forall|k: int| 0 <= k < start ==> is_white_space(#[trigger] v@[k]),
        decreases n - start,
    {
        start = start + 1;
    }
    proof {
        lemma_trim_start_skip(v@, start as int);
        let rest = v@.subrange(start as int, n as int);
        if start < n {
            assert(rest[0] == v@[start as int]);
        }
        assert(trim_start(rest) == rest);
    }
    let mut end: usize = n;
    while end > start && is_white_space_char(v[end - 1])
        invariant
            start <= end <= n == v.len(),
            forall|k: int| end <= k < n ==> is_white_space(#[trigger] v@[k]),
        decreases end,
    {
        end = end - 1;
    }
    proof {
        let rest = v@.subrange(start as int, n as int);
        assert forall|k: int| end - start <= k < rest.len() implies is_white_space(#[trigger] rest[k]) by {
            assert(rest[k] == v@[k + start]);
        }
        lemma_trim_end_skip(rest, end - start);
        let kept = rest.subrange(0, end - start);
        assert(kept =~= v@.subrange(start as int, end as int));
        if end > start {
            assert(kept.last() == v@[end - 1]);
        }
        assert(trim_end(kept) == kept);
    }
    (start, end)
}

/// Whether `v[start..end]` holds a control character.
pub fn has_control_char(v: &Vec<char>, start: usize, end: usize) -> (r: bool)
    requires
        start <= end <= v.len(),
    ensures
        r == exists|i: int| 0 <= i < end - start && is_control(#[trigger] v@.subrange(start as int, end as int)[i]),
{
    let ghost t = v@.subrange(start as int, end as int);
    let mut i = start;
    while i < end
        invariant
            start <= i <= end <= v.len(),
            t == v@.subrange(start as int, end as int),
            forall|k: int| 0 <= k < i - start ==> !is_control(#[trigger] t[k]),
        decreases end - i,
    {
        if is_control_char(v[i]) {
            assert(t[i - start] == v@[i as int]);
            return true;
        }
        assert(t[i - start] == v@[i as int]);
        i = i + 1;
    }
    false
}

} // verus!

verus! {

/// Whether `a` comes before `b` in lexicographic order of code points, comparing from
/// position `i` on.
pub open spec fn lt_from(a: Seq<char>, b: Seq<char>, i: int) -> bool
    decreases a.len() - i,
{
    if i < 0 || i >= a.len() {
        0 <= i < b.len()
    } else if i >= b.len() {
        false
    } else if a[i] != b[i] {
        (a[i] as int) < (b[i] as int)
    } else {
        lt_from(a, b, i + 1)
    }
}

/// Whether `a` comes before `b` in lexicographic order of code points, the order of
/// `str` (UTF-8 byte order is code-point order).
pub open spec fn seq_lt(a: Seq<char>, b: Seq<char>) -> bool {
    lt_from(a, b, 0)
}

proof fn lemma_lt_from_total(a: Seq<char>, b: Seq<char>, i: int)
    requires
        0 <= i <= a.len(),
        i <= b.len(),
        !lt_from(a, b, i),
        !lt_from(b, a, i),
    ensures
        a.len() == b.len(),
        forall|k: int| i <= k < a.len() ==> a[k] == b[k],
    decreases a.len() - i,
{
    if i < a.len() && i < b.len() {
        if a[i] == b[i] {
            lemma_lt_from_total(a, b, i + 1);
        } else {
            assert((a[i] as int) != (b[i] as int));
        }
    } else if i < a.len() {
        assert(lt_from(b, a, i));
    } else if i < b.len() {
        assert(lt_from(a, b, i));
    }
}

proof fn lemma_lt_from_trans(a: Seq<char>, b: Seq<char>, c: Seq<char>, i: int)
    requires
        0 <= i,
        lt_from(a, b, i),
        lt_from(b, c, i),
    ensures
        lt_from(a, c, i),
    decreases a.len() - i,
{
    if i < a.len() && i < b.len() && i < c.len() && a[i] == b[i] && b[i] == c[i] {
        lemma_lt_from_trans(a, b, c, i + 1);
    }
}

/// Two different sequences are ordered one way or the other.
pub proof fn lemma_seq_lt_total(a: Seq<char>, b: Seq<char>)
    requires
        a != b,
    ensures
        seq_lt(a, b) || seq_lt(b, a),
{
    if !seq_lt(a, b) && !seq_lt(b, a) {
        lemma_lt_from_total(a, b, 0);
        assert(a =~= b);
    }
}

/// The order is transitive.
pub proof fn lemma_seq_lt_trans(a: Seq<char>, b: Seq<char>, c: Seq<char>)
    requires
        seq_lt(a, b),
        seq_lt(b, c),
    ensures
        seq_lt(a, c),
{
    lemma_lt_from_trans(a, b, c, 0);
}

proof fn lemma_lt_from_strict(a: Seq<char>, b: Seq<char>, i: int)
    requires
        0 <= i,
    ensures
        !lt_from(a, a, i),
        lt_from(a, b, i) ==> !lt_from(b, a, i),
    decreases a.len() - i,
{
    if i < a.len() && i < b.len() && a[i] == b[i] {
        lemma_lt_from_strict(a, b, i + 1);
    } else if i < a.len() {
        lemma_lt_from_strict(a, a, i + 1);
    }
}

proof fn lemma_lt_from_first_difference(a: Seq<char>, b: Seq<char>, i: int, j: int)
    requires
        0 <= i <= j <= a.len(),
        j <= b.len(),
        forall|k: int| i <= k < j ==> a[k] == b[k],
        (j == a.len() && j < b.len()) || (j < a.len() && j < b.len() && (a[j] as int) < (b[j] as int)),
    ensures
        lt_from(a, b, i),
    decreases j - i,
{
    if i < j {
        lemma_lt_from_first_difference(a, b, i + 1, j);
    }
}

/// The order of texts is the lexicographic order of code points: no text comes before
/// itself, of two texts at most one comes first, a proper prefix comes before the text it
/// starts, and otherwise the first differing character decides.
pub proof fn law_text_order_is_lexicographic(a: Seq<char>, b: Seq<char>)
    ensures
        !seq_lt(a, a),
        seq_lt(a, b) ==> !seq_lt(b, a),
        a.len() < b.len() && a == b.take(a.len() as int) ==> seq_lt(a, b),
        forall|j: int|
            0 <= j < a.len() && j < b.len() && a.take(j) == b.take(j) && (#[trigger] a[j] as int) < (b[j] as int) ==> seq_lt(a, b),
{
    lemma_lt_from_strict(a, b, 0);
    lemma_lt_from_strict(a, a, 0);
    if a.len() < b.len() && a == b.take(a.len() as int) {
        assert forall|k: int| 0 <= k < a.len() implies a[k] == b[k] by {
            assert(a[k] == b.take(a.len() as int)[k]);
        }
        lemma_lt_from_first_difference(a, b, 0, a.len() as int);
    }
    assert forall|j: int|
        0 <= j < a.len() && j < b.len() && a.take(j) == b.take(j) && (#[trigger] a[j] as int) < (b[j] as int) implies seq_lt(a, b) by {
        assert forall|k: int| 0 <= k < j implies a[k] == b[k] by {
            assert(a[k] == a.take(j)[k]);
            assert(b[k] == b.take(j)[k]);
        }
        lemma_lt_from_first_difference(a, b, 0, j);
    }
}

/// Whether `a` comes before `b`.
pub fn str_lt(a: &str, b: &str) -> (r: bool)
    ensures
        r == seq_lt(a@, b@),
{
    let x = chars_of(a);
    let y = chars_of(b);
    let mut i: usize = 0;
    while i < x.len() && i < y.len() && x[i] == y[i]
        invariant
            i <= x@.len(),
            i <= y@.len(),
            lt_from(x@, y@, 0) == lt_from(x@, y@, i as int),
        decreases x@.len() - i,
    {
        i = i + 1;
    }
    if i >= x.len() {
        i < y.len()
    } else if i >= y.len() {
        false
    } else {
        x[i] < y[i]
    }
}

/// What trimming the start leaves begins with a non-whitespace character, if anything.
proof fn lemma_trim_start_shape(s: Seq<char>)
    ensures
        trim_start(s).len() > 0 ==> !is_white_space(trim_start(s)[0]),
        trim_start(s).len() == 0 ==> trim_start(s) == Seq::<char>::empty(),
    decreases s.len(),
{
    if s.len() > 0 && is_white_space(s[0]) {
        lemma_trim_start_shape(s.drop_first());
    } else if s.len() == 0 {
        assert(s =~= Seq::<char>::empty());
    }
}

/// Trimming the end keeps a prefix that ends with a non-whitespace character, if anything.
proof fn lemma_trim_end_shape(s: Seq<char>)
    ensures
        trim_end(s).len() <= s.len(),
        trim_end(s) == s.subrange(0, trim_end(s).len() as int),
        trim_end(s).len() > 0 ==> !is_white_space(trim_end(s).last()),
    decreases s.len(),
{
    if s.len() > 0 && is_white_space(s.last()) {
        let t = s.drop_last();
        lemma_trim_end_shape(t);
        assert(t.subrange(0, trim_end(t).len() as int) =~= s.subrange(0, trim_end(t).len() as int));
    } else {
        assert(s.subrange(0, s.len() as int) =~= s);
    }
}

/// Trimming twice is trimming once; a trimmed text starts and ends with a
/// non-whitespace character.
pub proof fn lemma_trim_idempotent(s: Seq<char>)
    ensures
        trim(trim(s)) == trim(s),
        trim(s).len() > 0 ==> !is_white_space(trim(s)[0]) && !is_white_space(trim(s).last()),
{
    let u = trim_start(s);
    let t = trim_end(u);
    lemma_trim_start_shape(s);
    lemma_trim_end_shape(u);
    if t.len() > 0 {
        assert(t[0] == u[0]);
        assert(trim_start(t) == t);
        assert(trim_end(t) == t);
    } else {
        assert(t =~= Seq::<char>::empty());
        assert(trim_start(t) == t);
        assert(trim_end(t) == t);
    }
}

/// Trimming the start drops a run of leading whitespace and keeps the rest.
proof fn lemma_trim_start_suffix(s: Seq<char>)
    ensures
        trim_start(s).len() <= s.len(),
        trim_start(s) == s.subrange(s.len() - trim_start(s).len(), s.len() as int),
        forall|i: int| 0 <= i < s.len() - trim_start(s).len() ==> is_white_space(#[trigger] s[i]),
    decreases s.len(),
{
    if s.len() > 0 && is_white_space(s[0]) {
        let t = s.drop_first();
        lemma_trim_start_suffix(t);
        assert(t.subrange(t.len() - trim_start(t).len(), t.len() as int) =~= s.subrange(
            s.len() - trim_start(t).len(),
            s.len() as int,
        ));
        assert forall|i: int| 0 <= i < s.len() - trim_start(s).len() implies is_white_space(#[trigger] s[i]) by {
            if i > 0 {
                assert(s[i] == t[i - 1]);
            }
        }
    } else {
        assert(s.subrange(0, s.len() as int) =~= s);
    }
}

/// Trimming drops whitespace at both ends and keeps what lies between, unchanged.
pub proof fn lemma_trim_is_inner(s: Seq<char>)
    ensures
        exists|a: int, b: int| {
            &&& 0 <= a <= b <= s.len()
            &&& trim(s) == s.subrange(a, b)
            &&& forall|i: int| 0 <= i < a ==> is_white_space(#[trigger] s[i])
            &&& forall|i: int| b <= i < s.len() ==> is_white_space(#[trigger] s[i])
        },
{
    let u = trim_start(s);
    lemma_trim_start_suffix(s);
    lemma_trim_end_suffix(u);
    let a = s.len() - u.len();
    let b = a + trim_end(u).len();
    assert(trim(s) =~= s.subrange(a, b));
    assert forall|i: int| b <= i < s.len() implies is_white_space(#[trigger] s[i]) by {
        assert(s[i] == u[i - a]);
    }
}

/// Trimming the end keeps a prefix and drops only whitespace after it.
proof fn lemma_trim_end_suffix(s: Seq<char>)
    ensures
        trim_end(s).len() <= s.len(),
        trim_end(s) == s.subrange(0, trim_end(s).len() as int),
        forall|i: int| trim_end(s).len() <= i < s.len() ==> is_white_space(#[trigger] s[i]),
    decreases s.len(),
{
    if s.len() > 0 && is_white_space(s.last()) {
        let t = s.drop_last();
        lemma_trim_end_suffix(t);
        assert(t.subrange(0, trim_end(t).len() as int) =~= s.subrange(0, trim_end(t).len() as int));
        assert forall|i: int| trim_end(s).len() <= i < s.len() implies is_white_space(#[trigger] s[i]) by {
            if i < s.len() - 1 {
                assert(s[i] == t[i]);
            }
        }
    } else {
        assert(s.subrange(0, s.len() as int) =~= s);
    }
}

} // verus!
