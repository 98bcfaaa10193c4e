use vstd::prelude::*;

verus! {

/// The characters of `s`, one element per Unicode scalar value.
pub fn chars_of(s: &str) -> (v: Vec<char>)
    ensures
        v@ == s@,
{
    let mut v: Vec<char> = Vec::new();
    for c in it: s.chars()
        invariant
            v@ == it.seq().take(it.index()),
            it.seq() == s@,
    {
        v.push(c);
    }
    v
}

// ---------------------------------------------------------------------------
// Whitespace and trimming
// ---------------------------------------------------------------------------

/// The Unicode `White_Space` property, which is what `char::is_whitespace` tests.
pub open spec fn is_whitespace(c: char) -> bool {
    ||| ('\u{9}' <= c && c <= '\u{d}')
    ||| c == ' '
    ||| c == '\u{85}'
    ||| c == '\u{a0}'
    ||| c == '\u{1680}'
    ||| ('\u{2000}' <= c && c <= '\u{200a}')
    ||| c == '\u{2028}'
    ||| c == '\u{2029}'
    ||| c == '\u{202f}'
    ||| c == '\u{205f}'
    ||| c == '\u{3000}'
}

/// `char::is_whitespace`.
pub fn is_whitespace_char(c: char) -> (b: bool)
    ensures
        b == is_whitespace(c),
{
    ('\u{9}' <= c && c <= '\u{d}') || c == ' ' || c == '\u{85}' || c == '\u{a0}' || c
        == '\u{1680}' || ('\u{2000}' <= c && c <= '\u{200a}') || c == '\u{2028}' || c
        == '\u{2029}' || c == '\u{202f}' || c == '\u{205f}' || c == '\u{3000}'
}

/// `s` without its leading whitespace.
pub open spec fn trim_start(s: Seq<char>) -> Seq<char>
    decreases s.len(),
{
    if s.len() > 0 && is_whitespace(s[0]) {
        trim_start(s.drop_first())
    } else {
        s
    }
}

/// `s` without its trailing whitespace.
pub open spec fn trim_end(s: Seq<char>) -> Seq<char>
    decreases s.len(),
{
    if s.len() > 0 && is_whitespace(s.last()) {
        trim_end(s.drop_last())
    } else {
        s
    }
}

/// `s` without leading and trailing whitespace (what `str::trim` returns).
pub open spec fn trimmed(s: Seq<char>) -> Seq<char> {
    trim_end(trim_start(s))
}

proof fn lemma_trim_start_skip(s: Seq<char>, a: int)
    requires
        0 <= a <= s.len(),
        forall|k: int| 0 <= k < a ==> is_whitespace(#[trigger] s[k]),
        a == s.len() || !is_whitespace(s[a]),
    ensures
        trim_start(s) == s.skip(a),
    decreases a,
{
    if a == 0 {
        assert(s.skip(0) =~= s);
    } else {
        assert(is_whitespace(s[0]));
        let t = s.drop_first();
        assert forall|k: int| 0 <= k < a - 1 implies is_whitespace(#[trigger] t[k]) by {
            assert(t[k] == s[k + 1]);
        }
        if a - 1 < t.len() {
            assert(t[a - 1] == s[a]);
        }
        lemma_trim_start_skip(t, a - 1);
        assert(t.skip(a - 1) =~= s.skip(a));
    }
}

proof fn lemma_trim_end_take(s: Seq<char>, b: int)
    requires
        0 <= b <= s.len(),
        forall|k: int| b <= k < s.len() ==> is_whitespace(#[trigger] s[k]),
        b == 0 || !is_whitespace(s[b - 1]),
    ensures
        trim_end(s) == s.take(b),
    decreases s.len() - b,
{
    if b == s.len() {
        assert(s.take(b) =~= s);
    } else {
        assert(is_whitespace(s.last()));
        let t = s.drop_last();
        assert forall|k: int| b <= k < t.len() implies is_whitespace(#[trigger] t[k]) by {
            assert(t[k] == s[k]);
        }
        if b > 0 {
            assert(t[b - 1] == s[b - 1]);
        }
        lemma_trim_end_take(t, b);
        assert(t.take(b) =~= s.take(b));
    }
}

/// Index range `[a, b)` of `s` that `trimmed` keeps.
fn trim_bounds(s: &Vec<char>) -> (r: (usize, usize))
    ensures
        r.0 <= r.1 <= s.len(),
        trimmed(s@) == s@.subrange(r.0 as int, r.1 as int),
{
    let n = s.len();
    let mut a: usize = 0;
    while a < n && is_whitespace_char(s[a])
        invariant
            n == s.len(),
            a <= n,
            forall|k: int| 0 <= k < a ==> is_whitespace(#[trigger] s@[k]),
        decreases n - a,
    {
        a = a + 1;
    }
    let mut b: usize = n;
    while b > a && is_whitespace_char(s[b - 1])
        invariant
            n == s.len(),
            a <= b <= n,
            forall|k: int| b <= k < n ==> is_whitespace(#[trigger] s@[k]),
        decreases b,
    {
        b = b - 1;
    }
    proof {
        lemma_trim_start_skip(s@, a as int);
        let t = s@.skip(a as int);
        let bb = b - a;
        assert forall|k: int| bb <= k < t.len() implies is_whitespace(#[trigger] t[k]) by {
            assert(t[k] == s@[k + a]);
        }
        if bb > 0 {
            assert(t[bb - 1] == s@[b - 1]);
        }
        lemma_trim_end_take(t, bb as int);
        assert(t.take(bb as int) =~= s@.subrange(a as int, b as int));
    }
    (a, b)
}

/// `str::trim`: `s` without leading and trailing whitespace.
pub fn trim(s: &str) -> (r: String)
    ensures
        r@ == trimmed(s@),
{
    let v = chars_of(s);
    let (a, b) = trim_bounds(&v);
    s.substring_char(a, b).to_owned()
}


// ---------------------------------------------------------------------------
// Substrings
// ---------------------------------------------------------------------------

/// `p` occurs in `s` starting at index `i`.
pub open spec fn occurs_at(s: Seq<char>, p: Seq<char>, i: int) -> bool {
    0 <= i && i + p.len() <= s.len() && s.subrange(i, i + p.len()) == p
}

/// `p` is a substring of `s` (what `str::contains` tests).
pub open spec fn contains_seq(s: Seq<char>, p: Seq<char>) -> bool {
    exists|i: int| occurs_at(s, p, i)
}

/// `s` begins with `p`.
pub open spec fn starts_with_seq(s: Seq<char>, p: Seq<char>) -> bool {
    occurs_at(s, p, 0)
}

/// `s` ends with `p`.
pub open spec fn ends_with_seq(s: Seq<char>, p: Seq<char>) -> bool {
    p.len() <= s.len() && occurs_at(s, p, s.len() - p.len())
}

/// Whether `p` occurs in `s` at index `i`.
pub fn matches_at(s: &Vec<char>, p: &Vec<char>, i: usize) -> (b: bool)
    ensures
        b == occurs_at(s@, p@, i as int),
{
    if i > s.len() || p.len() > s.len() - i {
        return false;
    }
    let mut k: usize = 0;
    while k < p.len()
        invariant
            i + p.len() <= s.len(),
            k <= p.len(),
            forall|j: int| 0 <= j < k ==> s@[i + j] == p@[j],
        decreases p.len() - k,
    {
        if s[i + k] != p[k] {
            assert(s@.subrange(i as int, i + p.len())[k as int] != p@[k as int]);
            return false;
        }
        k = k + 1;
    }
    assert(s@.subrange(i as int, i + p.len()) =~= p@);
    true
}

/// Leftmost occurrence of `p` in `s` at or after index `from`.
pub fn find_from(s: &Vec<char>, p: &Vec<char>, from: usize) -> (r: Option<usize>)
    ensures
        match r {
            Some(i) => from <= i && occurs_at(s@, p@, i as int) && forall|j: int|
                from <= j < i ==> !occurs_at(s@, p@, j),
            None => forall|j: int| from <= j ==> !occurs_at(s@, p@, j),
        },
{
    if from > s.len() || p.len() > s.len() - from {
        return None;
    }
    let last = s.len() - p.len();
    let mut i = from;
    while i < last
        invariant
            from <= i <= last,
            last == s.len() - p.len(),
            p.len() <= s.len(),
            forall|j: int| from <= j < i ==> !occurs_at(s@, p@, j),
        decreases last - i,
    {
        if matches_at(s, p, i) {
            return Some(i);
        }
        i = i + 1;
    }
    if matches_at(s, p, last) {
        Some(last)
    } else {
        None
    }
}

/// `str::contains`: whether `p` is a substring of `s`.
pub fn contains(s: &Vec<char>, p: &Vec<char>) -> (b: bool)
    ensures
        b == contains_seq(s@, p@),
{
    match find_from(s, p, 0) {
        Some(i) => true,
        None => {
            assert forall|j: int| !occurs_at(s@, p@, j) by {}
            false
        },
    }
}

/// `str::starts_with`.
pub fn starts_with(s: &Vec<char>, p: &Vec<char>) -> (b: bool)
    ensures
        b == starts_with_seq(s@, p@),
{
    matches_at(s, p, 0)
}

/// `str::ends_with`.
pub fn ends_with(s: &Vec<char>, p: &Vec<char>) -> (b: bool)
    ensures
        b == ends_with_seq(s@, p@),
{
    if p.len() > s.len() {
        false
    } else {
        matches_at(s, p, s.len() - p.len())
    }
}


// ---------------------------------------------------------------------------
// Splitting
// ---------------------------------------------------------------------------

/// The fields of `s` between the non-overlapping occurrences of `sep`, found
/// from the left (what `str::split` yields for a non-empty separator).
pub open spec fn split_seq(s: Seq<char>, sep: Seq<char>) -> Seq<Seq<char>>
    decreases s.len(),
{
    if s.len() == 0 {
        seq![Seq::<char>::empty()]
    } else if sep.len() > 0 && starts_with_seq(s, sep) {
        seq![Seq::<char>::empty()] + split_seq(s.skip(sep.len() as int), sep)
    } else {
        let r = split_seq(s.drop_first(), sep);
        r.update(0, seq![s[0]] + r[0])
    }
}

pub proof fn lemma_split_nonempty(s: Seq<char>, sep: Seq<char>)
    ensures
        split_seq(s, sep).len() >= 1,
    decreases s.len(),
{
    if s.len() == 0 {
    } else if sep.len() > 0 && starts_with_seq(s, sep) {
        lemma_split_nonempty(s.skip(sep.len() as int), sep);
    } else {
        lemma_split_nonempty(s.drop_first(), sep);
    }
}

/// A text free of the separator's first character, followed by the
/// separator, is the first field.
pub proof fn lemma_split_prefix(a: Seq<char>, sep: Seq<char>, r: Seq<char>)
    requires
        sep.len() > 0,
        forall|i: int| 0 <= i < a.len() ==> #[trigger] a[i] != sep[0],
    ensures
        split_seq(a + sep + r, sep) == seq![a] + split_seq(r, sep),
    decreases a.len(),
{
    let s = a + sep + r;
    if a.len() == 0 {
        assert(s.subrange(0, sep.len() as int) =~= sep);
        assert(s.skip(sep.len() as int) =~= r);
        assert(a =~= Seq::<char>::empty());
    } else {
        assert(s.subrange(0, sep.len() as int)[0] == a[0]);
        assert(!starts_with_seq(s, sep));
        let a2 = a.drop_first();
        assert forall|i: int| 0 <= i < a2.len() implies #[trigger] a2[i] != sep[0] by {
            assert(a2[i] == a[i + 1]);
        }
        assert(s.drop_first() =~= a2 + sep + r);
        lemma_split_prefix(a2, sep, r);
        assert(seq![s[0]] + a2 =~= a);
        assert(split_seq(s, sep) =~= seq![a] + split_seq(r, sep));
    }
}

/// A text free of the separator's first character is a single field.
pub proof fn lemma_split_whole(a: Seq<char>, sep: Seq<char>)
    requires
        sep.len() > 0,
        forall|i: int| 0 <= i < a.len() ==> #[trigger] a[i] != sep[0],
    ensures
        split_seq(a, sep) == seq![a],
    decreases a.len(),
{
    if a.len() == 0 {
        assert(a =~= Seq::<char>::empty());
    } else {
        if sep.len() <= a.len() {
            assert(a.subrange(0, sep.len() as int)[0] == a[0]);
        }
        assert(!starts_with_seq(a, sep));
        let a2 = a.drop_first();
        assert forall|i: int| 0 <= i < a2.len() implies #[trigger] a2[i] != sep[0] by {
            assert(a2[i] == a[i + 1]);
        }
        lemma_split_whole(a2, sep);
        assert(seq![a[0]] + a2 =~= a);
        assert(split_seq(a, sep) =~= seq![a]);
    }
}

/// The fields found so far (`done`), the field being read (`cur`), and the
/// split of the rest of the input (`rest`), put together.
pub open spec fn join_fields(done: Seq<Seq<char>>, cur: Seq<char>, rest: Seq<Seq<char>>) -> Seq<
    Seq<char>,
> {
    done + seq![cur + rest[0]] + rest.drop_first()
}

/// The contents of a list of character vectors.
pub open spec fn views(v: Seq<Vec<char>>) -> Seq<Seq<char>> {
    v.map_values(|x: Vec<char>| x@)
}

/// `str::split` with a non-empty separator, collected.
pub fn split(s: &Vec<char>, sep: &Vec<char>) -> (r: Vec<Vec<char>>)
    requires
        sep.len() > 0,
    ensures
        views(r@) == split_seq(s@, sep@),
        r.len() >= 1,
{
    let mut parts: Vec<Vec<char>> = Vec::new();
    let mut cur: Vec<char> = Vec::new();
    let mut i: usize = 0;
    proof {
        assert(s@.skip(0) =~= s@);
        lemma_split_nonempty(s@, sep@);
        assert(views(parts@) =~= Seq::<Seq<char>>::empty());
        assert(cur@ + split_seq(s@, sep@)[0] =~= split_seq(s@, sep@)[0]);
        assert(join_fields(views(parts@), cur@, split_seq(s@, sep@)) =~= split_seq(s@, sep@));
    }
    while i < s.len()
        invariant
            sep.len() > 0,
            i <= s.len(),
            split_seq(s@, sep@) == join_fields(
                views(parts@),
                cur@,
                split_seq(s@.skip(i as int), sep@),
            ),
        decreases s.len() - i,
    {
        let ghost t = s@.skip(i as int);
        let ghost old_parts = views(parts@);
        let ghost old_cur = cur@;
        if matches_at(s, sep, i) {
            proof {
                assert(t.subrange(0, sep@.len() as int) =~= s@.subrange(i as int, i + sep@.len()));
                assert(t.skip(sep@.len() as int) =~= s@.skip(i + sep@.len()));
                lemma_split_nonempty(t.skip(sep@.len() as int), sep@);
            }
            parts.push(cur);
            cur = Vec::new();
            i = i + sep.len();
            proof {
                let rest = split_seq(s@.skip(i as int), sep@);
                assert(views(parts@) =~= old_parts.push(old_cur));
                assert(split_seq(t, sep@) == seq![Seq::<char>::empty()] + rest);
                assert(join_fields(old_parts, old_cur, split_seq(t, sep@)) =~= join_fields(
                    views(parts@),
                    cur@,
                    rest,
                ));
            }
        } else {
            proof {
                if starts_with_seq(t, sep@) {
                    assert(s@.subrange(i as int, i + sep@.len()) =~= t.subrange(
                        0,
                        sep@.len() as int,
                    ));
                }
                assert(t.drop_first() =~= s@.skip(i + 1));
                lemma_split_nonempty(t.drop_first(), sep@);
            }
            cur.push(s[i]);
            i = i + 1;
            proof {
                let rest = split_seq(s@.skip(i as int), sep@);
                assert(split_seq(t, sep@) == rest.update(0, seq![t[0]] + rest[0]));
                assert(old_cur + (seq![t[0]] + rest[0]) =~= cur@ + rest[0]);
                assert(join_fields(old_parts, old_cur, split_seq(t, sep@)) =~= join_fields(
                    views(parts@),
                    cur@,
                    rest,
                ));
            }
        }
    }
    let ghost old_parts = views(parts@);
    let ghost old_cur = cur@;
    parts.push(cur);
    proof {
        assert(s@.skip(i as int) =~= Seq::<char>::empty());
        assert(views(parts@) =~= old_parts.push(old_cur));
        assert(join_fields(old_parts, old_cur, split_seq(s@.skip(i as int), sep@))
            =~= views(parts@));
    }
    parts
}

// ---------------------------------------------------------------------------
// Replacing
// ---------------------------------------------------------------------------

/// `s` with every non-overlapping occurrence of `from`, found from the left,
/// replaced by `to`; an empty `from` matches before every character and at
/// the end (what `str::replace` returns).
pub open spec fn replace_seq(s: Seq<char>, from: Seq<char>, to: Seq<char>) -> Seq<char>
    decreases s.len(),
{
    if from.len() == 0 {
        if s.len() == 0 {
            to
        } else {
            to + seq![s[0]] + replace_seq(s.drop_first(), from, to)
        }
    } else if starts_with_seq(s, from) {
        to + replace_seq(s.skip(from.len() as int), from, to)
    } else if s.len() == 0 {
        Seq::empty()
    } else {
        seq![s[0]] + replace_seq(s.drop_first(), from, to)
    }
}

/// `str::replace`.
pub fn replace_all(s: &str, from: &str, to: &str) -> (r: String)
    ensures
        r@ == replace_seq(s@, from@, to@),
{
    let v = chars_of(s);
    let f = chars_of(from);
    let n = v.len();
    let mut out = String::new();
    if f.len() == 0 {
        out.append(to);
        let mut i: usize = 0;
        proof {
            assert(s@.skip(0) =~= s@);
        }
        while i < n
            invariant
                n == s@.len(),
                from@.len() == 0,
                i <= n,
                out@ + replace_seq(s@.skip(i as int), from@, to@).skip(to@.len() as int)
                    == replace_seq(s@, from@, to@),
                replace_seq(s@.skip(i as int), from@, to@).take(to@.len() as int) == to@,
                replace_seq(s@.skip(i as int), from@, to@).len() >= to@.len(),
            decreases n - i,
        {
            let ghost t = s@.skip(i as int);
            let ghost o = out@;
            out.append(s.substring_char(i, i + 1));
            out.append(to);
            i = i + 1;
            proof {
                let t2 = s@.skip(i as int);
                assert(t.drop_first() =~= t2);
                let rt = replace_seq(t, from@, to@);
                let r2 = replace_seq(t2, from@, to@);
                assert(rt == to@ + seq![t[0]] + r2);
                assert(s@.subrange(i - 1, i as int) =~= seq![t[0]]);
                if t2.len() == 0 {
                    assert(r2 == to@);
                } else {
                    assert(r2 == to@ + seq![t2[0]] + replace_seq(t2.drop_first(), from@, to@));
                }
                assert(r2.take(to@.len() as int) =~= to@);
                assert(rt.skip(to@.len() as int) =~= seq![t[0]] + r2);
                assert(out@ + r2.skip(to@.len() as int) =~= o + rt.skip(to@.len() as int));
            }
        }
        proof {
            let t = s@.skip(i as int);
            assert(t =~= Seq::<char>::empty());
            assert(replace_seq(t, from@, to@).skip(to@.len() as int) =~= Seq::<char>::empty());
            assert(out@ =~= out@ + Seq::<char>::empty());
        }
        return out;
    }
    let mut i: usize = 0;
    let mut run: usize = 0;
    proof {
        assert(s@.skip(0) =~= s@);
        assert(s@.subrange(0, 0) =~= Seq::<char>::empty());
    }
    while i < n
        invariant
            n == v.len(),
            v@ == s@,
            f@ == from@,
            f.len() > 0,
            run <= i <= n,
            out@ + s@.subrange(run as int, i as int) + replace_seq(s@.skip(i as int), from@, to@)
                == replace_seq(s@, from@, to@),
        decreases n - i,
    {
        let ghost t = s@.skip(i as int);
        let ghost o = out@;
        let ghost pend = s@.subrange(run as int, i as int);
        if matches_at(&v, &f, i) {
            out.append(s.substring_char(run, i));
            out.append(to);
            i = i + f.len();
            run = i;
            proof {
                assert(t.subrange(0, from@.len() as int) =~= s@.subrange(
                    i - from@.len(),
                    i as int,
                ));
                assert(t.skip(from@.len() as int) =~= s@.skip(i as int));
                assert(s@.subrange(run as int, i as int) =~= Seq::<char>::empty());
                assert(out@ + s@.subrange(run as int, i as int) + replace_seq(
                    s@.skip(i as int),
                    from@,
                    to@,
                ) =~= o + pend + replace_seq(t, from@, to@));
            }
        } else {
            i = i + 1;
            proof {
                if starts_with_seq(t, from@) {
                    assert(s@.subrange(i - 1, i - 1 + from@.len()) =~= t.subrange(
                        0,
                        from@.len() as int,
                    ));
                }
                assert(t.drop_first() =~= s@.skip(i as int));
                assert(s@.subrange(run as int, i as int) =~= pend + seq![t[0]]);
                assert(out@ + s@.subrange(run as int, i as int) + replace_seq(
                    s@.skip(i as int),
                    from@,
                    to@,
                ) =~= o + pend + replace_seq(t, from@, to@));
            }
        }
    }
    out.append(s.substring_char(run, i));
    proof {
        assert(s@.skip(i as int) =~= Seq::<char>::empty());
    }
    out
}


// ---------------------------------------------------------------------------
// Decimal numbers
// ---------------------------------------------------------------------------

/// An ASCII decimal digit.
pub open spec fn is_digit(c: char) -> bool {
    '0' <= c && c <= '9'
}

/// The value of the ASCII digit `c`.
pub open spec fn digit_value(c: char) -> nat {
    (c as int - '0' as int) as nat
}

/// The number written by the decimal digits `d`.
pub open spec fn digits_value(d: Seq<char>) -> nat
    decreases d.len(),
{
    if d.len() == 0 {
        0
    } else {
        digits_value(d.drop_last()) * 10 + digit_value(d.last())
    }
}

/// The digits of an unsigned number: `s` without one leading `+`.
pub open spec fn unsigned_digits(s: Seq<char>) -> Seq<char> {
    if s.len() > 0 && s[0] == '+' {
        s.drop_first()
    } else {
        s
    }
}

/// The value of `s` read as an unsigned decimal number: an optional `+`
/// followed by at least one ASCII digit.
pub open spec fn parse_unsigned(s: Seq<char>) -> Option<nat> {
    let d = unsigned_digits(s);
    if d.len() > 0 && forall|i: int| 0 <= i < d.len() ==> is_digit(#[trigger] d[i]) {
        Some(digits_value(d))
    } else {
        None
    }
}

/// What `u8::from_str` (with `max` 255) or `u16::from_str` (with `max`
/// 65535) accepts, and the value it gives.
pub open spec fn parse_bounded(s: Seq<char>, max: nat) -> Option<nat> {
    match parse_unsigned(s) {
        Some(v) => if v <= max {
            Some(v)
        } else {
            None
        },
        None => None,
    }
}

proof fn lemma_digits_value_monotone(d: Seq<char>, i: int, j: int)
    requires
        0 <= i <= j <= d.len(),
    ensures
        digits_value(d.take(i)) <= digits_value(d.take(j)),
    decreases j - i,
{
    if i < j {
        lemma_digits_value_monotone(d, i, j - 1);
        assert(d.take(j).drop_last() =~= d.take(j - 1));
    }
}

/// Parses `s` as an unsigned decimal number no greater than `max`, as
/// `u8::from_str` and `u16::from_str` do.
pub fn parse_decimal(s: &Vec<char>, max: u32) -> (r: Option<u32>)
    requires
        max <= 100_000_000,
    ensures
        match parse_bounded(s@, max as nat) {
            Some(v) => r == Some(v as u32),
            None => r is None,
        },
{
    let n = s.len();
    let start: usize = if n > 0 && s[0] == '+' {
        1
    } else {
        0
    };
    let ghost d = unsigned_digits(s@);
    assert(d =~= s@.skip(start as int));
    if start == n {
        return None;
    }
    let mut acc: u32 = 0;
    let mut k: usize = start;
    assert(d.take(0) =~= Seq::<char>::empty());
    while k < n
        invariant
            start <= k <= n,
            n == s.len(),
            d == s@.skip(start as int),
            d == unsigned_digits(s@),
            max <= 100_000_000,
            acc <= max,
            acc == digits_value(d.take(k - start)),
            forall|i: int| 0 <= i < k - start ==> is_digit(#[trigger] d[i]),
        decreases n - k,
    {
        let c = s[k];
        if !('0' <= c && c <= '9') {
            assert(d[k - start] == c);
            assert(!is_digit(d[k - start]));
            assert(parse_unsigned(s@) is None);
            return None;
        }
        let dv: u32 = (c as u32) - ('0' as u32);
        let next: u32 = acc * 10 + dv;
        proof {
            assert(d[k - start] == c);
            assert(d.take(k + 1 - start).drop_last() =~= d.take(k - start));
            assert(digits_value(d.take(k + 1 - start)) == next);
        }
        if next > max {
            proof {
                lemma_digits_value_monotone(d, k + 1 - start, d.len() as int);
                assert(d.take(d.len() as int) =~= d);
                assert(digits_value(d) > max);
                assert(parse_bounded(s@, max as nat) is None);
            }
            return None;
        }
        acc = next;
        k = k + 1;
    }
    assert(d.take(n - start) =~= d);
    Some(acc)
}


// ---------------------------------------------------------------------------
// Comparing and building strings
// ---------------------------------------------------------------------------

/// Whether `a` and `b` hold the same characters.
pub fn same_chars(a: &Vec<char>, b: &Vec<char>) -> (r: bool)
    ensures
        r == (a@ == b@),
{
    if a.len() != b.len() {
        return false;
    }
    let r = matches_at(a, b, 0);
    proof {
        assert(a@.subrange(0, a@.len() as int) =~= a@);
    }
    r
}

/// Whether the string `s` equals `t`.
pub fn str_eq(s: &str, t: &str) -> (r: bool)
    ensures
        r == (s@ == t@),
{
    let a = chars_of(s);
    let b = chars_of(t);
    same_chars(&a, &b)
}

/// The string made of the characters of `v`, in order
/// (`String: FromIterator<char>`).
#[verifier::external_body]
pub fn string_from_chars(v: &Vec<char>) -> (s: String)
    ensures
        s@ == v@,
{
    v.iter().collect()
}

/// The digit character for `d`, which is below ten.
pub open spec fn digit_char(d: nat) -> char {
    ('0' as nat + d) as char
}

/// The decimal representation of `n`, without leading zeros
/// (what `to_string` gives for an unsigned integer).
pub open spec fn decimal(n: nat) -> Seq<char>
    decreases n,
{
    if n < 10 {
        seq![digit_char(n)]
    } else {
        decimal(n / 10) + seq![digit_char(n % 10)]
    }
}

/// `n.to_string()` for a `u8`.
pub fn u8_to_decimal(n: u8) -> (r: String)
    ensures
        r@ == decimal(n as nat),
{
    let mut v: Vec<char> = Vec::new();
    if n >= 100 {
        v.push((('0' as u8) + n / 100) as char);
    }
    if n >= 10 {
        v.push((('0' as u8) + (n / 10) % 10) as char);
    }
    v.push((('0' as u8) + n % 10) as char);
    proof {
        let m = n as nat;
        if m >= 100 {
            assert(decimal(m / 100) == seq![digit_char(m / 100)]);
            assert(decimal(m / 10) == decimal(m / 100) + seq![digit_char((m / 10) % 10)]);
            assert(v@ =~= decimal(m));
        } else if m >= 10 {
            assert(decimal(m / 10) == seq![digit_char(m / 10)]);
            assert(v@ =~= decimal(m));
        } else {
            assert(v@ =~= decimal(m));
        }
    }
    string_from_chars(&v)
}

} // verus!
