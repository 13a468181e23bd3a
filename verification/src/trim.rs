//! White space, and what is left of a line once it is trimmed.
use vstd::prelude::*;
use vstd::std_specs::iter::IteratorSpec;
use vstd::string::*;

verus! {

/// Whether `c` has the Unicode property `White_Space`.
pub open spec fn white_space(c: char) -> bool {
    let n = c as u32;
    ||| 0x09 <= n <= 0x0D
    ||| n == 0x20
    ||| n == 0x85
    ||| n == 0xA0
    ||| n == 0x1680
    ||| 0x2000 <= n <= 0x200A
    ||| n == 0x2028
    ||| n == 0x2029
    ||| n == 0x202F
    ||| n == 0x205F
    ||| n == 0x3000
}

/// Whether every character of `s` is white space.
pub open spec fn is_blank(s: Seq<char>) -> bool {
    forall|i: int| 0 <= i < s.len() ==> white_space(#[trigger] s[i])
}

/// `s` without the white space at its start.
pub open spec fn trimmed_start(s: Seq<char>) -> Seq<char>
    decreases s.len(),
{
    if s.len() > 0 && white_space(s.first()) {
        trimmed_start(s.drop_first())
    } else {
        s
    }
}

/// `s` without the white space at its end.
pub open spec fn trimmed_end(s: Seq<char>) -> Seq<char>
    decreases s.len(),
{
    if s.len() > 0 && white_space(s.last()) {
        trimmed_end(s.drop_last())
    } else {
        s
    }
}

/// `s` without the white space at either end.
pub open spec fn trimmed(s: Seq<char>) -> Seq<char> {
    trimmed_end(trimmed_start(s))
}

/// Whether `s[a..b]` is `s` with exactly its outer white space cut off.
pub open spec fn is_trim_of(s: Seq<char>, a: int, b: int) -> bool {
    &&& 0 <= a <= b <= s.len()
    &&& is_blank(s.take(a))
    &&& is_blank(s.skip(b))
    &&& a < b ==> !white_space(s[a]) && !white_space(s[b - 1])
}

/// Cutting white space off the start leaves `s` from its first character
/// that is not white space.
pub proof fn lemma_trimmed_start_from(s: Seq<char>, a: int)
    requires
        0 <= a <= s.len(),
        is_blank(s.take(a)),
        a < s.len() ==> !white_space(s[a]),
    ensures
        trimmed_start(s) == s.skip(a),
    decreases a,
{
    if a == 0 {
        assert(s.skip(0) =~= s);
    } else {
        assert(s.take(a)[0] == s[0]);
        let rest = s.drop_first();
        assert forall|i: int| 0 <= i < a - 1 implies white_space(
            #[trigger] rest.take(a - 1)[i],
        ) by {
            assert(rest.take(a - 1)[i] == s.take(a)[i + 1]);
        }
        lemma_trimmed_start_from(rest, a - 1);
        assert(rest.skip(a - 1) =~= s.skip(a));
    }
}

/// Cutting white space off the end leaves `s` up to its last character that
/// is not white space.
pub proof fn lemma_trimmed_end_to(s: Seq<char>, b: int)
    requires
        0 <= b <= s.len(),
        is_blank(s.skip(b)),
        b > 0 ==> !white_space(s[b - 1]),
    ensures
        trimmed_end(s) == s.take(b),
    decreases s.len() - b,
{
    if b == s.len() {
        assert(s.take(b) =~= s);
    } else {
        assert(s.skip(b)[s.len() - b - 1] == s.last());
        let front = s.drop_last();
        assert forall|i: int| 0 <= i < front.len() - b implies white_space(
            #[trigger] front.skip(b)[i],
        ) by {
            assert(front.skip(b)[i] == s.skip(b)[i]);
        }
        lemma_trimmed_end_to(front, b);
        assert(front.take(b) =~= s.take(b));
    }
}

/// The trimmed text is fixed by where the outer white space ends and begins.
pub proof fn lemma_trimmed_is(s: Seq<char>, a: int, b: int)
    requires
        is_trim_of(s, a, b),
    ensures
        trimmed(s) == s.subrange(a, b),
{
    if a == b {
        // Nothing but white space: everything goes from the start.
        assert forall|i: int| 0 <= i < s.len() implies white_space(#[trigger] s[i]) by {
            if i < a {
                assert(s.take(a)[i] == s[i]);
            } else {
                assert(s.skip(b)[i - b] == s[i]);
            }
        }
        assert(s.take(s.len() as int) =~= s);
        lemma_trimmed_start_from(s, s.len() as int);
        assert(s.skip(s.len() as int) =~= s.subrange(a, b));
    } else {
        lemma_trimmed_start_from(s, a);
        let rest = s.skip(a);
        assert(rest.skip(b - a) =~= s.skip(b));
        lemma_trimmed_end_to(rest, b - a);
        assert(rest.take(b - a) =~= s.subrange(a, b));
    }
}

/// Where the trimmed text lies in `s`: bounds `(a, b)` with
/// `is_trim_of(s, a, b)`. Such bounds always exist.
pub proof fn lemma_trim_bounds(s: Seq<char>) -> (r: (int, int))
    ensures
        is_trim_of(s, r.0, r.1),
        trimmed(s) == s.subrange(r.0, r.1),
    decreases s.len(),
{
    let r = if s.len() == 0 {
        (0int, 0int)
    } else if white_space(s.first()) {
        let (a, b) = lemma_trim_bounds(s.drop_first());
        let rest = s.drop_first();
        assert forall|i: int| 0 <= i < a + 1 implies white_space(
            #[trigger] s.take(a + 1)[i],
        ) by {
            if i > 0 {
                assert(rest.take(a)[i - 1] == s[i]);
            }
        }
        assert(s.skip(b + 1) =~= rest.skip(b));
        (a + 1, b + 1)
    } else if white_space(s.last()) {
        let front = s.drop_last();
        let (a, b) = lemma_trim_bounds(front);
        assert(s.take(a) =~= front.take(a));
        assert forall|i: int| 0 <= i < s.len() - b implies white_space(
            #[trigger] s.skip(b)[i],
        ) by {
            if i < front.len() - b {
                assert(front.skip(b)[i] == s[b + i]);
            }
        }
        (a, b)
    } else {
        (0int, s.len() as int)
    };
    lemma_trimmed_is(s, r.0, r.1);
    r
}

/// Trimmed text neither starts nor ends with white space.
pub proof fn lemma_trimmed_has_no_outer_white_space(s: Seq<char>)
    ensures
        trimmed(s).len() > 0 ==> !white_space(trimmed(s).first()) && !white_space(
            trimmed(s).last(),
        ),
{
    let (a, b) = lemma_trim_bounds(s);
}

/// Trimming is canonical: text that was trimmed is left as it is.
pub proof fn lemma_trim_idempotent(s: Seq<char>)
    ensures
        trimmed(trimmed(s)) == trimmed(s),
{
    let t = trimmed(s);
    lemma_trimmed_has_no_outer_white_space(s);
    lemma_trimmed_is(t, 0, t.len() as int);
    assert(t.subrange(0, t.len() as int) =~= t);
}

/// White space around a text does not change what trimming leaves of it.
pub proof fn lemma_trim_ignores_padding(before: Seq<char>, s: Seq<char>, after: Seq<char>)
    requires
        is_blank(before),
        is_blank(after),
    ensures
        trimmed(before + s + after) == trimmed(s),
{
    let whole = before + s + after;
    let (a, b) = lemma_trim_bounds(s);
    let k = before.len() as int;
    if a == b {
        // `s` is blank as well, and so is the whole.
        let n = whole.len() as int;
        assert forall|i: int| 0 <= i < n implies white_space(#[trigger] whole.take(n)[i]) by {
            if k <= i < k + a {
                assert(s.take(a)[i - k] == whole[i]);
            } else if k + b <= i < k + s.len() {
                assert(s.skip(b)[i - k - b] == whole[i]);
            }
        }
        lemma_trimmed_is(whole, n, n);
        assert(whole.subrange(n, n) =~= s.subrange(a, b));
    } else {
        assert forall|i: int| 0 <= i < k + a implies white_space(
            #[trigger] whole.take(k + a)[i],
        ) by {
            if i >= k {
                assert(s.take(a)[i - k] == whole[i]);
            }
        }
        assert forall|i: int| 0 <= i < whole.len() - (k + b) implies white_space(
            #[trigger] whole.skip(k + b)[i],
        ) by {
            if i < s.len() - b {
                assert(s.skip(b)[i] == whole[k + b + i]);
            }
        }
        lemma_trimmed_is(whole, k + a, k + b);
        assert(whole.subrange(k + a, k + b) =~= s.subrange(a, b));
    }
}

/// Whether `c` is white space.
pub fn is_whitespace(c: char) -> (b: bool)
    ensures
        b == white_space(c),
{
    let n: u32 = c as u32;
    (0x09 <= n && n <= 0x0D) || n == 0x20 || n == 0x85 || n == 0xA0 || n == 0x1680 || (0x2000 <= n
        && n <= 0x200A) || n == 0x2028 || n == 0x2029 || n == 0x202F || n == 0x205F || n == 0x3000
}

/// The part of `s` between its leading and its trailing white space.
pub fn trim(s: &str) -> (t: &str)
    ensures
        t@ == trimmed(s@),
{
    let len = s.unicode_len();
    let mut chars = s.chars();
    let mut i: usize = 0;
    // `s[start..end]` is the trimmed part of what was read so far.
    let mut start: usize = 0;
    let mut end: usize = 0;
    loop
        invariant
            len == s@.len(),
            i <= len,
            chars.remaining() == s@.skip(i as int),
            is_trim_of(s@.take(i as int), start as int, end as int),
        ensures
            i == len,
        decreases len - i,
    {
        let ghost seen = s@.take(i as int);
        match chars.next() {
            Some(c) => {
                let ghost more = s@.take(i + 1);
                if is_whitespace(c) {
                    proof {
                        // `c` joins the white space at the end.
                        assert(more.take(start as int) =~= seen.take(start as int));
                        assert forall|k: int| 0 <= k < more.len() - end implies white_space(
                            #[trigger] more.skip(end as int)[k],
                        ) by {
                            if k < seen.len() - end {
                                assert(seen.skip(end as int)[k] == more[end + k]);
                            }
                        }
                    }
                } else {
                    proof {
                        if start == end {
                            // All that came before `c` is white space.
                            assert forall|k: int| 0 <= k < i implies white_space(
                                #[trigger] more.take(i as int)[k],
                            ) by {
                                if k < start {
                                    assert(seen.take(start as int)[k] == more[k]);
                                } else {
                                    assert(seen.skip(end as int)[k - end] == more[k]);
                                }
                            }
                        } else {
                            assert(more.take(start as int) =~= seen.take(start as int));
                        }
                    }
                    if start == end {
                        start = i;
                    }
                    end = i + 1;
                }
                i = i + 1;
            },
            None => {
                break ;
            },
        }
    }
    proof {
        assert(s@.take(len as int) =~= s@);
        lemma_trimmed_is(s@, start as int, end as int);
    }
    s.substring_char(start, end)
}

} // verus!
