use vstd::prelude::*;
use vstd::string::StrSliceExecFns;

use crate::width::{char_width, char_width_of, seg_width};

verus! {

/// How many leading characters of `s` fit in a width budget of `w`
/// columns: characters are taken greedily while the running sum of
/// their display widths stays within `w`.
pub open spec fn take_count(s: Seq<char>, w: int) -> nat
    decreases s.len(),
{
    if s.len() == 0 || char_width(s[0]) > w {
        0
    } else {
        (1 + take_count(s.drop_first(), w - char_width(s[0]))) as nat
    }
}

/// The length of the segment cut off the front of a non-empty line:
/// the greedy count, except that a character too wide for the whole
/// budget still makes a one-character segment, so that splitting always
/// makes progress.
pub open spec fn first_seg_len(s: Seq<char>, w: int) -> nat {
    if take_count(s, w) == 0 && s.len() > 0 {
        1
    } else {
        take_count(s, w)
    }
}

pub proof fn lemma_take_count_le_len(s: Seq<char>, w: int)
    ensures
        take_count(s, w) <= s.len(),
    decreases s.len(),
{
    if s.len() > 0 && char_width(s[0]) <= w {
        lemma_take_count_le_len(s.drop_first(), w - char_width(s[0]));
    }
}

pub proof fn lemma_first_seg_len_bounds(s: Seq<char>, w: int)
    requires
        s.len() > 0,
    ensures
        1 <= first_seg_len(s, w) <= s.len(),
{
    lemma_take_count_le_len(s, w);
}

/// All the segments a line is wrapped into, in order, each cut
/// greedily to the width budget `w`.
pub open spec fn wrap_segments(s: Seq<char>, w: int) -> Seq<Seq<char>>
    decreases s.len(),
    via wrap_segments_decreases
{
    if s.len() == 0 {
        Seq::empty()
    } else {
        let k = first_seg_len(s, w) as int;
        seq![s.subrange(0, k)] + wrap_segments(s.subrange(k, s.len() as int), w)
    }
}

#[via_fn]
proof fn wrap_segments_decreases(s: Seq<char>, w: int) {
    if s.len() > 0 {
        lemma_first_seg_len_bounds(s, w);
    }
}

/// The width of the greedily taken prefix stays within the budget.
proof fn lemma_take_count_width(s: Seq<char>, w: int)
    ensures
        seg_width(s.subrange(0, take_count(s, w) as int)) <= w || take_count(s, w) == 0,
    decreases s.len(),
{
    lemma_take_count_le_len(s, w);
    if s.len() > 0 && char_width(s[0]) <= w {
        let w2 = w - char_width(s[0]);
        let t = s.drop_first();
        lemma_take_count_le_len(t, w2);
        lemma_take_count_width(t, w2);
        let k = take_count(s, w) as int;
        assert(k == 1 + take_count(t, w2));
        let pre = s.subrange(0, k);
        assert(pre[0] == s[0]);
        assert(pre.drop_first() =~= t.subrange(0, take_count(t, w2) as int));
        assert(seg_width(pre) == char_width(s[0]) + seg_width(pre.drop_first()));
        if take_count(t, w2) == 0 {
            assert(seg_width(pre.drop_first()) == 0);
        }
    }
}

/// Every wrapped segment is non-empty, and its display width stays
/// within the budget, except that a single character wider than the
/// whole budget stands as a segment of its own.
pub proof fn lemma_wrap_segments_widths(s: Seq<char>, w: int)
    ensures
        forall|i: int|
            0 <= i < wrap_segments(s, w).len() ==> {
                let seg = #[trigger] wrap_segments(s, w)[i];
                seg.len() >= 1 && (seg_width(seg) <= w || (seg.len() == 1 && seg_width(seg)
                    > w))
            },
    decreases s.len(),
{
    if s.len() > 0 {
        lemma_first_seg_len_bounds(s, w);
        let k = first_seg_len(s, w) as int;
        let head = s.subrange(0, k);
        let rest = s.subrange(k, s.len() as int);
        lemma_wrap_segments_widths(rest, w);
        lemma_take_count_width(s, w);
        if take_count(s, w) == 0 {
            assert(head.len() == 1);
            assert(head[0] == s[0]);
            assert(head.drop_first() =~= Seq::<char>::empty());
            assert(seg_width(Seq::<char>::empty()) == 0);
            assert(seg_width(head) == char_width(head[0]) + seg_width(head.drop_first()));
            assert(seg_width(head) == char_width(s[0]));
            assert(char_width(s[0]) > w);
        }
        assert forall|i: int| 0 <= i < wrap_segments(s, w).len() implies {
            let seg = #[trigger] wrap_segments(s, w)[i];
            seg.len() >= 1 && (seg_width(seg) <= w || (seg.len() == 1 && seg_width(seg) > w))
        } by {
            if i == 0 {
                assert(wrap_segments(s, w)[0] == head);
            } else {
                assert(wrap_segments(s, w)[i] == wrap_segments(rest, w)[i - 1]);
            }
        }
    }
}

/// Concatenating all the segments, in order, reproduces the line.
pub proof fn lemma_wrap_segments_concat(s: Seq<char>, w: int)
    ensures
        wrap_segments(s, w).flatten() =~= s,
    decreases s.len(),
{
    if s.len() == 0 {
        assert(wrap_segments(s, w).flatten() =~= Seq::<char>::empty());
    } else {
        lemma_first_seg_len_bounds(s, w);
        let k = first_seg_len(s, w) as int;
        let head = s.subrange(0, k);
        let rest = s.subrange(k, s.len() as int);
        lemma_wrap_segments_concat(rest, w);
        let segs = wrap_segments(s, w);
        assert(segs.first() == head);
        assert(segs.drop_first() =~= wrap_segments(rest, w));
        assert(segs.flatten() == head + wrap_segments(rest, w).flatten());
    }
}

/// The greedy count, computed by walking the characters while the
/// remaining budget lasts.
fn take_fit(s: &str, max_width: usize) -> (k: usize)
    ensures
        k as nat == take_count(s@, max_width as int),
        k <= s@.len(),
{
    let n = s.unicode_len();
    let mut i: usize = 0;
    let mut budget: usize = max_width;
    proof {
        lemma_take_count_le_len(s@, max_width as int);
        assert(s@.subrange(0, n as int) =~= s@);
    }
    loop
        invariant
            i <= n,
            budget <= max_width,
            n as nat == s@.len(),
            take_count(s@, max_width as int) == i + take_count(
                s@.subrange(i as int, n as int),
                budget as int,
            ),
        decreases n - i,
    {
        if i >= n {
            proof {
                assert(s@.subrange(i as int, n as int) =~= Seq::<char>::empty());
            }
            return i;
        }
        let c = s.get_char(i);
        let cw = char_width_of(c);
        proof {
            assert(s@.subrange(i as int, n as int)[0] == s@[i as int]);
        }
        if cw > budget {
            proof {
                assert(take_count(s@.subrange(i as int, n as int), budget as int) == 0);
            }
            return i;
        }
        proof {
            assert(s@.subrange(i as int, n as int).drop_first() =~= s@.subrange(
                i as int + 1,
                n as int,
            ));
            lemma_take_count_le_len(s@.subrange(i as int + 1, n as int), budget - cw);
        }
        budget = budget - cw;
        i = i + 1;
    }
}

/// The length of the first segment of a non-empty line: greedy, with
/// the one-character fallback.
fn first_cut(s: &str, max_width: usize) -> (k: usize)
    requires
        s@.len() > 0,
    ensures
        k as nat == first_seg_len(s@, max_width as int),
        1 <= k <= s@.len(),
{
    let k = take_fit(s, max_width);
    proof {
        lemma_first_seg_len_bounds(s@, max_width as int);
    }
    if k == 0 {
        1
    } else {
        k
    }
}

/// Splits a line into a first segment and a sequence of continuation
/// segments, each cut greedily so that its display width stays within
/// `max_width` columns; a character wider than the whole budget makes a
/// one-character segment of its own, so splitting always terminates.
/// A line that fits yields no continuation segments.
pub fn split_to_fit<'a>(s: &'a str, max_width: usize) -> (r: (&'a str, Vec<&'a str>))
    ensures
        s@.len() == 0 ==> r.0@ == s@ && r.1@.len() == 0,
        s@.len() > 0 ==> {
            let segs = wrap_segments(s@, max_width as int);
            &&& r.0@ == segs[0]
            &&& r.1.deep_view() =~= segs.drop_first()
        },
{
    let n = s.unicode_len();
    if n == 0 {
        return (s, Vec::new());
    }
    let k = first_cut(s, max_width);
    let first = s.substring_char(0, k);
    let mut cur: &str = s.substring_char(k, n);
    let mut rest: Vec<&'a str> = Vec::new();
    proof {
        let segs = wrap_segments(s@, max_width as int);
        assert(segs.drop_first() =~= rest.deep_view() + wrap_segments(
            cur@,
            max_width as int,
        ));
    }
    loop
        invariant
            wrap_segments(s@, max_width as int).drop_first() =~= rest.deep_view()
                + wrap_segments(cur@, max_width as int),
            wrap_segments(s@, max_width as int).len() >= 1,
            first@ == wrap_segments(s@, max_width as int)[0],
        decreases cur@.len(),
    {
        let m = cur.unicode_len();
        if m == 0 {
            proof {
                assert(rest.deep_view() =~= wrap_segments(s@, max_width as int).drop_first());
            }
            return (first, rest);
        }
        let k2 = first_cut(cur, max_width);
        let seg = cur.substring_char(0, k2);
        let next = cur.substring_char(k2, m);
        proof {
            let old_rest = rest.deep_view();
            let segs_cur = wrap_segments(cur@, max_width as int);
            assert(segs_cur[0] == seg@);
            assert(segs_cur.drop_first() =~= wrap_segments(next@, max_width as int));
            assert(old_rest.push(seg@) + wrap_segments(next@, max_width as int) =~= old_rest
                + segs_cur);
        }
        rest.push(seg);
        proof {
            assert(rest.deep_view() =~= rest.deep_view().subrange(
                0,
                rest.deep_view().len() - 1,
            ).push(seg@));
        }
        cur = next;
    }
}

} // verus!
