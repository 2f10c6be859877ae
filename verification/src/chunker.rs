//! Splitting source text into synthesis segments.
//!
//! The segmentation rule is line-based and deliberately byte-level: the
//! text is split at line feeds, every line is trimmed of ASCII whitespace
//! at both ends, and blank lines are dropped.  The remaining segments keep
//! their original relative order.
//!
//! Byte-level is the contract, not an approximation: only the six ASCII
//! whitespace bytes are trimmed, so a line holding nothing but non-ASCII
//! whitespace (a run of no-break spaces, say) counts as content and
//! becomes a segment.  Linguistically aware segmentation is out of scope;
//! this simple rule is the interface the rest of the pipeline builds on.

use vstd::prelude::*;

verus! {

/// A byte is ASCII whitespace: tab, line feed, vertical tab, form feed,
/// carriage return or space.
pub open spec fn is_space(b: u8) -> bool {
    b == 32 || (9 <= b && b <= 13)
}

/// `s` with its leading whitespace removed.
pub open spec fn trim_front(s: Seq<u8>) -> Seq<u8>
    decreases s.len(),
{
    if s.len() > 0 && is_space(s[0]) {
        trim_front(s.subrange(1, s.len() as int))
    } else {
        s
    }
}

/// `s` with its trailing whitespace removed.
pub open spec fn trim_back(s: Seq<u8>) -> Seq<u8>
    decreases s.len(),
{
    if s.len() > 0 && is_space(s[s.len() - 1]) {
        trim_back(s.subrange(0, s.len() - 1))
    } else {
        s
    }
}

/// `s` with whitespace removed at both ends.
pub open spec fn trimmed(s: Seq<u8>) -> Seq<u8> {
    trim_back(trim_front(s))
}

/// Index of the first line feed in `s`, or `s.len()` if there is none.
pub open spec fn line_break(s: Seq<u8>) -> int
    decreases s.len(),
{
    if s.len() == 0 {
        0
    } else if s[0] == 10 {
        0
    } else {
        1 + line_break(s.subrange(1, s.len() as int))
    }
}

/// The lines of `s`: the maximal runs of bytes between line feeds.
/// A trailing line feed does not open a final empty line.
pub open spec fn lines_of(s: Seq<u8>) -> Seq<Seq<u8>>
    decreases s.len(),
    via lines_of_dec
{
    if s.len() == 0 {
        Seq::empty()
    } else {
        let i = line_break(s);
        if i == s.len() {
            seq![s]
        } else {
            seq![s.subrange(0, i)] + lines_of(s.subrange(i + 1, s.len() as int))
        }
    }
}

#[via_fn]
proof fn lines_of_dec(s: Seq<u8>) {
    lemma_line_break(s);
}

/// Whether a segment survives chunking: it is non-empty after trimming.
pub open spec fn is_kept(l: Seq<u8>) -> bool {
    l.len() > 0
}

/// A segment is clean: non-empty, and whitespace neither starts nor ends it.
pub open spec fn clean_segment(l: Seq<u8>) -> bool {
    l.len() > 0 && !is_space(l[0]) && !is_space(l[l.len() - 1])
}

/// The segments of `s`: every line, trimmed, with blank lines dropped,
/// in their original order.
pub open spec fn segments(s: Seq<u8>) -> Seq<Seq<u8>>
    decreases s.len(),
    via segments_dec
{
    if s.len() == 0 {
        Seq::empty()
    } else {
        let i = line_break(s);
        let line = trimmed(s.subrange(0, i));
        let rest = if i == s.len() {
            Seq::<u8>::empty()
        } else {
            s.subrange(i + 1, s.len() as int)
        };
        if line.len() > 0 {
            seq![line] + segments(rest)
        } else {
            segments(rest)
        }
    }
}

#[via_fn]
proof fn segments_dec(s: Seq<u8>) {
    lemma_line_break(s);
}

/// `line_break` names the first line feed: nothing before it is one, and
/// either it is at the end or it sits on a line feed.
pub proof fn lemma_line_break(s: Seq<u8>)
    ensures
        0 <= line_break(s) <= s.len(),
        forall|j: int| 0 <= j < line_break(s) ==> s[j] != 10,
        line_break(s) < s.len() ==> s[line_break(s)] == 10,
    decreases s.len(),
{
    if s.len() > 0 && s[0] != 10 {
        let t = s.subrange(1, s.len() as int);
        lemma_line_break(t);
        assert forall|j: int| 0 <= j < line_break(s) implies s[j] != 10 by {
            if j > 0 {
                assert(t[j - 1] != 10);
            }
        }
    }
}

/// If everything before `k` is whitespace and `k` is the end or a
/// non-whitespace byte, then trimming the front cuts exactly at `k`.
pub proof fn lemma_trim_front_at(s: Seq<u8>, k: int)
    requires
        0 <= k <= s.len(),
        forall|j: int| 0 <= j < k ==> is_space(s[j]),
        k < s.len() ==> !is_space(s[k]),
    ensures
        trim_front(s) == s.subrange(k, s.len() as int),
    decreases k,
{
    if k == 0 {
        assert(s.subrange(0, s.len() as int) =~= s);
    } else {
        let t = s.subrange(1, s.len() as int);
        lemma_trim_front_at(t, k - 1);
        assert(t.subrange(k - 1, t.len() as int) =~= s.subrange(k, s.len() as int));
    }
}

/// If everything from `k` on is whitespace and `k` is the start or follows
/// a non-whitespace byte, then trimming the back cuts exactly at `k`.
pub proof fn lemma_trim_back_at(s: Seq<u8>, k: int)
    requires
        0 <= k <= s.len(),
        forall|j: int| k <= j < s.len() ==> is_space(s[j]),
        k > 0 ==> !is_space(s[k - 1]),
    ensures
        trim_back(s) == s.subrange(0, k),
    decreases s.len() - k,
{
    if k == s.len() {
        if s.len() > 0 && is_space(s[s.len() - 1]) {
            let t = s.subrange(0, s.len() - 1);
            lemma_trim_back_at(t, k - 1);
            assert(false);
        } else {
            assert(s.subrange(0, s.len() as int) =~= s);
        }
    } else {
        let t = s.subrange(0, s.len() - 1);
        lemma_trim_back_at(t, k);
        assert(t.subrange(0, k) =~= s.subrange(0, k));
    }
}

/// A non-empty trimmed sequence starts and ends with non-whitespace.
pub proof fn lemma_trimmed_clean(s: Seq<u8>)
    ensures
        trimmed(s).len() > 0 ==> !is_space(trimmed(s)[0]),
        trimmed(s).len() > 0 ==> !is_space(trimmed(s)[trimmed(s).len() - 1]),
{
    lemma_trim_front_clean(s);
    lemma_trim_back_clean(trim_front(s));
    let t = trimmed(s);
    if t.len() > 0 {
        lemma_trim_back_prefix(trim_front(s));
    }
}

/// Trimming the front leaves no leading whitespace.
proof fn lemma_trim_front_clean(s: Seq<u8>)
    ensures
        trim_front(s).len() > 0 ==> !is_space(trim_front(s)[0]),
    decreases s.len(),
{
    if s.len() > 0 && is_space(s[0]) {
        lemma_trim_front_clean(s.subrange(1, s.len() as int));
    }
}

/// Trimming the back leaves no trailing whitespace.
proof fn lemma_trim_back_clean(s: Seq<u8>)
    ensures
        trim_back(s).len() > 0 ==> !is_space(trim_back(s)[trim_back(s).len() - 1]),
    decreases s.len(),
{
    if s.len() > 0 && is_space(s[s.len() - 1]) {
        lemma_trim_back_clean(s.subrange(0, s.len() - 1));
    }
}

/// The back-trimmed sequence is a prefix of the original.
proof fn lemma_trim_back_prefix(s: Seq<u8>)
    ensures
        trim_back(s).len() <= s.len(),
        forall|j: int| 0 <= j < trim_back(s).len() ==> trim_back(s)[j] == s[j],
    decreases s.len(),
{
    if s.len() > 0 && is_space(s[s.len() - 1]) {
        let t = s.subrange(0, s.len() - 1);
        lemma_trim_back_prefix(t);
        assert forall|j: int| 0 <= j < trim_back(s).len() implies trim_back(s)[j] == s[j] by {
            assert(trim_back(s)[j] == t[j]);
        }
    }
}

/// Every segment is non-empty and neither starts nor ends with whitespace:
/// chunking yields no empty and no whitespace-only segments.
pub proof fn lemma_segments_clean(s: Seq<u8>)
    ensures
        forall|k: int| 0 <= k < segments(s).len() ==> clean_segment(#[trigger] segments(s)[k]),
    decreases s.len(),
{
    if s.len() > 0 {
        let i = line_break(s);
        lemma_line_break(s);
        let line = trimmed(s.subrange(0, i));
        lemma_trimmed_clean(s.subrange(0, i));
        let rest = if i == s.len() {
            Seq::<u8>::empty()
        } else {
            s.subrange(i + 1, s.len() as int)
        };
        lemma_segments_clean(rest);
        if line.len() > 0 {
            assert(segments(s) == seq![line] + segments(rest));
            assert forall|k: int| 0 <= k < segments(s).len() implies clean_segment(
                #[trigger] segments(s)[k],
            ) by {
                if k == 0 {
                    assert(segments(s)[0] == line);
                } else {
                    assert(segments(s)[k] == segments(rest)[k - 1]);
                }
            }
        } else {
            assert(segments(s) == segments(rest));
        }
    }
}

/// The segments are exactly the trimmed lines with the blank ones dropped,
/// in line order: chunking preserves the original relative order.
pub proof fn lemma_segments_are_kept_lines(s: Seq<u8>)
    ensures
        segments(s) == lines_of(s).map_values(|l: Seq<u8>| trimmed(l)).filter(
            |l: Seq<u8>| is_kept(l),
        ),
    decreases s.len(),
{
    let tr = |l: Seq<u8>| trimmed(l);
    let kp = |l: Seq<u8>| is_kept(l);
    if s.len() == 0 {
        assert(lines_of(s).map_values(tr) =~= Seq::<Seq<u8>>::empty());
        reveal_with_fuel(Seq::filter, 2);
        assert(segments(s) =~= lines_of(s).map_values(tr).filter(kp));
    } else {
        let i = line_break(s);
        lemma_line_break(s);
        let head = s.subrange(0, i);
        if i == s.len() {
            assert(head =~= s);
            assert(lines_of(s) =~= seq![head]);
            assert(lines_of(s).map_values(tr) =~= seq![trimmed(head)]);
            lemma_filter_singleton(trimmed(head));
            lemma_segments_are_kept_lines(Seq::<u8>::empty());
            if trimmed(head).len() > 0 {
                assert(segments(s) =~= seq![trimmed(head)]);
            } else {
                assert(segments(s) =~= Seq::<Seq<u8>>::empty());
            }
        } else {
            let rest = s.subrange(i + 1, s.len() as int);
            lemma_segments_are_kept_lines(rest);
            assert(lines_of(s) =~= seq![head] + lines_of(rest));
            assert(lines_of(s).map_values(tr) =~= seq![trimmed(head)] + lines_of(
                rest,
            ).map_values(tr));
            Seq::<Seq<u8>>::filter_distributes_over_add(
                seq![trimmed(head)],
                lines_of(rest).map_values(tr),
                kp,
            );
            lemma_filter_singleton(trimmed(head));
            if trimmed(head).len() > 0 {
                assert(segments(s) =~= seq![trimmed(head)] + segments(rest));
            }
        }
    }
}

/// Filtering a one-element sequence keeps or drops that element.
proof fn lemma_filter_singleton(l: Seq<u8>)
    ensures
        is_kept(l) ==> seq![l].filter(|x: Seq<u8>| is_kept(x)) == seq![l],
        !is_kept(l) ==> seq![l].filter(|x: Seq<u8>| is_kept(x)) == Seq::<Seq<u8>>::empty(),
{
    reveal_with_fuel(Seq::filter, 2);
    assert(seq![l].drop_last() =~= Seq::<Seq<u8>>::empty());
    if is_kept(l) {
        assert(seq![l].filter(|x: Seq<u8>| is_kept(x)) =~= seq![l]);
    } else {
        assert(seq![l].filter(|x: Seq<u8>| is_kept(x)) =~= Seq::<Seq<u8>>::empty());
    }
}

/// Whether `b` is ASCII whitespace.
pub fn is_space_byte(b: u8) -> (r: bool)
    ensures
        r == is_space(b),
{
    b == 32 || (9 <= b && b <= 13)
}

/// Split `text` into segments: lines trimmed of whitespace at both ends,
/// blank lines dropped, original order kept.
pub fn chunk_text(text: &[u8]) -> (r: Vec<Vec<u8>>)
    ensures
        r@.map_values(|c: Vec<u8>| c@) == segments(text@),
{
    let n = text.len();
    let mut r: Vec<Vec<u8>> = Vec::new();
    let mut pos: usize = 0;
    proof {
        assert(text@.subrange(0, n as int) =~= text@);
        assert(r@.map_values(|c: Vec<u8>| c@) =~= Seq::<Seq<u8>>::empty());
    }
    while pos < n
        invariant
            0 <= pos <= n,
            n == text@.len(),
            r@.map_values(|c: Vec<u8>| c@) + segments(text@.subrange(pos as int, n as int))
                =~= segments(text@),
        decreases n - pos,
    {
        let ghost suffix = text@.subrange(pos as int, n as int);
        // Find the end of the current line.
        let mut i: usize = pos;
        while i < n && text[i] != 10
            invariant
                pos <= i <= n,
                n == text@.len(),
                forall|j: int| pos <= j < i ==> text@[j] != 10,
            decreases n - i,
        {
            i = i + 1;
        }
        proof {
            lemma_line_break(suffix);
            assert forall|j: int| 0 <= j < i - pos implies suffix[j] != 10 by {
                assert(text@[pos + j] != 10);
            }
            if line_break(suffix) < i - pos {
                assert(suffix[line_break(suffix)] != 10);
                assert(false);
            }
            if line_break(suffix) > i - pos {
                assert(i < n);
                assert(suffix[i - pos] != 10);
                assert(false);
            }
            assert(line_break(suffix) == i - pos);
        }
        // Trim the line at both ends.
        let mut lo: usize = pos;
        while lo < i && is_space_byte(text[lo])
            invariant
                pos <= lo <= i <= n,
                n == text@.len(),
                forall|j: int| pos <= j < lo ==> is_space(text@[j]),
            decreases i - lo,
        {
            lo = lo + 1;
        }
        let mut hi: usize = i;
        while hi > lo && is_space_byte(text[hi - 1])
            invariant
                lo <= hi <= i <= n,
                n == text@.len(),
                forall|j: int| hi <= j < i ==> is_space(text@[j]),
            decreases hi,
        {
            hi = hi - 1;
        }
        let ghost line = suffix.subrange(0, i - pos);
        proof {
            assert(line =~= text@.subrange(pos as int, i as int));
            assert forall|j: int| 0 <= j < lo - pos implies is_space(line[j]) by {
                assert(is_space(text@[pos + j]));
            }
            lemma_trim_front_at(line, lo - pos);
            let front = line.subrange(lo - pos, line.len() as int);
            assert forall|j: int| hi - lo <= j < front.len() implies is_space(front[j]) by {
                assert(is_space(text@[lo + j]));
            }
            if hi > lo {
                assert(!is_space(front[hi - lo - 1])) by {
                    assert(front[hi - lo - 1] == text@[hi - 1]);
                }
            }
            lemma_trim_back_at(front, hi - lo);
            assert(trimmed(line) =~= text@.subrange(lo as int, hi as int));
        }
        let ghost r0 = r@;
        if lo < hi {
            let piece = vstd::slice::slice_to_vec(vstd::slice::slice_subrange(text, lo, hi));
            r.push(piece);
            proof {
                assert(r@.map_values(|c: Vec<u8>| c@) =~= r0.map_values(|c: Vec<u8>| c@).push(
                    trimmed(line),
                ));
            }
        }
        let next = if i < n {
            i + 1
        } else {
            n
        };
        proof {
            let rest = text@.subrange(next as int, n as int);
            if i < n {
                assert(suffix.subrange(i - pos + 1, suffix.len() as int) =~= rest);
            } else {
                assert(rest =~= Seq::<u8>::empty());
            }
            assert(segments(suffix) == if trimmed(line).len() > 0 {
                seq![trimmed(line)] + segments(rest)
            } else {
                segments(rest)
            });
            assert(r@.map_values(|c: Vec<u8>| c@) + segments(rest) =~= segments(text@));
        }
        pos = next;
    }
    proof {
        assert(text@.subrange(n as int, n as int) =~= Seq::<u8>::empty());
        assert(r@.map_values(|c: Vec<u8>| c@) =~= segments(text@));
    }
    r
}

} // verus!
