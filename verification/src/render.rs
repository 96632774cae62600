use crate::xpath::{
    element_at, find_char, predicates_from, predicates_view, segment_start, segments_from,
    segments_view, single_byte, split_outcome, ElementMatch, ParseError, PathSegment, SegmentView,
};
use vstd::prelude::*;

verus! {

/// The text of a list of predicates: each as `[key='value']`, one behind the other.
pub open spec fn render_predicates(predicates: Seq<(Seq<char>, Seq<char>)>) -> Seq<char>
    decreases predicates.len(),
{
    if predicates.len() == 0 {
        Seq::empty()
    } else {
        render_predicate(predicates[0]) + render_predicates(predicates.drop_first())
    }
}

/// The text of one predicate: `[key='value']`.
pub open spec fn render_predicate(predicate: (Seq<char>, Seq<char>)) -> Seq<char> {
    seq!['['] + predicate.0 + seq!['=', '\''] + predicate.1 + seq!['\'', ']']
}

/// The text of a segment's head: `prefix:name`, or the name alone.
pub open spec fn render_head(segment: SegmentView) -> Seq<char> {
    match segment.namespace {
        Some(prefix) => prefix + seq![':'] + segment.name,
        None => segment.name,
    }
}

/// The text of one segment: a `/`, the head and the predicates.
pub open spec fn render_segment(segment: SegmentView) -> Seq<char> {
    seq!['/'] + render_head(segment) + render_predicates(segment.predicates)
}

/// The text of an instance path: its segments, one behind the other.
pub open spec fn render(segments: Seq<SegmentView>) -> Seq<char>
    decreases segments.len(),
{
    if segments.len() == 0 {
        Seq::empty()
    } else {
        render_segment(segments[0]) + render(segments.drop_first())
    }
}

fn push_predicates(out: &mut String, predicates: &Vec<(String, String)>)
    ensures
        final(out)@ == old(out)@ + render_predicates(predicates_view(predicates@)),
{
    let ghost all = predicates_view(predicates@);
    let ghost before = out@;
    let n = predicates.len();
    let mut i: usize = 0;
    proof {
        assert(all.subrange(0, n as int) =~= all);
    }
    while i < n
        invariant
            n == predicates.len(),
            all == predicates_view(predicates@),
            i <= n,
            out@ + render_predicates(all.subrange(i as int, n as int)) == before
                + render_predicates(all),
        decreases n - i,
    {
        proof {
            reveal_strlit("[");
            reveal_strlit("='");
            reveal_strlit("']");
            let rest = all.subrange(i as int, n as int);
            assert(rest.drop_first() =~= all.subrange(i + 1, n as int));
            assert(rest[0] == (predicates[i as int].0@, predicates[i as int].1@));
        }
        let ghost start = out@;
        out.append("[");
        out.append(predicates[i].0.as_str());
        out.append("='");
        out.append(predicates[i].1.as_str());
        out.append("']");
        proof {
            let rest = all.subrange(i as int, n as int);
            assert(out@ =~= start + render_predicate(rest[0]));
            assert(out@ + render_predicates(rest.drop_first()) =~= start + render_predicates(rest));
        }
        i = i + 1;
    }
    proof {
        assert(out@ + Seq::<char>::empty() =~= out@);
    }
}

/// Writes a list of segments as an instance path: each segment as a `/`, the prefix with its
/// colon if there is one, the name, and each predicate as `[key='value']`.
pub fn render_path(segments: &Vec<PathSegment>) -> (r: String)
    ensures
        r@ == render(segments_view(segments@)),
{
    let ghost all = segments_view(segments@);
    let mut out = String::new();
    let n = segments.len();
    let mut i: usize = 0;
    proof {
        assert(all.subrange(0, n as int) =~= all);
        assert(out@ + render(all) =~= render(all));
    }
    while i < n
        invariant
            n == segments.len(),
            all == segments_view(segments@),
            i <= n,
            out@ + render(all.subrange(i as int, n as int)) == render(all),
        decreases n - i,
    {
        proof {
            reveal_strlit("/");
            reveal_strlit(":");
            let rest = all.subrange(i as int, n as int);
            assert(rest.drop_first() =~= all.subrange(i + 1, n as int));
            assert(rest[0] == segments[i as int]@);
        }
        let ghost start = out@;
        out.append("/");
        match &segments[i].namespace {
            Some(prefix) => {
                out.append(prefix.as_str());
                out.append(":");
            },
            None => {},
        }
        out.append(segments[i].name.as_str());
        assert(out@ =~= start + seq!['/'] + render_head(segments[i as int]@));
        push_predicates(&mut out, &segments[i].predicates);
        proof {
            let rest = all.subrange(i as int, n as int);
            assert(out@ =~= start + render_segment(rest[0]));
            assert(out@ + render(rest.drop_first()) =~= start + render(rest));
        }
        i = i + 1;
    }
    proof {
        assert(out@ + Seq::<char>::empty() =~= out@);
    }
    out
}

/// Whether `c` stands nowhere in `text`.
pub open spec fn free_of(text: Seq<char>, c: char) -> bool {
    forall|j: int| 0 <= j < text.len() ==> text[j] != c
}

/// Whether each of these predicates can be told apart again once it is written: no key holds
/// a `=`, and no value holds the quote that closes it.
pub open spec fn plain_predicates(predicates: Seq<(Seq<char>, Seq<char>)>) -> bool {
    forall|j: int|
        0 <= j < predicates.len() ==> free_of(#[trigger] predicates[j].0, '=') && free_of(
            predicates[j].1,
            '\'',
        )
}

/// Whether a list of segments can be read back from its text: the element pattern reads the
/// head of each segment, where it stands in front of the rest of the path, as that segment's
/// prefix and name, and the predicates of each segment are plain.
pub open spec fn readable(segments: Seq<SegmentView>) -> bool
    decreases segments.len(),
{
    segments.len() == 0 || {
        let first = segments[0];
        let text = render_head(first) + render_predicates(first.predicates) + render(
            segments.drop_first(),
        );
        &&& element_at(text, 0) == Some(
            ElementMatch {
                len: render_head(first).len() as int,
                namespace: first.namespace,
                name: first.name,
            },
        )
        &&& plain_predicates(first.predicates)
        &&& readable(segments.drop_first())
    }
}

proof fn lemma_find_char_at(s: Seq<char>, c: char, from: int, at: int)
    requires
        0 <= from <= at < s.len(),
        s[at] == c,
        forall|j: int| from <= j < at ==> s[j] != c,
    ensures
        find_char(s, c, from) == at,
    decreases at - from,
{
    if from < at {
        lemma_find_char_at(s, c, from + 1, at);
    }
}

proof fn lemma_predicates_read_back(s: Seq<char>, i: int, predicates: Seq<(Seq<char>, Seq<char>)>)
    requires
        0 <= i,
        plain_predicates(predicates),
        i + render_predicates(predicates).len() <= s.len(),
        s.subrange(i, i + render_predicates(predicates).len()) == render_predicates(predicates),
        i + render_predicates(predicates).len() == s.len() || s[i + render_predicates(
            predicates,
        ).len()] != '[',
    ensures
        predicates_from(s, i) == Some(
            Ok::<_, ParseError>((predicates, i + render_predicates(predicates).len())),
        ),
    decreases predicates.len(),
{
    let all = render_predicates(predicates);
    if predicates.len() == 0 {
        assert(predicates =~= Seq::empty());
    } else {
        let key = predicates[0].0;
        let value = predicates[0].1;
        let one = render_predicate(predicates[0]);
        let more = predicates.drop_first();
        let rest = render_predicates(more);
        let kl = key.len() as int;
        let vl = value.len() as int;
        let ol = one.len() as int;
        assert(all == one + rest);
        assert forall|j: int| 0 <= j < all.len() implies s[i + j] == all[j] by {
            assert(s.subrange(i, i + all.len())[j] == s[i + j]);
        }
        let eq = i + 1 + kl;
        let close = eq + 2 + vl;
        assert(ol == kl + vl + 5);
        assert(one[0] == '[');
        assert(forall|j: int| 0 <= j < kl ==> one[1 + j] == key[j]);
        assert(one[1 + kl] == '=');
        assert(one[2 + kl] == '\'');
        assert(forall|j: int| 0 <= j < vl ==> one[3 + kl + j] == value[j]);
        assert(one[3 + kl + vl] == '\'');
        assert(one[4 + kl + vl] == ']');
        assert(forall|j: int| 0 <= j < ol ==> all[j] == one[j]);
        assert(s[i] == '[') by {
            assert(s[i + 0] == all[0]);
        }
        assert(s[eq] == '=') by {
            assert(s[i + (1 + kl)] == all[1 + kl]);
        }
        assert forall|j: int| i + 1 <= j < eq implies s[j] != '=' by {
            assert(s[i + (j - i)] == all[j - i]);
            assert(one[1 + (j - i - 1)] == key[j - i - 1]);
        }
        lemma_find_char_at(s, '=', i + 1, eq);
        assert(s[eq + 1] == '\'') by {
            assert(s[i + (2 + kl)] == all[2 + kl]);
        }
        assert(single_byte('\''));
        assert(s[close] == '\'') by {
            assert(s[i + (3 + kl + vl)] == all[3 + kl + vl]);
        }
        assert forall|j: int| eq + 2 <= j < close implies s[j] != '\'' by {
            assert(s[i + (j - i)] == all[j - i]);
            assert(one[3 + kl + (j - eq - 2)] == value[j - eq - 2]);
        }
        lemma_find_char_at(s, '\'', eq + 2, close);
        assert(s[close + 1] == ']') by {
            assert(s[i + (4 + kl + vl)] == all[4 + kl + vl]);
        }
        assert(single_byte(']'));
        assert(s.subrange(close + 2, close + 2 + rest.len()) =~= rest) by {
            assert forall|j: int| 0 <= j < rest.len() implies s[close + 2 + j] == rest[j] by {
                assert(s[i + (ol + j)] == all[ol + j]);
            }
        }
        assert(plain_predicates(more)) by {
            assert forall|j: int| 0 <= j < more.len() implies free_of(
                #[trigger] more[j].0,
                '=',
            ) && free_of(more[j].1, '\'') by {
                assert(more[j] == predicates[j + 1]);
            }
        }
        lemma_predicates_read_back(s, close + 2, more);
        assert(s.subrange(i + 1, eq) =~= key);
        assert(s.subrange(eq + 2, close) =~= value);
        assert(seq![(key, value)] + more =~= predicates);
    }
}

proof fn lemma_render_of_some(segments: Seq<SegmentView>)
    requires
        segments.len() > 0,
    ensures
        render(segments).len() > 0,
        render(segments)[0] == '/',
{
}

proof fn lemma_segments_read_back(s: Seq<char>, i: int, segments: Seq<SegmentView>)
    requires
        0 <= i <= s.len(),
        segments.len() > 0,
        s.subrange(i, s.len() as int) == render(segments),
        readable(segments),
    ensures
        segments_from(s, i) == Some(Ok::<_, ParseError>(segments)),
    decreases segments.len(),
{
    let first = segments[0];
    let more = segments.drop_first();
    let head = render_head(first);
    let written = render_predicates(first.predicates);
    let rest = render(more);
    let all = render(segments);
    let text = head + written + rest;
    let hl = head.len() as int;
    let wl = written.len() as int;
    assert(all =~= seq!['/'] + text);
    assert forall|j: int| 0 <= j < all.len() implies s[i + j] == all[j] by {
        assert(s.subrange(i, s.len() as int)[j] == s[i + j]);
    }
    assert(s[i] == '/') by {
        assert(s[i + 0] == all[0]);
    }
    let start = i + 1;
    assert(segment_start(s, i) == start);
    assert(s.subrange(start, s.len() as int) =~= text) by {
        assert forall|j: int| 0 <= j < text.len() implies s[start + j] == text[j] by {
            assert(s[i + (1 + j)] == all[1 + j]);
        }
    }
    assert(text.subrange(0, text.len() as int) =~= text);
    assert(element_at(s, start) == element_at(text, 0));
    let after = start + hl;
    assert(s.subrange(after, after + wl) =~= written) by {
        assert forall|j: int| 0 <= j < wl implies s[after + j] == written[j] by {
            assert(s[start + (hl + j)] == text[hl + j]);
        }
    }
    let end = after + wl;
    if more.len() > 0 {
        lemma_render_of_some(more);
        assert(s[end] == '/') by {
            assert(s[start + (hl + wl + 0)] == text[hl + wl
                + 0]);
        }
    }
    lemma_predicates_read_back(s, after, first.predicates);
    if more.len() > 0 {
        assert(s.subrange(end, s.len() as int) =~= rest) by {
            assert forall|j: int| 0 <= j < rest.len() implies s[end + j] == rest[j] by {
                assert(s[start + (hl + wl + j)] == text[hl
                    + wl + j]);
            }
        }
        lemma_segments_read_back(s, end, more);
        assert(seq![first] + more =~= segments);
    } else {
        assert(seq![first] =~= segments);
    }
}

/// Splitting inverts rendering: whatever non-empty list of segments can be read back from its
/// text, splitting the text that `render` writes for it gives exactly that list.
pub proof fn lemma_split_inverts_render(segments: Seq<SegmentView>)
    requires
        segments.len() > 0,
        readable(segments),
    ensures
        split_outcome(render(segments)) == Some(Ok::<_, ParseError>(segments)),
{
    let s = render(segments);
    lemma_render_of_some(segments);
    assert(s.subrange(0, s.len() as int) =~= s);
    lemma_segments_read_back(s, 0, segments);
}

} // verus!
