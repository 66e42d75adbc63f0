//! The branch parser: from the bytes that the list command wrote to the
//! ordered branch names.

use crate::text::{
    decode, decode_range, is_whitespace, leading_whitespace, lemma_trim_shape, trim, trim_bounds,
};
use vstd::prelude::*;

verus! {

/// The number of characters of `text` that stand before its first line feed;
/// the whole length where it holds none.
pub open spec fn line_len(text: Seq<char>) -> nat
    decreases text.len(),
{
    if text.len() == 0 || text.first() == '\n' {
        0
    } else {
        1 + line_len(text.drop_first())
    }
}

/// `text` cut at every line feed. The line feeds themselves belong to no line.
pub open spec fn lines(text: Seq<char>) -> Seq<Seq<char>>
    decreases text.len(),
{
    let k = line_len(text) as int;
    if k >= text.len() {
        seq![text]
    } else {
        seq![text.take(k)] + lines(text.skip(k + 1))
    }
}

/// The branch names that `text` lists: its lines, each trimmed, without those
/// that trimming leaves empty, in the order of the text.
pub open spec fn branch_names(text: Seq<char>) -> Seq<Seq<char>> {
    lines(text).map_values(|l: Seq<char>| trim(l)).filter(|l: Seq<char>| l.len() > 0)
}

/// What a sequence of bytes parses to.
pub open spec fn parsed_names(stdout: Seq<u8>) -> Seq<Seq<char>> {
    branch_names(decode(stdout))
}

/// What a parsed name looks like: it is not empty, it neither begins nor ends
/// with whitespace, and it holds no line feed.
pub open spec fn is_branch_name(name: Seq<char>) -> bool {
    &&& name.len() > 0
    &&& !is_whitespace(name.first())
    &&& !is_whitespace(name.last())
    &&& !name.contains('\n')
}

/// Whether every element of `names` looks like a parsed name.
pub open spec fn all_branch_names(names: Seq<Seq<char>>) -> bool {
    forall|i: int| 0 <= i < names.len() ==> is_branch_name(#[trigger] names[i])
}

/// The name that the first line of `text` gives, if it gives one.
pub open spec fn first_line_names(text: Seq<char>) -> Seq<Seq<char>> {
    let head = trim(text.take(line_len(text) as int));
    if head.len() > 0 {
        seq![head]
    } else {
        Seq::empty()
    }
}

/// `line_len` is the position of the first line feed.
pub proof fn lemma_line_len_bounds(text: Seq<char>)
    ensures
        line_len(text) <= text.len(),
        forall|i: int| 0 <= i < line_len(text) ==> text[i] != '\n',
        line_len(text) < text.len() ==> text[line_len(text) as int] == '\n',
    decreases text.len(),
{
    if text.len() == 0 || text.first() == '\n' {
    } else {
        let rest = text.drop_first();
        lemma_line_len_bounds(rest);
        assert forall|i: int| 0 <= i < line_len(text) implies text[i] != '\n' by {
            if i > 0 {
                assert(text[i] == rest[i - 1]);
            }
        }
        if line_len(text) < text.len() {
            assert(text[line_len(text) as int] == rest[line_len(rest) as int]);
        }
    }
}

/// A position before which no line feed stands, and at which one stands or
/// the text ends, is `line_len`.
pub proof fn lemma_line_len_is(text: Seq<char>, k: int)
    requires
        0 <= k <= text.len(),
        forall|i: int| 0 <= i < k ==> text[i] != '\n',
        k < text.len() ==> text[k] == '\n',
    ensures
        line_len(text) == k,
{
    lemma_line_len_bounds(text);
    let n = line_len(text) as int;
    if n < k {
        assert(text[n] != '\n');
    } else if k < n {
        assert(text[k] != '\n');
    }
}

/// The names of a text are the name of its first line, followed by the names
/// of what stands behind that line's line feed.
pub proof fn lemma_branch_names_unfold(text: Seq<char>)
    ensures
        line_len(text) >= text.len() ==> branch_names(text) == first_line_names(text),
        line_len(text) < text.len() ==> branch_names(text) == first_line_names(text)
            + branch_names(text.skip(line_len(text) as int + 1)),
{
    let k = line_len(text) as int;
    let f = |l: Seq<char>| trim(l);
    let p = |l: Seq<char>| l.len() > 0;
    let head = seq![text.take(k)];
    lemma_line_len_bounds(text);
    assert(head.map_values(f).filter(p) == first_line_names(text)) by {
        let t = trim(text.take(k));
        assert(head.map_values(f) =~= seq![t]);
        Seq::<Seq<char>>::empty().lemma_filter_push(t, p);
        assert(Seq::<Seq<char>>::empty().push(t) =~= seq![t]);
        assert(Seq::<Seq<char>>::empty().filter(p) =~= Seq::<Seq<char>>::empty()) by {
            Seq::<Seq<char>>::empty().lemma_filter_len(p);
        }
    }
    if k >= text.len() {
        assert(text.take(k) =~= text);
    } else {
        let tail = lines(text.skip(k + 1));
        assert(lines(text) == head + tail);
        assert((head + tail).map_values(f) =~= head.map_values(f) + tail.map_values(f));
        Seq::filter_distributes_over_add(head.map_values(f), tail.map_values(f), p);
    }
}

/// Every parsed name is a name: not empty, trimmed, and within one line.
pub proof fn lemma_branch_names_are_names(text: Seq<char>)
    ensures
        all_branch_names(branch_names(text)),
    decreases text.len(),
{
    let k = line_len(text) as int;
    lemma_line_len_bounds(text);
    lemma_branch_names_unfold(text);
    let line = text.take(k);
    lemma_trim_shape(line);
    let head = trim(line);
    if head.len() > 0 {
        assert forall|j: int| 0 <= j < head.len() implies head[j] != '\n' by {
            let a = leading_whitespace(line);
            assert(head[j] == line[a + j]);
            assert(line[a + j] == text[a + j]);
        }
    }
    if k < text.len() {
        lemma_branch_names_are_names(text.skip(k + 1));
    }
}

/// Finds where the line that begins at `start` ends.
pub fn line_end(bytes: &[u8], start: usize) -> (end: usize)
    requires
        start <= bytes@.len(),
    ensures
        start <= end <= bytes@.len(),
        end - start == line_len(decode(bytes@).skip(start as int)),
{
    let mut end: usize = start;
    while end < bytes.len() && bytes[end] != 10
        invariant
            start <= end <= bytes@.len(),
            forall|i: int| start <= i < end ==> bytes@[i] != 10,
        decreases bytes@.len() - end,
    {
        end += 1;
    }
    proof {
        let rest = decode(bytes@).skip(start as int);
        assert forall|i: int| 0 <= i < end - start implies rest[i] != '\n' by {
            assert(rest[i] == bytes@[start + i] as char);
        }
        if end < bytes@.len() {
            assert(rest[end - start] == bytes@[end as int] as char);
        }
        lemma_line_len_is(rest, end - start);
    }
    end
}

/// Turns what the list command wrote into branch names: the text is cut into
/// lines, each line is trimmed, and the empty ones are left out. The order of
/// the lines is kept, and no name is looked into any further.
pub fn parse(stdout: &[u8]) -> (names: Vec<String>)
    ensures
        names.deep_view() == parsed_names(stdout@),
        all_branch_names(names.deep_view()),
{
    let ghost text = decode(stdout@);
    let mut names: Vec<String> = Vec::new();
    let mut start: usize = 0;
    let mut done = false;
    proof {
        assert(text.skip(0) =~= text);
        assert(names.deep_view() =~= Seq::<Seq<char>>::empty());
        assert(Seq::<Seq<char>>::empty() + branch_names(text) =~= branch_names(text));
    }
    while !done
        invariant
            text == decode(stdout@),
            start <= stdout@.len(),
            !done ==> parsed_names(stdout@) == names.deep_view() + branch_names(
                text.skip(start as int),
            ),
            done ==> parsed_names(stdout@) == names.deep_view(),
        decreases stdout@.len() - start + (if done { 0int } else { 1int }),
    {
        let end = line_end(stdout, start);
        let (lo, hi) = trim_bounds(stdout, start, end);
        let ghost before = names.deep_view();
        let ghost rest = text.skip(start as int);
        proof {
            lemma_branch_names_unfold(rest);
            assert(rest.take(end - start) =~= decode(stdout@.subrange(start as int, end as int)));
        }
        if lo < hi {
            let name = decode_range(stdout, lo, hi);
            names.push(name);
            proof {
                assert(names.deep_view() =~= before + first_line_names(rest));
            }
        } else {
            proof {
                assert(names.deep_view() =~= before + first_line_names(rest));
            }
        }
        if end == stdout.len() {
            done = true;
            proof {
                assert(before + first_line_names(rest) =~= names.deep_view());
            }
        } else {
            proof {
                assert(rest.skip(end - start + 1) =~= text.skip(end + 1));
                assert(before + (first_line_names(rest) + branch_names(text.skip(end + 1)))
                    =~= (before + first_line_names(rest)) + branch_names(text.skip(end + 1)));
            }
            start = end + 1;
        }
    }
    proof {
        lemma_branch_names_are_names(text);
    }
    names
}

} // verus!
