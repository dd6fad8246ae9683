//! The position-indexed content mirror: a character buffer with 1-based
//! logical insert and delete primitives, shared by the local-write and the
//! remote-apply paths. Working over characters (Unicode scalar values) means
//! a logical position can never split a multi-byte storage unit.

use vstd::prelude::*;

verus! {

/// Clamps a 0-based offset to the buffer's end.
pub open spec fn clamp(i: int, len: int) -> int {
    if i < len {
        i
    } else {
        len
    }
}

/// The buffer after inserting `text` immediately before the character at
/// 1-based position `pos` (`pos == len + 1` appends).
pub open spec fn insert_chars(content: Seq<char>, pos: int, text: Seq<char>) -> Seq<char> {
    content.subrange(0, pos - 1) + text + content.subrange(pos - 1, content.len() as int)
}

/// The buffer after deleting the inclusive 1-based character range
/// `[start, end]`; offsets past the end clamp to the buffer's end.
pub open spec fn delete_chars(content: Seq<char>, start: int, end: int) -> Seq<char> {
    let a = clamp(start - 1, content.len() as int);
    let b = clamp(end, content.len() as int);
    content.subrange(0, a) + content.subrange(b, content.len() as int)
}

/// For every valid 1-based position, inserting leaves the characters before
/// the position in place, places the inserted text immediately before the
/// character previously at that position, and shifts the rest right by the
/// inserted length — no character on either side of the insertion point is
/// lost or altered.
pub proof fn lemma_insert_preserves(content: Seq<char>, pos: int, text: Seq<char>)
    requires
        1 <= pos <= content.len() + 1,
    ensures
        insert_chars(content, pos, text).len() == content.len() + text.len(),
        forall|i: int|
            0 <= i < pos - 1 ==> #[trigger] insert_chars(content, pos, text)[i] == content[i],
        forall|k: int|
            0 <= k < text.len() ==> #[trigger] insert_chars(content, pos, text)[pos - 1 + k]
                == text[k],
        forall|i: int|
            pos - 1 <= i < content.len() ==> #[trigger] insert_chars(content, pos, text)[i
                + text.len()] == content[i],
{
}

/// For every range `1 <= start <= end <= len`, deleting removes exactly
/// `end - start + 1` characters and leaves the remaining characters'
/// relative order unchanged: the prefix stays in place and the suffix moves
/// left by the removed count.
pub proof fn lemma_delete_count_order(content: Seq<char>, start: int, end: int)
    requires
        1 <= start <= end <= content.len(),
    ensures
        delete_chars(content, start, end).len() == content.len() - (end - start + 1),
        forall|i: int|
            0 <= i < start - 1 ==> #[trigger] delete_chars(content, start, end)[i] == content[i],
        forall|i: int|
            end <= i < content.len() ==> #[trigger] delete_chars(content, start, end)[i - (end
                - start + 1)] == content[i],
{
    let r = delete_chars(content, start, end);
    assert forall|i: int| end <= i < content.len() implies #[trigger] r[i - (end - start + 1)]
        == content[i] by {
        assert(r[i - (end - start + 1)] == content.subrange(end, content.len() as int)[i - end]);
    }
}

/// Appends `src[from..to]` onto `dst`.
pub fn extend_range(dst: &mut Vec<char>, src: &Vec<char>, from: usize, to: usize)
    requires
        from <= to <= src@.len(),
    ensures
        final(dst)@ == old(dst)@ + src@.subrange(from as int, to as int),
{
    let mut i: usize = from;
    proof {
        assert(dst@ =~= dst@ + src@.subrange(from as int, from as int));
    }
    while i < to
        invariant
            from <= i <= to <= src@.len(),
            dst@ == old(dst)@ + src@.subrange(from as int, i as int),
        decreases to - i,
    {
        dst.push(src[i]);
        proof {
            assert(old(dst)@ + src@.subrange(from as int, i + 1 as int) =~= (old(dst)@
                + src@.subrange(from as int, i as int)).push(src@[i as int]));
        }
        i += 1;
    }
}

/// Inserts `text` immediately before the character at 1-based `position`.
pub fn splice_insert(content: &mut Vec<char>, position: usize, text: &Vec<char>)
    requires
        1 <= position <= old(content)@.len() + 1,
    ensures
        final(content)@ == insert_chars(old(content)@, position as int, text@),
{
    let n = content.len();
    let mut out: Vec<char> = Vec::new();
    extend_range(&mut out, content, 0, position - 1);
    extend_range(&mut out, text, 0, text.len());
    extend_range(&mut out, content, position - 1, n);
    proof {
        assert(text@.subrange(0, text@.len() as int) =~= text@);
        assert(out@ =~= insert_chars(content@, position as int, text@));
    }
    *content = out;
}

/// Deletes the inclusive 1-based character range `[start, end]`, clamping
/// offsets past the buffer's end.
pub fn splice_delete(content: &mut Vec<char>, start: usize, end: usize)
    requires
        1 <= start,
        clamp(start - 1, old(content)@.len() as int) <= clamp(end as int, old(content)@.len() as int),
    ensures
        final(content)@ == delete_chars(old(content)@, start as int, end as int),
{
    let n = content.len();
    let a = if start - 1 < n {
        start - 1
    } else {
        n
    };
    let b = if end < n {
        end
    } else {
        n
    };
    let mut out: Vec<char> = Vec::new();
    extend_range(&mut out, content, 0, a);
    extend_range(&mut out, content, b, n);
    proof {
        assert(out@ =~= delete_chars(content@, start as int, end as int));
    }
    *content = out;
}

} // verus!
