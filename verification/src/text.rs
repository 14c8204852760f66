//! Texts as sequences of characters: joining and counting.

use vstd::prelude::*;

verus! {

/// `String::push` appends the given character at the end of the string.
pub assume_specification[ String::push ](text: &mut String, ch: char)
    ensures
        final(text)@ == old(text)@.push(ch),
;

/// The texts in `parts`, one after the other.
pub open spec fn joined(parts: Seq<Seq<char>>) -> Seq<char>
    decreases parts.len(),
{
    if parts.len() == 0 {
        Seq::empty()
    } else {
        joined(parts.drop_last()) + parts.last()
    }
}

/// How often a character occurs in a text.
pub open spec fn occurrences(text: Seq<char>, ch: char) -> nat
    decreases text.len(),
{
    if text.len() == 0 {
        0
    } else {
        occurrences(text.drop_last(), ch) + if text.last() == ch {
            1nat
        } else {
            0nat
        }
    }
}

/// Joining one more part appends it.
pub proof fn lemma_joined_push(parts: Seq<Seq<char>>, part: Seq<char>)
    ensures
        joined(parts.push(part)) == joined(parts) + part,
{
    assert(parts.push(part).drop_last() =~= parts);
}

/// Joining all parts is joining the first `count` of them, then the rest.
pub proof fn lemma_joined_split(parts: Seq<Seq<char>>, count: int)
    requires
        0 <= count <= parts.len(),
    ensures
        joined(parts) == joined(parts.take(count)) + joined(parts.skip(count)),
    decreases parts.len(),
{
    if count == parts.len() {
        assert(parts.take(count) =~= parts);
        assert(parts.skip(count) =~= Seq::<Seq<char>>::empty());
        assert(joined(parts) =~= joined(parts) + Seq::<char>::empty());
    } else {
        let front = parts.drop_last();
        lemma_joined_split(front, count);
        assert(front.take(count) =~= parts.take(count));
        assert(parts.skip(count).drop_last() =~= front.skip(count));
        assert(parts.skip(count).last() == parts.last());
        assert(joined(parts) =~= joined(parts.take(count)) + joined(parts.skip(count)));
    }
}

/// Joining two parts is the first and then the second.
pub proof fn lemma_joined_pair(first: Seq<char>, second: Seq<char>)
    ensures
        joined(seq![first, second]) == first + second,
{
    reveal_with_fuel(joined, 3);
    let parts = seq![first, second];
    assert(parts.drop_last() =~= seq![first]);
    assert(parts.drop_last().drop_last() =~= Seq::<Seq<char>>::empty());
    assert(joined(parts) =~= first + second);
}

/// Whether every character of a text is a 7-bit ASCII character, so that
/// the text is one byte to the character.
pub open spec fn is_ascii_text(text: Seq<char>) -> bool {
    forall|i: int| 0 <= i < text.len() ==> (#[trigger] text[i]) as u32 <= 127
}

/// Two ASCII texts, one after the other, are an ASCII text.
pub proof fn lemma_ascii_concat(first: Seq<char>, second: Seq<char>)
    requires
        is_ascii_text(first),
        is_ascii_text(second),
    ensures
        is_ascii_text(first + second),
{
    let both = first + second;
    assert forall|i: int| 0 <= i < both.len() implies (#[trigger] both[i]) as u32 <= 127 by {
        if i < first.len() {
            assert(both[i] == first[i]);
        } else {
            assert(both[i] == second[i - first.len()]);
        }
    }
}

/// ASCII texts, joined, are an ASCII text.
pub proof fn lemma_ascii_joined(parts: Seq<Seq<char>>)
    requires
        forall|i: int| 0 <= i < parts.len() ==> is_ascii_text(#[trigger] parts[i]),
    ensures
        is_ascii_text(joined(parts)),
    decreases parts.len(),
{
    if parts.len() > 0 {
        let front = parts.drop_last();
        assert forall|i: int| 0 <= i < front.len() implies is_ascii_text(#[trigger] front[i]) by {
            assert(front[i] == parts[i]);
        }
        lemma_ascii_joined(front);
        assert(is_ascii_text(parts[parts.len() - 1]));
        lemma_ascii_concat(joined(front), parts.last());
    }
}

} // verus!
