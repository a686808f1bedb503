//! Texts as sequences of characters: words, the single spaces between them,
//! and what trimming leaves of a text.

use vstd::prelude::*;

verus! {

/// Whether `c` is white space as Unicode defines it (White_Space): the
/// characters that trimming removes from both ends of a text.
pub open spec fn is_whitespace(c: char) -> bool {
    ||| '\u{9}' <= c <= '\u{d}'
    ||| c == ' '
    ||| c == '\u{85}'
    ||| c == '\u{a0}'
    ||| c == '\u{1680}'
    ||| '\u{2000}' <= c <= '\u{200a}'
    ||| c == '\u{2028}'
    ||| c == '\u{2029}'
    ||| c == '\u{202f}'
    ||| c == '\u{205f}'
    ||| c == '\u{3000}'
}

/// A word has at least one character and no white space.
pub open spec fn is_word(w: Seq<char>) -> bool {
    &&& w.len() > 0
    &&& forall|i: int| 0 <= i < w.len() ==> !is_whitespace(#[trigger] w[i])
}

/// Every entry of `words` is a word.
pub open spec fn all_words(words: Seq<Seq<char>>) -> bool {
    forall|k: int| 0 <= k < words.len() ==> is_word(#[trigger] words[k])
}

/// `left` and `right` with one space between them. An empty side adds
/// nothing, not even the space.
pub open spec fn spaced(left: Seq<char>, right: Seq<char>) -> Seq<char> {
    if left.len() == 0 {
        right
    } else if right.len() == 0 {
        left
    } else {
        left + seq![' '] + right
    }
}

/// The entries of `words` in order, with one space between neighbours.
pub open spec fn join_words(words: Seq<Seq<char>>) -> Seq<char>
    decreases words.len(),
{
    if words.len() == 0 {
        Seq::empty()
    } else {
        spaced(join_words(words.drop_last()), words.last())
    }
}

/// `s` neither starts nor ends with a space, and no two spaces in it are
/// neighbours.
pub open spec fn single_spaced(s: Seq<char>) -> bool {
    &&& s.len() > 0 ==> s[0] != ' ' && s[s.len() - 1] != ' '
    &&& forall|i: int| 0 <= i < s.len() - 1 ==> !(s[i] == ' ' && #[trigger] s[i + 1] == ' ')
}

/// `s` without the white space it starts with.
pub open spec fn trim_start(s: Seq<char>) -> Seq<char>
    decreases s.len(),
{
    if s.len() > 0 && is_whitespace(s[0]) {
        trim_start(s.drop_first())
    } else {
        s
    }
}

/// `s` without the white space it ends with.
pub open spec fn trim_end(s: Seq<char>) -> Seq<char>
    decreases s.len(),
{
    if s.len() > 0 && is_whitespace(s.last()) {
        trim_end(s.drop_last())
    } else {
        s
    }
}

/// `s` without the white space at either end.
pub open spec fn trim(s: Seq<char>) -> Seq<char> {
    trim_end(trim_start(s))
}

/// The pieces into which the spaces of `s` cut it, in order. A text without a
/// space is one piece, and so is the empty text.
pub open spec fn pieces(s: Seq<char>) -> Seq<Seq<char>>
    decreases s.len(),
{
    if s.len() == 0 {
        seq![Seq::empty()]
    } else {
        let before = pieces(s.drop_last());
        if s.last() == ' ' {
            before.push(Seq::empty())
        } else {
            before.drop_last().push(before.last().push(s.last()))
        }
    }
}

/// The words that a reader of `s` sees: its pieces between spaces. The empty
/// text has none.
pub open spec fn words_of(s: Seq<char>) -> Seq<Seq<char>> {
    if s.len() == 0 {
        Seq::empty()
    } else {
        pieces(s)
    }
}

/// Puts `text` behind what `buffer` holds, after a space where both hold
/// something.
pub(crate) fn append_spaced(buffer: &mut String, text: &str)
    ensures
        final(buffer)@ == spaced(old(buffer)@, text@),
{
    if text.is_empty() {
        return ;
    }
    if !buffer.as_str().is_empty() {
        proof {
            reveal_strlit(" ");
        }
        buffer.append(" ");
    }
    buffer.append(text);
}

/// Putting texts together with single spaces does not depend on the grouping.
pub proof fn lemma_spaced_assoc(a: Seq<char>, b: Seq<char>, c: Seq<char>)
    ensures
        spaced(spaced(a, b), c) == spaced(a, spaced(b, c)),
{
}

/// Joining one more word puts it after the others, behind a space.
pub proof fn lemma_join_push(words: Seq<Seq<char>>, w: Seq<char>)
    ensures
        join_words(words.push(w)) == spaced(join_words(words), w),
{
    assert(words.push(w).drop_last() =~= words);
}

/// Joining two lists of words one after the other gives the two joined texts
/// with a space between them.
pub proof fn lemma_join_concat(a: Seq<Seq<char>>, b: Seq<Seq<char>>)
    ensures
        join_words(a + b) == spaced(join_words(a), join_words(b)),
    decreases b.len(),
{
    if b.len() == 0 {
        assert(a + b =~= a);
    } else {
        let front = b.drop_last();
        assert((a + b).drop_last() =~= a + front);
        lemma_join_concat(a, front);
        lemma_spaced_assoc(join_words(a), join_words(front), b.last());
    }
}

/// Words joined by single spaces form a text that is empty only if there is no
/// word, starts and ends with a character that is no white space, and has no
/// two neighbouring spaces.
pub proof fn lemma_join_shape(words: Seq<Seq<char>>)
    requires
        all_words(words),
    ensures
        join_words(words).len() == 0 <==> words.len() == 0,
        words.len() > 0 ==> !is_whitespace(join_words(words)[0]) && !is_whitespace(
            join_words(words).last(),
        ),
        single_spaced(join_words(words)),
    decreases words.len(),
{
    if words.len() > 0 {
        let front = words.drop_last();
        let w = words.last();
        lemma_join_shape(front);
        assert(is_word(w));
        if front.len() > 0 {
            let head = join_words(front);
            let all = join_words(words);
            assert(all == head + seq![' '] + w);
            assert forall|i: int| 0 <= i < all.len() - 1 implies !(all[i] == ' ' && #[trigger] all[i
                + 1] == ' ') by {
                if i + 1 < head.len() {
                    assert(all[i] == head[i] && all[i + 1] == head[i + 1]);
                } else if i + 1 == head.len() {
                    assert(all[i] == head.last());
                } else {
                    assert(all[i + 1] == w[i - head.len()]);
                }
            }
        }
    }
}

/// Trimming changes nothing in a text that neither starts nor ends with white
/// space.
pub proof fn lemma_trim_tight(s: Seq<char>)
    requires
        s.len() > 0 ==> !is_whitespace(s[0]) && !is_whitespace(s.last()),
    ensures
        trim(s) == s,
{
}

/// What trimming leaves of a text neither starts nor ends with white space.
pub proof fn lemma_trimmed_is_tight(s: Seq<char>)
    ensures
        trim(s).len() > 0 ==> !is_whitespace(trim(s)[0]) && !is_whitespace(trim(s).last()),
{
    lemma_trim_start_shape(s);
    lemma_trim_end_shape(trim_start(s));
}

/// Trimming a trimmed text changes nothing.
pub proof fn lemma_trim_idempotent(s: Seq<char>)
    ensures
        trim(trim(s)) == trim(s),
{
    lemma_trimmed_is_tight(s);
    lemma_trim_tight(trim(s));
}

/// Trimming the start leaves a text that does not start with white space.
proof fn lemma_trim_start_shape(s: Seq<char>)
    ensures
        trim_start(s).len() > 0 ==> !is_whitespace(trim_start(s)[0]),
    decreases s.len(),
{
    if s.len() > 0 && is_whitespace(s[0]) {
        lemma_trim_start_shape(s.drop_first());
    }
}

/// Trimming the end leaves a text that does not end with white space, and
/// that starts as the text did.
proof fn lemma_trim_end_shape(s: Seq<char>)
    ensures
        trim_end(s).len() > 0 ==> !is_whitespace(trim_end(s).last()) && trim_end(s)[0] == s[0],
    decreases s.len(),
{
    if s.len() > 0 && is_whitespace(s.last()) {
        lemma_trim_end_shape(s.drop_last());
    }
}

/// The pieces of a text are at least one.
pub proof fn lemma_pieces_nonempty(s: Seq<char>)
    ensures
        pieces(s).len() >= 1,
    decreases s.len(),
{
    if s.len() > 0 {
        lemma_pieces_nonempty(s.drop_last());
    }
}

/// Characters other than the space, put behind a text, lengthen its last piece.
pub proof fn lemma_pieces_extend(s: Seq<char>, w: Seq<char>)
    requires
        forall|i: int| 0 <= i < w.len() ==> w[i] != ' ',
    ensures
        pieces(s + w) == pieces(s).drop_last().push(pieces(s).last() + w),
    decreases w.len(),
{
    lemma_pieces_nonempty(s);
    let p = pieces(s);
    if w.len() == 0 {
        assert(s + w =~= s);
        assert(p.drop_last().push(p.last() + w) =~= p);
    } else {
        let front = w.drop_last();
        lemma_pieces_extend(s, front);
        assert((s + w).drop_last() =~= s + front);
        assert((p.last() + front).push(w.last()) =~= p.last() + w);
    }
}

/// Reading the words of a text that was joined from words gives those words
/// back.
pub proof fn lemma_words_of_join(words: Seq<Seq<char>>)
    requires
        all_words(words),
    ensures
        words_of(join_words(words)) == words,
    decreases words.len(),
{
    lemma_join_shape(words);
    if words.len() > 0 {
        let front = words.drop_last();
        let w = words.last();
        assert(is_word(w));
        lemma_join_shape(front);
        lemma_words_of_join(front);
        if front.len() == 0 {
            lemma_pieces_extend(Seq::empty(), w);
            assert(Seq::<char>::empty() + w =~= w);
        } else {
            let gap = join_words(front) + seq![' '];
            assert(gap.drop_last() =~= join_words(front));
            assert(pieces(gap) == front.push(Seq::empty()));
            lemma_pieces_extend(gap, w);
            assert(front.push(w) =~= words);
        }
    }
}

} // verus!
