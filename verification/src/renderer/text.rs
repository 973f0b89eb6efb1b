//! Splitting a text run into its words.

use vstd::prelude::*;

verus! {

/// Whether `c` is white space: one of the code points with the Unicode
/// property White_Space.
pub open spec fn is_whitespace(c: char) -> bool {
    let n = c as u32;
    ||| 0x09 <= n <= 0x0D
    ||| n == 0x20
    ||| n == 0x85
    ||| n == 0xA0
    ||| n == 0x1680
    ||| 0x2000 <= n <= 0x200A
    ||| n == 0x2028
    ||| n == 0x2029
    ||| n == 0x202F
    ||| n == 0x205F
    ||| n == 0x3000
}

/// `char::is_whitespace`: whether the character has the Unicode property
/// White_Space. The contract lists the code points that have it.
#[verifier::external_body]
pub(crate) fn char_is_whitespace(c: char) -> (r: bool)
    ensures
        r == is_whitespace(c),
{
    c.is_whitespace()
}

/// `String::from_iter` over characters: the string made of `chars`, in order.
#[verifier::external_body]
pub(crate) fn string_from_chars(chars: &Vec<char>) -> (r: String)
    ensures
        r@ == chars@,
{
    String::from_iter(chars)
}

/// The characters of `text`, in order.
pub fn chars_of(text: &str) -> (r: Vec<char>)
    ensures
        r@ == text@,
{
    broadcast use vstd::string::group_string_axioms;

    let mut out: Vec<char> = Vec::new();
    let chars = text.chars();
    for c in it: chars
        invariant
            it.seq() == text@,
            out@ == it.seq().take(it.index()),
    {
        out.push(c);
    }
    out
}

/// What a left-to-right scan of `s` has found: the words that are complete,
/// and the characters of the word that is still open.
pub open spec fn scan(s: Seq<char>) -> (Seq<Seq<char>>, Seq<char>)
    decreases s.len(),
{
    if s.len() == 0 {
        (Seq::empty(), Seq::empty())
    } else {
        let (done, open) = scan(s.drop_last());
        if is_whitespace(s.last()) {
            if open.len() > 0 {
                (done.push(open), Seq::empty())
            } else {
                (done, open)
            }
        } else {
            (done, open.push(s.last()))
        }
    }
}

/// The words of `s`: its maximal runs of characters that are not white space,
/// in order.
pub open spec fn split_words(s: Seq<char>) -> Seq<Seq<char>> {
    let (done, open) = scan(s);
    if open.len() > 0 {
        done.push(open)
    } else {
        done
    }
}

/// Whether no character of `word` is white space.
pub open spec fn solid(word: Seq<char>) -> bool {
    forall|j: int| 0 <= j < word.len() ==> !is_whitespace(#[trigger] word[j])
}

/// Every word of a split is non-empty and free of white space.
pub proof fn lemma_split_words_solid(s: Seq<char>, k: int)
    requires
        0 <= k < split_words(s).len(),
    ensures
        split_words(s)[k].len() > 0,
        solid(split_words(s)[k]),
{
    lemma_scan_solid(s);
}

proof fn lemma_scan_solid(s: Seq<char>)
    ensures
        forall|k: int|
            0 <= k < scan(s).0.len() ==> (#[trigger] scan(s).0[k]).len() > 0 && solid(
                scan(s).0[k],
            ),
        solid(scan(s).1),
    decreases s.len(),
{
    if s.len() > 0 {
        lemma_scan_solid(s.drop_last());
        let (done, open) = scan(s.drop_last());
        if !is_whitespace(s.last()) {
            assert forall|j: int| 0 <= j < open.push(s.last()).len() implies !is_whitespace(
                #[trigger] open.push(s.last())[j],
            ) by {
                if j < open.len() {
                    assert(open.push(s.last())[j] == open[j]);
                }
            }
        }
    }
}

/// A text without white space is one word, and the empty text has none.
pub proof fn lemma_split_words_of_word(word: Seq<char>)
    requires
        solid(word),
    ensures
        split_words(word) == if word.len() == 0 {
            Seq::<Seq<char>>::empty()
        } else {
            seq![word]
        },
{
    lemma_scan_of_word(word);
    assert(Seq::<Seq<char>>::empty().push(word) =~= seq![word]);
}

proof fn lemma_scan_of_word(word: Seq<char>)
    requires
        solid(word),
    ensures
        scan(word) == (Seq::<Seq<char>>::empty(), word),
    decreases word.len(),
{
    if word.len() > 0 {
        assert forall|j: int| 0 <= j < word.drop_last().len() implies !is_whitespace(
            #[trigger] word.drop_last()[j],
        ) by {
            assert(word.drop_last()[j] == word[j]);
        }
        lemma_scan_of_word(word.drop_last());
        assert(word.drop_last().push(word.last()) =~= word);
    } else {
        assert(word =~= Seq::<char>::empty());
    }
}

/// White space separates: the words of a text with a white-space character
/// in it are the words before that character, then the words after it.
pub proof fn lemma_split_words_at_white_space(before: Seq<char>, space: char, after: Seq<char>)
    requires
        is_whitespace(space),
    ensures
        split_words(before.push(space) + after) == split_words(before) + split_words(after),
{
    lemma_scan_after_white_space(before, space, after);
    let (done, open) = scan(after);
    assert(split_words(before) + done.push(open) =~= (split_words(before) + done).push(open));
}

proof fn lemma_scan_after_white_space(before: Seq<char>, space: char, after: Seq<char>)
    requires
        is_whitespace(space),
    ensures
        scan(before.push(space) + after) == (split_words(before) + scan(after).0, scan(after).1),
    decreases after.len(),
{
    let whole = before.push(space) + after;
    if after.len() == 0 {
        assert(whole =~= before.push(space));
        assert(whole.drop_last() =~= before);
        assert(split_words(before) + Seq::<Seq<char>>::empty() =~= split_words(before));
    } else {
        lemma_scan_after_white_space(before, space, after.drop_last());
        assert(whole.drop_last() =~= before.push(space) + after.drop_last());
        assert(whole.last() == after.last());
        let (done, open) = scan(after.drop_last());
        assert((split_words(before) + done).push(open) =~= split_words(before) + done.push(open));
    }
}

/// No character is lost or added but white space: the words of a text, set
/// one after the other, are the text without its white space.
pub proof fn lemma_split_words_join(s: Seq<char>)
    ensures
        split_words(s).flatten() == s.filter(|c: char| !is_whitespace(c)),
{
    lemma_scan_join(s);
    let (done, open) = scan(s);
    if open.len() > 0 {
        done.lemma_flatten_push(open);
    } else {
        assert(done.flatten() + open =~= done.flatten());
    }
}

proof fn lemma_scan_join(s: Seq<char>)
    ensures
        scan(s).0.flatten() + scan(s).1 == s.filter(|c: char| !is_whitespace(c)),
    decreases s.len(),
{
    let pred = |c: char| !is_whitespace(c);
    if s.len() == 0 {
        assert(s.filter(pred) =~= Seq::<char>::empty()) by {
            reveal(Seq::filter);
        }
        assert(Seq::<Seq<char>>::empty().flatten() + Seq::<char>::empty() =~= Seq::<
            char,
        >::empty());
    } else {
        lemma_scan_join(s.drop_last());
        let (done, open) = scan(s.drop_last());
        s.drop_last().lemma_filter_push(s.last(), pred);
        assert(s.drop_last().push(s.last()) =~= s);
        if is_whitespace(s.last()) {
            if open.len() > 0 {
                done.lemma_flatten_push(open);
                assert(done.push(open).flatten() + Seq::<char>::empty() =~= done.flatten()
                    + open);
            }
        } else {
            assert(done.flatten() + open.push(s.last()) =~= (done.flatten() + open).push(
                s.last(),
            ));
        }
    }
}

/// Splits `chars` at white space into its words.
pub fn split_whitespace(chars: &Vec<char>) -> (r: Vec<Vec<char>>)
    ensures
        r@.len() == split_words(chars@).len(),
        forall|k: int| 0 <= k < r@.len() ==> (#[trigger] r@[k])@ == split_words(chars@)[k],
{
    let mut done: Vec<Vec<char>> = Vec::new();
    let mut open: Vec<char> = Vec::new();
    let mut i: usize = 0;
    while i < chars.len()
        invariant
            i <= chars.len(),
            open@ == scan(chars@.take(i as int)).1,
            done@.len() == scan(chars@.take(i as int)).0.len(),
            forall|k: int|
                0 <= k < done@.len() ==> (#[trigger] done@[k])@ == scan(chars@.take(i as int)).0[k],
        decreases chars.len() - i,
    {
        let c = chars[i];
        assert(chars@.take(i + 1).drop_last() == chars@.take(i as int));
        if char_is_whitespace(c) {
            if open.len() > 0 {
                let mut word: Vec<char> = Vec::new();
                word.append(&mut open);
                done.push(word);
            }
        } else {
            open.push(c);
        }
        i = i + 1;
    }
    assert(chars@.take(i as int) == chars@);
    if open.len() > 0 {
        done.push(open);
    }
    done
}

} // verus!
