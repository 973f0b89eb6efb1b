//! Optimal-fit line breaking, by the `textwrap` crate.

use crate::renderer::{views, Word, WordView};
use textwrap::wrap_algorithms::{wrap_optimal_fit, Penalties};
use vstd::prelude::*;

verus! {

/// What the optimal-fit line breaker answers for fragments with the given
/// widths, trailing gaps and end-of-line penalties, where the first line has
/// room for `first_width` columns and every later line for `width`: the
/// number of fragments on each line from the first to the last, or nothing
/// where its cost arithmetic overflowed.
pub uninterp spec fn optimal_fit(
    widths: Seq<int>,
    gaps: Seq<int>,
    penalties: Seq<int>,
    first_width: int,
    width: int,
) -> Option<Seq<int>>;

/// The width of each word.
pub open spec fn widths_of(words: Seq<WordView>) -> Seq<int> {
    words.map_values(|w: WordView| w.width)
}

/// The trailing gap of each word.
pub open spec fn gaps_of(words: Seq<WordView>) -> Seq<int> {
    words.map_values(|w: WordView| w.whitespace_width)
}

/// The end-of-line penalty of each word.
pub open spec fn penalties_of(words: Seq<WordView>) -> Seq<int> {
    words.map_values(|w: WordView| w.penalty_width)
}

/// Lengths as mathematical integers.
pub open spec fn ints(lengths: Seq<usize>) -> Seq<int> {
    lengths.map_values(|n: usize| n as int)
}

/// An answer of the line breaker as a mathematical value.
pub open spec fn lengths_view(lengths: Option<Vec<usize>>) -> Option<Seq<int>> {
    match lengths {
        Some(l) => Some(ints(l@)),
        None => None,
    }
}

/// The sum of `lengths`.
pub open spec fn total(lengths: Seq<int>) -> int
    decreases lengths.len(),
{
    if lengths.len() == 0 {
        0
    } else {
        total(lengths.drop_last()) + lengths.last()
    }
}

/// Whether `lengths` are the lengths of one or more lines that hold `n`
/// fragments between them.
pub open spec fn is_partition(lengths: Seq<int>, n: int) -> bool {
    &&& lengths.len() > 0
    &&& forall|k: int| 0 <= k < lengths.len() ==> 0 <= #[trigger] lengths[k]
    &&& total(lengths) == n
}

/// Whether `lengths` break `n` fragments into lines as the line breaker
/// does: they account for every fragment, and where there is a fragment, no
/// line is empty.
pub open spec fn is_breaking(lengths: Seq<int>, n: int) -> bool {
    &&& is_partition(lengths, n)
    &&& n > 0 ==> forall|k: int| 0 <= k < lengths.len() ==> 1 <= #[trigger] lengths[k]
}

/// The line lengths that a layout goes by: those of the line breaker where
/// they break the fragments into lines, and otherwise one line with all `n`
/// of them.
pub open spec fn line_lengths(fit: Option<Seq<int>>, n: int) -> Seq<int> {
    match fit {
        Some(l) => if is_breaking(l, n) {
            l
        } else {
            seq![n]
        },
        None => seq![n],
    }
}

/// Whatever the line breaker answered, the lengths that a layout goes by
/// break the fragments into lines.
pub proof fn lemma_line_lengths_break(fit: Option<Seq<int>>, n: int)
    requires
        0 <= n,
    ensures
        is_breaking(line_lengths(fit, n), n),
{
    assert(seq![n].drop_last() =~= Seq::<int>::empty());
    assert(total(seq![n]) == n) by {
        reveal_with_fuel(total, 2);
    }
}

/// One fragment goes on one line.
pub proof fn lemma_one_fragment_one_line(lengths: Seq<int>)
    requires
        is_breaking(lengths, 1),
    ensures
        lengths == seq![1int],
{
    lemma_total_take(lengths, 0);
    assert(lengths.take(0) =~= Seq::<int>::empty());
    if lengths.len() > 1 {
        lemma_total_take(lengths, 1);
        lemma_total_monotonic(lengths, 2);
    }
    assert(lengths.take(1) =~= lengths);
    assert(lengths =~= seq![1int]);
}

/// The sum of a prefix grows by the next length.
pub proof fn lemma_total_take(lengths: Seq<int>, k: int)
    requires
        0 <= k < lengths.len(),
    ensures
        total(lengths.take(k + 1)) == total(lengths.take(k)) + lengths[k],
{
    assert(lengths.take(k + 1).drop_last() =~= lengths.take(k));
}

/// With no negative length, the sum of a prefix is at most the sum of the
/// whole.
pub proof fn lemma_total_monotonic(lengths: Seq<int>, k: int)
    requires
        0 <= k <= lengths.len(),
        forall|i: int| 0 <= i < lengths.len() ==> 0 <= #[trigger] lengths[i],
    ensures
        0 <= total(lengths.take(k)) <= total(lengths),
    decreases lengths.len() - k,
{
    if k == lengths.len() {
        assert(lengths.take(k) =~= lengths);
        lemma_total_nonnegative(lengths);
    } else {
        lemma_total_take(lengths, k);
        lemma_total_monotonic(lengths, k + 1);
        lemma_total_nonnegative(lengths.take(k));
    }
}

/// With no negative length, the sum is not negative.
pub proof fn lemma_total_nonnegative(lengths: Seq<int>)
    requires
        forall|i: int| 0 <= i < lengths.len() ==> 0 <= #[trigger] lengths[i],
    ensures
        0 <= total(lengths),
    decreases lengths.len(),
{
    if lengths.len() > 0 {
        lemma_total_nonnegative(lengths.drop_last());
    }
}

/// Whether `lengths` sum to `n`.
pub fn sums_to(lengths: &Vec<usize>, n: usize) -> (r: bool)
    ensures
        r == (total(ints(lengths@)) == n),
{
    let mut rest: usize = n;
    let mut k: usize = 0;
    while k < lengths.len()
        invariant
            k <= lengths.len(),
            rest <= n,
            total(ints(lengths@).take(k as int)) == n - rest,
        decreases lengths.len() - k,
    {
        proof {
            lemma_total_take(ints(lengths@), k as int);
        }
        if lengths[k] > rest {
            proof {
                lemma_total_monotonic(ints(lengths@), k + 1);
            }
            return false;
        }
        rest = rest - lengths[k];
        k = k + 1;
    }
    assert(ints(lengths@).take(k as int) =~= ints(lengths@));
    rest == 0
}

/// Whether no line of `lengths` is empty.
pub fn no_empty_line(lengths: &Vec<usize>) -> (r: bool)
    ensures
        r == forall|k: int| 0 <= k < lengths@.len() ==> 1 <= #[trigger] ints(lengths@)[k],
{
    let mut k: usize = 0;
    while k < lengths.len()
        invariant
            k <= lengths.len(),
            forall|i: int| 0 <= i < k ==> 1 <= #[trigger] ints(lengths@)[i],
        decreases lengths.len() - k,
    {
        if lengths[k] == 0 {
            assert(ints(lengths@)[k as int] == 0);
            return false;
        }
        k = k + 1;
    }
    true
}

/// The line lengths to go by for `n` fragments, given the line breaker's
/// answer.
pub fn checked_lengths(fit: Option<Vec<usize>>, n: usize) -> (r: Vec<usize>)
    ensures
        ints(r@) == line_lengths(lengths_view(fit), n as int),
        is_breaking(ints(r@), n as int),
{
    match fit {
        Some(lengths) => {
            if lengths.len() > 0 && sums_to(&lengths, n) && (n == 0 || no_empty_line(&lengths)) {
                return lengths;
            }
        },
        None => {},
    }
    let single = vec![n];
    assert(ints(single@) =~= seq![n as int]);
    assert(total(seq![n as int]) == n) by {
        assert(seq![n as int].drop_last() =~= Seq::<int>::empty());
        reveal_with_fuel(total, 2);
    }
    single
}

/// `textwrap::wrap_algorithms::wrap_optimal_fit` with the default penalties,
/// on one `textwrap::core::Word` per word, of the word's width, gap and
/// penalty, and the two line widths `first_width` and `width`. It hands back
/// the length of each line, or nothing where the call reports an overflow.
/// The contract gives the answer its name, and says of it what the function
/// does with any answer of its search: the lines follow one another from the
/// first fragment to the last, so that their lengths sum to the number of
/// words, there is at least one line, and where there is a word no line is
/// empty.
#[verifier::external_body]
pub(crate) fn optimal_fit_lines(words: &Vec<Word>, first_width: u16, width: u16) -> (r: Option<
    Vec<usize>,
>)
    ensures
        lengths_view(r) == optimal_fit(
            widths_of(views(words@)),
            gaps_of(views(words@)),
            penalties_of(views(words@)),
            first_width as int,
            width as int,
        ),
        r matches Some(lengths) ==> is_breaking(ints(lengths@), words@.len() as int),
{
    let spaces: Vec<_> = words.iter().map(
        |w| (" ".repeat(w.whitespace_width.into()), "-".repeat(w.penalty_width.into())),
    ).collect();
    let fragments: Vec<_> = words.iter().zip(&spaces).map(
        |(w, s)| textwrap::core::Word { word: "", whitespace: &s.0, penalty: &s.1, width: w.width },
    ).collect();
    let line_widths = [first_width.into(), width.into()];
    let lines = wrap_optimal_fit(&fragments, &line_widths, &Penalties::new());
    Some(lines.ok()?.iter().map(|line| line.len()).collect())
}

} // verus!
