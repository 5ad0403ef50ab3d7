//! What loading a quote source guarantees as a whole.
use vstd::prelude::*;
use crate::pattern::regex_group;
use crate::quote::QuoteView;
use crate::store::{
    has_three_fields, is_blank, lemma_error_persists, line_result, load_result, speaker_field,
    tag_field, text_field, LoadError, TAG_PATTERN,
};

verus! {

/// Positions of the non-empty lines among the first `n` lines, in order.
pub open spec fn quote_lines(lines: Seq<Seq<char>>, n: nat) -> Seq<int>
    decreases n,
{
    if n == 0 || n > lines.len() {
        seq![]
    } else if is_blank(lines[n - 1]) {
        quote_lines(lines, (n - 1) as nat)
    } else {
        quote_lines(lines, (n - 1) as nat).push(n - 1)
    }
}

proof fn lemma_prefix_keeps_quotes(lines: Seq<Seq<char>>, n: nat)
    requires
        n <= lines.len(),
        forall|i: int|
            0 <= i < n && !is_blank(#[trigger] lines[i]) ==> line_result(
                lines[i],
                (i + 1) as usize,
            ) is Ok,
    ensures
        ({
            let r = load_result(lines, n);
            let ks = quote_lines(lines, n);
            &&& r is Ok
            &&& r->Ok_0.len() == ks.len()
            &&& forall|j: int|
                0 <= j < ks.len() ==> 0 <= #[trigger] ks[j] < n && !is_blank(lines[ks[j]])
                    && r->Ok_0[j] == line_result(lines[ks[j]], (ks[j] + 1) as usize)->Ok_0
            &&& forall|j: int, k: int| 0 <= j < k < ks.len() ==> ks[j] < ks[k]
            &&& forall|i: int|
                0 <= i < n && !is_blank(#[trigger] lines[i]) ==> exists|j: int|
                    0 <= j < ks.len() && ks[j] == i
        }),
    decreases n,
{
    if n > 0 {
        let m = (n - 1) as nat;
        lemma_prefix_keeps_quotes(lines, m);
        let ks = quote_lines(lines, m);
        if !is_blank(lines[m as int]) {
            assert(line_result(lines[m as int], (m + 1) as usize) is Ok);
            let ks2 = quote_lines(lines, n);
            assert forall|i: int| 0 <= i < n && !is_blank(#[trigger] lines[i]) implies exists|j: int|
                0 <= j < ks2.len() && ks2[j] == i by {
                if i < m {
                    let j = choose|j: int| 0 <= j < ks.len() && ks[j] == i;
                    assert(ks2[j] == i);
                } else {
                    assert(ks2[ks.len() as int] == i);
                }
            }
        }
    }
}

/// Loading a source whose non-empty lines are all valid yields each of their
/// quotes exactly once, in the order of the lines: the `j`-th quote is the one
/// of the `j`-th non-empty line, and every non-empty line has its place.
pub proof fn lemma_load_keeps_quotes_in_order(lines: Seq<Seq<char>>)
    requires
        forall|i: int|
            0 <= i < lines.len() && !is_blank(#[trigger] lines[i]) ==> line_result(
                lines[i],
                (i + 1) as usize,
            ) is Ok,
    ensures
        ({
            let r = load_result(lines, lines.len());
            let ks = quote_lines(lines, lines.len());
            &&& r is Ok
            &&& r->Ok_0.len() == ks.len()
            &&& forall|j: int|
                0 <= j < ks.len() ==> 0 <= #[trigger] ks[j] < lines.len() && !is_blank(
                    lines[ks[j]],
                ) && r->Ok_0[j] == line_result(lines[ks[j]], (ks[j] + 1) as usize)->Ok_0
            &&& forall|j: int, k: int| 0 <= j < k < ks.len() ==> ks[j] < ks[k]
            &&& forall|i: int|
                0 <= i < lines.len() && !is_blank(#[trigger] lines[i]) ==> exists|j: int|
                    0 <= j < ks.len() && ks[j] == i
        }),
{
    lemma_prefix_keeps_quotes(lines, lines.len());
}

/// A source in which some non-empty line has three fields but a third field
/// that the tag pattern does not match fails to load as a whole, whatever the
/// other lines hold. Where every line before it is valid and its text and
/// speaker are there, the failure is `MalformedTag` for that line.
pub proof fn lemma_bad_tag_fails_load(lines: Seq<Seq<char>>, i: int)
    requires
        0 <= i < lines.len() < usize::MAX,
        !is_blank(lines[i]),
        has_three_fields(lines[i]),
        regex_group(TAG_PATTERN@, tag_field(lines[i]), 1) is None,
    ensures
        load_result(lines, lines.len()) is Err,
        (forall|j: int|
            0 <= j < i && !is_blank(#[trigger] lines[j]) ==> line_result(lines[j], (j + 1) as usize)
                is Ok) && text_field(lines[i]).len() > 0 && speaker_field(lines[i]).len() > 0
            ==> load_result(lines, lines.len()) == Err::<Seq<QuoteView>, LoadError>(
            LoadError::MalformedTag { line: (i + 1) as usize },
        ),
{
    let n = (i + 1) as nat;
    if load_result(lines, i as nat) is Err {
        lemma_error_persists(lines, i as nat, n);
    }
    assert(line_result(lines[i], n as usize) is Err);
    assert(load_result(lines, n) is Err);
    lemma_error_persists(lines, n, lines.len());
    if (forall|j: int|
        0 <= j < i && !is_blank(#[trigger] lines[j]) ==> line_result(lines[j], (j + 1) as usize)
            is Ok) && text_field(lines[i]).len() > 0 && speaker_field(lines[i]).len() > 0 {
        lemma_prefix_keeps_quotes(lines, i as nat);
        assert(line_result(lines[i], n as usize) == Err::<QuoteView, LoadError>(
            LoadError::MalformedTag { line: n as usize },
        ));
    }
}

} // verus!
