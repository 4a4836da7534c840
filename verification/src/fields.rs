//! Field identifiers of a declaration body: the names of a braced body,
//! and the positions of a parenthesized one.

use vstd::prelude::*;
use crate::text::{join, numeral_strings, numerals};
use crate::token::{TokenTree, TokenTreeView};

verus! {

/// The field names that a single pass finds in `body`, started with `pending` as the
/// last token that is no punctuation and with `colons` colons met since.
///
/// A token that is no punctuation closes the stretch before it: where that stretch
/// holds exactly one colon, the pending text is a field name. The token's own text
/// is pending from then on.
pub open spec fn names_from(body: Seq<TokenTreeView>, pending: Seq<char>, colons: nat) -> Seq<
    Seq<char>,
>
    decreases body.len(),
{
    if body.len() == 0 {
        Seq::empty()
    } else {
        match body[0] {
            TokenTreeView::Punct(c) => names_from(
                body.drop_first(),
                pending,
                if c == ':' {
                    colons + 1
                } else {
                    colons
                },
            ),
            token => (if colons == 1 {
                seq![pending]
            } else {
                Seq::empty()
            }) + names_from(body.drop_first(), token.text(), 0),
        }
    }
}

/// The field names of a braced body, in the order of declaration.
pub open spec fn field_names(body: Seq<TokenTreeView>) -> Seq<Seq<char>> {
    names_from(body, Seq::empty(), 0)
}

/// How many tokens of `body` are the punctuation character `c`.
pub open spec fn occurrences(body: Seq<TokenTreeView>, c: char) -> nat
    decreases body.len(),
{
    if body.len() == 0 {
        0
    } else {
        occurrences(body.drop_last(), c) + if body.last().is_punct(c) {
            1nat
        } else {
            0nat
        }
    }
}

/// The number of entries of a parenthesized body: its top-level tokens are cut at each
/// comma, and a comma at the very end opens no further entry.
pub open spec fn entry_count(body: Seq<TokenTreeView>) -> nat {
    occurrences(body, ',') + if body.len() > 0 && !body.last().is_punct(',') {
        1nat
    } else {
        0nat
    }
}

/// The field identifiers of a parenthesized body: the positions `0`, `1`, ... of its entries.
pub open spec fn position_names(body: Seq<TokenTreeView>) -> Seq<Seq<char>> {
    numerals(entry_count(body))
}

/// There are no more occurrences than tokens.
pub proof fn lemma_occurrences_bound(body: Seq<TokenTreeView>, c: char)
    ensures
        occurrences(body, c) <= body.len(),
    decreases body.len(),
{
    if body.len() > 0 {
        lemma_occurrences_bound(body.drop_last(), c);
    }
}

/// The text that is pending at a point of the pass: that of the last token that is no
/// punctuation, where there was one.
spec fn pending_text(body: Seq<TokenTreeView>, last: Option<usize>) -> Seq<char> {
    match last {
        Some(k) => body[k as int].text(),
        None => Seq::empty(),
    }
}

/// Extracts the field names of a braced body, in the order of declaration.
pub fn struct_fields(input: &[TokenTree]) -> (fields: Vec<String>)
    ensures
        fields.deep_view() == field_names(input.deep_view()),
{
    let ghost body = input.deep_view();
    let mut fields: Vec<String> = Vec::new();
    let mut last: Option<usize> = None;
    let mut colons: u8 = 0;
    let ghost mut seen: nat = 0;
    let mut i: usize = 0;
    assert(body.skip(0) =~= body);
    assert(fields.deep_view() + field_names(body) =~= field_names(body));
    while i < input.len()
        invariant
            i <= input.len(),
            body == input.deep_view(),
            last matches Some(k) ==> k < i,
            colons as nat == if seen >= 2 {
                2
            } else {
                seen
            },
            field_names(body) == fields.deep_view() + names_from(
                body.skip(i as int),
                pending_text(body, last),
                seen,
            ),
        decreases input.len() - i,
    {
        let ghost rest = body.skip(i as int);
        let ghost before = fields.deep_view();
        assert(rest[0] == input[i as int].deep_view());
        assert(rest.drop_first() =~= body.skip(i + 1));
        match &input[i] {
            TokenTree::Punct(c) => {
                if *c == ':' {
                    if colons < 2 {
                        colons += 1;
                    }
                    proof {
                        seen = seen + 1;
                    }
                }
            },
            _ => {
                if colons == 1 {
                    let name = match last {
                        Some(k) => input[k].text(),
                        None => String::new(),
                    };
                    assert(name@ == pending_text(body, last));
                    fields.push(name);
                    assert(fields.deep_view() =~= before + seq![pending_text(body, last)]);
                } else {
                    assert(before + Seq::<Seq<char>>::empty() =~= before);
                }
                last = Some(i);
                colons = 0;
                proof {
                    seen = 0;
                }
            },
        }
        i += 1;
    }
    assert(body.skip(i as int).len() == 0);
    assert(fields.deep_view() + Seq::<Seq<char>>::empty() =~= fields.deep_view());
    fields
}

/// Synthesizes the field identifiers of a parenthesized body: one position for each entry.
pub fn tuple_fields(input: &[TokenTree]) -> (fields: Vec<String>)
    ensures
        fields.deep_view() == position_names(input.deep_view()),
{
    let ghost body = input.deep_view();
    let mut count: usize = 0;
    let mut open: bool = false;
    let mut i: usize = 0;
    while i < input.len()
        invariant
            i <= input.len(),
            body == input.deep_view(),
            count == occurrences(body.take(i as int), ','),
            count <= i,
            open == (i > 0 && !body[i - 1].is_punct(',')),
            open ==> count < i,
        decreases input.len() - i,
    {
        assert(body.take(i + 1).drop_last() =~= body.take(i as int));
        assert(body[i as int] == input[i as int].deep_view());
        match &input[i] {
            TokenTree::Punct(c) => {
                if *c == ',' {
                    proof {
                        lemma_occurrences_bound(body.take(i as int), ',');
                    }
                    count += 1;
                    open = false;
                } else {
                    open = true;
                }
            },
            _ => {
                open = true;
            },
        }
        i += 1;
    }
    assert(body.take(i as int) =~= body);
    if open {
        count += 1;
    }
    numeral_strings(count)
}

/// Whether no token of `tokens` is the punctuation character `c`.
pub open spec fn free_of(tokens: Seq<TokenTreeView>, c: char) -> bool {
    forall|i: int| 0 <= i < tokens.len() ==> !(#[trigger] tokens[i]).is_punct(c)
}

/// The occurrences in a run of tokens are those of its front and those of its back.
pub proof fn lemma_occurrences_concat(front: Seq<TokenTreeView>, back: Seq<TokenTreeView>, c: char)
    ensures
        occurrences(front + back, c) == occurrences(front, c) + occurrences(back, c),
    decreases back.len(),
{
    if back.len() == 0 {
        assert(front + back =~= front);
    } else {
        lemma_occurrences_concat(front, back.drop_last(), c);
        assert((front + back).drop_last() =~= front + back.drop_last());
        assert((front + back).last() == back.last());
    }
}

/// Tokens that are free of a character hold no occurrence of it.
pub proof fn lemma_free_of_occurrences(tokens: Seq<TokenTreeView>, c: char)
    requires
        free_of(tokens, c),
    ensures
        occurrences(tokens, c) == 0,
    decreases tokens.len(),
{
    if tokens.len() > 0 {
        assert(!tokens[tokens.len() - 1].is_punct(c));
        lemma_free_of_occurrences(tokens.drop_last(), c);
    }
}

/// Entries with a comma between each two hold one comma less than there are entries,
/// and end as the last entry ends.
proof fn lemma_separated_entries(entries: Seq<Seq<TokenTreeView>>)
    requires
        entries.len() > 0,
        forall|i: int|
            0 <= i < entries.len() ==> (#[trigger] entries[i]).len() > 0 && free_of(
                entries[i],
                ',',
            ),
    ensures
        occurrences(join(entries, seq![TokenTreeView::Punct(',')]), ',') == entries.len() - 1,
        join(entries, seq![TokenTreeView::Punct(',')]).len() > 0,
        join(entries, seq![TokenTreeView::Punct(',')]).last() == entries.last().last(),
    decreases entries.len(),
{
    let comma = seq![TokenTreeView::Punct(',')];
    let last = entries.last();
    assert(last.len() > 0 && free_of(last, ','));
    lemma_free_of_occurrences(last, ',');
    if entries.len() > 1 {
        let front = entries.drop_last();
        assert forall|i: int| 0 <= i < front.len() implies (#[trigger] front[i]).len() > 0
            && free_of(front[i], ',') by {
            assert(front[i] == entries[i]);
        }
        lemma_separated_entries(front);
        lemma_occurrences_concat(join(front, comma), comma, ',');
        lemma_occurrences_concat(join(front, comma) + comma, last, ',');
        assert(comma.drop_last() =~= Seq::<TokenTreeView>::empty());
        assert(occurrences(comma.drop_last(), ',') == 0);
        assert(comma.last().is_punct(','));
        assert(occurrences(comma, ',') == 1);
    }
}

/// Positions count the entries: entries that are not empty and hold no comma, written
/// with a comma between each two, get the positions `0`, `1`, ... one for each entry;
/// a comma behind the last entry changes nothing.
pub proof fn lemma_positions_count_entries(entries: Seq<Seq<TokenTreeView>>)
    requires
        forall|i: int|
            0 <= i < entries.len() ==> (#[trigger] entries[i]).len() > 0 && free_of(
                entries[i],
                ',',
            ),
    ensures
        position_names(join(entries, seq![TokenTreeView::Punct(',')])) == numerals(entries.len()),
        entries.len() > 0 ==> position_names(
            join(entries, seq![TokenTreeView::Punct(',')]) + seq![TokenTreeView::Punct(',')],
        ) == numerals(entries.len()),
{
    let comma = seq![TokenTreeView::Punct(',')];
    let body = join(entries, comma);
    if entries.len() > 0 {
        lemma_separated_entries(entries);
        let last = entries.last();
        assert(!last[last.len() - 1].is_punct(','));
        lemma_occurrences_concat(body, comma, ',');
        assert(comma.drop_last() =~= Seq::<TokenTreeView>::empty());
        assert(occurrences(comma.drop_last(), ',') == 0);
        assert(comma.last().is_punct(','));
        assert(occurrences(comma, ',') == 1);
        assert((body + comma).last() == TokenTreeView::Punct(','));
    }
}

/// A body without tokens has no fields, whether braced or parenthesized.
pub proof fn lemma_empty_body()
    ensures
        field_names(Seq::empty()) == Seq::<Seq<char>>::empty(),
        position_names(Seq::empty()) == Seq::<Seq<char>>::empty(),
{
    assert(numerals(0) =~= Seq::<Seq<char>>::empty());
}

} // verus!
