//! Fields as they are usually written, `name: Type` with commas between them:
//! the single pass over such a body finds exactly the names.

use vstd::prelude::*;
use crate::fields::{field_names, free_of, names_from};
use crate::text::join;
use crate::token::TokenTreeView;

verus! {

/// The text that is pending behind `body`, where `pending` was pending in front of it.
pub open spec fn pending_after(body: Seq<TokenTreeView>, pending: Seq<char>) -> Seq<char>
    decreases body.len(),
{
    if body.len() == 0 {
        pending
    } else {
        match body[0] {
            TokenTreeView::Punct(_) => pending_after(body.drop_first(), pending),
            token => pending_after(body.drop_first(), token.text()),
        }
    }
}

/// The colons met behind `body` since the last token that is no punctuation, where
/// `colons` were met in front of it.
pub open spec fn colons_after(body: Seq<TokenTreeView>, colons: nat) -> nat
    decreases body.len(),
{
    if body.len() == 0 {
        colons
    } else {
        match body[0] {
            TokenTreeView::Punct(c) => colons_after(
                body.drop_first(),
                if c == ':' {
                    colons + 1
                } else {
                    colons
                },
            ),
            _ => colons_after(body.drop_first(), 0),
        }
    }
}

/// The pass over two runs of tokens is the pass over the first, then the pass over the
/// second from where the first one ended.
pub proof fn lemma_names_from_concat(
    front: Seq<TokenTreeView>,
    back: Seq<TokenTreeView>,
    pending: Seq<char>,
    colons: nat,
)
    ensures
        names_from(front + back, pending, colons) == names_from(front, pending, colons)
            + names_from(back, pending_after(front, pending), colons_after(front, colons)),
        pending_after(front + back, pending) == pending_after(back, pending_after(front, pending)),
        colons_after(front + back, colons) == colons_after(back, colons_after(front, colons)),
    decreases front.len(),
{
    let none = Seq::<Seq<char>>::empty();
    if front.len() == 0 {
        assert(front + back =~= back);
        assert(none + names_from(back, pending, colons) =~= names_from(back, pending, colons));
    } else {
        let whole = front + back;
        assert(whole[0] == front[0]);
        assert(whole.drop_first() =~= front.drop_first() + back);
        match front[0] {
            TokenTreeView::Punct(c) => {
                let next: nat = if c == ':' {
                    colons + 1
                } else {
                    colons
                };
                lemma_names_from_concat(front.drop_first(), back, pending, next);
            },
            token => {
                lemma_names_from_concat(front.drop_first(), back, token.text(), 0);
                let found = if colons == 1 {
                    seq![pending]
                } else {
                    none
                };
                let first = names_from(front.drop_first(), token.text(), 0);
                let second = names_from(
                    back,
                    pending_after(front.drop_first(), token.text()),
                    colons_after(front.drop_first(), 0),
                );
                assert(found + (first + second) =~= (found + first) + second);
            },
        }
    }
}

/// Whether a token is punctuation.
pub open spec fn is_punctuation(token: TokenTreeView) -> bool {
    token is Punct
}

/// Whether no colon of `tokens` stands alone: each has a colon for a neighbour, as in
/// the separator `::` of a path.
pub open spec fn colons_paired(tokens: Seq<TokenTreeView>) -> bool {
    forall|i: int|
        0 <= i < tokens.len() && (#[trigger] tokens[i]).is_punct(':') ==> (i > 0 && tokens[i
            - 1].is_punct(':')) || (i + 1 < tokens.len() && tokens[i + 1].is_punct(':'))
}

/// Whether `tokens` can stand for the type of a field: a token that is no punctuation
/// stands in front of every colon, and no colon stands alone.
pub open spec fn plain_type(tokens: Seq<TokenTreeView>) -> bool {
    &&& exists|k: int| 0 <= k < tokens.len() && !is_punctuation(#[trigger] tokens[k])
    &&& forall|i: int|
        0 <= i < tokens.len() && (#[trigger] tokens[i]).is_punct(':') ==> exists|k: int|
            0 <= k < i && !is_punctuation(#[trigger] tokens[k])
    &&& colons_paired(tokens)
}

/// One field of a braced body: what stands in front of its name (attributes, visibility),
/// the name, and the tokens of its type.
pub ghost struct FieldDeclaration {
    pub lead: Seq<TokenTreeView>,
    pub name: Seq<char>,
    pub annotation: Seq<TokenTreeView>,
}

impl FieldDeclaration {
    /// The tokens of the field: the lead, the name, a colon, the type.
    pub open spec fn tokens(self) -> Seq<TokenTreeView> {
        self.lead + seq![TokenTreeView::Ident(self.name), TokenTreeView::Punct(':')]
            + self.annotation
    }

    /// Whether the field is written so that the pass finds it: no colon in its lead,
    /// and a plain type.
    pub open spec fn regular(self) -> bool {
        free_of(self.lead, ':') && plain_type(self.annotation)
    }
}

/// The tokens of each field, in order.
pub open spec fn field_tokens(declarations: Seq<FieldDeclaration>) -> Seq<Seq<TokenTreeView>> {
    declarations.map_values(|declaration: FieldDeclaration| declaration.tokens())
}

/// The name of each field, in order.
pub open spec fn declared_names(declarations: Seq<FieldDeclaration>) -> Seq<Seq<char>> {
    declarations.map_values(|declaration: FieldDeclaration| declaration.name)
}

/// Tokens without a colon, met when the colons so far are not exactly one, yield no
/// name and leave the colons other than one.
proof fn lemma_pass_without_colon(tokens: Seq<TokenTreeView>, pending: Seq<char>, colons: nat)
    requires
        free_of(tokens, ':'),
        colons != 1,
    ensures
        names_from(tokens, pending, colons) == Seq::<Seq<char>>::empty(),
        colons_after(tokens, colons) != 1,
    decreases tokens.len(),
{
    let none = Seq::<Seq<char>>::empty();
    if tokens.len() > 0 {
        let rest = tokens.drop_first();
        assert(!tokens[0].is_punct(':'));
        assert forall|i: int| 0 <= i < rest.len() implies !(#[trigger] rest[i]).is_punct(':') by {
            assert(rest[i] == tokens[i + 1]);
        }
        match tokens[0] {
            TokenTreeView::Punct(c) => {
                lemma_pass_without_colon(rest, pending, colons);
            },
            token => {
                lemma_pass_without_colon(rest, token.text(), 0);
                assert(none + none =~= none);
            },
        }
    }
}

/// Punctuation without a colon changes neither the pending text nor the colons.
proof fn lemma_pass_over_punctuation(tokens: Seq<TokenTreeView>, pending: Seq<char>, colons: nat)
    requires
        free_of(tokens, ':'),
        forall|i: int| 0 <= i < tokens.len() ==> is_punctuation(#[trigger] tokens[i]),
    ensures
        names_from(tokens, pending, colons) == Seq::<Seq<char>>::empty(),
        pending_after(tokens, pending) == pending,
        colons_after(tokens, colons) == colons,
    decreases tokens.len(),
{
    if tokens.len() > 0 {
        let rest = tokens.drop_first();
        assert(!tokens[0].is_punct(':'));
        assert(is_punctuation(tokens[0]));
        assert forall|i: int| 0 <= i < rest.len() implies !(#[trigger] rest[i]).is_punct(':')
            && is_punctuation(rest[i]) by {
            assert(rest[i] == tokens[i + 1]);
        }
        lemma_pass_over_punctuation(rest, pending, colons);
    }
}

/// Whether each colon of `tokens` has a colon for a neighbour, where `joined` says that
/// a colon stands right in front of `tokens`.
spec fn paired_behind(tokens: Seq<TokenTreeView>, joined: bool) -> bool {
    forall|i: int|
        0 <= i < tokens.len() && (#[trigger] tokens[i]).is_punct(':') ==> (i > 0 && tokens[i
            - 1].is_punct(':')) || (i + 1 < tokens.len() && tokens[i + 1].is_punct(':')) || (i
            == 0 && joined)
}

/// Where no colon stands alone, a stretch never closes on exactly one colon: the pass
/// yields no name and leaves the colons other than one.
proof fn lemma_pass_over_paired(
    tokens: Seq<TokenTreeView>,
    pending: Seq<char>,
    colons: nat,
    joined: bool,
)
    requires
        paired_behind(tokens, joined),
        joined ==> colons >= 1,
        colons == 1 ==> tokens.len() > 0 && tokens[0].is_punct(':'),
    ensures
        names_from(tokens, pending, colons) == Seq::<Seq<char>>::empty(),
        colons_after(tokens, colons) != 1,
    decreases tokens.len(),
{
    let none = Seq::<Seq<char>>::empty();
    if tokens.len() > 0 {
        let rest = tokens.drop_first();
        let colon = tokens[0].is_punct(':');
        assert forall|i: int| 0 <= i < rest.len() && (#[trigger] rest[i]).is_punct(':') implies (i
            > 0 && rest[i - 1].is_punct(':')) || (i + 1 < rest.len() && rest[i + 1].is_punct(':'))
            || (i == 0 && colon) by {
            assert(rest[i] == tokens[i + 1]);
            assert(tokens[i + 1].is_punct(':'));
            if i > 0 {
                assert(rest[i - 1] == tokens[i]);
            }
            if i + 1 < rest.len() {
                assert(rest[i + 1] == tokens[i + 2]);
            }
        }
        match tokens[0] {
            TokenTreeView::Punct(c) => {
                if c == ':' {
                    assert(tokens[0].is_punct(':'));
                    if colons == 0 {
                        assert(rest.len() > 0 && rest[0].is_punct(':')) by {
                            assert(tokens.len() > 1 && tokens[1].is_punct(':'));
                            assert(rest[0] == tokens[1]);
                        }
                    }
                    lemma_pass_over_paired(rest, pending, colons + 1, true);
                } else {
                    assert(!colon);
                    lemma_pass_over_paired(rest, pending, colons, false);
                }
            },
            token => {
                assert(!colon);
                lemma_pass_over_paired(rest, token.text(), 0, false);
                assert(none + none =~= none);
            },
        }
    }
}

/// How many tokens of punctuation stand in front of the first token that is none.
pub open spec fn leading(tokens: Seq<TokenTreeView>) -> nat
    decreases tokens.len(),
{
    if tokens.len() == 0 || !is_punctuation(tokens[0]) {
        0
    } else {
        1 + leading(tokens.drop_first())
    }
}

/// `leading` stays within the tokens, counts punctuation only, and stops at a token
/// that is none.
proof fn lemma_leading(tokens: Seq<TokenTreeView>)
    ensures
        leading(tokens) <= tokens.len(),
        forall|i: int| 0 <= i < leading(tokens) ==> is_punctuation(#[trigger] tokens[i]),
        leading(tokens) < tokens.len() ==> !is_punctuation(tokens[leading(tokens) as int]),
    decreases tokens.len(),
{
    if tokens.len() == 0 || !is_punctuation(tokens[0]) {
    } else {
        let rest = tokens.drop_first();
        lemma_leading(rest);
        assert forall|i: int| 0 <= i < leading(tokens) implies is_punctuation(
            #[trigger] tokens[i],
        ) by {
            if i > 0 {
                assert(tokens[i] == rest[i - 1]);
            }
        }
    }
}

/// The pass over a plain type that follows a name and its colon yields that name, and
/// nothing else, and leaves the colons other than one.
proof fn lemma_pass_over_type(tokens: Seq<TokenTreeView>, name: Seq<char>)
    requires
        plain_type(tokens),
    ensures
        names_from(tokens, name, 1) == seq![name],
        colons_after(tokens, 1) != 1,
{
    let none = Seq::<Seq<char>>::empty();
    lemma_leading(tokens);
    let first = leading(tokens) as int;
    assert(first < tokens.len()) by {
        let k = choose|k: int| 0 <= k < tokens.len() && !is_punctuation(#[trigger] tokens[k]);
        if first >= tokens.len() {
            assert(is_punctuation(tokens[k]));
        }
    }
    let front = tokens.take(first);
    let back = tokens.skip(first);
    let rest = back.drop_first();
    assert(tokens =~= front + back);
    assert(back[0] == tokens[first]);
    assert(free_of(front, ':')) by {
        assert forall|i: int| 0 <= i < front.len() implies !(#[trigger] front[i]).is_punct(
            ':',
        ) by {
            assert(front[i] == tokens[i]);
            if tokens[i].is_punct(':') {
                let k = choose|k: int| 0 <= k < i && !is_punctuation(#[trigger] tokens[k]);
                assert(is_punctuation(tokens[k]));
            }
        }
    }
    assert forall|i: int| 0 <= i < front.len() implies is_punctuation(#[trigger] front[i]) by {
        assert(front[i] == tokens[i]);
    }
    lemma_pass_over_punctuation(front, name, 1);
    lemma_names_from_concat(front, back, name, 1);
    assert(paired_behind(rest, false)) by {
        assert forall|i: int| 0 <= i < rest.len() && (#[trigger] rest[i]).is_punct(
            ':',
        ) implies (i > 0 && rest[i - 1].is_punct(':')) || (i + 1 < rest.len() && rest[i
            + 1].is_punct(':')) by {
            let at = first + 1 + i;
            assert(rest[i] == tokens[at]);
            assert(tokens[at].is_punct(':'));
            if i > 0 {
                assert(rest[i - 1] == tokens[at - 1]);
            } else {
                assert(!tokens[at - 1].is_punct(':'));
            }
            if i + 1 < rest.len() {
                assert(rest[i + 1] == tokens[at + 1]);
            }
        }
    }
    lemma_pass_over_paired(rest, back[0].text(), 0, false);
    assert(names_from(back, name, 1) == seq![name] + names_from(rest, back[0].text(), 0));
    assert(colons_after(back, 1) == colons_after(rest, 0));
    assert(seq![name] + none =~= seq![name]);
    assert(none + seq![name] =~= seq![name]);
}

/// The pass over a regular field, met when the colons so far are not exactly one,
/// yields the field's name and leaves the colons other than one.
proof fn lemma_pass_over_field(field: FieldDeclaration, pending: Seq<char>, colons: nat)
    requires
        field.regular(),
        colons != 1,
    ensures
        names_from(field.tokens(), pending, colons) == seq![field.name],
        colons_after(field.tokens(), colons) != 1,
{
    let none = Seq::<Seq<char>>::empty();
    let named = seq![TokenTreeView::Ident(field.name), TokenTreeView::Punct(':')];
    let front = field.lead + named;
    let pending_named = pending_after(field.lead, pending);
    let colons_named = colons_after(field.lead, colons);
    lemma_pass_without_colon(field.lead, pending, colons);
    assert(names_from(named, pending_named, colons_named) == none
        && pending_after(named, pending_named) == field.name
        && colons_after(named, colons_named) == 1) by {
        let colon = named.drop_first();
        assert(colon.len() == 1 && colon[0] == TokenTreeView::Punct(':'));
        assert(colon.drop_first().len() == 0);
        assert(names_from(colon, field.name, 0) == names_from(colon.drop_first(), field.name, 1));
        assert(pending_after(colon, field.name) == pending_after(colon.drop_first(), field.name));
        assert(colons_after(colon, 0) == colons_after(colon.drop_first(), 1));
        assert(names_from(named, pending_named, colons_named) == none + names_from(
            colon,
            field.name,
            0,
        ));
        assert(none + none =~= none);
    }
    lemma_names_from_concat(field.lead, named, pending, colons);
    assert(none + none =~= none);
    lemma_names_from_concat(front, field.annotation, pending, colons);
    lemma_pass_over_type(field.annotation, field.name);
    assert(none + seq![field.name] =~= seq![field.name]);
}

/// The pass over regular fields with a comma between each two yields their names in
/// order and leaves the colons other than one.
proof fn lemma_pass_over_fields(declarations: Seq<FieldDeclaration>)
    requires
        forall|i: int| 0 <= i < declarations.len() ==> (#[trigger] declarations[i]).regular(),
    ensures
        names_from(
            join(field_tokens(declarations), seq![TokenTreeView::Punct(',')]),
            Seq::empty(),
            0,
        ) == declared_names(declarations),
        colons_after(join(field_tokens(declarations), seq![TokenTreeView::Punct(',')]), 0) != 1,
    decreases declarations.len(),
{
    let none = Seq::<Seq<char>>::empty();
    let comma = seq![TokenTreeView::Punct(',')];
    let parts = field_tokens(declarations);
    if declarations.len() == 0 {
        assert(declared_names(declarations) =~= none);
    } else {
        let last = declarations.last();
        assert(last.regular());
        if declarations.len() == 1 {
            lemma_pass_over_field(last, Seq::empty(), 0);
            assert(join(parts, comma) == last.tokens());
            assert(declared_names(declarations) =~= seq![last.name]);
        } else {
            let front = declarations.drop_last();
            assert forall|i: int| 0 <= i < front.len() implies (#[trigger] front[i]).regular() by {
                assert(front[i] == declarations[i]);
            }
            lemma_pass_over_fields(front);
            assert(parts.drop_last() =~= field_tokens(front));
            assert(parts.last() == last.tokens());
            let body = join(field_tokens(front), comma);
            let empty = Seq::<char>::empty();
            assert(free_of(comma, ':'));
            lemma_pass_without_colon(comma, pending_after(body, empty), colons_after(body, 0));
            lemma_names_from_concat(body, comma, empty, 0);
            lemma_pass_over_field(
                last,
                pending_after(body + comma, empty),
                colons_after(body + comma, 0),
            );
            lemma_names_from_concat(body + comma, last.tokens(), empty, 0);
            assert(declared_names(front) + none =~= declared_names(front));
            assert(declared_names(declarations) =~= declared_names(front) + seq![last.name]);
        }
    }
}

/// Regular fields are found by name: for fields written as a lead without a colon, a
/// name, a colon and a plain type, with a comma between each two, the field names of
/// the body are the names of the fields, in the order of declaration. A comma behind
/// the last field changes nothing.
pub proof fn lemma_regular_fields_are_found(declarations: Seq<FieldDeclaration>)
    requires
        forall|i: int| 0 <= i < declarations.len() ==> (#[trigger] declarations[i]).regular(),
    ensures
        field_names(join(field_tokens(declarations), seq![TokenTreeView::Punct(',')]))
            == declared_names(declarations),
        field_names(
            join(field_tokens(declarations), seq![TokenTreeView::Punct(',')]) + seq![
                TokenTreeView::Punct(','),
            ],
        ) == declared_names(declarations),
{
    let comma = seq![TokenTreeView::Punct(',')];
    let body = join(field_tokens(declarations), comma);
    let empty = Seq::<char>::empty();
    lemma_pass_over_fields(declarations);
    assert(free_of(comma, ':'));
    lemma_pass_without_colon(comma, pending_after(body, empty), colons_after(body, 0));
    lemma_names_from_concat(body, comma, empty, 0);
    assert(declared_names(declarations) + Seq::<Seq<char>>::empty() =~= declared_names(
        declarations,
    ));
}

} // verus!
