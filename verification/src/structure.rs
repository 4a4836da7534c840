//! Structures as they are usually declared: what the scan yields for them.

use vstd::prelude::*;
use crate::declared::{declared_names, field_tokens, lemma_regular_fields_are_found, FieldDeclaration};
use crate::emitter::emitted;
use crate::error::DeriveError;
use crate::fields::{free_of, lemma_positions_count_entries};
use crate::scanner::{
    body_fields, derived, parsed, scan_from, DeclarationView, HeaderView, Phase, STRUCT, WHERE,
    WHERE_OPENING,
};
use crate::text::{join, numerals};
use crate::token::{Delimiter, GroupView, TokenTreeView};

verus! {

/// The texts of the tokens, one behind the other.
pub open spec fn flat_text(tokens: Seq<TokenTreeView>) -> Seq<char>
    decreases tokens.len(),
{
    if tokens.len() == 0 {
        Seq::empty()
    } else {
        tokens[0].text() + flat_text(tokens.drop_first())
    }
}

/// Whether a token can stand in a generic list or a constraint clause: punctuation,
/// or an identifier that is neither of the two keywords.
pub open spec fn header_token(token: TokenTreeView) -> bool {
    match token {
        TokenTreeView::Punct(_) => true,
        TokenTreeView::Ident(text) => text != STRUCT@ && text != WHERE@,
        _ => false,
    }
}

/// A structure declaration, part by part.
pub ghost struct Structure {
    /// What stands in front of the keyword `struct`: attributes and visibility.
    pub preamble: Seq<TokenTreeView>,
    /// The structure's name.
    pub name: Seq<char>,
    /// The generic list, from `<` to `>`; empty where the structure has none.
    pub generics: Seq<TokenTreeView>,
    /// What follows the keyword `where`; empty where the structure has no constraint clause.
    pub constraints: Seq<TokenTreeView>,
    /// The body.
    pub body: GroupView,
    /// What stands behind the body.
    pub rest: Seq<TokenTreeView>,
}

impl Structure {
    /// The constraint clause with its keyword, where there is one.
    pub open spec fn clause(self) -> Seq<TokenTreeView> {
        if self.constraints.len() > 0 {
            seq![TokenTreeView::Ident(WHERE@)] + self.constraints
        } else {
            Seq::empty()
        }
    }

    /// The tokens of the declaration.
    pub open spec fn tokens(self) -> Seq<TokenTreeView> {
        self.preamble + seq![TokenTreeView::Ident(STRUCT@), TokenTreeView::Ident(self.name)]
            + self.generics + self.clause() + seq![TokenTreeView::Group(self.body)] + self.rest
    }

    /// Whether the declaration is one that the scan reads part by part: the keyword
    /// `struct` first occurs where the declaration begins, the name is an identifier of
    /// its own, the generic list opens with `<`, list and clause hold punctuation and
    /// identifiers only, a clause follows a generic list, and the body is parenthesized
    /// or braced.
    pub open spec fn regular(self) -> bool {
        &&& forall|i: int|
            0 <= i < self.preamble.len() ==> #[trigger] self.preamble[i] != TokenTreeView::Ident(
                STRUCT@,
            )
        &&& self.name.len() > 0
        &&& self.name != STRUCT@
        &&& self.generics.len() > 0 ==> self.generics[0] == TokenTreeView::Punct('<')
        &&& forall|i: int| 0 <= i < self.generics.len() ==> header_token(#[trigger] self.generics[i])
        &&& forall|i: int|
            0 <= i < self.constraints.len() ==> header_token(#[trigger] self.constraints[i])
        &&& self.constraints.len() > 0 ==> self.generics.len() > 0
        &&& (self.body.delimiter == Delimiter::Parenthesis || self.body.delimiter
            == Delimiter::Brace)
    }

    /// The constraint clause as text: the keyword, a blank, and the texts of what follows.
    pub open spec fn where_clause(self) -> Seq<char> {
        if self.constraints.len() > 0 {
            WHERE_OPENING@ + flat_text(self.constraints)
        } else {
            Seq::empty()
        }
    }

    /// What the scan is to yield for the declaration.
    pub open spec fn declaration(self) -> DeclarationView {
        DeclarationView {
            name: self.name,
            raw_generics: flat_text(self.generics),
            where_clause: self.where_clause(),
            fields: body_fields(self.body),
        }
    }
}

/// In front of the keyword `struct` the scan passes over every token.
proof fn lemma_scan_preamble(preamble: Seq<TokenTreeView>, rest: Seq<TokenTreeView>)
    requires
        forall|i: int|
            0 <= i < preamble.len() ==> #[trigger] preamble[i] != TokenTreeView::Ident(STRUCT@),
    ensures
        scan_from(preamble + rest, HeaderView::start()) == scan_from(rest, HeaderView::start()),
    decreases preamble.len(),
{
    if preamble.len() == 0 {
        assert(preamble + rest =~= rest);
    } else {
        let whole = preamble + rest;
        let tail = preamble.drop_first();
        assert(whole[0] == preamble[0]);
        assert(whole.drop_first() =~= tail + rest);
        assert(preamble[0] != TokenTreeView::Ident(STRUCT@));
        assert forall|i: int| 0 <= i < tail.len() implies #[trigger] tail[i]
            != TokenTreeView::Ident(STRUCT@) by {
            assert(tail[i] == preamble[i + 1]);
        }
        assert(HeaderView::start().step(whole[0]) == HeaderView::start());
        lemma_scan_preamble(tail, rest);
    }
}

/// Inside the generic list, and inside the constraint clause, the scan appends the text
/// of each token to what it has gathered of the list, or of the clause.
proof fn lemma_scan_header(
    tokens: Seq<TokenTreeView>,
    rest: Seq<TokenTreeView>,
    header: HeaderView,
)
    requires
        header.phase == Phase::Generics || header.phase == Phase::Constraints,
        forall|i: int| 0 <= i < tokens.len() ==> header_token(#[trigger] tokens[i]),
    ensures
        header.phase == Phase::Generics ==> scan_from(tokens + rest, header) == scan_from(
            rest,
            HeaderView { generics: header.generics + flat_text(tokens), ..header },
        ),
        header.phase == Phase::Constraints ==> scan_from(tokens + rest, header) == scan_from(
            rest,
            HeaderView { where_clause: header.where_clause + flat_text(tokens), ..header },
        ),
    decreases tokens.len(),
{
    if tokens.len() == 0 {
        assert(tokens + rest =~= rest);
        assert(header.generics + flat_text(tokens) =~= header.generics);
        assert(header.where_clause + flat_text(tokens) =~= header.where_clause);
    } else {
        let whole = tokens + rest;
        let tail = tokens.drop_first();
        let token = tokens[0];
        assert(whole[0] == token);
        assert(whole.drop_first() =~= tail + rest);
        assert(header_token(token));
        assert forall|i: int| 0 <= i < tail.len() implies header_token(#[trigger] tail[i]) by {
            assert(tail[i] == tokens[i + 1]);
        }
        let next = header.step(token);
        assert(!header.meets_body(token));
        lemma_scan_header(tail, rest, next);
        if header.phase == Phase::Generics {
            assert(next.generics =~= header.generics + token.text());
            assert(next.generics + flat_text(tail) =~= header.generics + flat_text(tokens));
        } else {
            assert(next.where_clause =~= header.where_clause + token.text());
            assert(next.where_clause + flat_text(tail) =~= header.where_clause + flat_text(
                tokens,
            ));
        }
    }
}

/// The two keywords differ.
proof fn lemma_keywords_differ()
    ensures
        STRUCT@ != WHERE@,
{
    reveal_strlit("struct");
    reveal_strlit("where");
    assert(STRUCT@.len() == 6);
    assert(WHERE@.len() == 5);
}

/// A regular declaration is scanned part by part: the scan yields the name, the generic
/// list and the constraint clause as the texts of their tokens, and the fields of the body.
pub proof fn lemma_regular_structure_is_scanned(structure: Structure)
    requires
        structure.regular(),
    ensures
        parsed(structure.tokens()) == Ok::<DeclarationView, DeriveError>(structure.declaration()),
        derived(structure.tokens()) == Ok::<Seq<char>, DeriveError>(
            emitted(
                structure.name,
                flat_text(structure.generics),
                structure.where_clause(),
                body_fields(structure.body),
            ),
        ),
{
    let empty = Seq::<char>::empty();
    let keyword = TokenTreeView::Ident(STRUCT@);
    let name = TokenTreeView::Ident(structure.name);
    let body = TokenTreeView::Group(structure.body);
    let end = seq![body] + structure.rest;
    let clause = structure.clause() + end;
    let list = structure.generics + clause;
    let named = seq![keyword, name] + list;
    assert(structure.tokens() =~= structure.preamble + named);
    lemma_scan_preamble(structure.preamble, named);
    lemma_keywords_differ();
    // the keyword and the name
    let start = HeaderView::start();
    let opened = HeaderView { phase: Phase::Name, ..start };
    let titled = HeaderView { name: structure.name, ..opened };
    assert(named.drop_first() =~= seq![name] + list);
    assert((seq![name] + list).drop_first() =~= list);
    assert(scan_from(named, start) == scan_from(seq![name] + list, opened));
    assert(scan_from(seq![name] + list, opened) == scan_from(list, titled));
    // the generic list
    let listed = HeaderView {
        phase: if structure.generics.len() > 0 {
            Phase::Generics
        } else {
            Phase::Name
        },
        generics: flat_text(structure.generics),
        ..titled
    };
    assert(scan_from(list, titled) == scan_from(clause, listed)) by {
        if structure.generics.len() == 0 {
            assert(list =~= clause);
            assert(listed == titled);
        } else {
            let angle = structure.generics[0];
            let tail = structure.generics.drop_first();
            assert(list[0] == angle);
            assert(list.drop_first() =~= tail + clause);
            let entered = titled.step(angle);
            assert(entered.generics =~= angle.text());
            assert forall|i: int| 0 <= i < tail.len() implies header_token(#[trigger] tail[i]) by {
                assert(tail[i] == structure.generics[i + 1]);
            }
            lemma_scan_header(tail, clause, entered);
            assert(entered.generics + flat_text(tail) =~= flat_text(structure.generics));
        }
    }
    // the constraint clause
    let closed = HeaderView {
        phase: if structure.constraints.len() > 0 {
            Phase::Constraints
        } else {
            listed.phase
        },
        where_clause: structure.where_clause(),
        ..listed
    };
    assert(scan_from(clause, listed) == scan_from(end, closed)) by {
        if structure.constraints.len() == 0 {
            assert(clause =~= end);
            assert(closed == listed);
        } else {
            let opening = TokenTreeView::Ident(WHERE@);
            assert(clause =~= seq![opening] + (structure.constraints + end));
            assert(clause[0] == opening);
            assert(clause.drop_first() =~= structure.constraints + end);
            let entered = listed.step(opening);
            assert(entered.where_clause =~= WHERE_OPENING@);
            lemma_scan_header(structure.constraints, end, entered);
        }
    }
    // the body
    assert(end[0] == body);
    assert(closed.meets_body(body));
    assert(scan_from(end, closed) == closed.close(structure.body));
}

/// Named fields are found: for a regular declaration whose braced body holds regular
/// fields with a comma between each two, the scan yields the names of the fields in the
/// order of declaration.
pub proof fn lemma_named_fields_are_scanned(
    structure: Structure,
    declarations: Seq<FieldDeclaration>,
)
    requires
        structure.regular(),
        structure.body.delimiter == Delimiter::Brace,
        forall|i: int| 0 <= i < declarations.len() ==> (#[trigger] declarations[i]).regular(),
        structure.body.stream == join(field_tokens(declarations), seq![TokenTreeView::Punct(',')])
            || structure.body.stream == join(
            field_tokens(declarations),
            seq![TokenTreeView::Punct(',')],
        ) + seq![TokenTreeView::Punct(',')],
    ensures
        parsed(structure.tokens()) matches Ok(declaration) && declaration.name == structure.name
            && declaration.fields == declared_names(declarations),
        derived(structure.tokens()) == Ok::<Seq<char>, DeriveError>(
            emitted(
                structure.name,
                flat_text(structure.generics),
                structure.where_clause(),
                declared_names(declarations),
            ),
        ),
{
    lemma_regular_structure_is_scanned(structure);
    lemma_regular_fields_are_found(declarations);
}

/// Positional fields are counted: for a regular declaration whose parenthesized body
/// holds entries that are not empty and hold no comma, with a comma between each two,
/// the scan yields one position for each entry.
pub proof fn lemma_positional_fields_are_scanned(
    structure: Structure,
    entries: Seq<Seq<TokenTreeView>>,
)
    requires
        structure.regular(),
        structure.body.delimiter == Delimiter::Parenthesis,
        forall|i: int|
            0 <= i < entries.len() ==> (#[trigger] entries[i]).len() > 0 && free_of(
                entries[i],
                ',',
            ),
        structure.body.stream == join(entries, seq![TokenTreeView::Punct(',')]) || (entries.len()
            > 0 && structure.body.stream == join(entries, seq![TokenTreeView::Punct(',')])
            + seq![TokenTreeView::Punct(',')]),
    ensures
        parsed(structure.tokens()) matches Ok(declaration) && declaration.name == structure.name
            && declaration.fields == numerals(entries.len()),
        derived(structure.tokens()) == Ok::<Seq<char>, DeriveError>(
            emitted(
                structure.name,
                flat_text(structure.generics),
                structure.where_clause(),
                numerals(entries.len()),
            ),
        ),
{
    lemma_regular_structure_is_scanned(structure);
    lemma_positions_count_entries(entries);
}

} // verus!
