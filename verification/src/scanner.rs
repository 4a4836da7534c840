//! The scan of a declaration: from the keyword `struct` over the name, the generic list
//! and the constraint clause to the body, whose fields it hands to the emitter.

use vstd::prelude::*;
use vstd::string::StringExecFns;
use crate::emitter::{emitted, struct_ret};
use crate::error::DeriveError;
use crate::fields::{field_names, position_names, struct_fields, tuple_fields};
use crate::token::{lemma_group_stream, Delimiter, GroupView, TokenTree, TokenTreeView};

verus! {

/// The keyword that opens a declaration.
pub const STRUCT: &'static str = "struct";

/// The keyword that opens a constraint clause.
pub const WHERE: &'static str = "where";

/// How each constraint clause begins in the generated text.
pub const WHERE_OPENING: &'static str = "where ";

/// Where the scan stands in a declaration.
#[derive(Clone, Copy, Debug, PartialEq, Eq, Structural)]
pub enum Phase {
    /// In front of the keyword `struct`: every token is passed over.
    Preamble,
    /// Behind the keyword: an identifier names the structure.
    Name,
    /// Behind the first `<`: identifiers and punctuation make up the generic list.
    Generics,
    /// Behind the keyword `where`: identifiers and punctuation make up the constraint clause.
    Constraints,
}

/// What the scan has gathered in front of the body.
pub ghost struct HeaderView {
    pub phase: Phase,
    pub name: Seq<char>,
    pub generics: Seq<char>,
    pub where_clause: Seq<char>,
}

/// The value of a [`ParsedDeclaration`].
pub ghost struct DeclarationView {
    pub name: Seq<char>,
    pub raw_generics: Seq<char>,
    pub where_clause: Seq<char>,
    pub fields: Seq<Seq<char>>,
}

impl DeclarationView {
    /// A declaration names its structure.
    pub open spec fn well_formed(self) -> bool {
        self.name.len() > 0
    }
}

/// A scanned declaration: the structure's name, its generic list as written (with the
/// bounds), its constraint clause, and its field identifiers in the order of declaration.
#[derive(Debug)]
pub struct ParsedDeclaration {
    pub name: String,
    pub raw_generics: String,
    pub where_clause: String,
    pub fields: Vec<String>,
}

impl View for ParsedDeclaration {
    type V = DeclarationView;

    open spec fn view(&self) -> DeclarationView {
        DeclarationView {
            name: self.name@,
            raw_generics: self.raw_generics@,
            where_clause: self.where_clause@,
            fields: self.fields.deep_view(),
        }
    }
}

impl HeaderView {
    /// The header in front of the first token.
    pub open spec fn start() -> HeaderView {
        HeaderView {
            phase: Phase::Preamble,
            name: Seq::empty(),
            generics: Seq::empty(),
            where_clause: Seq::empty(),
        }
    }

    /// The header behind an identifier.
    pub open spec fn ident(self, text: Seq<char>) -> HeaderView {
        if text == STRUCT@ {
            if self.phase == Phase::Preamble {
                HeaderView { phase: Phase::Name, ..self }
            } else {
                self
            }
        } else {
            match self.phase {
                Phase::Preamble => self,
                Phase::Name => HeaderView { name: text, ..self },
                Phase::Generics => if text == WHERE@ {
                    HeaderView {
                        phase: Phase::Constraints,
                        where_clause: self.where_clause + WHERE_OPENING@,
                        ..self
                    }
                } else {
                    HeaderView { generics: self.generics + text, ..self }
                },
                Phase::Constraints => if text == WHERE@ {
                    HeaderView { where_clause: self.where_clause + WHERE_OPENING@, ..self }
                } else {
                    HeaderView { where_clause: self.where_clause + text, ..self }
                },
            }
        }
    }

    /// The header behind a punctuation character.
    pub open spec fn punct(self, c: char) -> HeaderView {
        match self.phase {
            Phase::Preamble => self,
            Phase::Name => if c == '<' {
                HeaderView { phase: Phase::Generics, generics: self.generics.push(c), ..self }
            } else {
                self
            },
            Phase::Generics => HeaderView { generics: self.generics.push(c), ..self },
            Phase::Constraints => HeaderView { where_clause: self.where_clause.push(c), ..self },
        }
    }

    /// The header behind a token that is not the body. Literals, and groups that are no
    /// body, leave it as it is.
    pub open spec fn step(self, token: TokenTreeView) -> HeaderView {
        match token {
            TokenTreeView::Ident(text) => self.ident(text),
            TokenTreeView::Punct(c) => self.punct(c),
            _ => self,
        }
    }

    /// Whether `token` is the body of the declaration: a parenthesized or braced group
    /// behind the keyword `struct`.
    pub open spec fn meets_body(self, token: TokenTreeView) -> bool {
        &&& self.phase != Phase::Preamble
        &&& token matches TokenTreeView::Group(group)
        &&& (group.delimiter == Delimiter::Parenthesis || group.delimiter == Delimiter::Brace)
    }

    /// The declaration that a header makes with its body. One without a name is refused.
    pub open spec fn close(self, body: GroupView) -> Result<DeclarationView, DeriveError> {
        if self.name.len() == 0 {
            Err(DeriveError::MissingName)
        } else {
            Ok(
                DeclarationView {
                    name: self.name,
                    raw_generics: self.generics,
                    where_clause: self.where_clause,
                    fields: body_fields(body),
                },
            )
        }
    }
}

/// The field identifiers of a body: names for a braced one, positions for a
/// parenthesized one.
pub open spec fn body_fields(body: GroupView) -> Seq<Seq<char>> {
    if body.delimiter == Delimiter::Brace {
        field_names(body.stream)
    } else {
        position_names(body.stream)
    }
}

/// The outcome of the scan of `tokens`, taken up with `header` gathered so far: the scan
/// ends at the first body; tokens that end without one are refused.
pub open spec fn scan_from(tokens: Seq<TokenTreeView>, header: HeaderView) -> Result<
    DeclarationView,
    DeriveError,
>
    decreases tokens.len(),
{
    if tokens.len() == 0 {
        Err(DeriveError::UnsupportedShape)
    } else if header.meets_body(tokens[0]) {
        header.close(tokens[0]->Group_0)
    } else {
        scan_from(tokens.drop_first(), header.step(tokens[0]))
    }
}

/// The outcome of the scan of a whole token sequence.
pub open spec fn parsed(tokens: Seq<TokenTreeView>) -> Result<DeclarationView, DeriveError> {
    scan_from(tokens, HeaderView::start())
}

/// The generated text for a token sequence, or the reason why there is none.
pub open spec fn derived(tokens: Seq<TokenTreeView>) -> Result<Seq<char>, DeriveError> {
    match parsed(tokens) {
        Ok(declaration) => Ok(
            emitted(
                declaration.name,
                declaration.raw_generics,
                declaration.where_clause,
                declaration.fields,
            ),
        ),
        Err(error) => Err(error),
    }
}

/// Every declaration that a scan yields names its structure.
pub proof fn lemma_scan_well_formed(tokens: Seq<TokenTreeView>, header: HeaderView)
    ensures
        scan_from(tokens, header) matches Ok(declaration) ==> declaration.well_formed(),
    decreases tokens.len(),
{
    if tokens.len() > 0 && !header.meets_body(tokens[0]) {
        lemma_scan_well_formed(tokens.drop_first(), header.step(tokens[0]));
    }
}

/// Scans one declaration: finds the structure's name, its generic list, its constraint
/// clause and, in the body, its field identifiers.
pub fn parse_declaration(input: &[TokenTree]) -> (result: Result<ParsedDeclaration, DeriveError>)
    ensures
        match result {
            Ok(declaration) => declaration@.well_formed() && parsed(input.deep_view()) == Ok::<
                DeclarationView,
                DeriveError,
            >(declaration@),
            Err(error) => parsed(input.deep_view()) == Err::<DeclarationView, DeriveError>(error),
        },
{
    let ghost tokens = input.deep_view();
    let struct_keyword = String::from_str(STRUCT);
    let where_keyword = String::from_str(WHERE);
    let mut phase = Phase::Preamble;
    let mut name = String::new();
    let mut generics = String::new();
    let mut where_clause = String::new();
    let mut i: usize = 0;
    assert(tokens.skip(0) =~= tokens);
    while i < input.len()
        invariant
            i <= input.len(),
            tokens == input.deep_view(),
            struct_keyword@ == STRUCT@,
            where_keyword@ == WHERE@,
            parsed(tokens) == scan_from(
                tokens.skip(i as int),
                HeaderView {
                    phase,
                    name: name@,
                    generics: generics@,
                    where_clause: where_clause@,
                },
            ),
        decreases input.len() - i,
    {
        let ghost rest = tokens.skip(i as int);
        assert(rest[0] == input[i as int].deep_view());
        assert(rest.drop_first() =~= tokens.skip(i + 1));
        match &input[i] {
            TokenTree::Ident(text) => {
                if *text == struct_keyword {
                    if phase == Phase::Preamble {
                        phase = Phase::Name;
                    }
                } else {
                    match phase {
                        Phase::Preamble => {},
                        Phase::Name => {
                            name = text.clone();
                        },
                        Phase::Generics => {
                            if *text == where_keyword {
                                where_clause.append(WHERE_OPENING);
                                phase = Phase::Constraints;
                            } else {
                                generics.append(text.as_str());
                            }
                        },
                        Phase::Constraints => {
                            if *text == where_keyword {
                                where_clause.append(WHERE_OPENING);
                            } else {
                                where_clause.append(text.as_str());
                            }
                        },
                    }
                }
            },
            TokenTree::Punct(c) => {
                match phase {
                    Phase::Preamble => {},
                    Phase::Name => {
                        if *c == '<' {
                            phase = Phase::Generics;
                            generics.push(*c);
                        }
                    },
                    Phase::Generics => {
                        generics.push(*c);
                    },
                    Phase::Constraints => {
                        where_clause.push(*c);
                    },
                }
            },
            TokenTree::Literal(_) => {},
            TokenTree::Group(group) => {
                if phase != Phase::Preamble && (group.delimiter == Delimiter::Parenthesis
                    || group.delimiter == Delimiter::Brace) {
                    if name.as_str().is_empty() {
                        return Err(DeriveError::MissingName);
                    }
                    proof {
                        lemma_group_stream(*group);
                    }
                    let fields = if group.delimiter == Delimiter::Brace {
                        struct_fields(group.stream.as_slice())
                    } else {
                        tuple_fields(group.stream.as_slice())
                    };
                    return Ok(
                        ParsedDeclaration { name, raw_generics: generics, where_clause, fields },
                    );
                }
            },
        }
        i += 1;
    }
    Err(DeriveError::UnsupportedShape)
}

/// Generates, for one structure declaration, the text of the three implementations that
/// describe the structure and give access to its fields by position.
pub fn struct_index(input: &[TokenTree]) -> (result: Result<String, DeriveError>)
    ensures
        match result {
            Ok(text) => derived(input.deep_view()) == Ok::<Seq<char>, DeriveError>(text@),
            Err(error) => derived(input.deep_view()) == Err::<Seq<char>, DeriveError>(error),
        },
{
    proof {
        lemma_scan_well_formed(input.deep_view(), HeaderView::start());
    }
    match parse_declaration(input) {
        Ok(declaration) => struct_ret(
            declaration.name.as_str(),
            declaration.raw_generics.as_str(),
            declaration.where_clause.as_str(),
            declaration.fields.as_slice(),
        ),
        Err(error) => Err(error),
    }
}

/// Generating is a function of the tokens' values: for two inputs of the same value,
/// whatever `struct_index` returns for the one and for the other is the same text, or
/// the same refusal.
pub proof fn lemma_struct_index_repeatable(
    first: &[TokenTree],
    second: &[TokenTree],
    first_result: Result<String, DeriveError>,
    second_result: Result<String, DeriveError>,
)
    requires
        first.deep_view() == second.deep_view(),
        call_ensures(struct_index, (first,), first_result),
        call_ensures(struct_index, (second,), second_result),
    ensures
        match (first_result, second_result) {
            (Ok(text), Ok(other)) => text@ == other@,
            (Err(error), Err(other)) => error == other,
            _ => false,
        },
{
}

} // verus!
