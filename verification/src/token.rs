//! The tokens that the scanner reads: a sequence of token trees, each an identifier,
//! a punctuation character, a literal, or a delimited group of further token trees.

use vstd::prelude::*;

verus! {

/// The bracket kind that encloses a token group.
#[derive(Clone, Copy, Debug, PartialEq, Eq, Structural)]
pub enum Delimiter {
    /// `( ... )`
    Parenthesis,
    /// `{ ... }`
    Brace,
    /// `[ ... ]`
    Bracket,
    /// A group without visible brackets.
    Invisible,
}

/// One token of a declaration, or a delimited group of tokens.
#[derive(Debug)]
pub enum TokenTree {
    /// An identifier or keyword, by its text.
    Ident(String),
    /// A single punctuation character.
    Punct(char),
    /// A literal, by its source text.
    Literal(String),
    /// A delimited group.
    Group(Group),
}

/// A delimited group: its bracket kind, its source text as the tokenizer renders it,
/// and the tokens between the brackets.
#[derive(Debug)]
pub struct Group {
    pub delimiter: Delimiter,
    pub text: String,
    pub stream: Vec<TokenTree>,
}

/// The mathematical value of a [`TokenTree`].
pub ghost enum TokenTreeView {
    Ident(Seq<char>),
    Punct(char),
    Literal(Seq<char>),
    Group(GroupView),
}

/// The mathematical value of a [`Group`].
pub ghost struct GroupView {
    pub delimiter: Delimiter,
    pub text: Seq<char>,
    pub stream: Seq<TokenTreeView>,
}

impl DeepView for TokenTree {
    type V = TokenTreeView;

    open spec fn deep_view(&self) -> TokenTreeView
        decreases self,
    {
        match self {
            TokenTree::Ident(name) => TokenTreeView::Ident(name@),
            TokenTree::Punct(c) => TokenTreeView::Punct(*c),
            TokenTree::Literal(source) => TokenTreeView::Literal(source@),
            TokenTree::Group(group) => TokenTreeView::Group(group.deep_view()),
        }
    }
}

impl DeepView for Group {
    type V = GroupView;

    open spec fn deep_view(&self) -> GroupView
        decreases self,
    {
        GroupView {
            delimiter: self.delimiter,
            text: self.text@,
            stream: Seq::new(
                self.stream.len() as nat,
                |i: int|
                    if 0 <= i < self.stream.len() {
                        self.stream[i].deep_view()
                    } else {
                        arbitrary()
                    },
            ),
        }
    }
}

/// The value of a group holds the values of its tokens, in order.
pub proof fn lemma_group_stream(group: Group)
    ensures
        group.deep_view().stream == group.stream.deep_view(),
{
    assert(group.deep_view().stream =~= group.stream.deep_view());
}

impl TokenTree {
    /// The source text of this token.
    pub fn text(&self) -> (s: String)
        ensures
            s@ == self.deep_view().text(),
    {
        match self {
            TokenTree::Ident(name) => name.clone(),
            TokenTree::Punct(c) => {
                let mut s = String::new();
                s.push(*c);
                assert(s@ =~= seq![*c]);
                s
            },
            TokenTree::Literal(source) => source.clone(),
            TokenTree::Group(group) => group.text.clone(),
        }
    }
}

impl TokenTreeView {
    /// Whether this token is the punctuation character `c`.
    pub open spec fn is_punct(self, c: char) -> bool {
        self == TokenTreeView::Punct(c)
    }

    /// The source text of a token.
    pub open spec fn text(self) -> Seq<char> {
        match self {
            TokenTreeView::Ident(name) => name,
            TokenTreeView::Punct(c) => seq![c],
            TokenTreeView::Literal(source) => source,
            TokenTreeView::Group(group) => group.text,
        }
    }
}

} // verus!
