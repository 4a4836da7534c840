//! The generic parameter list of a declaration, with the bounds taken out.

use vstd::prelude::*;
use crate::text::{
    after, join, lacks, lemma_cut_at, lemma_join_front, lemma_position, split_terminator,
    until,
};

verus! {

/// The parameters of a generic list without their bounds: the list is cut at each comma,
/// each piece is kept up to its first colon, and the pieces are joined by commas again.
pub open spec fn bare_parameters(list: Seq<char>) -> Seq<char> {
    join(split_terminator(list, ',').map_values(|piece: Seq<char>| until(piece, ':')), seq![','])
}

/// `list`, closed by `>` where it does not end in one already.
pub open spec fn closed(list: Seq<char>) -> Seq<char> {
    if list.len() > 0 && list.last() == '>' {
        list
    } else {
        list.push('>')
    }
}

/// The generic list as it stands where only the parameters' names are wanted:
/// nothing for an empty list, else the parameters without bounds, closed by `>`.
pub open spec fn normalized(list: Seq<char>) -> Seq<char> {
    if list.len() == 0 {
        list
    } else {
        closed(bare_parameters(list))
    }
}

/// What follows the first piece of `rest` in the bare parameters: a comma and the bare
/// parameters of what stands behind the first comma, where anything stands there.
spec fn behind_piece(rest: Seq<char>) -> Seq<char> {
    if after(rest, ',').len() > 0 {
        seq![','] + bare_parameters(after(rest, ','))
    } else {
        Seq::empty()
    }
}

/// What the characters `rest` still add to the bare parameters, depending on whether
/// the piece they begin in is still in front of its first colon.
spec fn remainder(rest: Seq<char>, keeping: bool) -> Seq<char> {
    if keeping {
        bare_parameters(rest)
    } else {
        behind_piece(rest)
    }
}

/// The bare parameters of a list that is not empty: the first piece up to its colon,
/// then what follows that piece.
proof fn lemma_bare_parameters_unfold(list: Seq<char>)
    requires
        list.len() > 0,
    ensures
        bare_parameters(list) == until(until(list, ','), ':') + behind_piece(list),
{
    let strip = |piece: Seq<char>| until(piece, ':');
    let head = until(list, ',');
    let tail = split_terminator(after(list, ','), ',');
    assert(split_terminator(list, ',') == seq![head] + tail);
    assert((seq![head] + tail).map_values(strip) =~= seq![strip(head)] + tail.map_values(strip));
    lemma_join_front(strip(head), tail.map_values(strip), seq![',']);
    if after(list, ',').len() == 0 {
        assert(tail.len() == 0);
        assert(strip(head) + Seq::<char>::empty() =~= strip(head));
    } else {
        assert(tail.len() > 0);
        assert(strip(head) + seq![','] + bare_parameters(after(list, ',')) =~= strip(head) + (
        seq![','] + bare_parameters(after(list, ','))));
    }
}

/// How one more character changes what is still to come.
proof fn lemma_remainder_step(rest: Seq<char>, keeping: bool)
    requires
        rest.len() > 0,
    ensures
        rest[0] == ',' ==> remainder(rest, keeping) == (if rest.len() > 1 {
            seq![',']
        } else {
            Seq::empty()
        }) + remainder(rest.drop_first(), true),
        rest[0] == ':' ==> remainder(rest, keeping) == remainder(rest.drop_first(), false),
        rest[0] != ',' && rest[0] != ':' ==> remainder(rest, keeping) == (if keeping {
            seq![rest[0]]
        } else {
            Seq::empty()
        }) + remainder(rest.drop_first(), keeping),
{
    let c = rest[0];
    let tail = rest.drop_first();
    lemma_position(rest, ',');
    lemma_position(tail, ',');
    lemma_bare_parameters_unfold(rest);
    if c == ',' {
        assert(until(rest, ',') =~= Seq::<char>::empty());
        assert(after(rest, ',') =~= tail);
        assert(until(Seq::<char>::empty(), ':') =~= Seq::<char>::empty());
        assert(Seq::<char>::empty() + behind_piece(rest) =~= behind_piece(rest));
        if tail.len() == 0 {
            assert(split_terminator(tail, ',') =~= Seq::<Seq<char>>::empty());
            assert(bare_parameters(tail) =~= Seq::<char>::empty());
            assert(Seq::<char>::empty() + bare_parameters(tail) =~= Seq::<char>::empty());
        }
    } else {
        assert(until(rest, ',') =~= seq![c] + until(tail, ','));
        assert(after(rest, ',') =~= after(tail, ','));
        assert(behind_piece(rest) == behind_piece(tail));
        let piece = until(rest, ',');
        assert(piece.drop_first() =~= until(tail, ','));
        if c == ':' {
            assert(until(piece, ':') =~= Seq::<char>::empty());
            assert(Seq::<char>::empty() + behind_piece(rest) =~= behind_piece(rest));
        } else {
            lemma_position(piece, ':');
            lemma_position(piece.drop_first(), ':');
            assert(until(piece, ':') =~= seq![c] + until(until(tail, ','), ':'));
            if tail.len() > 0 {
                lemma_bare_parameters_unfold(tail);
                assert(seq![c] + until(until(tail, ','), ':') + behind_piece(tail) =~= seq![c] + (
                until(until(tail, ','), ':') + behind_piece(tail)));
            } else {
                assert(split_terminator(tail, ',') =~= Seq::<Seq<char>>::empty());
                assert(bare_parameters(tail) =~= Seq::<char>::empty());
                assert(until(until(tail, ','), ':') =~= Seq::<char>::empty());
                assert(behind_piece(tail) =~= Seq::<char>::empty());
                assert(seq![c] + Seq::<char>::empty() + Seq::<char>::empty() =~= seq![c]
                    + Seq::<char>::empty());
            }
            assert(Seq::<char>::empty() + behind_piece(tail) =~= behind_piece(tail));
        }
    }
}

/// Takes the bounds out of a generic parameter list, for the places where only the
/// parameters' names may stand.
pub fn gen_clean(generics: &str) -> (out: String)
    ensures
        out@ == normalized(generics@),
{
    let mut out = String::new();
    if generics.is_empty() {
        return out;
    }
    let ghost list = generics@;
    let mut keeping: bool = true;
    let mut comma_due: bool = false;
    let mut ends_closed: bool = false;
    assert(list.skip(0) =~= list);
    assert(out@ + Seq::<char>::empty() + bare_parameters(list) =~= bare_parameters(list));
    for c in it: generics.chars()
        invariant
            it.seq() == list,
            bare_parameters(list) == out@ + (if comma_due && it.index() < list.len() {
                seq![',']
            } else {
                Seq::empty()
            }) + remainder(list.skip(it.index() as int), keeping),
            ends_closed == (out@.len() > 0 && out@.last() == '>'),
    {
        let ghost rest = list.skip(it.index() as int);
        let ghost behind = rest.drop_first();
        let ghost before = out@;
        let ghost due: Seq<char> = if behind.len() > 0 {
            seq![',']
        } else {
            Seq::empty()
        };
        proof {
            lemma_remainder_step(rest, keeping);
            assert(behind =~= list.skip(it.index() + 1));
            assert(rest[0] == c);
        }
        if comma_due {
            out.push(',');
            ends_closed = false;
            comma_due = false;
        } else {
            assert(before + Seq::<char>::empty() =~= before);
        }
        let ghost started = out@;
        if c == ',' {
            comma_due = true;
            keeping = true;
            assert(started + (due + remainder(behind, true)) =~= started + due + remainder(
                behind,
                true,
            ));
        } else if c == ':' {
            keeping = false;
            assert(started + Seq::<char>::empty() + remainder(behind, false) =~= started
                + remainder(behind, false));
        } else if keeping {
            out.push(c);
            ends_closed = c == '>';
            assert(out@ + Seq::<char>::empty() + remainder(behind, true) =~= started + (seq![c]
                + remainder(behind, true)));
        } else {
            assert(started + Seq::<char>::empty() + remainder(behind, false) =~= started + (
            Seq::<char>::empty() + remainder(behind, false)));
        }
    }
    proof {
        let rest = list.skip(list.len() as int);
        assert(rest.len() == 0);
        assert(split_terminator(rest, ',') =~= Seq::<Seq<char>>::empty());
        assert(remainder(rest, keeping) =~= Seq::<char>::empty());
        assert(out@ + Seq::<char>::empty() + Seq::<char>::empty() =~= out@);
    }
    if !ends_closed {
        out.push('>');
    }
    out
}

/// The closing bracket stands once: a closed list ends in `>`, and closing it again
/// changes nothing. A normalized list that is not empty is closed.
pub proof fn lemma_closed_once(list: Seq<char>)
    ensures
        closed(list).len() > 0,
        closed(list).last() == '>',
        closed(closed(list)) == closed(list),
        list.len() > 0 ==> closed(normalized(list)) == normalized(list),
{
}

/// One parameter of a generic list: its name and, where it has one, its bound.
pub ghost struct Parameter {
    pub name: Seq<char>,
    pub bound: Option<Seq<char>>,
}

impl Parameter {
    /// The parameter as it is written: the name, then a colon and the bound where
    /// there is one.
    pub open spec fn text(self) -> Seq<char> {
        match self.bound {
            Some(bound) => self.name + seq![':'] + bound,
            None => self.name,
        }
    }

    /// Whether the parameter can be told apart in a list: its name is not empty and
    /// holds neither a comma nor a colon, and its bound holds no comma.
    pub open spec fn regular(self) -> bool {
        &&& self.name.len() > 0
        &&& lacks(self.name, ',')
        &&& lacks(self.name, ':')
        &&& self.bound matches Some(bound) ==> lacks(bound, ',')
    }
}

/// The parameters as they are written, in order.
pub open spec fn parameter_texts(parameters: Seq<Parameter>) -> Seq<Seq<char>> {
    parameters.map_values(|parameter: Parameter| parameter.text())
}

/// The names of the parameters, in order.
pub open spec fn parameter_names(parameters: Seq<Parameter>) -> Seq<Seq<char>> {
    parameters.map_values(|parameter: Parameter| parameter.name)
}

/// A regular parameter holds no comma, is not empty, and its name is what stands in
/// front of its first colon.
proof fn lemma_parameter_text(parameter: Parameter)
    requires
        parameter.regular(),
    ensures
        lacks(parameter.text(), ','),
        parameter.text().len() > 0,
        until(parameter.text(), ':') == parameter.name,
{
    match parameter.bound {
        Some(bound) => {
            lemma_cut_at(parameter.name, bound, ':');
        },
        None => {
            lemma_cut_at(parameter.name, Seq::empty(), ':');
        },
    }
}

/// A list of regular parameters is not empty where there is a parameter.
proof fn lemma_parameter_list(parameters: Seq<Parameter>)
    requires
        parameters.len() > 0,
        forall|i: int| 0 <= i < parameters.len() ==> (#[trigger] parameters[i]).regular(),
    ensures
        join(parameter_texts(parameters), seq![',']).len() > 0,
{
    let texts = parameter_texts(parameters);
    lemma_parameter_text(parameters.last());
    assert(texts.last() == parameters.last().text());
}

/// Bounds are dropped and names are kept: for regular parameters written with a comma
/// between each two, the bare parameters are the names with a comma between each two,
/// and the normalized list is these names, closed.
pub proof fn lemma_bounds_are_dropped(parameters: Seq<Parameter>)
    requires
        forall|i: int| 0 <= i < parameters.len() ==> (#[trigger] parameters[i]).regular(),
    ensures
        bare_parameters(join(parameter_texts(parameters), seq![','])) == join(
            parameter_names(parameters),
            seq![','],
        ),
        parameters.len() > 0 ==> normalized(join(parameter_texts(parameters), seq![',']))
            == closed(join(parameter_names(parameters), seq![','])),
    decreases parameters.len(),
{
    let comma = seq![','];
    let texts = parameter_texts(parameters);
    let names = parameter_names(parameters);
    let list = join(texts, comma);
    if parameters.len() == 0 {
        assert(split_terminator(list, ',') =~= Seq::<Seq<char>>::empty());
        assert(bare_parameters(list) =~= Seq::<char>::empty());
    } else {
        let first = parameters[0];
        let rest = parameters.drop_first();
        assert(first.regular());
        assert forall|i: int| 0 <= i < rest.len() implies (#[trigger] rest[i]).regular() by {
            assert(rest[i] == parameters[i + 1]);
        }
        lemma_parameter_text(first);
        lemma_parameter_list(parameters);
        lemma_bounds_are_dropped(rest);
        assert(texts =~= seq![first.text()] + parameter_texts(rest));
        assert(names =~= seq![first.name] + parameter_names(rest));
        lemma_join_front(first.text(), parameter_texts(rest), comma);
        lemma_join_front(first.name, parameter_names(rest), comma);
        lemma_bare_parameters_unfold(list);
        let tail = join(parameter_texts(rest), comma);
        if rest.len() == 0 {
            lemma_cut_at(first.text(), Seq::empty(), ',');
            assert(first.name + Seq::<char>::empty() =~= first.name);
        } else {
            lemma_parameter_list(rest);
            lemma_cut_at(first.text(), tail, ',');
            assert(first.name + (comma + join(parameter_names(rest), comma)) =~= first.name
                + comma + join(parameter_names(rest), comma));
        }
    }
}

} // verus!
