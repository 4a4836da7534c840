//! The generated text: three implementations that describe a structure and give
//! access to its fields by position.

use vstd::prelude::*;
use vstd::string::StringExecFns;
use crate::error::DeriveError;
use crate::generics::{gen_clean, normalized};
use crate::text::{decimal, join, push_decimal};

verus! {

/// What stands in front of each implementation.
pub const INDENT: &'static str = "\n        ";

/// What stands between two implementations.
pub const GAP: &'static str = "\n\n        ";

/// The keyword that opens an implementation.
pub const IMPL: &'static str = "impl ";

/// The operator that describes the structure, and how its target begins.
pub const DESCRIBE_FOR: &'static str = " core::ops::Not for &";

/// The operator that reads a field by position, and how its target begins.
pub const READ_FOR: &'static str = " core::ops::Index<usize> for ";

/// The operator that writes a field by position, and how its target begins.
pub const WRITE_FOR: &'static str = " core::ops::IndexMut<usize> for ";

/// What opens the block of an implementation.
pub const BLOCK: &'static str = " {\n";

/// The description, up to the quoted name of the structure.
pub const DESCRIBE_OPEN: &'static str =
    "            type Output = (&'static str, &'static [&'static str]);\n\n            /// return (structure name, field names)\n            fn not(self) -> Self::Output {\n                (\"";

/// What stands between the quoted name and the list of quoted field names.
pub const DESCRIBE_LIST: &'static str = "\", &[";

/// What closes the description.
pub const DESCRIBE_CLOSE: &'static str = "])\n            }\n        }";

/// The read access, up to the list of references.
pub const READ_OPEN: &'static str =
    "            type Output = dyn core::any::Any;\n\n            fn index(&self, index: usize) -> &Self::Output {\n                ([";

/// The write access, up to the list of references.
pub const WRITE_OPEN: &'static str =
    "            fn index_mut(&mut self, index: usize) -> &mut Self::Output {\n                ([";

/// What stands between the shared references and their number.
pub const READ_AS: &'static str = "] as [&Self::Output; ";

/// What stands between the exclusive references and their number.
pub const WRITE_AS: &'static str = "] as [&mut Self::Output; ";

/// What closes an access: the selection by position.
pub const ACCESS_CLOSE: &'static str = "])[index]\n            }\n        }";

/// How a shared reference to a field begins.
pub const SHARED: &'static str = "&self.";

/// How an exclusive reference to a field begins.
pub const EXCLUSIVE: &'static str = "&mut self.";

/// The first line of an implementation: the generic list with its bounds, the operator,
/// the structure with its bare generic list, and the constraint clause.
pub open spec fn header(
    operator: Seq<char>,
    name: Seq<char>,
    generics: Seq<char>,
    where_clause: Seq<char>,
) -> Seq<char> {
    IMPL@ + generics + operator + name + seq![' '] + normalized(generics) + seq![' ']
        + where_clause + BLOCK@
}

/// A field name between double quotes.
pub open spec fn quoted(field: Seq<char>) -> Seq<char> {
    seq!['"'] + field + seq!['"']
}

/// The quoted field names, in order.
pub open spec fn quoted_names(fields: Seq<Seq<char>>) -> Seq<Seq<char>> {
    fields.map_values(|field: Seq<char>| quoted(field))
}

/// One reference for each field, in order: `borrow` in front of the field's identifier.
pub open spec fn references(borrow: Seq<char>, fields: Seq<Seq<char>>) -> Seq<Seq<char>> {
    fields.map_values(|field: Seq<char>| borrow + field)
}

/// The quoted field names, with commas between them.
pub open spec fn name_list(fields: Seq<Seq<char>>) -> Seq<char> {
    join(quoted_names(fields), seq![','])
}

/// The references to the fields, with commas between them.
pub open spec fn reference_list(borrow: Seq<char>, fields: Seq<Seq<char>>) -> Seq<char> {
    join(references(borrow, fields), seq![','])
}

/// The implementation that describes the structure: it yields the structure's name
/// and the names of its fields.
pub open spec fn describe_impl(
    name: Seq<char>,
    generics: Seq<char>,
    where_clause: Seq<char>,
    fields: Seq<Seq<char>>,
) -> Seq<char> {
    header(DESCRIBE_FOR@, name, generics, where_clause) + DESCRIBE_OPEN@ + name + DESCRIBE_LIST@
        + name_list(fields) + DESCRIBE_CLOSE@
}

/// The implementation that reads a field by its position, out of an array that holds
/// one shared reference for each field.
pub open spec fn read_impl(
    name: Seq<char>,
    generics: Seq<char>,
    where_clause: Seq<char>,
    fields: Seq<Seq<char>>,
) -> Seq<char> {
    header(READ_FOR@, name, generics, where_clause) + READ_OPEN@ + reference_list(SHARED@, fields)
        + READ_AS@ + decimal(fields.len()) + ACCESS_CLOSE@
}

/// The implementation that writes a field by its position, out of an array that holds
/// one exclusive reference for each field.
pub open spec fn write_impl(
    name: Seq<char>,
    generics: Seq<char>,
    where_clause: Seq<char>,
    fields: Seq<Seq<char>>,
) -> Seq<char> {
    header(WRITE_FOR@, name, generics, where_clause) + WRITE_OPEN@ + reference_list(
        EXCLUSIVE@,
        fields,
    ) + WRITE_AS@ + decimal(fields.len()) + ACCESS_CLOSE@
}

/// The whole generated text for a structure.
pub open spec fn emitted(
    name: Seq<char>,
    generics: Seq<char>,
    where_clause: Seq<char>,
    fields: Seq<Seq<char>>,
) -> Seq<char> {
    INDENT@ + describe_impl(name, generics, where_clause, fields) + GAP@ + read_impl(
        name,
        generics,
        where_clause,
        fields,
    ) + GAP@ + write_impl(name, generics, where_clause, fields) + INDENT@
}

fn push_header(out: &mut String, operator: &str, name: &str, generics: &str, bare: &str, where_clause: &str)
    ensures
        final(out)@ == old(out)@ + (IMPL@ + generics@ + operator@ + name@ + seq![' '] + bare@
            + seq![' '] + where_clause@ + BLOCK@),
{
    let ghost start = out@;
    out.append(IMPL);
    out.append(generics);
    out.append(operator);
    out.append(name);
    out.push(' ');
    out.append(bare);
    out.push(' ');
    out.append(where_clause);
    out.append(BLOCK);
    assert(out@ =~= start + (IMPL@ + generics@ + operator@ + name@ + seq![' '] + bare@ + seq![
        ' ',
    ] + where_clause@ + BLOCK@));
}

fn push_name_list(out: &mut String, fields: &[String])
    ensures
        final(out)@ == old(out)@ + name_list(fields.deep_view()),
{
    let ghost start = out@;
    let ghost names = fields.deep_view();
    let ghost parts = quoted_names(names);
    let mut i: usize = 0;
    assert(parts.take(0) =~= Seq::<Seq<char>>::empty());
    assert(start + Seq::<char>::empty() =~= start);
    while i < fields.len()
        invariant
            i <= fields.len(),
            names == fields.deep_view(),
            parts == quoted_names(names),
            out@ == start + join(parts.take(i as int), seq![',']),
        decreases fields.len() - i,
    {
        let ghost before = join(parts.take(i as int), seq![',']);
        if i > 0 {
            out.push(',');
        }
        out.push('"');
        out.append(fields[i].as_str());
        out.push('"');
        proof {
            let next = parts.take(i + 1);
            assert(next.drop_last() =~= parts.take(i as int));
            assert(next.last() == quoted(fields[i as int]@));
            if i > 0 {
                assert(out@ =~= start + (before + seq![','] + next.last()));
            } else {
                assert(out@ =~= start + next.last());
            }
        }
        i += 1;
    }
    assert(parts.take(i as int) =~= parts);
}

fn push_reference_list(out: &mut String, borrow: &str, fields: &[String])
    ensures
        final(out)@ == old(out)@ + reference_list(borrow@, fields.deep_view()),
{
    let ghost start = out@;
    let ghost names = fields.deep_view();
    let ghost parts = references(borrow@, names);
    let mut i: usize = 0;
    assert(parts.take(0) =~= Seq::<Seq<char>>::empty());
    assert(start + Seq::<char>::empty() =~= start);
    while i < fields.len()
        invariant
            i <= fields.len(),
            names == fields.deep_view(),
            parts == references(borrow@, names),
            out@ == start + join(parts.take(i as int), seq![',']),
        decreases fields.len() - i,
    {
        let ghost before = join(parts.take(i as int), seq![',']);
        if i > 0 {
            out.push(',');
        }
        out.append(borrow);
        out.append(fields[i].as_str());
        proof {
            let next = parts.take(i + 1);
            assert(next.drop_last() =~= parts.take(i as int));
            assert(next.last() == borrow@ + fields[i as int]@);
            if i > 0 {
                assert(out@ =~= start + (before + seq![','] + next.last()));
            } else {
                assert(out@ =~= start + next.last());
            }
        }
        i += 1;
    }
    assert(parts.take(i as int) =~= parts);
}

/// Writes the three implementations for the structure `name` with the given generic
/// list, constraint clause and field identifiers. A structure without a name is refused.
pub fn struct_ret(name: &str, generics: &str, where_clause: &str, fields: &[String]) -> (result:
    Result<String, DeriveError>)
    ensures
        match result {
            Ok(text) => name@.len() > 0 && text@ == emitted(
                name@,
                generics@,
                where_clause@,
                fields.deep_view(),
            ),
            Err(error) => name@.len() == 0 && error == DeriveError::MissingName,
        },
{
    if name.is_empty() {
        return Err(DeriveError::MissingName);
    }
    let ghost names = fields.deep_view();
    let bare = gen_clean(generics);
    let mut out = String::new();
    out.append(INDENT);
    push_header(&mut out, DESCRIBE_FOR, name, generics, bare.as_str(), where_clause);
    out.append(DESCRIBE_OPEN);
    out.append(name);
    out.append(DESCRIBE_LIST);
    push_name_list(&mut out, fields);
    out.append(DESCRIBE_CLOSE);
    assert(out@ =~= INDENT@ + describe_impl(name@, generics@, where_clause@, names));
    let ghost first = out@;
    out.append(GAP);
    push_header(&mut out, READ_FOR, name, generics, bare.as_str(), where_clause);
    out.append(READ_OPEN);
    push_reference_list(&mut out, SHARED, fields);
    out.append(READ_AS);
    push_decimal(&mut out, fields.len());
    out.append(ACCESS_CLOSE);
    assert(out@ =~= first + GAP@ + read_impl(name@, generics@, where_clause@, names));
    let ghost second = out@;
    out.append(GAP);
    push_header(&mut out, WRITE_FOR, name, generics, bare.as_str(), where_clause);
    out.append(WRITE_OPEN);
    push_reference_list(&mut out, EXCLUSIVE, fields);
    out.append(WRITE_AS);
    push_decimal(&mut out, fields.len());
    out.append(ACCESS_CLOSE);
    assert(out@ =~= second + GAP@ + write_impl(name@, generics@, where_clause@, names));
    out.append(INDENT);
    Ok(out)
}

/// The description and both accesses follow the order of declaration: at each position
/// the description holds the quoted identifier of the field, and the shared and the
/// exclusive array hold a reference to that same field; the three are as long as there
/// are fields.
pub proof fn lemma_positions_agree(fields: Seq<Seq<char>>, position: int)
    requires
        0 <= position < fields.len(),
    ensures
        quoted_names(fields).len() == fields.len(),
        references(SHARED@, fields).len() == fields.len(),
        references(EXCLUSIVE@, fields).len() == fields.len(),
        quoted_names(fields)[position] == quoted(fields[position]),
        references(SHARED@, fields)[position] == SHARED@ + fields[position],
        references(EXCLUSIVE@, fields)[position] == EXCLUSIVE@ + fields[position],
{
}

/// For a structure without fields the description lists no name, and each access
/// selects from an array without a reference, of length `0`.
pub proof fn lemma_without_fields(name: Seq<char>, generics: Seq<char>, where_clause: Seq<char>)
    ensures
        describe_impl(name, generics, where_clause, Seq::empty()) == header(
            DESCRIBE_FOR@,
            name,
            generics,
            where_clause,
        ) + DESCRIBE_OPEN@ + name + DESCRIBE_LIST@ + DESCRIBE_CLOSE@,
        read_impl(name, generics, where_clause, Seq::empty()) == header(
            READ_FOR@,
            name,
            generics,
            where_clause,
        ) + READ_OPEN@ + READ_AS@ + seq!['0'] + ACCESS_CLOSE@,
        write_impl(name, generics, where_clause, Seq::empty()) == header(
            WRITE_FOR@,
            name,
            generics,
            where_clause,
        ) + WRITE_OPEN@ + WRITE_AS@ + seq!['0'] + ACCESS_CLOSE@,
{
    let none = Seq::<Seq<char>>::empty();
    assert(quoted_names(none) =~= Seq::<Seq<char>>::empty());
    assert(references(SHARED@, none) =~= Seq::<Seq<char>>::empty());
    assert(references(EXCLUSIVE@, none) =~= Seq::<Seq<char>>::empty());
    assert(name_list(none) =~= Seq::<char>::empty());
    assert(reference_list(SHARED@, none) =~= Seq::<char>::empty());
    assert(reference_list(EXCLUSIVE@, none) =~= Seq::<char>::empty());
    assert(decimal(0) =~= seq!['0']);
    let describe = header(DESCRIBE_FOR@, name, generics, where_clause) + DESCRIBE_OPEN@ + name
        + DESCRIBE_LIST@;
    assert(describe + Seq::<char>::empty() =~= describe);
    let read = header(READ_FOR@, name, generics, where_clause) + READ_OPEN@;
    assert(read + Seq::<char>::empty() =~= read);
    let write = header(WRITE_FOR@, name, generics, where_clause) + WRITE_OPEN@;
    assert(write + Seq::<char>::empty() =~= write);
}

} // verus!
