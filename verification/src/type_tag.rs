//! Type tags, and which of them are well formed.
//!
//! A type tag names a type: a primitive type, a vector, a struct that a
//! module declares, or a function type. A tag that comes from outside may
//! name a struct by something that is no identifier, or give a function type
//! abilities that do not exist; such a tag is not valid.

use vstd::prelude::*;

verus! {

/// The abilities that exist: copy, drop, store and key, one bit each.
pub const ALL_ABILITIES: u8 = 0xf;

/// A type tag, as far as its validity goes: of a struct the module and the
/// name, of a function type the abilities, and of every tag the tags below
/// it.
#[derive(Debug)]
pub enum TypeTag {
    /// A primitive type: a boolean, an integer, an address, a signer.
    Primitive,
    Vector(Box<TypeTag>),
    Struct { module: String, name: String, type_args: Vec<TypeTag> },
    Function { abilities: u8, args: Vec<TypeTag>, results: Vec<TypeTag> },
}

/// Whether `c` is a letter of the Latin alphabet.
pub open spec fn is_letter(c: char) -> bool {
    ('a' as u32 <= c as u32 && c as u32 <= 'z' as u32) || ('A' as u32 <= c as u32 && c as u32
        <= 'Z' as u32)
}

/// Whether `c` may stand in an identifier: a letter, a digit or an underscore.
pub open spec fn is_identifier_char(c: char) -> bool {
    is_letter(c) || c == '_' || ('0' as u32 <= c as u32 && c as u32 <= '9' as u32)
}

/// Whether `name` is an identifier: a letter, or an underscore and at least
/// one more character, and after it only letters, digits and underscores. The
/// one name that is an identifier without being of this form is `<SELF>`.
pub open spec fn valid_identifier(name: Seq<char>) -> bool {
    ||| name == seq!['<', 'S', 'E', 'L', 'F', '>']
    ||| {
        &&& name.len() >= 1
        &&& is_letter(name[0]) || (name[0] == '_' && name.len() > 1)
        &&& forall|i: int| 1 <= i < name.len() ==> is_identifier_char(#[trigger] name[i])
    }
}

/// `move_core_types::identifier::Identifier::is_valid`: whether a string is
/// an identifier. The function looks at the bytes of the string: it accepts
/// `<SELF>`, and otherwise asks for a first byte that is a letter, or an
/// underscore that is not the last byte, and for letters, digits and
/// underscores after it. A character outside ASCII has no such byte, so the
/// same holds of the characters.
#[verifier::external_body]
fn identifier_is_valid(name: &str) -> (valid: bool)
    ensures
        valid == valid_identifier(name@),
{
    move_core_types::identifier::Identifier::is_valid(name)
}

/// Whether every tag of `tags` is valid.
pub open spec fn valid_type_tags(tags: Seq<TypeTag>) -> bool
    decreases tags, 0nat,
{
    forall|i: int| 0 <= i < tags.len() ==> valid_type_tag(#[trigger] tags[i])
}

/// Whether a type tag is valid: whether every struct in it is named by
/// identifiers, module and name, and every function type in it has no
/// abilities but those that exist.
pub open spec fn valid_type_tag(type_tag: TypeTag) -> bool
    decreases type_tag, 1nat,
{
    match type_tag {
        TypeTag::Primitive => true,
        TypeTag::Vector(inner) => valid_type_tag(*inner),
        TypeTag::Struct { module, name, type_args } => {
            &&& valid_identifier(module@)
            &&& valid_identifier(name@)
            &&& valid_type_tags(type_args@)
        },
        TypeTag::Function { abilities, args, results } => {
            &&& abilities <= ALL_ABILITIES
            &&& valid_type_tags(args@)
            &&& valid_type_tags(results@)
        },
    }
}

/// Whether every tag of `tags` is valid.
fn are_valid_type_tags(tags: &Vec<TypeTag>) -> (valid: bool)
    ensures
        valid == valid_type_tags(tags@),
    decreases tags, 0nat,
{
    let mut i: usize = 0;
    while i < tags.len()
        invariant
            i <= tags.len(),
            forall|j: int| 0 <= j < i ==> valid_type_tag(#[trigger] tags@[j]),
        decreases tags.len() - i,
    {
        if !is_valid_type_tag(&tags[i]) {
            return false;
        }
        i = i + 1;
    }
    true
}

/// Whether a type tag is valid.
pub fn is_valid_type_tag(type_tag: &TypeTag) -> (valid: bool)
    ensures
        valid == valid_type_tag(*type_tag),
    decreases type_tag, 1nat,
{
    match type_tag {
        TypeTag::Struct { module, name, type_args } => {
            identifier_is_valid(module.as_str()) && identifier_is_valid(name.as_str())
                && are_valid_type_tags(type_args)
        },
        TypeTag::Vector(inner) => is_valid_type_tag(inner),
        TypeTag::Function { abilities, args, results } => {
            *abilities <= ALL_ABILITIES && are_valid_type_tags(args) && are_valid_type_tags(results)
        },
        TypeTag::Primitive => true,
    }
}

} // verus!
