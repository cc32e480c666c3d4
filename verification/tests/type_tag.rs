use vm_environment::type_tag::{is_valid_type_tag, TypeTag, ALL_ABILITIES};

fn struct_tag(module: &str, name: &str, type_args: Vec<TypeTag>) -> TypeTag {
    TypeTag::Struct { module: module.to_string(), name: name.to_string(), type_args }
}

fn named(name: &str) -> TypeTag {
    struct_tag("coin", name, vec![])
}

#[test]
fn primitive_types_are_valid() {
    assert!(is_valid_type_tag(&TypeTag::Primitive));
    assert!(is_valid_type_tag(&TypeTag::Vector(Box::new(TypeTag::Primitive))));
}

#[test]
fn struct_is_valid_if_module_and_name_are_identifiers() {
    assert!(is_valid_type_tag(&struct_tag("coin", "Coin", vec![])));
    assert!(is_valid_type_tag(&struct_tag("aptos_coin", "AptosCoin2", vec![TypeTag::Primitive])));
    assert!(!is_valid_type_tag(&struct_tag("1coin", "Coin", vec![])));
    assert!(!is_valid_type_tag(&struct_tag("coin", "Co in", vec![])));
    assert!(!is_valid_type_tag(&struct_tag("", "Coin", vec![])));
    assert!(!is_valid_type_tag(&struct_tag("coin", "", vec![])));
}

#[test]
fn identifier_starts_with_a_letter_or_an_underscore_that_is_not_alone() {
    assert!(is_valid_type_tag(&named("a")));
    assert!(is_valid_type_tag(&named("Z9_")));
    assert!(is_valid_type_tag(&named("_a")));
    assert!(is_valid_type_tag(&named("__")));
    assert!(is_valid_type_tag(&named("_0")));
    assert!(!is_valid_type_tag(&named("_")));
    assert!(!is_valid_type_tag(&named("9a")));
    assert!(!is_valid_type_tag(&named("-a")));
    assert!(!is_valid_type_tag(&named("$a")));
}

#[test]
fn identifier_goes_on_with_letters_digits_and_underscores() {
    assert!(is_valid_type_tag(&named("abc_DEF_012")));
    assert!(!is_valid_type_tag(&named("a-b")));
    assert!(!is_valid_type_tag(&named("a b")));
    assert!(!is_valid_type_tag(&named("a<b>")));
    assert!(!is_valid_type_tag(&named("ab\u{e9}")));
    assert!(!is_valid_type_tag(&named("\u{e9}ab")));
    assert!(!is_valid_type_tag(&named("_\u{4e2d}")));
}

#[test]
fn self_is_the_one_exception() {
    assert!(is_valid_type_tag(&named("<SELF>")));
    assert!(!is_valid_type_tag(&named("<SELF")));
    assert!(!is_valid_type_tag(&named("<SELF>>")));
    assert!(!is_valid_type_tag(&named("<self>")));
}

#[test]
fn tag_is_as_valid_as_the_tags_below_it() {
    let bad = || named("not valid");
    let good = || named("Valid");
    assert!(is_valid_type_tag(&TypeTag::Vector(Box::new(good()))));
    assert!(!is_valid_type_tag(&TypeTag::Vector(Box::new(bad()))));
    assert!(!is_valid_type_tag(&TypeTag::Vector(Box::new(TypeTag::Vector(Box::new(bad()))))));
    assert!(is_valid_type_tag(&struct_tag("m", "S", vec![good(), TypeTag::Primitive, good()])));
    assert!(!is_valid_type_tag(&struct_tag("m", "S", vec![good(), TypeTag::Primitive, bad()])));
    assert!(!is_valid_type_tag(&struct_tag("m", "S", vec![struct_tag("m", "T", vec![bad()])])));
}

#[test]
fn function_type_has_no_abilities_but_those_that_exist() {
    let function = |abilities: u8| TypeTag::Function { abilities, args: vec![], results: vec![] };
    assert_eq!(ALL_ABILITIES, 0b1111);
    assert!(is_valid_type_tag(&function(0)));
    assert!(is_valid_type_tag(&function(0b0101)));
    assert!(is_valid_type_tag(&function(ALL_ABILITIES)));
    assert!(!is_valid_type_tag(&function(ALL_ABILITIES + 1)));
    assert!(!is_valid_type_tag(&function(0xff)));
}

#[test]
fn function_type_is_as_valid_as_its_arguments_and_results() {
    let function = |args: Vec<TypeTag>, results: Vec<TypeTag>| TypeTag::Function {
        abilities: 0,
        args,
        results,
    };
    assert!(is_valid_type_tag(&function(vec![named("A")], vec![named("B"), TypeTag::Primitive])));
    assert!(!is_valid_type_tag(&function(vec![named("A"), named("1")], vec![named("B")])));
    assert!(!is_valid_type_tag(&function(vec![named("A")], vec![named("B"), named("2")])));
}
