use redis_om::attr::{Attr, BoolAttr, VecAttr};
use redis_om::casing::{is_known_casing, transform_casing, RenameAllRules, RenameRule};
use redis_om::diag::{Ctx, ErrorKind, Location};
use redis_om::keys::{all_pks_pattern, ensure_pk, ensure_pk_with, fmt_pk, get_redis_key, is_pk_fmt};
use redis_om::meta::{AttrPath, Lit, LitExt, LitKind, LitStrExt, Meta, MetaExt, PathExt};
use redis_om::variant::{FieldsExt, FieldsSource};
use redis_om::name::{contains_name, deduplicate, Name};
use redis_om::symbol::{Symbol, DEFAULT, PRIMARY_KEY, RENAME, SKIP};
use redis_om::text::{decimal_string, find_char, join_strings, starts_with, strip_raw_prefix};
use redis_om::wire::WireValue;
use redis_om::types::{GenericArg, PathArgs, PathSegment, Type, TypeExt};

fn at(index: usize) -> Location {
    Location { index }
}

fn plain(name: &str) -> Type {
    Type::Path(vec![PathSegment { ident: name.to_string(), arguments: PathArgs::Plain }])
}

fn holding(name: &str, inner: Type) -> Type {
    Type::Path(vec![PathSegment {
        ident: name.to_string(),
        arguments: PathArgs::AngleBracketed(vec![GenericArg::Type(inner)]),
    }])
}

fn strings(items: &[&str]) -> Vec<String> {
    items.iter().map(|s| s.to_string()).collect()
}

#[test]
fn test_is_list_collection() {
    let ty = holding("Vec", plain("String"));
    assert_eq!(ty.is_list_collection(), true);
    let ty = holding("HashSet", plain("u32"));
    assert_eq!(ty.is_list_collection(), true);
}

#[test]
fn test_is_numeric() {
    let ty = plain("i32");
    assert_eq!(ty.is_numeric_type(), true);
    let ty = plain("usize");
    assert_eq!(ty.is_numeric_type(), true);
}

#[test]
fn test_get_inner_type() {
    let ty = holding("Vec", plain("u32"));
    let inner = ty.get_inner_type();
    assert!(inner.map(|v| v.is_ident("u32")).unwrap());
    let ty = holding("HashSet", plain("String"));
    let inner = ty.get_inner_type();
    assert!(inner.map(|v| v.is_ident("String")).unwrap());
}

#[test]
fn list_collection_needs_one_argument_and_a_known_name() {
    assert!(!plain("Vec").is_list_collection());
    assert!(!holding("Option", plain("u8")).is_list_collection());
    assert!(!holding("HashMap", plain("u8")).is_list_collection());
    for name in ["Vec", "LinkedList", "VecDeque", "BinaryHeap", "HashSet", "BTreeSet"] {
        assert!(holding(name, plain("u8")).is_list_collection(), "{}", name);
    }
    let two = Type::Path(vec![PathSegment {
        ident: "Vec".to_string(),
        arguments: PathArgs::AngleBracketed(vec![
            GenericArg::Type(plain("u8")),
            GenericArg::Type(plain("u8")),
        ]),
    }]);
    assert!(!two.is_list_collection());
    assert!(!Type::Tuple(vec![]).is_list_collection());
}

#[test]
fn numeric_types_are_the_integers_and_floats() {
    for name in [
        "i8", "i16", "i32", "i64", "i128", "isize", "u8", "u16", "u32", "u64", "u128", "usize",
        "f32", "f64",
    ] {
        assert!(plain(name).is_numeric_type(), "{}", name);
    }
    assert!(!plain("String").is_numeric_type());
    assert!(!plain("bool").is_numeric_type());
    assert!(!holding("Option", plain("u8")).is_numeric_type());
    assert!(!Type::Other.is_numeric_type());
}

#[test]
fn is_ident_looks_through_an_option() {
    assert!(holding("Option", plain("String")).is_ident("String"));
    assert!(!holding("Option", plain("String")).is_ident("Option"));
    assert!(plain("String").is_ident("String"));
    assert!(!plain("String").is_ident("u8"));
    assert!(!holding("Vec", plain("String")).is_ident("String"));
    assert!(holding("Vec", plain("String")).is_ident("Vec"));
    assert!(!Type::Other.is_ident("String"));
}

#[test]
fn is_ident_of_an_option_without_a_readable_argument() {
    let odd = Type::Path(vec![
        PathSegment { ident: "std".to_string(), arguments: PathArgs::Plain },
        PathSegment {
            ident: "Option".to_string(),
            arguments: PathArgs::AngleBracketed(vec![GenericArg::Type(plain("u8"))]),
        },
    ]);
    assert!(odd.is_option());
    assert!(odd.get_inner_type().is_none());
    assert!(odd.is_ident("Option"));
    assert!(!odd.is_ident("u8"));
}

#[test]
fn option_and_reference_shapes() {
    assert!(holding("Option", plain("u8")).is_option());
    assert!(!plain("Option").is_option());
    assert!(!holding("Vec", plain("u8")).is_option());
    assert!(Type::Reference { mutable: false, elem: Box::new(plain("u8")) }.is_reference());
    assert!(Type::Reference { mutable: true, elem: Box::new(plain("u8")) }.is_reference());
    assert!(!plain("u8").is_reference());
}

#[test]
fn inner_type_is_the_first_argument_of_the_first_segment() {
    assert!(plain("u8").get_inner_type().is_none());
    assert!(Type::Other.get_inner_type().is_none());
    let lifetime_first = Type::Path(vec![PathSegment {
        ident: "Cow".to_string(),
        arguments: PathArgs::AngleBracketed(vec![GenericArg::Other, GenericArg::Type(plain("str"))]),
    }]);
    assert!(lifetime_first.get_inner_type().is_none());
    let empty = Type::Path(vec![PathSegment {
        ident: "Vec".to_string(),
        arguments: PathArgs::AngleBracketed(vec![]),
    }]);
    assert!(empty.get_inner_type().is_none());
    assert!(Type::Path(vec![]).get_inner_type().is_none());
}

#[test]
fn path_and_arguments_of_a_type() {
    let ty = holding("Vec", plain("u8"));
    assert_eq!(ty.path().unwrap().len(), 1);
    assert_eq!(ty.arguments().unwrap().len(), 1);
    assert!(plain("u8").arguments().is_none());
    assert!(Type::Other.path().is_none());
    assert!(Type::Other.arguments().is_none());
}

#[test]
fn primitive_copy_types() {
    assert!(plain("u8").is_primitive_copy());
    assert!(plain("bool").is_primitive_copy());
    assert!(plain("char").is_primitive_copy());
    assert!(plain("f64").is_primitive_copy());
    assert!(!plain("String").is_primitive_copy());
    assert!(holding("Option", plain("u8")).is_primitive_copy());
    assert!(!holding("Option", plain("String")).is_primitive_copy());
    assert!(!plain("Option").is_primitive_copy());
    assert!(!holding("Vec", plain("u8")).is_primitive_copy());
    assert!(Type::Array(Box::new(plain("u8"))).is_primitive_copy());
    assert!(!Type::Array(Box::new(plain("String"))).is_primitive_copy());
    assert!(Type::Paren(Box::new(plain("u8"))).is_primitive_copy());
    assert!(Type::Group(Box::new(plain("i64"))).is_primitive_copy());
    assert!(Type::Reference { mutable: false, elem: Box::new(plain("String")) }.is_primitive_copy());
    assert!(!Type::Reference { mutable: true, elem: Box::new(plain("u8")) }.is_primitive_copy());
    assert!(Type::Tuple(vec![plain("u8"), plain("bool")]).is_primitive_copy());
    assert!(!Type::Tuple(vec![plain("u8"), plain("String")]).is_primitive_copy());
    assert!(Type::Tuple(vec![]).is_primitive_copy());
    assert!(!Type::Other.is_primitive_copy());
    assert!(!Type::Path(vec![]).is_primitive_copy());
}

#[test]
fn casing_rules_give_exact_names() {
    assert_eq!(transform_casing("first_name", None), "first_name");
    assert_eq!(transform_casing("first_name", Some("camelCase")), "firstName");
    assert_eq!(transform_casing("first_name", Some("PascalCase")), "FirstName");
    assert_eq!(transform_casing("firstName", Some("snake_case")), "first_name");
    assert_eq!(transform_casing("OffDevice", Some("kebab-case")), "off-device");
    assert_eq!(transform_casing("OffDevice", Some("lowercase")), "offdevice");
    assert_eq!(transform_casing("OffDevice", Some("UPPERCASE")), "OFFDEVICE");
    assert_eq!(transform_casing("XMLHttpRequest", Some("snake_case")), "xml_http_request");
    assert_eq!(transform_casing("hello__world", Some("snake_case")), "hello_world");
}

#[test]
fn casing_leaves_a_name_in_its_case_alone() {
    let in_case = [
        ("snake_case", "first_name"),
        ("kebab-case", "first-name"),
        ("camelCase", "firstName"),
        ("PascalCase", "FirstName"),
        ("lowercase", "first_name"),
        ("UPPERCASE", "FIRST_NAME"),
    ];
    for (rule, value) in in_case {
        let once = transform_casing(value, Some(rule));
        assert_eq!(once, value, "{} under {}", value, rule);
        let twice = transform_casing(&once, Some(rule));
        assert_eq!(twice, once, "{} under {}", value, rule);
    }
    assert_eq!(transform_casing(&transform_casing("Ab_c", None), None), "Ab_c");
}

#[test]
fn casing_a_name_out_of_its_case_twice() {
    for rule in ["snake_case", "kebab-case", "camelCase", "lowercase", "UPPERCASE"] {
        for value in ["first_name", "FirstName", "firstName", "first-name", "XMLHttpRequest"] {
            let once = transform_casing(value, Some(rule));
            let twice = transform_casing(&once, Some(rule));
            assert_eq!(twice, once, "{} under {}", value, rule);
        }
    }
    assert_eq!(transform_casing("a1B", Some("PascalCase")), "A1B");
    assert_eq!(transform_casing("A1B", Some("PascalCase")), "A1b");
    assert_eq!(transform_casing("A1b", Some("PascalCase")), "A1b");
}

#[test]
fn known_casings() {
    for rule in ["snake_case", "kebab-case", "camelCase", "PascalCase", "lowercase", "UPPERCASE"] {
        assert!(is_known_casing(rule));
    }
    assert!(!is_known_casing("None"));
    assert!(!is_known_casing("SCREAMING_SNAKE_CASE"));
    assert!(!is_known_casing(""));
}

#[test]
fn rename_rule_from_str() {
    assert_eq!(RenameRule::from_str("lowercase"), Ok(RenameRule::LowerCase));
    assert_eq!(RenameRule::from_str("UPPERCASE"), Ok(RenameRule::UpperCase));
    assert_eq!(RenameRule::from_str("PascalCase"), Ok(RenameRule::PascalCase));
    assert_eq!(RenameRule::from_str("camelCase"), Ok(RenameRule::CamelCase));
    assert_eq!(RenameRule::from_str("snake_case"), Ok(RenameRule::SnakeCase));
    assert_eq!(RenameRule::from_str("kebab-case"), Ok(RenameRule::KebabCase));
    assert_eq!(
        RenameRule::from_str("shouty"),
        Err("unknown rename rule `rename_all = \"shouty\"`, expected one of \"lowercase\", \"UPPERCASE\", \"PascalCase\", \"camelCase\", \"snake_case\", \"kebab-case\"".to_string())
    );
}

#[test]
fn rename_rule_apply() {
    assert_eq!(RenameRule::Unchanged.apply("Ab_c"), "Ab_c");
    assert_eq!(RenameRule::LowerCase.apply_to_field("Ab_c"), "ab_c");
    assert_eq!(RenameRule::UpperCase.apply_to_variant("Ab_c"), "AB_C");
    assert_eq!(RenameRule::PascalCase.apply_to_field("first_name"), "FirstName");
    assert_eq!(RenameRule::CamelCase.apply_to_field("first_name"), "firstName");
    assert_eq!(RenameRule::SnakeCase.apply_to_variant("OnDevice"), "on_device");
    assert_eq!(RenameRule::KebabCase.apply_to_variant("OnDevice"), "on-device");
    let rules = RenameAllRules { serialize: RenameRule::CamelCase, deserialize: RenameRule::Unchanged };
    assert_eq!(rules.serialize, RenameRule::CamelCase);
}

#[test]
fn decimal_strings() {
    assert_eq!(decimal_string(0), "0");
    assert_eq!(decimal_string(7), "7");
    assert_eq!(decimal_string(10), "10");
    assert_eq!(decimal_string(109), "109");
    assert_eq!(decimal_string(65535), "65535");
    assert_eq!(decimal_string(usize::MAX), usize::MAX.to_string());
}

#[test]
fn text_helpers() {
    assert!(Symbol("abc").matches("abc"));
    assert!(!Symbol("abc").matches("abd"));
    assert!(!Symbol("abc").matches("ab"));
    assert_eq!(join_strings(&strings(&[]), ", "), "");
    assert_eq!(join_strings(&strings(&["a"]), ", "), "a");
    assert_eq!(join_strings(&strings(&["a", "b", "c"]), ", "), "a, b, c");
    assert_eq!(join_strings(&strings(&["a", "", "c"]), " "), "a  c");
    assert_eq!(find_char("interests.10", '.'), Some(9));
    assert_eq!(find_char("a.b.c", '.'), Some(1));
    assert_eq!(find_char("abc", '.'), None);
    assert_eq!(find_char("", '.'), None);
    assert_eq!(find_char("é.a", '.'), Some(1));
    assert!(starts_with("users:1", "users"));
    assert!(starts_with("users", "users"));
    assert!(!starts_with("user", "users"));
    assert!(starts_with("anything", ""));
    assert_eq!(strip_raw_prefix("r#type"), "type");
    assert_eq!(strip_raw_prefix("type"), "type");
    assert_eq!(strip_raw_prefix("r#r#x"), "x");
    assert_eq!(strip_raw_prefix("r"), "r");
    assert_eq!(strip_raw_prefix("r#"), "");
    assert_eq!(strip_raw_prefix("xr#y"), "xr#y");
}

#[test]
fn keys_are_read_from_text_values() {
    assert_eq!(WireValue::Data(b"first_name".to_vec()).to_key(), Some("first_name".to_string()));
    assert_eq!(WireValue::Data("héllo".as_bytes().to_vec()).to_key(), Some("héllo".to_string()));
    assert_eq!(WireValue::Data(vec![]).to_key(), Some(String::new()));
    assert_eq!(WireValue::Data(vec![0xff, 0xfe]).to_key(), None);
    assert_eq!(WireValue::Data(vec![0xc3]).to_key(), None);
    assert_eq!(WireValue::Status("QUEUED".to_string()).to_key(), Some("QUEUED".to_string()));
    assert_eq!(WireValue::Okay.to_key(), Some("OK".to_string()));
    assert_eq!(WireValue::Nil.to_key(), None);
    assert_eq!(WireValue::Int(3).to_key(), None);
    assert_eq!(WireValue::Bulk(vec![]).to_key(), None);
    let nested = WireValue::Bulk(vec![WireValue::Int(1), WireValue::Bulk(vec![WireValue::Okay])]);
    assert_eq!(nested.duplicate(), nested);
}

#[test]
fn symbols_match_by_text() {
    let rename = Symbol(RENAME);
    assert_eq!(rename.as_str(), "rename");
    assert_eq!(rename.to_string(), "rename");
    assert!(rename.matches("rename"));
    assert!(!rename.matches("rename_all"));
    assert_eq!(SKIP, "skip");
    assert_eq!(PRIMARY_KEY, "primary_key");
}

#[test]
fn paths_and_their_text() {
    let single = AttrPath { leading_colon: false, segments: strings(&["rename"]), location: at(3) };
    assert!(single.is_ident("rename"));
    assert!(!single.is_ident("alias"));
    assert!(single.eq(&Symbol(RENAME)));
    assert!(!single.eq(&Symbol(DEFAULT)));
    assert_eq!(PathExt::to_string(&single), "rename");
    assert_eq!(single.to_source_text(), "rename");
    let long = AttrPath { leading_colon: true, segments: strings(&["a", "b"]), location: at(0) };
    assert!(!long.is_ident("a"));
    assert_eq!(PathExt::to_string(&long), "a::b");
    assert_eq!(long.to_source_text(), "::a::b");
    let rooted = AttrPath { leading_colon: true, segments: strings(&["rename"]), location: at(0) };
    assert!(!rooted.is_ident("rename"));
    let meta = Meta::Path(AttrPath { leading_colon: false, segments: strings(&["x", "y"]), location: at(9) });
    assert_eq!(MetaExt::to_string(&meta), "x::y");
    assert_eq!(meta.path().location, at(9));
}

#[test]
fn literals_give_their_string() {
    let text = Lit { kind: LitKind::Str("users".to_string()), location: at(1) };
    let flag = Lit { kind: LitKind::Bool(true), location: at(2) };
    let other = Lit { kind: LitKind::Other, location: at(3) };
    assert_eq!(LitExt::to_string(&text), Some("users".to_string()));
    assert_eq!(LitExt::to_string(&flag), None);
    assert_eq!(LitExt::to_string(&other), None);

    let mut ctx = Ctx::new();
    assert_eq!(text.to_lit_str(&mut ctx, Symbol(RENAME)), Ok("users".to_string()));
    assert_eq!(ctx.len(), 0);
    assert_eq!(flag.to_lit_str(&mut ctx, Symbol(RENAME)), Err(()));
    assert_eq!(ctx.len(), 1);
    assert_eq!(ctx.get(0).unwrap().kind, ErrorKind::InvalidLiteralType);
    assert_eq!(ctx.get(0).unwrap().location, at(2));
    assert_eq!(
        ctx.get(0).unwrap().message,
        "expected redis rename attribute to be a string: `rename = \"...\"`"
    );
    assert_eq!(other.to_lit_str_0(&mut ctx, Symbol(RENAME), Symbol("serialize")), Err(()));
    assert_eq!(
        ctx.get(1).unwrap().message,
        "expected redis rename attribute to be a string: `serialize = \"...\"`"
    );
}

#[test]
fn literals_give_their_path() {
    let mut ctx = Ctx::new();
    let good = Lit { kind: LitKind::Str("String::default".to_string()), location: at(1) };
    assert_eq!(good.to_expr_path(&mut ctx, Symbol(DEFAULT)), Ok("String::default".to_string()));
    assert_eq!(ctx.len(), 0);
    let bad = Lit { kind: LitKind::Str("not a \"path\"".to_string()), location: at(2) };
    assert_eq!(bad.to_expr_path(&mut ctx, Symbol(DEFAULT)), Err(()));
    assert_eq!(ctx.len(), 1);
    assert_eq!(ctx.get(0).unwrap().kind, ErrorKind::InvalidPath);
    assert_eq!(ctx.get(0).unwrap().message, "failed to parse: \"not a \\\"path\\\"\"");
    assert_eq!(ctx.get(0).unwrap().location, at(2));
    let number = Lit { kind: LitKind::Other, location: at(3) };
    assert_eq!(number.to_expr_path(&mut ctx, Symbol(DEFAULT)), Err(()));
    assert_eq!(ctx.get(1).unwrap().kind, ErrorKind::InvalidLiteralType);
}

#[test]
fn context_collects_in_order() {
    let mut ctx = Ctx::new();
    assert_eq!(ctx.len(), 0);
    ctx.error_spanned_by(at(1), ErrorKind::UnknownAttribute, "first".to_string());
    ctx.error_spanned_by(at(2), ErrorKind::DuplicateAttribute, "second".to_string());
    assert_eq!(ctx.len(), 2);
    assert_eq!(ctx.get(1).unwrap().message, "second");
    let errors = ctx.check().unwrap_err();
    assert_eq!(errors.len(), 2);
    assert_eq!(errors[0].kind, ErrorKind::UnknownAttribute);
    assert_eq!(errors[0].message, "first");
    assert_eq!(errors[0].location, at(1));
    assert_eq!(errors[1].kind, ErrorKind::DuplicateAttribute);
    assert!(Ctx::new().check().is_ok());
}

#[test]
fn attr_keeps_the_first_value() {
    let mut ctx = Ctx::new();
    let mut attr: Attr<String> = Attr::new(Symbol(RENAME));
    attr.set(&mut ctx, at(1), "a".to_string());
    assert_eq!(ctx.len(), 0);
    attr.set(&mut ctx, at(5), "b".to_string());
    assert_eq!(ctx.len(), 1);
    assert_eq!(ctx.get(0).unwrap().kind, ErrorKind::DuplicateAttribute);
    assert_eq!(ctx.get(0).unwrap().location, at(5));
    assert_eq!(ctx.get(0).unwrap().message, "duplicate redis attribute `rename`");
    attr.set_if_none("c".to_string());
    attr.set_opt(&mut ctx, at(6), None);
    assert_eq!(ctx.len(), 1);
    attr.set_opt(&mut ctx, at(7), Some("d".to_string()));
    assert_eq!(ctx.len(), 2);
    assert_eq!(ctx.get(1).unwrap().location, at(7));
    assert_eq!(attr.get(), Some("a".to_string()));
}

#[test]
fn attr_set_if_none_and_tokens() {
    let mut ctx = Ctx::new();
    let mut quiet: Attr<u8> = Attr::new(Symbol(RENAME));
    assert!(quiet.eq(&AttrPath { leading_colon: false, segments: strings(&["rename"]), location: at(0) }));
    quiet.set_if_none(4);
    quiet.set_if_none(5);
    assert_eq!(quiet.get_with_tokens(), Some((None, 4)));
    let mut placed: Attr<u8> = Attr::new(Symbol(RENAME));
    placed.set_opt(&mut ctx, at(9), Some(1));
    assert_eq!(placed.get_with_tokens(), Some((Some(at(9)), 1)));
    let empty: Attr<u8> = Attr::new(Symbol(RENAME));
    assert_eq!(empty.get_with_tokens(), None);
    let none: Attr<u8> = Attr::new(Symbol(RENAME));
    assert_eq!(none.get(), None);
    assert_eq!(ctx.len(), 0);
}

#[test]
fn bool_attr_is_idempotent() {
    let mut flag = BoolAttr::new(Symbol(PRIMARY_KEY));
    assert!(!flag.get());
    flag.set_true(at(1));
    assert!(flag.get());
    flag.set_true(at(2));
    flag.set_true(at(3));
    assert!(flag.get());
    assert!(flag.eq(&AttrPath { leading_colon: false, segments: strings(&["primary_key"]), location: at(0) }));
    assert!(!flag.eq(&AttrPath { leading_colon: false, segments: strings(&["index"]), location: at(0) }));
}

#[test]
fn vec_attr_collects_and_reports_the_second() {
    let mut ctx = Ctx::new();
    let empty: VecAttr<u8> = VecAttr::new(Symbol(RENAME));
    assert_eq!(empty.at_most_one(&mut ctx), Ok(None));
    let mut one: VecAttr<u8> = VecAttr::new(Symbol(RENAME));
    one.insert(at(1), 7);
    assert_eq!(one.at_most_one(&mut ctx), Ok(Some(7)));
    assert_eq!(ctx.len(), 0);
    let mut many: VecAttr<u8> = VecAttr::new(Symbol(RENAME));
    many.insert(at(1), 7);
    many.insert(at(2), 8);
    many.insert(at(3), 9);
    assert_eq!(many.at_most_one(&mut ctx), Err(()));
    assert_eq!(ctx.len(), 1);
    assert_eq!(ctx.get(0).unwrap().kind, ErrorKind::DuplicateAttribute);
    assert_eq!(ctx.get(0).unwrap().location, at(2));
    let mut all: VecAttr<u8> = VecAttr::new(Symbol(RENAME));
    all.insert(at(1), 3);
    all.insert(at(2), 1);
    all.insert(at(3), 3);
    assert_eq!(all.get(), vec![3, 1, 3]);
}

#[test]
fn names_resolve_from_attrs() {
    let mut ctx = Ctx::new();
    let plain_name = Name::from_attrs(
        "first_name".to_string(),
        Attr::new(Symbol(RENAME)),
        Attr::new(Symbol(RENAME)),
        None,
    );
    assert_eq!(plain_name.serialize_name(), "first_name");
    assert_eq!(plain_name.deserialize_name(), "first_name");
    assert!(!plain_name.serialize_renamed);
    assert!(!plain_name.deserialize_renamed);
    assert_eq!(plain_name.deserialize_aliases(), strings(&["first_name"]));

    let mut ser = Attr::new(Symbol(RENAME));
    ser.set(&mut ctx, at(1), "a".to_string());
    let mut aliases = VecAttr::new(Symbol(RENAME));
    aliases.insert(at(2), "z".to_string());
    aliases.insert(at(3), "y".to_string());
    aliases.insert(at(4), "z".to_string());
    let split = Name::from_attrs("f".to_string(), ser, Attr::new(Symbol(RENAME)), Some(aliases));
    assert_eq!(split.serialize_name(), "a");
    assert!(split.serialize_renamed);
    assert_eq!(split.deserialize_name(), "f");
    assert!(!split.deserialize_renamed);
    assert_eq!(split.deserialize_aliases, strings(&["z", "y"]));
    assert_eq!(split.deserialize_aliases(), strings(&["z", "y", "f"]));

    let mut de = Attr::new(Symbol(RENAME));
    de.set_if_none("y".to_string());
    let mut listed = VecAttr::new(Symbol(RENAME));
    listed.insert(at(2), "x".to_string());
    listed.insert(at(3), "y".to_string());
    let both = Name::from_attrs("f".to_string(), Attr::new(Symbol(RENAME)), de, Some(listed));
    assert_eq!(both.deserialize_name(), "y");
    assert!(both.deserialize_renamed);
    assert_eq!(both.deserialize_aliases(), strings(&["x", "y"]));
    assert_eq!(ctx.len(), 0);
}

#[test]
fn deduplication_keeps_first_seen_order() {
    assert_eq!(deduplicate(strings(&["b", "a", "b", "c", "a"])), strings(&["b", "a", "c"]));
    assert_eq!(deduplicate(strings(&[])), strings(&[]));
    assert!(contains_name(&strings(&["a", "b"]), "b"));
    assert!(!contains_name(&strings(&["a", "b"]), "c"));
}

#[test]
fn storage_keys() {
    assert_eq!(fmt_pk("users", "1234"), "users:1234");
    assert_eq!(fmt_pk("Account", ""), "Account:");
    assert!(is_pk_fmt("users", "users:1234"));
    assert!(!is_pk_fmt("users", "1234"));
    assert_eq!(get_redis_key("users", "1234"), "users:1234");
    assert_eq!(get_redis_key("users", "users:1234"), "users:1234");
    assert_eq!(all_pks_pattern("accounts"), "accounts:*");
}

#[test]
fn primary_keys_are_kept_or_made() {
    assert_eq!(ensure_pk_with("".to_string(), "01F".to_string()), "01F");
    assert_eq!(ensure_pk_with("mine".to_string(), "01F".to_string()), "mine");
    assert_eq!(ensure_pk("mine".to_string()), "mine");
    let made = ensure_pk(String::new());
    assert!(!made.is_empty());
    assert_eq!(made.chars().count(), 26);
    assert!(made.chars().all(|c| "0123456789ABCDEFGHJKMNPQRSTVWXYZ".contains(c)));
    assert_ne!(ensure_pk(String::new()), made);
}

#[test]
fn string_literals_parse_as_paths() {
    let good = Lit { kind: LitKind::Str("crate::make".to_string()), location: at(1) };
    assert_eq!(LitStrExt::parse(&good), Ok("crate::make".to_string()));
    let bad = Lit { kind: LitKind::Str("fn".to_string()), location: at(1) };
    assert_eq!(LitStrExt::parse(&bad), Err(()));
    let empty = Lit { kind: LitKind::Str(String::new()), location: at(1) };
    assert_eq!(LitStrExt::parse(&empty), Err(()));
    let flag = Lit { kind: LitKind::Bool(true), location: at(1) };
    assert_eq!(LitStrExt::parse(&flag), Err(()));
}

#[test]
fn named_fields_of_a_struct() {
    let named = FieldsSource::Named(vec![]);
    assert!(named.is_named());
    assert!(named.named().is_empty());
    assert!(!FieldsSource::Unit.is_named());
    assert!(!FieldsSource::Unnamed(vec![]).is_named());
}
