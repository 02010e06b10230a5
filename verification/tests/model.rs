use redis::{FromRedisValue, ToRedisArgs};
use redis_om::casing::{RenameAllRules, RenameRule};
use redis_om::codec::{decode, encode, to_wire, CodecError};
use redis_om::container::{Container, Data};
use redis_om::container_attr::{ContainerAttr, DataSource, DeriveInput};
use redis_om::derive::Derive;
use redis_om::diag::{Ctx, Diagnostic, ErrorKind, Location};
use redis_om::field::{Field, FieldAttr, FieldSource, Member};
use redis_om::meta::{AttrBody, AttrPath, Attribute, Lit, LitKind, Meta, MetaList, NestedMeta};
use redis_om::metalist::MetaListExt;
use redis_om::parse::{attributes, can_map};
use redis_om::redis_model::primary_key_field;
use redis_om::schema::{
    generate_redissearch_schema, redissearch_schema, schema_for_field, schema_for_type,
};
use redis_om::types::{GenericArg, PathArgs, PathSegment, Type};
use redis_om::value::{
    enum_from_wire, enum_to_wire, record_fields, tag_variants, variant_attrs, TagError,
};
use redis_om::variant::{FieldsSource, Style, Variant, VariantAttr, VariantSource};
use redis_om::wire::WireValue;
use std::collections::HashMap;

type Result<T = (), E = Box<dyn std::error::Error>> = std::result::Result<T, E>;

fn loc(index: usize) -> Location {
    Location { index }
}

fn path(name: &str, at: usize) -> AttrPath {
    AttrPath { leading_colon: false, segments: vec![name.to_string()], location: loc(at) }
}

fn text(value: &str, at: usize) -> Lit {
    Lit { kind: LitKind::Str(value.to_string()), location: loc(at) }
}

fn word(name: &str, at: usize) -> NestedMeta {
    NestedMeta::Meta(Meta::Path(path(name, at)))
}

fn pair(name: &str, value: &str, at: usize) -> NestedMeta {
    NestedMeta::Meta(Meta::NameValue(path(name, at), text(value, at + 1)))
}

fn pair_of(name: &str, kind: LitKind, at: usize) -> NestedMeta {
    NestedMeta::Meta(Meta::NameValue(path(name, at), Lit { kind, location: loc(at + 1) }))
}

fn group(name: &str, nested: Vec<NestedMeta>, at: usize) -> NestedMeta {
    NestedMeta::Meta(Meta::List(MetaList { path: path(name, at), nested }))
}

fn redis_attr(entries: Vec<NestedMeta>, at: usize) -> Attribute {
    Attribute {
        path: path("redis", at),
        body: AttrBody::Parsed(Meta::List(MetaList { path: path("redis", at), nested: entries })),
    }
}

fn ty(name: &str) -> Type {
    Type::Path(vec![PathSegment { ident: name.to_string(), arguments: PathArgs::Plain }])
}

fn ty_of(name: &str, inner: Type) -> Type {
    Type::Path(vec![PathSegment {
        ident: name.to_string(),
        arguments: PathArgs::AngleBracketed(vec![GenericArg::Type(inner)]),
    }])
}

fn field(name: &str, ty: Type, entries: Vec<NestedMeta>) -> FieldSource {
    let attrs = if entries.is_empty() { vec![] } else { vec![redis_attr(entries, 100)] };
    FieldSource { ident: Some(name.to_string()), attrs, ty, location: loc(50) }
}

fn record(name: &str, entries: Vec<NestedMeta>, fields: Vec<FieldSource>) -> DeriveInput {
    let attrs = if entries.is_empty() { vec![] } else { vec![redis_attr(entries, 10)] };
    DeriveInput {
        ident: name.to_string(),
        attrs,
        data: DataSource::Struct(FieldsSource::Named(fields)),
        location: loc(1),
    }
}

fn unit(name: &str, entries: Vec<NestedMeta>) -> VariantSource {
    let attrs = if entries.is_empty() { vec![] } else { vec![redis_attr(entries, 200)] };
    VariantSource { ident: name.to_string(), attrs, fields: FieldsSource::Unit, location: loc(60) }
}

fn tags(name: &str, entries: Vec<NestedMeta>, variants: Vec<VariantSource>) -> DeriveInput {
    let attrs = if entries.is_empty() { vec![] } else { vec![redis_attr(entries, 10)] };
    DeriveInput { ident: name.to_string(), attrs, data: DataSource::Enum(variants), location: loc(1) }
}

fn build<'a>(input: &'a DeriveInput) -> Container<'a> {
    let mut ctx = Ctx::new();
    let built = Container::new(&mut ctx, input).expect("a struct or enum has a model");
    let errors = ctx.check();
    assert!(errors.is_ok(), "{:?}", errors);
    built
}

fn errors_of(input: &DeriveInput) -> Vec<Diagnostic> {
    let mut ctx = Ctx::new();
    let _ = Container::new(&mut ctx, input);
    match ctx.check() {
        Ok(()) => vec![],
        Err(errors) => errors,
    }
}

fn kinds(errors: &[Diagnostic]) -> Vec<ErrorKind> {
    errors.iter().map(|e| e.kind).collect()
}

fn fields_of<'b, 'a>(cont: &'b Container<'a>) -> &'b Vec<Field<'a>> {
    match &cont.data {
        Data::Struct(_, fields) => fields,
        Data::Enum(_) => panic!("a struct was expected"),
    }
}

fn variants_of<'b, 'a>(cont: &'b Container<'a>) -> &'b Vec<Variant<'a>> {
    match &cont.data {
        Data::Enum(variants) => variants,
        Data::Struct(..) => panic!("an enum was expected"),
    }
}

fn to_redis(value: &WireValue) -> redis::Value {
    match value {
        WireValue::Nil => redis::Value::Nil,
        WireValue::Int(i) => redis::Value::Int(*i),
        WireValue::Data(bytes) => redis::Value::Data(bytes.clone()),
        WireValue::Bulk(items) => redis::Value::Bulk(items.iter().map(to_redis).collect()),
        WireValue::Status(s) => redis::Value::Status(s.clone()),
        WireValue::Okay => redis::Value::Okay,
    }
}

fn from_redis(value: &redis::Value) -> WireValue {
    match value {
        redis::Value::Nil => WireValue::Nil,
        redis::Value::Int(i) => WireValue::Int(*i),
        redis::Value::Data(bytes) => WireValue::Data(bytes.clone()),
        redis::Value::Bulk(items) => WireValue::Bulk(items.iter().map(from_redis).collect()),
        redis::Value::Status(s) => WireValue::Status(s.clone()),
        redis::Value::Okay => WireValue::Okay,
    }
}

/// The flat arguments that a record is written as, as the store takes them.
fn written(pairs: &[(String, Vec<u8>)]) -> Vec<Vec<u8>> {
    pairs.iter().flat_map(|(k, v)| vec![k.as_bytes().to_vec(), v.clone()]).collect()
}

fn slot<T: FromRedisValue>(slots: &[Option<WireValue>], index: usize) -> T {
    T::from_redis_value(&to_redis(slots[index].as_ref().expect("the field is decoded")))
        .expect("the field's type reads its slot")
}

fn data(value: &str) -> WireValue {
    WireValue::Data(value.as_bytes().to_vec())
}

fn flat(items: &[&str]) -> WireValue {
    WireValue::Bulk(items.iter().map(|s| data(s)).collect())
}

fn account_input() -> DeriveInput {
    record(
        "Account",
        vec![],
        vec![
            field("first_name", ty("String"), vec![word("primary_key", 101)]),
            field("last_name", ty("String"), vec![]),
            field("interests", ty_of("Vec", ty("String")), vec![]),
        ],
    )
}

#[test]
fn struct_with_no_options() -> Result {
    let input = account_input();
    let account = build(&input);
    let fields = fields_of(&account);

    let first_name: String = "Joe".into();
    let last_name: String = "Doe".into();
    let interests: Vec<String> = vec!["Gaming".into(), "SandCasting".into(), "Writing".into()];

    let values = vec![
        first_name.to_redis_args(),
        last_name.to_redis_args(),
        interests.to_redis_args(),
    ];
    let pairs = encode(fields, &values).unwrap();
    let serialized = written(&pairs)
        .into_iter()
        .map(|v| redis::Value::Data(v))
        .collect::<Vec<_>>();
    let deserialized = decode(fields, &from_redis(&redis::Value::Bulk(serialized))).unwrap();

    // Ensure that values are identical
    assert_eq!(first_name, slot::<String>(&deserialized, 0));
    assert_eq!(last_name, slot::<String>(&deserialized, 1));
    assert_eq!(interests, slot::<Vec<String>>(&deserialized, 2));

    Ok(())
}

#[test]
fn struct_with_rename_all_option() -> Result {
    let input = record(
        "Account",
        vec![pair("rename_all", "camelCase", 11)],
        vec![
            field("first_name", ty("String"), vec![word("primary_key", 101)]),
            field("last_name", ty("String"), vec![]),
        ],
    );
    let account = build(&input);
    let fields = fields_of(&account);

    let first_name: String = "Joe".into();
    let last_name: String = "Doe".into();

    let pairs = encode(fields, &vec![first_name.to_redis_args(), last_name.to_redis_args()]).unwrap();
    let serialized = redis::Value::Bulk(
        written(&pairs).into_iter().map(|v| redis::Value::Data(v)).collect::<Vec<_>>(),
    );

    // Ensure that values are identical
    let deserialized = decode(fields, &from_redis(&serialized)).unwrap();
    assert_eq!(first_name, slot::<String>(&deserialized, 0));
    assert_eq!(last_name, slot::<String>(&deserialized, 1));

    // Ensure that fields are renamed
    let account_map: HashMap<String, String> = redis::from_redis_value(&serialized)?;
    assert_eq!(account_map["firstName"], first_name);
    assert_eq!(account_map["lastName"], last_name);

    Ok(())
}

#[test]
fn enum_with_no_options() -> Result {
    let input = tags("State", vec![], vec![unit("On", vec![]), unit("Off", vec![])]);
    let state = build(&input);
    let variants = variants_of(&state);
    let on = 0;

    let serialized = enum_to_wire(&variant_attrs(variants), on).unwrap();
    let deserialized = enum_from_wire(&variant_attrs(variants), &WireValue::Data(serialized)).unwrap();

    // Ensure that values are identical
    assert_eq!(deserialized, on);

    Ok(())
}

#[test]
fn enum_with_rename_all_option() -> Result {
    let input = tags(
        "State",
        vec![pair("rename_all", "kebab-case", 11)],
        vec![unit("OnDevice", vec![]), unit("OffDevice", vec![])],
    );
    let state = build(&input);
    let variants = variants_of(&state);
    let off_device = 1;

    let serialized = enum_to_wire(&variant_attrs(variants), off_device).unwrap();
    let value = WireValue::Data(serialized.clone());
    let stringified = String::from_utf8(serialized)?;
    let deserialized = enum_from_wire(&variant_attrs(variants), &value).unwrap();

    // Ensure that value is lowercase
    assert_eq!(stringified.as_str(), "off-device");
    // Ensure that values are identical
    assert_eq!(deserialized, off_device);

    Ok(())
}

#[test]
fn enum_struct_compo() -> Result {
    let kind_input = tags("AccountKind", vec![], vec![unit("Admin", vec![]), unit("Shopper", vec![])]);
    let kind_model = build(&kind_input);
    let kinds_of_account = variants_of(&kind_model);
    let shopper = 1;

    let input = record(
        "Account",
        vec![pair("rename_all", "camelCase", 11)],
        vec![
            field("first_name", ty("String"), vec![word("primary_key", 101)]),
            field("last_name", ty("String"), vec![]),
            field("kind", ty("AccountKind"), vec![pair("rename", "accountKind", 101)]),
        ],
    );
    let account = build(&input);
    let fields = fields_of(&account);

    let first_name: String = "Joe".into();
    let last_name: String = "Doe".into();

    let values = vec![
        first_name.to_redis_args(),
        last_name.to_redis_args(),
        vec![enum_to_wire(&variant_attrs(kinds_of_account), shopper).unwrap()],
    ];
    let pairs = encode(fields, &values).unwrap();
    let serialized = redis::Value::Bulk(
        written(&pairs).into_iter().map(|v| redis::Value::Data(v)).collect::<Vec<_>>(),
    );

    // Ensure that values are identical
    let deserialized = decode(fields, &from_redis(&serialized)).unwrap();
    assert_eq!(first_name, slot::<String>(&deserialized, 0));
    assert_eq!(last_name, slot::<String>(&deserialized, 1));
    assert_eq!(
        shopper,
        enum_from_wire(&variant_attrs(kinds_of_account), deserialized[2].as_ref().unwrap()).unwrap()
    );

    // Ensure that fields are renamed
    let account_map: HashMap<String, String> = redis::from_redis_value(&serialized)?;
    assert_eq!(account_map["firstName"], first_name);
    assert_eq!(account_map["lastName"], last_name);
    assert_eq!(account_map["accountKind"], "Shopper");

    Ok(())
}

#[test]
fn hash_model_basic_with_no_options() -> Result {
    let input = record(
        "Account",
        vec![pair("prefix_key", "users", 11)],
        vec![
            field("id", ty("String"), vec![]),
            field("first_name", ty("String"), vec![]),
            field("last_name", ty("String"), vec![]),
            field("interests", ty_of("Vec", ty("String")), vec![]),
        ],
    );
    let account = build(&input);
    let fields = fields_of(&account);

    let id: String = "".into();
    let first_name: String = "Joe".into();
    let last_name: String = "Doe".into();
    let interests: Vec<String> = vec!["Gaming".into(), "SandCasting".into(), "Writing".into()];

    let values = vec![
        id.to_redis_args(),
        first_name.to_redis_args(),
        last_name.to_redis_args(),
        interests.to_redis_args(),
    ];
    let pairs = encode(fields, &values).unwrap();
    let serialized = written(&pairs)
        .into_iter()
        .map(|v| redis::Value::Data(v))
        .collect::<Vec<_>>();
    let deserialized = decode(fields, &from_redis(&redis::Value::Bulk(serialized))).unwrap();

    // Ensure that values are identical
    assert_eq!(first_name, slot::<String>(&deserialized, 1));
    assert_eq!(last_name, slot::<String>(&deserialized, 2));
    assert_eq!(interests, slot::<Vec<String>>(&deserialized, 3));

    assert_eq!(account.attrs.prefix_key, "users");
    let mut ctx = Ctx::new();
    assert_eq!(primary_key_field(&mut ctx, &account), Ok(0));

    Ok(())
}

#[test]
fn hash_model_basic_with_custom_prefix_and_pk() -> Result {
    let input = record(
        "Account",
        vec![],
        vec![
            field("pk", ty("String"), vec![word("primary_key", 101)]),
            field("first_name", ty("String"), vec![]),
            field("last_name", ty("String"), vec![]),
            field("interests", ty_of("Vec", ty("String")), vec![]),
        ],
    );
    let account = build(&input);
    let fields = fields_of(&account);

    let pk: String = "".into();
    let first_name: String = "Joe".into();
    let last_name: String = "Doe".into();
    let interests: Vec<String> = vec!["Gaming".into(), "SandCasting".into(), "Writing".into()];
    let values = vec![
        pk.to_redis_args(),
        first_name.to_redis_args(),
        last_name.to_redis_args(),
        interests.to_redis_args(),
    ];
    let pairs = encode(fields, &values).unwrap();
    let deserialized = decode(fields, &to_wire(&pairs)).unwrap();
    assert_eq!(first_name, slot::<String>(&deserialized, 1));
    assert_eq!(last_name, slot::<String>(&deserialized, 2));
    assert_eq!(interests, slot::<Vec<String>>(&deserialized, 3));

    let mut ctx = Ctx::new();
    let pk_field = primary_key_field(&mut ctx, &account).unwrap();
    assert_eq!(pk_field, 0);
    let key = redis_om::keys::fmt_pk(&account.attrs.prefix_key, "1234");
    assert_eq!(key, format!("Account:{}", "1234"));

    Ok(())
}

#[test]
fn redis_model_basic_with_no_options() -> Result {
    let input = record(
        "Account",
        vec![],
        vec![field("id", ty("String"), vec![]), field("first_name", ty("String"), vec![])],
    );
    let account = build(&input);
    let mut ctx = Ctx::new();
    let pk = primary_key_field(&mut ctx, &account).unwrap();

    let mut values: Vec<String> = vec!["".into(), "Joe".into()];

    assert_eq!(account.attrs.prefix_key, "Account");
    assert_eq!(values[pk], "");
    values[pk] = "1234".to_string();
    assert_eq!(values[0], "1234");

    Ok(())
}

#[test]
fn redis_model_basic_with_custom_prefix_and_pk() -> Result {
    let input = record(
        "Details",
        vec![pair("prefix_key", "info_details", 11)],
        vec![
            field("pk", ty("String"), vec![word("primary_key", 101)]),
            field("city", ty("String"), vec![]),
        ],
    );
    let details = build(&input);
    let mut ctx = Ctx::new();
    let pk = primary_key_field(&mut ctx, &details).unwrap();

    let mut values: Vec<String> = vec!["".into(), "Joe".into()];

    assert_eq!(details.attrs.prefix_key, "info_details");
    assert_eq!(values[pk], "");
    values[pk] = "1234".to_string();
    assert_eq!(values[0], "1234");

    Ok(())
}

fn address_input() -> DeriveInput {
    record(
        "Address",
        vec![pair("model_type", "HashModel", 11)],
        vec![
            field("id", ty("String"), vec![word("index", 101)]),
            field("a", ty("String"), vec![word("index", 101)]),
            field("b", ty("String"), vec![word("index", 101), word("full_text_search", 102)]),
            field("c", ty("u32"), vec![word("index", 101), word("sortable", 102)]),
            field("d", ty("f32"), vec![word("index", 101)]),
        ],
    )
}

#[test]
fn test_schema() -> Result {
    let input = address_input();
    let address = build(&input);
    let mut ctx = Ctx::new();
    let schema = redissearch_schema(&mut ctx, &address, address.attrs.model_type).unwrap();

    assert_eq!(
        schema,
        format!(
            "ON HASH PREFIX 1 Address SCHEMA \
                id TAG SEPARATOR | \
                a TAG SEPARATOR | \
                b TAG SEPARATOR | \
                b AS b_fts TEXT \
                c NUMERIC SORTABLE \
                d NUMERIC"
        )
    );

    Ok(())
}

#[test]
fn test_redis_schema() -> Result {
    let input = record(
        "Member",
        vec![],
        vec![
            field("id", ty("String"), vec![word("index", 101)]),
            field("first_name", ty("String"), vec![word("index", 101)]),
            field("last_name", ty("String"), vec![word("index", 101)]),
            field("email", ty("String"), vec![word("index", 101)]),
            field("age", ty("u32"), vec![word("index", 101)]),
            field(
                "bio",
                ty_of("Option", ty("String")),
                vec![
                    word("index", 101),
                    word("full_text_search", 102),
                    pair("default", "String::default", 103),
                ],
            ),
            field("join_date", ty("String"), vec![]),
        ],
    );
    let member = build(&input);
    let mut ctx = Ctx::new();
    let schema = redissearch_schema(&mut ctx, &member, Derive::JsonModel).unwrap();

    assert_eq!(
        schema,
        format!(
            "ON JSON PREFIX 1 Member SCHEMA \
               $.id AS id TAG SEPARATOR | \
               $.first_name AS first_name TAG SEPARATOR | \
               $.last_name AS last_name TAG SEPARATOR | \
               $.email AS email TAG SEPARATOR | \
               $.age AS age NUMERIC \
               $.bio AS bio TAG SEPARATOR | \
               $.bio AS bio_fts TEXT"
        )
    );

    Ok(())
}

#[test]
fn schema_follows_declaration_order_not_annotation_order() {
    let swapped = record(
        "Address",
        vec![],
        vec![
            field("id", ty("String"), vec![]),
            field("a", ty("String"), vec![word("index", 101)]),
            field("b", ty("String"), vec![word("full_text_search", 101), word("index", 102)]),
            field("c", ty("u32"), vec![word("sortable", 101), word("index", 102)]),
            field("d", ty("f32"), vec![word("index", 101)]),
        ],
    );
    let address = build(&swapped);
    let schema = generate_redissearch_schema(Derive::HashModel, "Address", fields_of(&address));
    assert_eq!(
        schema,
        "ON HASH PREFIX 1 Address SCHEMA id TAG SEPARATOR | a TAG SEPARATOR | b TAG SEPARATOR | b AS b_fts TEXT c NUMERIC SORTABLE d NUMERIC"
    );

    let reordered = record(
        "Address",
        vec![],
        vec![
            field("d", ty("f32"), vec![word("index", 101)]),
            field("id", ty("String"), vec![]),
            field("c", ty("u32"), vec![word("index", 101), word("sortable", 102)]),
        ],
    );
    let address = build(&reordered);
    let schema = generate_redissearch_schema(Derive::HashModel, "Address", fields_of(&address));
    assert_eq!(schema, "ON HASH PREFIX 1 Address SCHEMA d NUMERIC id TAG SEPARATOR | c NUMERIC SORTABLE");
}

#[test]
fn schema_clauses_by_type() {
    let input = record(
        "Item",
        vec![pair("prefix_key", "items", 11)],
        vec![
            field("id", ty("u64"), vec![word("index", 101), word("sortable", 102)]),
            field("plain", ty("String"), vec![]),
            field("tags", ty_of("Vec", ty("String")), vec![]),
            field("scores", ty_of("Vec", ty_of("Vec", ty("u8"))), vec![word("sortable", 101)]),
            field("kind", ty("Kind"), vec![word("index", 101)]),
            field("maybe", ty_of("Option", ty("u8")), vec![word("index", 101)]),
            field("notes", ty_of("Vec", ty("String")), vec![word("full_text_search", 101)]),
            field("title", ty("String"), vec![word("full_text_search", 101)]),
        ],
    );
    let item = build(&input);
    let fields = fields_of(&item);
    assert_eq!(schema_for_field(Derive::HashModel, &fields[0]), Some("id TAG SEPARATOR |".to_string()));
    assert_eq!(schema_for_field(Derive::HashModel, &fields[1]), None);
    assert_eq!(schema_for_field(Derive::HashModel, &fields[2]), Some("tags TAG SEPARATOR |".to_string()));
    assert_eq!(schema_for_field(Derive::HashModel, &fields[3]), Some("scores NUMERIC SORTABLE".to_string()));
    assert_eq!(schema_for_field(Derive::HashModel, &fields[4]), Some("kind TAG SEPARATOR |".to_string()));
    assert_eq!(schema_for_field(Derive::HashModel, &fields[5]), Some("maybe TAG SEPARATOR |".to_string()));
    assert_eq!(
        schema_for_field(Derive::HashModel, &fields[6]),
        Some("notes TAG SEPARATOR | notes AS notes_fts TEXT".to_string())
    );
    assert_eq!(schema_for_field(Derive::HashModel, &fields[7]), None);
    assert_eq!(
        schema_for_type(Derive::JsonModel, &fields[3].attrs, fields[3].ty),
        "$.scores AS scores NUMERIC SORTABLE"
    );
    assert_eq!(
        schema_for_type(Derive::JsonModel, &fields[6].attrs, fields[6].ty),
        "$.notes AS notes TAG SEPARATOR | $.notes AS notes_fts TEXT"
    );
    assert_eq!(
        generate_redissearch_schema(Derive::HashModel, "items", fields),
        "ON HASH PREFIX 1 items SCHEMA id TAG SEPARATOR | tags TAG SEPARATOR | scores NUMERIC SORTABLE kind TAG SEPARATOR | maybe TAG SEPARATOR | notes TAG SEPARATOR | notes AS notes_fts TEXT"
    );
    assert_eq!(
        generate_redissearch_schema(Derive::JsonModel, "items", &Vec::new()),
        "ON JSON PREFIX 1 items SCHEMA "
    );
}

#[test]
fn schema_of_a_list_whose_item_type_cannot_be_read() {
    let odd = Type::Path(vec![
        PathSegment { ident: "std".to_string(), arguments: PathArgs::Plain },
        PathSegment {
            ident: "Vec".to_string(),
            arguments: PathArgs::AngleBracketed(vec![GenericArg::Type(ty("u8"))]),
        },
    ]);
    let input = record(
        "Item",
        vec![],
        vec![field("id", ty("String"), vec![]), field("bytes", odd, vec![])],
    );
    let item = build(&input);
    assert_eq!(
        schema_for_field(Derive::HashModel, &fields_of(&item)[1]),
        Some("bytes TAG SEPARATOR |".to_string())
    );
}

#[test]
fn schema_needs_a_struct_with_named_fields() {
    let input = tags("State", vec![], vec![unit("On", vec![])]);
    let state = build(&input);
    let mut ctx = Ctx::new();
    assert_eq!(redissearch_schema(&mut ctx, &state, Derive::HashModel), Err(()));
    let errors = ctx.check().unwrap_err();
    assert_eq!(kinds(&errors), vec![ErrorKind::UnsupportedShape]);
    assert_eq!(errors[0].message, "Enum is not supported for redissearch_model");

    let tuple = DeriveInput {
        ident: "Pair".to_string(),
        attrs: vec![],
        data: DataSource::Struct(FieldsSource::Unnamed(vec![
            FieldSource {
                ident: None,
                attrs: vec![redis_attr(vec![word("primary_key", 3)], 2)],
                ty: ty("u8"),
                location: loc(5),
            },
            FieldSource { ident: None, attrs: vec![], ty: ty("u8"), location: loc(6) },
        ])),
        location: loc(1),
    };
    let pair_model = build(&tuple);
    let mut ctx = Ctx::new();
    assert_eq!(redissearch_schema(&mut ctx, &pair_model, Derive::HashModel), Err(()));
    let errors = ctx.check().unwrap_err();
    assert_eq!(errors[0].message, "Tuple Struct is not supported");
    assert_eq!(errors[0].kind, ErrorKind::UnsupportedShape);
    assert_eq!(errors[0].location, loc(1));
}

#[test]
fn encoding_a_record_with_a_list() {
    let input = record(
        "Account",
        vec![],
        vec![
            field("id", ty("String"), vec![]),
            field("first_name", ty("String"), vec![]),
            field("interests", ty_of("Vec", ty("String")), vec![]),
        ],
    );
    let account = build(&input);
    let fields = fields_of(&account);
    let interests: Vec<String> = vec!["Gaming".into(), "Writing".into()];
    let values = vec!["".to_redis_args(), "Joe".to_redis_args(), interests.to_redis_args()];
    let pairs = encode(fields, &values).unwrap();
    assert_eq!(
        pairs,
        vec![
            ("id".to_string(), b"".to_vec()),
            ("first_name".to_string(), b"Joe".to_vec()),
            ("interests.0".to_string(), b"Gaming".to_vec()),
            ("interests.1".to_string(), b"Writing".to_vec()),
        ]
    );
    let wire = to_wire(&pairs);
    assert_eq!(
        wire,
        flat(&["id", "", "first_name", "Joe", "interests.0", "Gaming", "interests.1", "Writing"])
    );
    let slots = decode(fields, &wire).unwrap();
    assert_eq!(slots[0], Some(data("")));
    assert_eq!(slots[1], Some(data("Joe")));
    assert_eq!(slots[2], Some(WireValue::Bulk(vec![data("Gaming"), data("Writing")])));
    assert_eq!(slot::<Vec<String>>(&slots, 2), interests);
}

#[test]
fn round_trip_of_options_and_lists() {
    let input = record(
        "Shape",
        vec![],
        vec![
            field("id", ty("String"), vec![]),
            field("none", ty_of("Option", ty("String")), vec![]),
            field("some", ty_of("Option", ty("u32")), vec![]),
            field("empty", ty_of("Vec", ty("String")), vec![]),
            field("one", ty_of("Vec", ty("String")), vec![]),
            field("many", ty_of("Vec", ty("u16")), vec![]),
            field("renamed", ty("String"), vec![pair("rename", "other", 101)]),
        ],
    );
    let shape = build(&input);
    let fields = fields_of(&shape);
    let none: Option<String> = None;
    let some: Option<u32> = Some(7);
    let empty: Vec<String> = vec![];
    let one: Vec<String> = vec!["solo".into()];
    let many: Vec<u16> = (0..12).collect();
    let values = vec![
        "x".to_redis_args(),
        none.to_redis_args(),
        some.to_redis_args(),
        empty.to_redis_args(),
        one.to_redis_args(),
        many.to_redis_args(),
        "named".to_redis_args(),
    ];
    let pairs = encode(fields, &values).unwrap();
    let keys: Vec<&str> = pairs.iter().map(|(k, _)| k.as_str()).collect();
    assert_eq!(
        keys,
        vec![
            "id", "some", "one", "many.0", "many.1", "many.2", "many.3", "many.4", "many.5",
            "many.6", "many.7", "many.8", "many.9", "many.10", "many.11", "other",
        ]
    );
    let slots = decode(fields, &to_wire(&pairs)).unwrap();
    assert_eq!(slots[1], Some(WireValue::Nil));
    assert_eq!(slots[3], Some(WireValue::Nil));
    assert_eq!(slots[4], Some(data("solo")));
    assert_eq!(slot::<String>(&slots, 0), "x");
    assert_eq!(slot::<Option<String>>(&slots, 1), none);
    assert_eq!(slot::<Option<u32>>(&slots, 2), some);
    assert_eq!(slot::<Vec<String>>(&slots, 3), empty);
    assert_eq!(slot::<Vec<String>>(&slots, 4), one);
    assert_eq!(slot::<Vec<u16>>(&slots, 5), many);
    assert_eq!(slot::<String>(&slots, 6), "named");
}

#[test]
fn skipped_fields_are_left_out() {
    let input = record(
        "Account",
        vec![],
        vec![
            field("id", ty("String"), vec![]),
            field("secret", ty("String"), vec![word("skip", 101)]),
            field("out_only", ty("String"), vec![word("skip_deserializing", 101)]),
            field("in_only", ty("String"), vec![word("skip_serializing", 101)]),
        ],
    );
    let account = build(&input);
    let fields = fields_of(&account);
    assert!(fields[1].attrs.skip_serializing && fields[1].attrs.skip_deserializing);
    assert!(!fields[2].attrs.skip_serializing && fields[2].attrs.skip_deserializing);
    assert!(fields[3].attrs.skip_serializing && !fields[3].attrs.skip_deserializing);
    let one = |s: &str| vec![s.as_bytes().to_vec()];
    let pairs = encode(fields, &vec![one("1"), one("s"), one("o"), one("i")]).unwrap();
    assert_eq!(pairs, vec![("id".to_string(), b"1".to_vec()), ("out_only".to_string(), b"o".to_vec())]);
    let slots = decode(fields, &to_wire(&pairs)).unwrap();
    assert_eq!(slots, vec![Some(data("1")), None, None, Some(WireValue::Nil)]);
}

#[test]
fn encode_wants_one_entry_for_each_field() {
    let input = account_input();
    let account = build(&input);
    assert_eq!(encode(fields_of(&account), &vec![]), Err(CodecError::FieldCountMismatch));
    assert_eq!(
        encode(fields_of(&account), &vec![vec![], vec![], vec![], vec![]]),
        Err(CodecError::FieldCountMismatch)
    );
    assert_eq!(encode(fields_of(&account), &vec![vec![], vec![], vec![]]), Ok(vec![]));
}

#[test]
fn decode_rejects_malformed_wire_data() {
    let input = account_input();
    let account = build(&input);
    let fields = fields_of(&account);
    assert_eq!(decode(fields, &WireValue::Nil), Err(CodecError::MalformedWireData));
    assert_eq!(decode(fields, &data("first_name")), Err(CodecError::MalformedWireData));
    assert_eq!(decode(fields, &flat(&["first_name"])), Err(CodecError::MalformedWireData));
    assert_eq!(
        decode(fields, &flat(&["first_name", "Joe", "last_name"])),
        Err(CodecError::MalformedWireData)
    );
    assert_eq!(
        decode(fields, &WireValue::Bulk(vec![WireValue::Int(1), data("Joe")])),
        Err(CodecError::MalformedWireData)
    );
    assert_eq!(
        decode(fields, &WireValue::Bulk(vec![WireValue::Data(vec![0xff]), data("Joe")])),
        Err(CodecError::MalformedWireData)
    );
    assert_eq!(
        decode(fields, &WireValue::Bulk(vec![])),
        Ok(vec![Some(WireValue::Nil), Some(WireValue::Nil), Some(WireValue::Nil)])
    );
}

#[test]
fn decode_groups_in_arrival_order() {
    let input = account_input();
    let account = build(&input);
    let fields = fields_of(&account);
    let slots = decode(
        fields,
        &flat(&["interests.1", "b", "first_name", "Joe", "interests.0", "a", "interests.x.y", "c"]),
    )
    .unwrap();
    assert_eq!(slots[0], Some(data("Joe")));
    assert_eq!(slots[1], Some(WireValue::Nil));
    assert_eq!(slots[2], Some(WireValue::Bulk(vec![data("b"), data("a"), data("c")])));

    let replaced = decode(fields, &flat(&["first_name", "Joe", "first_name", "Jane"])).unwrap();
    assert_eq!(replaced[0], Some(data("Jane")));
    let restarted = decode(fields, &flat(&["interests", "all", "interests.0", "a"])).unwrap();
    assert_eq!(restarted[2], Some(WireValue::Bulk(vec![data("a")])));
    let overwritten = decode(fields, &flat(&["interests.0", "a", "interests", "all"])).unwrap();
    assert_eq!(overwritten[2], Some(data("all")));
    let nested = decode(
        fields,
        &WireValue::Bulk(vec![
            data("interests"),
            WireValue::Bulk(vec![data("a")]),
            data("interests.5"),
            data("b"),
            WireValue::Status("last_name".to_string()),
            WireValue::Int(4),
            WireValue::Okay,
            WireValue::Nil,
        ]),
    )
    .unwrap();
    assert_eq!(nested[2], Some(WireValue::Bulk(vec![data("a"), data("b")])));
    assert_eq!(nested[1], Some(WireValue::Int(4)));
}

#[test]
fn aliases_are_tried_in_order_before_the_canonical_name() {
    let input = record(
        "Account",
        vec![],
        vec![
            field("id", ty("String"), vec![]),
            field(
                "name",
                ty("String"),
                vec![pair("alias", "label", 101), pair("alias", "title", 103)],
            ),
        ],
    );
    let account = build(&input);
    let fields = fields_of(&account);
    assert_eq!(fields[1].attrs.name.deserialize_aliases(), vec!["label", "title", "name"]);

    let only_alias = decode(fields, &flat(&["title", "t"])).unwrap();
    assert_eq!(only_alias[1], Some(data("t")));
    let only_canonical = decode(fields, &flat(&["name", "n"])).unwrap();
    assert_eq!(only_canonical[1], Some(data("n")));
    let both = decode(fields, &flat(&["name", "n", "title", "t"])).unwrap();
    assert_eq!(both[1], Some(data("t")));
    let all = decode(fields, &flat(&["name", "n", "title", "t", "label", "l"])).unwrap();
    assert_eq!(all[1], Some(data("l")));
    let neither = decode(fields, &flat(&["other", "o"])).unwrap();
    assert_eq!(neither[1], Some(WireValue::Nil));
}

#[test]
fn enum_tags_by_alias_and_errors() {
    let input = tags(
        "State",
        vec![],
        vec![
            unit("On", vec![pair("alias", "up", 201)]),
            unit("Off", vec![pair("rename", "down", 201), pair("alias", "up", 203)]),
            unit("Hidden", vec![word("skip", 201)]),
            unit("r#Loop", vec![word("skip_serializing", 201)]),
        ],
    );
    let state = build(&input);
    let variants = variants_of(&state);
    assert_eq!(enum_to_wire(&variant_attrs(variants), 0), Some(b"On".to_vec()));
    assert_eq!(enum_to_wire(&variant_attrs(variants), 1), Some(b"down".to_vec()));
    assert_eq!(enum_to_wire(&variant_attrs(variants), 2), None);
    assert_eq!(enum_to_wire(&variant_attrs(variants), 3), None);
    assert_eq!(enum_to_wire(&variant_attrs(variants), 4), None);
    assert_eq!(enum_from_wire(&variant_attrs(variants), &data("On")).unwrap(), 0);
    assert_eq!(enum_from_wire(&variant_attrs(variants), &data("up")).unwrap(), 0);
    assert_eq!(enum_from_wire(&variant_attrs(variants), &data("down")).unwrap(), 1);
    assert_eq!(enum_from_wire(&variant_attrs(variants), &data("Loop")).unwrap(), 3);
    match enum_from_wire(&variant_attrs(variants), &data("Hidden")) {
        Err(TagError::InvalidVariant(message)) => {
            assert_eq!(message, "Hidden, Expected one of: up, On, down, up, Loop")
        }
        other => panic!("{:?}", other),
    }
    assert!(matches!(enum_from_wire(&variant_attrs(variants), &data("Off")), Err(TagError::InvalidVariant(_))));
    assert!(matches!(enum_from_wire(&variant_attrs(variants), &WireValue::Nil), Err(TagError::NotAString)));
    assert!(matches!(
        enum_from_wire(&variant_attrs(variants), &WireValue::Status("On".to_string())),
        Err(TagError::NotAString)
    ));
    assert!(matches!(
        enum_from_wire(&variant_attrs(variants), &WireValue::Data(vec![0xff])),
        Err(TagError::NotUtf8)
    ));
}

#[test]
fn tags_need_unit_variants() {
    let input = tags(
        "Shape",
        vec![],
        vec![
            unit("Dot", vec![]),
            VariantSource {
                ident: "Circle".to_string(),
                attrs: vec![],
                fields: FieldsSource::Unnamed(vec![FieldSource {
                    ident: None,
                    attrs: vec![redis_attr(vec![word("primary_key", 3)], 2)],
                    ty: ty("u32"),
                    location: loc(71),
                }]),
                location: loc(70),
            },
            VariantSource {
                ident: "Square".to_string(),
                attrs: vec![],
                fields: FieldsSource::Named(vec![field("id", ty("u32"), vec![])]),
                location: loc(80),
            },
        ],
    );
    let shape = build(&input);
    let variants = variants_of(&shape);
    assert_eq!(variants[0].style, Style::Unit);
    assert_eq!(variants[1].style, Style::Newtype);
    assert_eq!(variants[2].style, Style::Struct);
    assert_eq!(shape.data.fields().len(), 2);
    let mut ctx = Ctx::new();
    assert!(tag_variants(&mut ctx, variants).is_err());
    let errors = ctx.check().unwrap_err();
    assert_eq!(kinds(&errors), vec![ErrorKind::EnumFieldsUnsupported]);
    assert_eq!(errors[0].location, loc(70));
    assert_eq!(errors[0].message, "Only Enum's Unit variant is currently supported");

    let mut ctx = Ctx::new();
    assert!(record_fields(&mut ctx, &shape).is_err());
    assert_eq!(kinds(&ctx.check().unwrap_err()), vec![ErrorKind::UnsupportedShape]);
    let mut ctx = Ctx::new();
    assert!(primary_key_field(&mut ctx, &shape).is_err());
    let errors = ctx.check().unwrap_err();
    assert_eq!(errors[0].message, "RedisModel is only supported for structs");

    let plain = tags("State", vec![], vec![unit("On", vec![]), unit("Off", vec![])]);
    let state = build(&plain);
    let mut ctx = Ctx::new();
    assert_eq!(tag_variants(&mut ctx, variants_of(&state)).map(|v| v.len()), Ok(2));
    assert!(ctx.check().is_ok());
    let account = account_input();
    let account = build(&account);
    let mut ctx = Ctx::new();
    assert_eq!(record_fields(&mut ctx, &account).map(|f| f.len()), Ok(3));
    assert!(ctx.check().is_ok());
}

#[test]
fn primary_key_is_designated_by_name() {
    let input = record(
        "Account",
        vec![],
        vec![
            field("first_name", ty("String"), vec![]),
            field("id", ty("String"), vec![]),
            field("other", ty("String"), vec![pair("rename", "id", 101)]),
        ],
    );
    let account = build(&input);
    let fields = fields_of(&account);
    assert!(!fields[0].attrs.primary_key);
    assert!(fields[1].attrs.primary_key);
    assert!(!fields[2].attrs.primary_key);
    assert_eq!(account.attrs.primary_key, "id");

    let renamed = record(
        "Account",
        vec![],
        vec![
            field("key", ty("String"), vec![pair("rename", "id", 101)]),
            field("first_name", ty("String"), vec![]),
        ],
    );
    let account = build(&renamed);
    assert!(fields_of(&account)[0].attrs.primary_key);
    let mut ctx = Ctx::new();
    assert_eq!(primary_key_field(&mut ctx, &account), Ok(0));
}

#[test]
fn primary_key_must_exist_once() {
    let missing = record(
        "Account",
        vec![],
        vec![field("first_name", ty("String"), vec![]), field("last_name", ty("String"), vec![])],
    );
    let errors = errors_of(&missing);
    assert_eq!(kinds(&errors), vec![ErrorKind::MissingPrimaryKey]);
    assert_eq!(
        errors[0].message,
        "A primary field doesn't exists, either add `id` field or annotate a field `primary_key`"
    );
    assert_eq!(errors[0].location, loc(1));

    let annotated = record(
        "Account",
        vec![],
        vec![
            field("id", ty("String"), vec![]),
            field("pk", ty("String"), vec![word("primary_key", 101)]),
        ],
    );
    let account = build(&annotated);
    assert!(!fields_of(&account)[0].attrs.primary_key);
    assert!(fields_of(&account)[1].attrs.primary_key);

    let twice = record(
        "Account",
        vec![],
        vec![
            field("a", ty("String"), vec![word("primary_key", 101)]),
            field("b", ty("String"), vec![word("primary_key", 101)]),
        ],
    );
    let errors = errors_of(&twice);
    assert_eq!(kinds(&errors), vec![ErrorKind::MultiplePrimaryKeys]);
    assert_eq!(errors[0].message, "several fields are annotated `primary_key`, keep one");

    let empty = record("Account", vec![], vec![]);
    assert_eq!(kinds(&errors_of(&empty)), vec![ErrorKind::MissingPrimaryKey]);
    let unit_struct = DeriveInput {
        ident: "Marker".to_string(),
        attrs: vec![],
        data: DataSource::Struct(FieldsSource::Unit),
        location: loc(1),
    };
    assert_eq!(kinds(&errors_of(&unit_struct)), vec![]);
    let marker = build(&unit_struct);
    assert!(matches!(&marker.data, Data::Struct(Style::Unit, fields) if fields.is_empty()));
    let mut ctx = Ctx::new();
    assert_eq!(primary_key_field(&mut ctx, &marker), Err(()));
    assert_eq!(ctx.get(0).unwrap().message, "Unit Struct is not supported");
}

#[test]
fn duplicate_rename_is_an_error() {
    let input = record(
        "Account",
        vec![],
        vec![FieldSource {
            ident: Some("id".to_string()),
            attrs: vec![
                redis_attr(vec![pair("rename", "a", 21)], 20),
                redis_attr(vec![pair("rename", "b", 31)], 30),
            ],
            ty: ty("String"),
            location: loc(5),
        }],
    );
    let mut ctx = Ctx::new();
    let account = Container::new(&mut ctx, &input).unwrap();
    assert_eq!(fields_of(&account)[0].attrs.name.serialize_name(), "a");
    assert_eq!(fields_of(&account)[0].attrs.name.deserialize_name(), "a");
    assert_eq!(fields_of(&account)[0].attrs.name.deserialize_aliases(), vec!["a", "b"]);
    let errors = ctx.check().unwrap_err();
    assert_eq!(kinds(&errors), vec![ErrorKind::DuplicateAttribute, ErrorKind::MissingPrimaryKey]);
    assert_eq!(errors[0].message, "duplicate redis attribute `rename`");
    assert_eq!(errors[0].location, loc(31));
}

#[test]
fn unknown_keywords_are_reported_once_each() {
    let input = DeriveInput {
        ident: "Account".to_string(),
        attrs: vec![
            Attribute { path: path("derive", 2), body: AttrBody::Parsed(Meta::Path(path("derive", 2))) },
            redis_attr(vec![word("nonsense", 11), pair("prefix_key", "users", 12)], 10),
        ],
        data: DataSource::Struct(FieldsSource::Named(vec![
            field("id", ty("String"), vec![pair("colour", "red", 101), word("index", 103)]),
            field(
                "name",
                ty("String"),
                vec![NestedMeta::Meta(Meta::Path(AttrPath {
                    leading_colon: false,
                    segments: vec!["a".to_string(), "b".to_string()],
                    location: loc(101),
                }))],
            ),
        ])),
        location: loc(1),
    };
    let mut ctx = Ctx::new();
    let account = Container::new(&mut ctx, &input).unwrap();
    assert_eq!(account.attrs.prefix_key, "users");
    assert!(fields_of(&account)[0].attrs.index);
    let errors = ctx.check().unwrap_err();
    assert_eq!(
        kinds(&errors),
        vec![ErrorKind::UnknownAttribute, ErrorKind::UnknownAttribute, ErrorKind::UnknownAttribute]
    );
    assert_eq!(errors[0].message, "unknown redis container attribute `nonsense`");
    assert_eq!(errors[0].location, loc(11));
    assert_eq!(errors[1].message, "unknown redis field attribute `colour`");
    assert_eq!(errors[1].location, loc(101));
    assert_eq!(errors[2].message, "unknown redis field attribute `a::b`");

    let on_variant = tags("State", vec![], vec![unit("On", vec![word("index", 201)])]);
    let errors = errors_of(&on_variant);
    assert_eq!(kinds(&errors), vec![ErrorKind::UnknownAttribute]);
    assert_eq!(errors[0].message, "unknown redis field attribute `index`");
}

#[test]
fn values_where_none_belong_and_the_reverse() {
    let input = record(
        "Account",
        vec![word("prefix_key", 11), group("model_type", vec![], 12), word("rename_all", 13)],
        vec![field(
            "id",
            ty("String"),
            vec![
                pair("primary_key", "x", 101),
                pair("index", "true", 103),
                pair("sortable", "x", 105),
                pair("full_text_search", "x", 107),
                group("flatten", vec![], 109),
                pair("skip", "x", 110),
                word("rename", 112),
                word("alias", 113),
                group("default", vec![], 114),
            ],
        )],
    );
    let errors = errors_of(&input);
    assert_eq!(kinds(&errors), vec![ErrorKind::UnexpectedAttributeValue; 12]);
    let messages: Vec<&str> = errors.iter().map(|e| e.message.as_str()).collect();
    assert_eq!(
        messages,
        vec![
            "expected a value for prefix_key, use #[redis(prefix_key = \"...\")]",
            "expected a value for model_type, use #[redis(model_type = \"...\")]",
            "expected a value for rename_all, use #[redis(rename_all = \"...\")]",
            "unexpected value for primary_key, use just #[redis(primary_key)]",
            "unexpected value for index, use #[redis(index)]",
            "unexpected value for sortable, use #[redis(sortable)]",
            "unexpected value for full_text_search, use #[redis(full_text_search)]",
            "unexpected value for flatten, use #[redis(flatten)]",
            "unexpected value for skip, use #[redis(skip)]",
            "expected a value for rename, use #[redis(rename = \"...\")]",
            "expected a value for alias, use #[redis(alias = \"...\")]",
            "expected a value for default, use #[redis(default = \"...\")]",
        ]
    );
    assert_eq!(errors[3].location, loc(101));
}

#[test]
fn literals_of_the_wrong_kind() {
    let input = record(
        "Account",
        vec![
            pair_of("prefix_key", LitKind::Other, 11),
            pair_of("primary_key", LitKind::Bool(true), 13),
            pair_of("model_type", LitKind::Other, 15),
            pair_of("rename_all", LitKind::Other, 17),
            NestedMeta::Lit(text("stray", 19)),
        ],
        vec![field(
            "id",
            ty("String"),
            vec![
                pair_of("rename", LitKind::Other, 101),
                pair_of("alias", LitKind::Bool(false), 103),
                pair_of("default", LitKind::Other, 105),
                NestedMeta::Lit(text("stray", 107)),
                group("rename", vec![pair_of("serialize", LitKind::Other, 109)], 108),
            ],
        )],
    );
    let errors = errors_of(&input);
    assert_eq!(
        kinds(&errors),
        vec![
            ErrorKind::InvalidLiteralType,
            ErrorKind::InvalidLiteralType,
            ErrorKind::InvalidLiteralType,
            ErrorKind::InvalidLiteralType,
            ErrorKind::MalformedAttribute,
            ErrorKind::InvalidLiteralType,
            ErrorKind::InvalidLiteralType,
            ErrorKind::InvalidLiteralType,
            ErrorKind::MalformedAttribute,
            ErrorKind::InvalidLiteralType,
        ]
    );
    assert_eq!(
        errors[0].message,
        "expected redis prefix_key attribute to be a string: `prefix_key = \"...\"`"
    );
    assert_eq!(errors[0].location, loc(12));
    assert_eq!(errors[4].message, "unexpected literal in redis container attribute");
    assert_eq!(
        errors[9].message,
        "expected redis rename attribute to be a string: `serialize = \"...\"`"
    );
}

#[test]
fn default_only_on_structs_with_named_fields() {
    let good = record(
        "Account",
        vec![word("default", 11)],
        vec![field("id", ty("String"), vec![pair("default", "String::new", 101)])],
    );
    let account = build(&good);
    assert!(!account.attrs.default.is_none());
    assert!(matches!(account.attrs.default, redis_om::common::Default::Standard));
    assert!(matches!(
        &fields_of(&account)[0].attrs.default,
        redis_om::common::Default::Path(p) if p == "String::new"
    ));

    let on_enum = tags("State", vec![word("default", 11)], vec![unit("On", vec![])]);
    let errors = errors_of(&on_enum);
    assert_eq!(kinds(&errors), vec![ErrorKind::UnsupportedDefaultPlacement]);
    assert_eq!(errors[0].message, "#[redis(default)] can only be used on structs with named fields");
    assert_eq!(errors[0].location, loc(1));

    let valued = tags("State", vec![pair("default", "State::new", 11)], vec![unit("On", vec![])]);
    let errors = errors_of(&valued);
    assert_eq!(kinds(&errors), vec![ErrorKind::UnsupportedDefaultPlacement]);
    assert_eq!(
        errors[0].message,
        "#[redis(default = \"...\")] can only be used on structs with named fields"
    );

    let on_unit = DeriveInput {
        ident: "Marker".to_string(),
        attrs: vec![redis_attr(vec![word("default", 11)], 10)],
        data: DataSource::Struct(FieldsSource::Unit),
        location: loc(1),
    };
    assert_eq!(kinds(&errors_of(&on_unit)), vec![ErrorKind::UnsupportedDefaultPlacement]);

    let not_a_path = record(
        "Account",
        vec![pair("default", "1 + 1", 11)],
        vec![field("id", ty("String"), vec![word("default", 101), word("default", 102)])],
    );
    let errors = errors_of(&not_a_path);
    assert_eq!(kinds(&errors), vec![ErrorKind::InvalidPath, ErrorKind::DuplicateAttribute]);
    assert_eq!(errors[0].message, "failed to parse: \"1 + 1\"");
    assert_eq!(errors[1].message, "duplicate redis attribute `default`");
    assert_eq!(errors[1].location, loc(102));
}

#[test]
fn model_type_and_unions() {
    let hash = record(
        "Account",
        vec![pair("model_type", "HashModel", 11)],
        vec![field("id", ty("String"), vec![])],
    );
    assert_eq!(build(&hash).attrs.model_type, Derive::HashModel);
    let other = record(
        "Account",
        vec![pair("model_type", "JsonModel", 11), pair("key", "stream", 13), pair("key", "again", 15)],
        vec![field("id", ty("String"), vec![])],
    );
    let mut ctx = Ctx::new();
    let account = Container::new(&mut ctx, &other).unwrap();
    assert_eq!(account.attrs.model_type, Derive::HashModel);
    assert_eq!(account.attrs.prefix_key, "stream");
    let errors = ctx.check().unwrap_err();
    assert_eq!(kinds(&errors), vec![ErrorKind::UnrecognizedModelType, ErrorKind::DuplicateAttribute]);
    assert_eq!(errors[0].message, "Unrecognized model type");
    assert_eq!(errors[0].location, loc(12));
    assert_eq!(errors[1].message, "duplicate redis attribute `prefix_key`");

    let mut ctx = Ctx::new();
    assert_eq!(Derive::from_lit_str(&mut ctx, "HashModel", loc(1)), Ok(Derive::HashModel));
    assert_eq!(Derive::from_lit_str(&mut ctx, "hashmodel", loc(2)), Err(()));
    assert_eq!(ctx.len(), 1);

    let union = DeriveInput {
        ident: "Either".to_string(),
        attrs: vec![redis_attr(vec![word("nonsense", 11)], 10)],
        data: DataSource::Union,
        location: loc(1),
    };
    let mut ctx = Ctx::new();
    assert!(Container::new(&mut ctx, &union).is_none());
    let errors = ctx.check().unwrap_err();
    assert_eq!(kinds(&errors), vec![ErrorKind::UnknownAttribute, ErrorKind::UnsupportedShape]);
    assert_eq!(errors[1].message, "derive is not supported for unions");
}

#[test]
fn attributes_that_are_no_groups() {
    let input = DeriveInput {
        ident: "Account".to_string(),
        attrs: vec![
            Attribute { path: path("redis", 2), body: AttrBody::Parsed(Meta::Path(path("redis", 2))) },
            Attribute {
                path: path("redis", 4),
                body: AttrBody::Unparsed("expected literal".to_string(), loc(5)),
            },
            Attribute {
                path: path("serde", 6),
                body: AttrBody::Unparsed("never looked at".to_string(), loc(7)),
            },
        ],
        data: DataSource::Struct(FieldsSource::Named(vec![field("id", ty("String"), vec![])])),
        location: loc(1),
    };
    let errors = errors_of(&input);
    assert_eq!(kinds(&errors), vec![ErrorKind::MalformedAttribute, ErrorKind::MalformedAttribute]);
    assert_eq!(errors[0].message, "expected #[redis(...)]");
    assert_eq!(errors[0].location, loc(2));
    assert_eq!(errors[1].message, "expected literal");
    assert_eq!(errors[1].location, loc(5));
}

#[test]
fn renames_by_sides_and_rules() {
    let input = record(
        "Account",
        vec![group(
            "rename_all",
            vec![pair("serialize", "camelCase", 12), pair("deserialize", "UPPERCASE", 14)],
            11,
        )],
        vec![
            field("id", ty("String"), vec![]),
            field("first_name", ty("String"), vec![]),
            field(
                "last_name",
                ty("String"),
                vec![group("rename", vec![pair("serialize", "family_name", 102)], 101)],
            ),
            field(
                "nick_name",
                ty("String"),
                vec![group(
                    "rename",
                    vec![pair("deserialize", "nick", 102), pair("deserialize", "handle", 104)],
                    101,
                )],
            ),
            field("r#type", ty("String"), vec![pair("rename", "kind", 101)]),
        ],
    );
    let account = build(&input);
    assert_eq!(
        account.attrs.rename_all_rules,
        RenameAllRules { serialize: RenameRule::CamelCase, deserialize: RenameRule::UpperCase }
    );
    let fields = fields_of(&account);
    assert!(fields[0].attrs.primary_key);
    assert_eq!(fields[1].attrs.name.serialize_name(), "firstName");
    assert_eq!(fields[1].attrs.name.deserialize_name(), "FIRST_NAME");
    assert_eq!(fields[1].attrs.name.deserialize_aliases(), vec!["FIRST_NAME"]);
    assert_eq!(fields[2].attrs.name.serialize_name(), "family_name");
    assert!(fields[2].attrs.name.serialize_renamed);
    assert!(!fields[2].attrs.name.deserialize_renamed);
    assert_eq!(fields[2].attrs.name.deserialize_name(), "LAST_NAME");
    assert_eq!(fields[3].attrs.name.serialize_name(), "nickName");
    assert_eq!(fields[3].attrs.name.deserialize_name(), "nick");
    assert_eq!(fields[3].attrs.name.deserialize_aliases(), vec!["nick", "handle"]);
    assert_eq!(fields[4].attrs.name.serialize_name(), "kind");
    assert_eq!(fields[4].attrs.name.deserialize_name(), "kind");
    assert_eq!(fields[4].attrs.name.deserialize_aliases(), vec!["kind"]);
    assert!(matches!(&fields[4].member, Member::Named(name) if name == "r#type"));
    assert_eq!(fields[4].ident.map(|s| s.as_str()), Some("r#type"));
}

#[test]
fn rename_rules_are_applied_once() {
    let mut ctx = Ctx::new();
    let source = field("first_name", ty("String"), vec![]);
    let mut attr = FieldAttr::from_ast(&mut ctx, 0, &source, None, &redis_om::common::Default::Missing);
    let rules = RenameAllRules { serialize: RenameRule::PascalCase, deserialize: RenameRule::KebabCase };
    attr.rename_by_rules(&rules);
    assert_eq!(attr.name.serialize_name(), "FirstName");
    assert_eq!(attr.name.deserialize_name(), "first-name");
    assert!(!attr.flatten());

    let renamed = field("first_name", ty("String"), vec![pair("rename", "given", 101), word("flatten", 103)]);
    let mut attr = FieldAttr::from_ast(&mut ctx, 0, &renamed, None, &redis_om::common::Default::Missing);
    attr.rename_by_rules(&rules);
    attr.rename_by_rules(&rules);
    assert_eq!(attr.name.serialize_name(), "given");
    assert_eq!(attr.name.deserialize_name(), "given");
    assert!(attr.flatten());

    let positional = FieldSource { ident: None, attrs: vec![], ty: ty("u8"), location: loc(1) };
    let attr = FieldAttr::from_ast(&mut ctx, 12, &positional, None, &redis_om::common::Default::Missing);
    assert_eq!(attr.name.serialize_name(), "12");

    let variant = unit("r#OnDevice", vec![pair("rename_all", "snake_case", 201)]);
    let mut attr = VariantAttr::from_ast(&mut ctx, &variant);
    assert_eq!(attr.name.serialize_name(), "OnDevice");
    assert_eq!(attr.rename_all_rules.serialize, RenameRule::SnakeCase);
    attr.rename_by_rules(&rules);
    assert_eq!(attr.name.serialize_name(), "OnDevice");
    assert_eq!(attr.name.deserialize_name(), "on-device");
    assert!(ctx.check().is_ok());
}

#[test]
fn flatten_marks_the_container() {
    let input = record(
        "Account",
        vec![],
        vec![field("id", ty("String"), vec![]), field("inner", ty("Inner"), vec![word("flatten", 101)])],
    );
    assert!(build(&input).attrs.has_flatten);
    assert!(!build(&account_input()).attrs.has_flatten);
    let mut ctx = Ctx::new();
    let mut attrs = ContainerAttr::from_ast(&mut ctx, &account_input());
    assert_eq!(attrs.primary_key, "id");
    assert_eq!(attrs.prefix_key, "Account");
    assert!(attrs.default.is_none());
    attrs.mark_has_flatten();
    assert!(attrs.has_flatten);
}

#[test]
fn rename_all_errors() {
    let input = record(
        "Account",
        vec![
            pair("rename_all", "shouty", 11),
            pair("rename_all", "camelCase", 13),
            pair("rename_all", "snake_case", 15),
            group("rename_all", vec![pair("serialize", "nope", 18), word("deserialize", 20)], 17),
            group(
                "rename_all",
                vec![pair("deserialize", "lowercase", 22), pair("deserialize", "UPPERCASE", 24)],
                21,
            ),
        ],
        vec![field("id", ty("String"), vec![])],
    );
    let mut ctx = Ctx::new();
    let account = Container::new(&mut ctx, &input).unwrap();
    assert_eq!(
        account.attrs.rename_all_rules,
        RenameAllRules { serialize: RenameRule::CamelCase, deserialize: RenameRule::CamelCase }
    );
    let errors = ctx.check().unwrap_err();
    assert_eq!(
        kinds(&errors),
        vec![
            ErrorKind::UnknownRenameRule,
            ErrorKind::DuplicateAttribute,
            ErrorKind::DuplicateAttribute,
            ErrorKind::MalformedAttribute,
            ErrorKind::DuplicateAttribute,
        ]
    );
    assert_eq!(errors[0].location, loc(12));
    assert_eq!(errors[1].message, "duplicate redis attribute `rename_all`");
    assert_eq!(errors[1].location, loc(15));
    assert_eq!(
        errors[3].message,
        "malformed rename attribute, expected `rename(serialize = ..., deserialize = ...)`"
    );
    assert_eq!(errors[3].location, loc(20));
    assert_eq!(errors[4].message, "duplicate redis attribute `rename`");
    assert_eq!(errors[4].location, loc(24));
}

#[test]
fn groups_give_their_sides() {
    let mut ctx = Ctx::new();
    let list = MetaList {
        path: path("rename", 1),
        nested: vec![pair("serialize", "a", 2), pair("deserialize", "b", 4)],
    };
    assert_eq!(list.get_renames(&mut ctx), Ok((Some("a".to_string()), Some("b".to_string()))));
    assert_eq!(
        list.get_multiple_renames(&mut ctx),
        Ok((Some("a".to_string()), vec!["b".to_string()]))
    );
    let many = MetaList {
        path: path("rename", 1),
        nested: vec![pair("deserialize", "b", 2), pair("deserialize", "c", 4)],
    };
    assert_eq!(many.get_multiple_renames(&mut ctx), Ok((None, vec!["b".to_string(), "c".to_string()])));
    assert_eq!(ctx.len(), 0);
    assert_eq!(many.get_renames(&mut ctx), Err(()));
    assert_eq!(ctx.len(), 1);
    assert_eq!(ctx.get(0).unwrap().location, loc(4));
    let empty = MetaList { path: path("rename", 1), nested: vec![] };
    assert_eq!(empty.get_renames(&mut ctx), Ok((None, None)));
    let twice = MetaList {
        path: path("rename", 1),
        nested: vec![pair("serialize", "a", 2), pair("serialize", "b", 4)],
    };
    assert_eq!(twice.get_multiple_renames(&mut ctx), Err(()));
    assert_eq!(ctx.len(), 2);
}

#[test]
fn attribute_maps() {
    let attrs = vec![
        redis_attr(
            vec![
                word("index", 1),
                pair("rename", "a", 2),
                pair_of("sortable", LitKind::Bool(false), 4),
                group("rename", vec![], 6),
                NestedMeta::Lit(text("stray", 7)),
                pair("rename", "b", 8),
            ],
            0,
        ),
        Attribute { path: path("serde", 20), body: AttrBody::Parsed(Meta::Path(path("serde", 20))) },
        redis_attr(vec![pair("index", "false", 31)], 30),
    ];
    assert!(can_map(&attrs));
    let map = attributes(&attrs);
    assert_eq!(map.get("index"), Some(&"false".to_string()));
    assert_eq!(map.get("rename"), Some(&"b".to_string()));
    assert_eq!(map.get("sortable"), Some(&"false".to_string()));
    assert_eq!(map.get("serde"), None);
    assert_eq!(map.get("stray"), None);
    assert!(!can_map(&vec![redis_attr(vec![pair_of("index", LitKind::Other, 1)], 0)]));
    assert!(!can_map(&vec![redis_attr(
        vec![NestedMeta::Meta(Meta::Path(AttrPath {
            leading_colon: false,
            segments: vec!["a".to_string(), "b".to_string()],
            location: loc(1),
        }))],
        0
    )]));
    assert!(can_map(&vec![]));
}
