use pg_rows::case::RenameRule;
use pg_rows::derive::{
    plan_from_row, private_prefix, unraw, DeriveError, DeriveInput, Field, FieldInput, Shape,
};
use pg_rows::overrides::{Attr, AttrItem, AttrValue, Derive, OverrideError, Overrides};

fn name_value(key: &str, value: &str) -> AttrItem {
    AttrItem::NameValue {
        key: key.to_string(),
        value: AttrValue::Str(value.to_string()),
    }
}

fn field(ident: &str, attrs: Vec<Attr>) -> FieldInput {
    FieldInput {
        ident: ident.to_string(),
        attrs,
    }
}

fn input(shape: Shape, attrs: Vec<Attr>, fields: Vec<FieldInput>, idents: &[&str]) -> DeriveInput {
    DeriveInput {
        shape,
        attrs,
        fields,
        idents: idents.iter().map(|s| s.to_string()).collect(),
    }
}

#[test]
fn every_rename_rule_is_applied() {
    let cases = [
        ("lowercase", "samplefield"),
        ("UPPERCASE", "SAMPLEFIELD"),
        ("PascalCase", "SampleField"),
        ("camelCase", "sampleField"),
        ("snake_case", "sample_field"),
        ("SCREAMING_SNAKE_CASE", "SAMPLE_FIELD"),
        ("kebab-case", "sample-field"),
        ("SCREAMING-KEBAB-CASE", "SAMPLE-FIELD"),
        ("Train-Case", "Sample-Field"),
    ];
    for (rule, expected) in cases {
        let parsed = RenameRule::from_str(rule).unwrap();
        assert_eq!(parsed.name(), rule);
        assert_eq!(parsed.apply_to_field("sampleField"), expected);
    }
    assert!(RenameRule::from_str("invalid").is_none());
    assert!(RenameRule::from_str("CamelCase").is_none());
}

#[test]
fn field_names_follow_overrides_and_rules() {
    let explicit = field(
        "display_name",
        vec![Attr::List(vec![name_value("name", "display-name")])],
    );
    let parsed = Field::parse(&explicit, Some(RenameRule::Camel), Derive::Row).unwrap();
    assert_eq!(parsed.name, "display-name");
    assert_eq!(parsed.ident, "display_name");

    let raw = Field::parse(&field("r#type", vec![]), Some(RenameRule::Camel), Derive::Row).unwrap();
    assert_eq!(raw.name, "type");
    assert_eq!(raw.ident, "r#type");

    let renamed =
        Field::parse(&field("nick_name", vec![]), Some(RenameRule::Camel), Derive::Row).unwrap();
    assert_eq!(renamed.name, "nickName");

    let plain = Field::parse(&field("nick_name", vec![Attr::Foreign]), None, Derive::Row).unwrap();
    assert_eq!(plain.name, "nick_name");
}

#[test]
fn unraw_strips_only_the_raw_marker() {
    assert_eq!(unraw("r#type"), "type");
    assert_eq!(unraw("type"), "type");
    assert_eq!(unraw("r"), "r");
    assert_eq!(unraw("rr#x"), "rr#x");
}

#[test]
fn prefix_avoids_every_identifier() {
    assert_eq!(private_prefix(&[]), "__tokio_postgres");
    let idents: Vec<String> = ["RowLifetimeCollision", "__tokio_postgres_row", "value", "str"]
        .iter()
        .map(|s| s.to_string())
        .collect();
    // "__tokio_postgres_row" begins with "__tokio_postgres" and "__tokio_postgres_"
    assert_eq!(private_prefix(&idents), "__tokio_postgres__");
    let idents: Vec<String> = [
        "MultipleLifetimeCollisions",
        "__tokio_postgres_row",
        "__tokio_postgres__row1",
        "name",
    ]
    .iter()
    .map(|s| s.to_string())
    .collect();
    assert_eq!(private_prefix(&idents), "__tokio_postgres___");
    // a raw identifier is compared without its marker
    let idents = vec!["r#__tokio_postgres".to_string()];
    assert_eq!(private_prefix(&idents), "__tokio_postgres_");
}

#[test]
fn plan_names_fields_and_bindings() {
    let plan = plan_from_row(&input(
        Shape::NamedStruct,
        vec![Attr::List(vec![name_value("rename_all", "camelCase")])],
        vec![
            field("actor_id", vec![]),
            field("display_name", vec![Attr::List(vec![name_value("name", "display-name")])]),
        ],
        &["postgres", "rename_all", "AuditLog", "actor_id", "i64"],
    ))
    .unwrap();
    assert_eq!(plan.fields[0].name, "actorId");
    assert_eq!(plan.fields[1].name, "display-name");
    assert_eq!(plan.prefix, "__tokio_postgres");
    assert_eq!(plan.row, "__tokio_postgres_row");
    assert_eq!(
        plan.bindings,
        vec!["__tokio_postgres_field0".to_string(), "__tokio_postgres_field1".to_string()]
    );

    let empty = plan_from_row(&input(Shape::NamedStruct, vec![], vec![], &["Empty"])).unwrap();
    assert!(empty.fields.is_empty());
    assert!(empty.bindings.is_empty());
}

#[test]
fn container_name_is_accepted_and_ignored() {
    let plan = plan_from_row(&input(
        Shape::NamedStruct,
        vec![Attr::List(vec![name_value("name", "shared_composite")])],
        vec![field("value", vec![])],
        &["postgres", "name", "SharedComposite", "value", "i32"],
    ))
    .unwrap();
    assert_eq!(plan.fields[0].name, "value");
    let without = plan_from_row(&input(
        Shape::NamedStruct,
        vec![],
        vec![field("value", vec![])],
        &["SharedComposite", "value", "i32"],
    ))
    .unwrap();
    assert_eq!(plan.fields[0].name, without.fields[0].name);
    assert_eq!(plan.prefix, without.prefix);
    assert_eq!(plan.bindings, without.bindings);
}

#[test]
fn unsupported_shapes_are_refused() {
    for shape in [Shape::TupleStruct, Shape::UnitStruct, Shape::Enum, Shape::Union] {
        assert_eq!(
            plan_from_row(&input(shape, vec![], vec![], &["User"])).err(),
            Some(DeriveError::UnsupportedShape)
        );
    }
}

#[test]
fn refused_attributes_are_reported() {
    let unknown_container = input(
        Shape::NamedStruct,
        vec![Attr::List(vec![name_value("foo", "bar")])],
        vec![field("id", vec![])],
        &["User", "id"],
    );
    assert_eq!(
        plan_from_row(&unknown_container).err(),
        Some(DeriveError::Container(OverrideError::UnknownOverride { attr: 0, item: 0 }))
    );

    let invalid_rule = input(
        Shape::NamedStruct,
        vec![Attr::List(vec![name_value("rename_all", "invalid")])],
        vec![field("id", vec![])],
        &["User", "id"],
    );
    assert_eq!(
        plan_from_row(&invalid_rule).err(),
        Some(DeriveError::Container(OverrideError::InvalidRenameRule { attr: 0, item: 0 }))
    );

    let non_string = input(
        Shape::NamedStruct,
        vec![Attr::List(vec![AttrItem::NameValue {
            key: "rename_all".to_string(),
            value: AttrValue::Other,
        }])],
        vec![field("id", vec![])],
        &["User", "id"],
    );
    assert_eq!(
        plan_from_row(&non_string).err(),
        Some(DeriveError::Container(OverrideError::ExpectedString { attr: 0, item: 0 }))
    );

    let rename_all_on_field = input(
        Shape::NamedStruct,
        vec![],
        vec![
            field("ok", vec![]),
            field("id", vec![Attr::Foreign, Attr::List(vec![name_value("rename_all", "camelCase")])]),
        ],
        &["User", "id"],
    );
    assert_eq!(
        plan_from_row(&rename_all_on_field).err(),
        Some(DeriveError::Field {
            index: 1,
            error: OverrideError::RenameAllOnField { attr: 1, item: 0 },
        })
    );

    let transparent = input(
        Shape::NamedStruct,
        vec![Attr::List(vec![AttrItem::Word("transparent".to_string())])],
        vec![field("value", vec![])],
        &["TransparentContainer", "value"],
    );
    assert_eq!(
        plan_from_row(&transparent).err(),
        Some(DeriveError::Container(OverrideError::NotForRows { attr: 0, item: 0 }))
    );

    let mismatch_field = input(
        Shape::NamedStruct,
        vec![],
        vec![field("value", vec![Attr::List(vec![AttrItem::Word("allow_mismatch".to_string())])])],
        &["MismatchedField", "value"],
    );
    assert_eq!(
        plan_from_row(&mismatch_field).err(),
        Some(DeriveError::Field {
            index: 0,
            error: OverrideError::NotForRows { attr: 0, item: 0 },
        })
    );

    let unknown_field = input(
        Shape::NamedStruct,
        vec![],
        vec![field("id", vec![Attr::List(vec![name_value("foo", "bar")])])],
        &["User", "id"],
    );
    assert_eq!(
        plan_from_row(&unknown_field).err(),
        Some(DeriveError::Field {
            index: 0,
            error: OverrideError::UnknownOverride { attr: 0, item: 0 },
        })
    );

    let not_list = input(Shape::NamedStruct, vec![Attr::NotList], vec![], &["User"]);
    assert_eq!(
        plan_from_row(&not_list).err(),
        Some(DeriveError::Container(OverrideError::ExpectedList { attr: 0 }))
    );
}

#[test]
fn composite_derives_accept_type_options_on_containers() {
    let attrs = vec![Attr::List(vec![
        AttrItem::Word("transparent".to_string()),
        AttrItem::Word("allow_mismatch".to_string()),
        name_value("rename_all", "snake_case"),
    ])];
    let o = Overrides::extract(&attrs, true, Derive::FromSql).unwrap();
    assert!(o.transparent);
    assert!(o.allow_mismatch);
    assert_eq!(o.rename_all, Some(RenameRule::Snake));
    assert!(o.name.is_none());
    let on_field = Overrides::extract(&attrs, false, Derive::ToSql).err();
    assert_eq!(on_field, Some(OverrideError::UnknownOverride { attr: 0, item: 0 }));
    let other = vec![Attr::List(vec![AttrItem::Other])];
    assert_eq!(
        Overrides::extract(&other, true, Derive::ToSql).err(),
        Some(OverrideError::UnknownAttribute { attr: 0, item: 0 })
    );
}

#[test]
fn later_attributes_override_earlier_names() {
    let attrs = vec![
        Attr::List(vec![name_value("name", "first")]),
        Attr::List(vec![name_value("name", "second")]),
    ];
    let o = Overrides::extract(&attrs, false, Derive::Row).unwrap();
    assert_eq!(o.name.as_deref(), Some("second"));
}

#[test]
fn borrowed_rows_map_through_from_row() {
    pg_rows::borrowed::assert_multiple_borrowed();
}
