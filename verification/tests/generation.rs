use cornetto::fields::{CornettoField, CornettoKind, DefaultValue};
use cornetto::quotes::{
    default_constant_name, quote_default_value, write_cornetto_constant_param,
    write_cornetto_test_mutable_param, Accessor, Constant, DefaultField, GeneratedType,
    ResetParam,
};

fn descriptor(ident: &str, ty: &str, kind: CornettoKind, text: &str, textual: bool) -> CornettoField {
    CornettoField {
        ident: ident.to_string(),
        value: DefaultValue { text: text.to_string(), textual },
        kind,
        ty: ty.to_string(),
    }
}

fn price() -> CornettoField {
    descriptor("price", "u64", CornettoKind::Testmutable, "200", false)
}

fn label() -> CornettoField {
    descriptor("label", "String", CornettoKind::Constant, "\"shop\"", true)
}

#[test]
fn constant_name_is_joined_with_underscores() {
    assert_eq!(default_constant_name("SETTINGS", "PRICE"), "DEFAULT_SETTINGS_PRICE");
    assert_eq!(default_constant_name("", ""), "DEFAULT__");
    assert_eq!(default_constant_name("a", "b"), "DEFAULT_a_b");
}

#[test]
fn empty_companion_has_names_only() {
    let generated = GeneratedType::new("Settings");
    assert_eq!(generated.owner, "Settings");
    assert_eq!(generated.companion, "CornettoSettings");
    assert_eq!(generated.singleton, "SETTINGS");
    assert!(generated.constants.is_empty());
    assert!(generated.default_fields.is_empty());
    assert!(generated.accessors.is_empty());
    assert!(generated.reset.is_empty());
}

#[test]
fn names_are_upper_cased() {
    let mut generated = GeneratedType::new("MyType");
    let field = descriptor("const_price", "u64", CornettoKind::Constant, "150", false);
    let name = quote_default_value("MyType", &field, &mut generated);
    assert_eq!(name, "DEFAULT_MYTYPE_CONST_PRICE");
    assert_eq!(generated.singleton, "MYTYPE");
    assert_eq!(generated.companion, "CornettoMyType");
}

#[test]
fn upper_casing_follows_unicode() {
    let mut generated = GeneratedType::new("straße");
    let field = descriptor("é", "u64", CornettoKind::Constant, "1", false);
    let name = quote_default_value("straße", &field, &mut generated);
    assert_eq!(name, "DEFAULT_STRASSE_É");
}

#[test]
fn default_of_a_number() {
    let mut generated = GeneratedType::new("Settings");
    let name = quote_default_value("Settings", &price(), &mut generated);
    assert_eq!(name, "DEFAULT_SETTINGS_PRICE");
    assert_eq!(
        generated.constants,
        vec![Constant {
            name: "DEFAULT_SETTINGS_PRICE".to_string(),
            ty: "u64".to_string(),
            value: DefaultValue { text: "200".to_string(), textual: false },
        }]
    );
    assert_eq!(
        generated.default_fields,
        vec![DefaultField {
            field: "price".to_string(),
            constant: "DEFAULT_SETTINGS_PRICE".to_string(),
            owned: false,
        }]
    );
    assert!(generated.accessors.is_empty());
    assert!(generated.reset.is_empty());
}

#[test]
fn default_of_a_text() {
    let mut generated = GeneratedType::new("Settings");
    let name = quote_default_value("Settings", &label(), &mut generated);
    assert_eq!(name, "DEFAULT_SETTINGS_LABEL");
    assert_eq!(
        generated.constants,
        vec![Constant {
            name: "DEFAULT_SETTINGS_LABEL".to_string(),
            ty: "&str".to_string(),
            value: DefaultValue { text: "\"shop\"".to_string(), textual: true },
        }]
    );
    assert_eq!(
        generated.default_fields,
        vec![DefaultField {
            field: "label".to_string(),
            constant: "DEFAULT_SETTINGS_LABEL".to_string(),
            owned: true,
        }]
    );
}

#[test]
fn constant_accessor() {
    let mut generated = GeneratedType::new("Settings");
    write_cornetto_constant_param("DEFAULT_SETTINGS_LABEL".to_string(), &label(), &mut generated);
    assert_eq!(
        generated.accessors,
        vec![Accessor {
            name: "label".to_string(),
            ty: "String".to_string(),
            constant: "DEFAULT_SETTINGS_LABEL".to_string(),
            owned: true,
            shadowed: false,
        }]
    );
    assert!(generated.reset.is_empty());
    assert!(generated.constants.is_empty());
    assert!(generated.default_fields.is_empty());
}

#[test]
fn test_mutable_accessor() {
    let mut generated = GeneratedType::new("Settings");
    write_cornetto_test_mutable_param(
        "DEFAULT_SETTINGS_PRICE".to_string(),
        &price(),
        &mut generated,
    );
    assert_eq!(
        generated.accessors,
        vec![Accessor {
            name: "price".to_string(),
            ty: "u64".to_string(),
            constant: "DEFAULT_SETTINGS_PRICE".to_string(),
            owned: false,
            shadowed: true,
        }]
    );
    assert_eq!(
        generated.reset,
        vec![ResetParam { name: "price".to_string(), ty: "u64".to_string() }]
    );
    assert!(generated.constants.is_empty());
    assert!(generated.default_fields.is_empty());
}

#[test]
fn companion_of_the_settings() {
    let generated = cornetto::quotes::write("Settings", &vec![price(), label()]).unwrap();
    let mut expected = GeneratedType::new("Settings");
    let first = quote_default_value("Settings", &price(), &mut expected);
    write_cornetto_test_mutable_param(first, &price(), &mut expected);
    let second = quote_default_value("Settings", &label(), &mut expected);
    write_cornetto_constant_param(second, &label(), &mut expected);
    assert_eq!(generated, expected);
    assert_eq!(generated.constants[0].value.text, "200");
    assert_eq!(generated.constants[1].value.text, "\"shop\"");
    assert_eq!(generated.accessors[0].constant, generated.constants[0].name);
    assert_eq!(generated.accessors[1].constant, generated.constants[1].name);
    assert_eq!(generated.reset.len(), 1);
}

#[test]
fn one_accessor_for_each_field() {
    let fields = vec![
        price(),
        label(),
        descriptor("strin", "String", CornettoKind::Testmutable, "\"youhouhou\"", true),
        descriptor("flag", "bool", CornettoKind::Constant, "true", false),
    ];
    let generated = cornetto::quotes::write("Test", &fields).unwrap();
    assert_eq!(generated.accessors.len(), fields.len());
    assert_eq!(generated.constants.len(), fields.len());
    assert_eq!(generated.default_fields.len(), fields.len());
    for i in 0..fields.len() {
        assert_eq!(generated.accessors[i].name, fields[i].ident);
        assert_eq!(generated.accessors[i].ty, fields[i].ty);
        assert_eq!(generated.accessors[i].owned, fields[i].value.textual);
        assert_eq!(
            generated.accessors[i].shadowed,
            fields[i].kind == CornettoKind::Testmutable
        );
        assert_eq!(generated.constants[i].value, fields[i].value);
        assert_eq!(generated.default_fields[i].field, fields[i].ident);
    }
}

#[test]
fn reset_takes_the_test_mutable_fields_in_order() {
    let fields = vec![
        descriptor("a", "u8", CornettoKind::Testmutable, "1", false),
        descriptor("b", "u16", CornettoKind::Constant, "2", false),
        descriptor("c", "String", CornettoKind::Testmutable, "\"3\"", true),
        descriptor("d", "u64", CornettoKind::Testmutable, "4", false),
    ];
    let generated = cornetto::quotes::write("Test", &fields).unwrap();
    assert_eq!(
        generated.reset,
        vec![
            ResetParam { name: "a".to_string(), ty: "u8".to_string() },
            ResetParam { name: "c".to_string(), ty: "String".to_string() },
            ResetParam { name: "d".to_string(), ty: "u64".to_string() },
        ]
    );
}

#[test]
fn constants_only_need_no_reset() {
    let generated = cornetto::quotes::write("Settings", &vec![label()]).unwrap();
    assert!(generated.reset.is_empty());
    assert!(!generated.accessors[0].shadowed);
}

#[test]
fn no_fields_give_an_empty_companion() {
    assert_eq!(cornetto::quotes::write("Nothing", &vec![]), Ok(GeneratedType::new("Nothing")));
}

#[test]
fn owners_do_not_share_constant_names() {
    let first = cornetto::quotes::write("Settings", &vec![price()]).unwrap();
    let second = cornetto::quotes::write("Prices", &vec![price()]).unwrap();
    assert_ne!(first.constants[0].name, second.constants[0].name);
}

#[test]
fn constant_name_of_a_field() {
    assert_eq!(
        cornetto::quotes::constant_name_of("Settings", "price"),
        "DEFAULT_SETTINGS_PRICE"
    );
    assert_eq!(cornetto::quotes::constant_name_of("a", "b"), "DEFAULT_A_B");
}
