use cornetto::companion::{BuildMode, Instance, Slot};
use cornetto::fields::{CornettoField, CornettoKind, DefaultValue};
use cornetto::impl_cornetto;
use cornetto::quotes::GeneratedType;

fn number(text: &str) -> DefaultValue {
    DefaultValue { text: text.to_string(), textual: false }
}

fn quoted(text: &str) -> DefaultValue {
    DefaultValue { text: text.to_string(), textual: true }
}

fn companion(text: &str) -> GeneratedType {
    let input: syn::DeriveInput = syn::parse_str(text).unwrap();
    impl_cornetto(&input).unwrap()
}

fn settings() -> GeneratedType {
    companion(
        "struct Settings { #[cornetto(mut, 200)] price: u64, #[cornetto(const, \"shop\")] label: String }",
    )
}

fn test_type() -> GeneratedType {
    companion(
        "struct Test {
            #[cornetto(mut, 200)] pub price: u64,
            #[cornetto(const, 150)] pub const_price: u64,
            #[cornetto(mut, \"youhouhou\")] pub strin: String,
        }",
    )
}

#[test]
fn settings_example() {
    let generated = settings();
    assert_eq!(generated.constant("DEFAULT_SETTINGS_PRICE"), Some(number("200")));
    assert_eq!(generated.constant("DEFAULT_SETTINGS_LABEL"), Some(quoted("\"shop\"")));

    let production = generated.instantiate(BuildMode::Production);
    assert_eq!(generated.get(&production, "label"), Some(quoted("\"shop\"")));
    assert_eq!(generated.get(&production, "price"), Some(number("200")));

    let mut instrumented = generated.instantiate(BuildMode::Instrumented);
    assert_eq!(generated.get(&instrumented, "label"), Some(quoted("\"shop\"")));
    assert_eq!(generated.get(&instrumented, "price"), Some(number("200")));
    assert!(generated.reset(&mut instrumented, &vec![number("100")]));
    assert_eq!(generated.get(&instrumented, "price"), Some(number("100")));
    assert_eq!(generated.get(&instrumented, "label"), Some(quoted("\"shop\"")));
}

#[test]
fn constant_field_ignores_the_shadow_state() {
    let generated = test_type();
    for mode in [BuildMode::Production, BuildMode::Instrumented] {
        let mut instance = generated.instantiate(mode);
        assert_eq!(generated.get(&instance, "const_price"), Some(number("150")));
        generated.reset(&mut instance, &vec![number("1"), quoted("\"x\"")]);
        assert_eq!(generated.get(&instance, "const_price"), Some(number("150")));
        let forged = Instance {
            mode,
            shadow: vec![Slot { field: "const_price".to_string(), value: number("7") }],
        };
        assert_eq!(generated.get(&forged, "const_price"), Some(number("150")));
    }
}

#[test]
fn production_build_reads_defaults_only() {
    let generated = test_type();
    let forged = Instance {
        mode: BuildMode::Production,
        shadow: vec![
            Slot { field: "price".to_string(), value: number("7") },
            Slot { field: "strin".to_string(), value: quoted("\"x\"") },
        ],
    };
    assert_eq!(generated.get(&forged, "price"), Some(number("200")));
    assert_eq!(generated.get(&forged, "strin"), Some(quoted("\"youhouhou\"")));
}

#[test]
fn instrumented_build_starts_with_defaults() {
    let generated = test_type();
    let instance = generated.instantiate(BuildMode::Instrumented);
    assert_eq!(generated.get(&instance, "price"), Some(number("200")));
    assert_eq!(generated.get(&instance, "const_price"), Some(number("150")));
    assert_eq!(generated.get(&instance, "strin"), Some(quoted("\"youhouhou\"")));
}

#[test]
fn reset_assigns_in_declaration_order() {
    let generated = test_type();
    let mut instance = generated.instantiate(BuildMode::Instrumented);
    assert!(generated.reset(&mut instance, &vec![number("100"), quoted("\"ho ho ho\"")]));
    assert_eq!(generated.get(&instance, "price"), Some(number("100")));
    assert_eq!(generated.get(&instance, "strin"), Some(quoted("\"ho ho ho\"")));
    assert_eq!(generated.get(&instance, "const_price"), Some(number("150")));
}

#[test]
fn values_stay_until_the_next_reset() {
    let generated = test_type();
    let mut instance = generated.instantiate(BuildMode::Instrumented);
    assert!(generated.reset(&mut instance, &vec![number("1"), quoted("\"a\"")]));
    for _ in 0..3 {
        assert_eq!(generated.get(&instance, "price"), Some(number("1")));
        assert_eq!(generated.get(&instance, "strin"), Some(quoted("\"a\"")));
    }
    assert!(generated.reset(&mut instance, &vec![number("2"), quoted("\"b\"")]));
    assert_eq!(generated.get(&instance, "price"), Some(number("2")));
    assert_eq!(generated.get(&instance, "strin"), Some(quoted("\"b\"")));
}

#[test]
fn reset_replaces_every_field_or_none() {
    let generated = test_type();
    let mut instance = generated.instantiate(BuildMode::Instrumented);
    let before = instance.clone();
    assert!(!generated.reset(&mut instance, &vec![number("1")]));
    assert_eq!(instance, before);
    assert!(!generated.reset(&mut instance, &vec![]));
    assert_eq!(instance, before);
    assert!(!generated.reset(&mut instance, &vec![number("1"), quoted("\"a\""), number("3")]));
    assert_eq!(instance, before);
    assert_eq!(generated.get(&instance, "price"), Some(number("200")));
    assert_eq!(generated.get(&instance, "strin"), Some(quoted("\"youhouhou\"")));
    assert!(generated.reset(&mut instance, &vec![number("1"), quoted("\"a\"")]));
    assert_eq!(generated.get(&instance, "price"), Some(number("1")));
    assert_eq!(generated.get(&instance, "strin"), Some(quoted("\"a\"")));
}

#[test]
fn production_build_has_no_reset() {
    let generated = test_type();
    let mut instance = generated.instantiate(BuildMode::Production);
    assert!(instance.shadow.is_empty());
    assert!(!generated.reset(&mut instance, &vec![number("1"), quoted("\"a\"")]));
    assert!(instance.shadow.is_empty());
    assert_eq!(generated.get(&instance, "price"), Some(number("200")));
}

#[test]
fn companion_of_constants_has_no_shadow_state() {
    let generated = companion("struct Limits { #[cornetto(const, 10)] max: usize }");
    let mut instance = generated.instantiate(BuildMode::Instrumented);
    assert!(instance.shadow.is_empty());
    assert!(!generated.reset(&mut instance, &vec![]));
    assert_eq!(generated.get(&instance, "max"), Some(number("10")));
}

#[test]
fn shadow_state_is_the_default_instance() {
    let generated = test_type();
    let instance = generated.instantiate(BuildMode::Instrumented);
    assert_eq!(instance.mode, BuildMode::Instrumented);
    assert_eq!(
        instance.shadow,
        vec![
            Slot { field: "price".to_string(), value: number("200") },
            Slot { field: "const_price".to_string(), value: number("150") },
            Slot { field: "strin".to_string(), value: quoted("\"youhouhou\"") },
        ]
    );
}

#[test]
fn unknown_names_give_nothing() {
    let generated = settings();
    let instance = generated.instantiate(BuildMode::Instrumented);
    assert_eq!(generated.get(&instance, "cost"), None);
    assert_eq!(generated.get(&instance, "_reset"), None);
    assert_eq!(generated.constant("DEFAULT_SETTINGS_COST"), None);
    assert_eq!(generated.constant("price"), None);
}

#[test]
fn accessor_without_its_field_gives_nothing() {
    let generated = settings();
    let forged = Instance { mode: BuildMode::Instrumented, shadow: vec![] };
    assert_eq!(generated.get(&forged, "price"), None);
    assert_eq!(generated.get(&forged, "label"), Some(quoted("\"shop\"")));
}

#[test]
fn later_assignment_wins() {
    let generated = settings();
    let forged = Instance {
        mode: BuildMode::Instrumented,
        shadow: vec![
            Slot { field: "price".to_string(), value: number("1") },
            Slot { field: "price".to_string(), value: number("2") },
        ],
    };
    assert_eq!(generated.get(&forged, "price"), Some(number("2")));
}

#[test]
fn every_accessor_answers_in_every_build() {
    let fields = vec![
        CornettoField {
            ident: "a".to_string(),
            value: number("1"),
            kind: CornettoKind::Testmutable,
            ty: "u8".to_string(),
        },
        CornettoField {
            ident: "b".to_string(),
            value: quoted("\"two\""),
            kind: CornettoKind::Constant,
            ty: "String".to_string(),
        },
        CornettoField {
            ident: "c".to_string(),
            value: number("3.0"),
            kind: CornettoKind::Testmutable,
            ty: "f64".to_string(),
        },
    ];
    let generated = cornetto::quotes::write("Abc", &fields).unwrap();
    for mode in [BuildMode::Production, BuildMode::Instrumented] {
        let instance = generated.instantiate(mode);
        for field in &fields {
            assert_eq!(generated.get(&instance, &field.ident), Some(field.value.clone()));
        }
    }
}

fn plain(ident: &str) -> CornettoField {
    CornettoField {
        ident: ident.to_string(),
        value: number("1"),
        kind: CornettoKind::Constant,
        ty: "u8".to_string(),
    }
}

#[test]
fn constants_of_different_fields_are_distinct() {
    assert!(cornetto::companion::constants_distinct("Settings", &vec![]));
    assert!(cornetto::companion::constants_distinct("Settings", &vec![plain("price")]));
    assert!(cornetto::companion::constants_distinct(
        "Settings",
        &vec![plain("price"), plain("label"), plain("const_price")]
    ));
}

#[test]
fn constants_collide_where_upper_case_names_agree() {
    assert!(!cornetto::companion::constants_distinct(
        "Settings",
        &vec![plain("price"), plain("PRICE")]
    ));
    assert!(!cornetto::companion::constants_distinct(
        "Settings",
        &vec![plain("a"), plain("b"), plain("A")]
    ));
    assert!(!cornetto::companion::constants_distinct(
        "Settings",
        &vec![plain("price"), plain("price")]
    ));
}

#[test]
fn colliding_constants_hide_a_default() {
    let fields = vec![
        CornettoField {
            ident: "a".to_string(),
            value: number("1"),
            kind: CornettoKind::Constant,
            ty: "u8".to_string(),
        },
        CornettoField {
            ident: "A".to_string(),
            value: number("2"),
            kind: CornettoKind::Constant,
            ty: "u8".to_string(),
        },
    ];
    assert!(!cornetto::companion::constants_distinct("S", &fields));
    let generated = cornetto::quotes::write("S", &fields).unwrap();
    let instance = generated.instantiate(BuildMode::Production);
    assert_eq!(generated.get(&instance, "a"), Some(number("2")));
}
