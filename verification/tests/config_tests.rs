use cypat::AppData;
use cypat::ConfigValue;
use cypat::DataFiles;
use cypat::InstallMethod;
use cypat::ConfigNumber;
use cypat::TripleBool;
use cypat::get_database_entry;

#[test]
fn register_db_file_keeps_registration_order() {
    let mut d = DataFiles::new();
    d.register_db_file(&"a.json".to_string());
    d.register_db_file(&"b.yaml".to_string());
    assert_eq!(d.files(), &vec!["a.json".to_string(), "b.yaml".to_string()]);
}

#[test]
fn lookup_in_empty_file_set_is_null() {
    let texts: Vec<String> = Vec::new();
    assert_eq!(get_database_entry(&texts, "alpha"), ConfigValue::Null);
}

#[test]
fn json_hit_wins() {
    let texts = vec!["{\"alpha\": 5}".to_string()];
    assert_eq!(
        get_database_entry(&texts, "alpha"),
        ConfigValue::Number(ConfigNumber::Int(5))
    );
}

#[test]
fn first_json_file_with_the_key_decides() {
    let texts = vec![
        "{\"beta\": 1}".to_string(),
        "{\"alpha\": 2}".to_string(),
        "{\"alpha\": 3}".to_string(),
    ];
    assert_eq!(
        get_database_entry(&texts, "alpha"),
        ConfigValue::Number(ConfigNumber::Int(2))
    );
}

#[test]
fn yaml_answers_when_json_does_not_parse() {
    let texts = vec!["alpha: 7\n".to_string()];
    assert_eq!(
        get_database_entry(&texts, "alpha"),
        ConfigValue::Number(ConfigNumber::Int(7))
    );
}

#[test]
fn toml_answers_when_neither_json_nor_yaml_do() {
    let texts = vec!["alpha = 9\n".to_string()];
    assert_eq!(
        get_database_entry(&texts, "alpha"),
        ConfigValue::Number(ConfigNumber::Int(9))
    );
}

#[test]
fn json_beats_yaml_and_toml_across_files() {
    let texts = vec![
        "alpha = 9\n".to_string(),
        "{\"alpha\": \"from json\"}".to_string(),
    ];
    assert_eq!(
        get_database_entry(&texts, "alpha"),
        ConfigValue::Str("from json".to_string())
    );
}

#[test]
fn missing_key_everywhere_is_null() {
    let texts = vec!["{\"beta\": 1}".to_string(), "gamma = 2\n".to_string()];
    assert_eq!(get_database_entry(&texts, "alpha"), ConfigValue::Null);
}

#[test]
fn value_kinds_come_through_the_json_converter() {
    let texts = vec![
        "{\"s\": \"x\", \"b\": true, \"f\": 1.5, \"neg\": -4, \"big\": 18446744073709551615, \"a\": [1, true], \"o\": {\"k\": 1}, \"n\": null}"
            .to_string(),
    ];
    assert_eq!(
        get_database_entry(&texts, "s"),
        ConfigValue::Str("x".to_string())
    );
    assert_eq!(get_database_entry(&texts, "b"), ConfigValue::Bool(true));
    assert_eq!(
        get_database_entry(&texts, "f"),
        ConfigValue::Number(ConfigNumber::Float("1.5".to_string()))
    );
    assert_eq!(
        get_database_entry(&texts, "neg"),
        ConfigValue::Number(ConfigNumber::Int(-4))
    );
    assert_eq!(
        get_database_entry(&texts, "big"),
        ConfigValue::Number(ConfigNumber::UInt(18446744073709551615))
    );
    assert_eq!(
        get_database_entry(&texts, "a"),
        ConfigValue::Array(vec![
            ConfigValue::Number(ConfigNumber::Int(1)),
            ConfigValue::Bool(true),
        ])
    );
    assert_eq!(
        get_database_entry(&texts, "o"),
        ConfigValue::Object(vec![(
            "k".to_string(),
            ConfigValue::Number(ConfigNumber::Int(1)),
        )])
    );
    // a key present with a null value reads as null, and the later formats
    // find nothing better in the same text
    assert_eq!(get_database_entry(&texts, "n"), ConfigValue::Null);
}

#[test]
fn number_subtype_queries() {
    assert!(ConfigNumber::Int(-1).is_int());
    assert!(ConfigNumber::UInt(1).is_int());
    assert!(!ConfigNumber::Float("2.5".to_string()).is_int());
    assert!(ConfigNumber::Float("2.5".to_string()).is_float());
    assert!(!ConfigNumber::Int(3).is_float());
}

#[test]
fn number_integer_reads() {
    assert_eq!(ConfigNumber::Int(-1).as_u64(), u64::MAX);
    assert_eq!(ConfigNumber::Int(-1).as_i64(), -1);
    assert_eq!(ConfigNumber::UInt(u64::MAX).as_i64(), -1);
    assert_eq!(ConfigNumber::Int(300).as_u8(), 44);
    assert_eq!(ConfigNumber::Int(300).as_i8(), 44);
    assert_eq!(ConfigNumber::Int(-2).as_u16(), 65534);
    assert_eq!(ConfigNumber::Int(-2).as_i16(), -2);
    assert_eq!(ConfigNumber::UInt(5_000_000_000).as_u32(), 705032704);
    assert_eq!(ConfigNumber::Int(70000).as_i32(), 70000);
}

#[test]
fn number_float_reads_as_zero_integers() {
    let f = ConfigNumber::Float("2.5".to_string());
    assert_eq!(f.as_u64(), 0);
    assert_eq!(f.as_i64(), 0);
    assert_eq!(f.as_u32(), 0);
    assert_eq!(f.as_i32(), 0);
    assert_eq!(f.as_u16(), 0);
    assert_eq!(f.as_i16(), 0);
    assert_eq!(f.as_u8(), 0);
    assert_eq!(f.as_i8(), 0);
}

#[test]
fn app_data_builder_keeps_its_fields() {
    let a = AppData::new("nmap", InstallMethod::Snap);
    assert_eq!(a.name, "nmap");
    assert!(matches!(a.install_method, InstallMethod::Snap));
    let b = a.clone();
    assert_eq!(b.name, "nmap");
}

#[test]
fn triple_bool_distinguishes_its_cases() {
    assert_eq!(TripleBool::Known(true), TripleBool::Known(true));
    assert_ne!(TripleBool::Known(false), TripleBool::Known(true));
    assert_ne!(TripleBool::Known(true), TripleBool::Unknown);
}

#[test]
fn toml_float_and_datetime_convert() {
    let texts = vec!["f = 1.5\nd = 1979-05-27\nb = true\n".to_string()];
    assert_eq!(
        get_database_entry(&texts, "f"),
        ConfigValue::Number(ConfigNumber::Float("1.5".to_string()))
    );
    assert_eq!(
        get_database_entry(&texts, "d"),
        ConfigValue::Str("1979-05-27".to_string())
    );
    assert_eq!(get_database_entry(&texts, "b"), ConfigValue::Bool(true));
}

#[test]
fn toml_nested_table_and_array_convert() {
    let texts = vec!["a = [1, \"x\"]\n[o]\nk = 2\n".to_string()];
    assert_eq!(
        get_database_entry(&texts, "a"),
        ConfigValue::Array(vec![
            ConfigValue::Number(ConfigNumber::Int(1)),
            ConfigValue::Str("x".to_string()),
        ])
    );
    assert_eq!(
        get_database_entry(&texts, "o"),
        ConfigValue::Object(vec![(
            "k".to_string(),
            ConfigValue::Number(ConfigNumber::Int(2)),
        )])
    );
}

#[test]
fn yaml_sequence_and_float_convert() {
    let texts = vec!["seq:\n  - 1\n  - true\nflt: 2.25\n".to_string()];
    assert_eq!(
        get_database_entry(&texts, "seq"),
        ConfigValue::Array(vec![
            ConfigValue::Number(ConfigNumber::Int(1)),
            ConfigValue::Bool(true),
        ])
    );
    assert_eq!(
        get_database_entry(&texts, "flt"),
        ConfigValue::Number(ConfigNumber::Float("2.25".to_string()))
    );
}

#[test]
fn yaml_tagged_value_reads_as_the_value_under_the_tag() {
    let texts = vec!["alpha: !points 5\n".to_string()];
    assert_eq!(
        get_database_entry(&texts, "alpha"),
        ConfigValue::Number(ConfigNumber::Int(5))
    );
}
