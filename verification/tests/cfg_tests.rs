use rat_engine::assets_manager::AssetsManager;
use rat_engine::decimal::Decimal;
use rat_engine::rat_cfg::CfgError;

#[test]
fn dictionary_scenario_boulder() {
    let cfg = AssetsManager::parse_cfg("props/boulder.robj", "name = Boulder\nweight = 12.5")
        .unwrap();
    assert_eq!(cfg.get_str("name").unwrap(), "Boulder");
    let w = cfg.get_decimal("weight").unwrap();
    assert_eq!(w, Decimal { neg: false, mantissa: 125, scale: 1 });
    let as_f32 = (w.mantissa as f32) / 10f32.powi(w.scale as i32);
    assert_eq!(as_f32, 12.5f32);
    assert_eq!(
        cfg.get_str("height"),
        Err(CfgError::MissingKey(String::from("height")))
    );
}

#[test]
fn file_path_is_remembered() {
    let cfg = AssetsManager::parse_cfg("assets/a.mat", "name = x").unwrap();
    assert_eq!(cfg.file_path, "assets/a.mat");
}

#[test]
fn line_without_separator_fails_the_load() {
    let r = AssetsManager::parse_cfg("f", "a = 1\nbogus line\nb = 2");
    assert_eq!(r.err(), Some(CfgError::ParseError(String::from("bogus line"))));
}

#[test]
fn empty_line_fails_the_load() {
    let r = AssetsManager::parse_cfg("f", "a = 1\n\nb = 2");
    assert_eq!(r.err(), Some(CfgError::ParseError(String::from(""))));
}

#[test]
fn later_value_replaces_earlier_under_same_key() {
    let cfg = AssetsManager::parse_cfg("f", "k = first\nk = second").unwrap();
    assert_eq!(cfg.get_str("k").unwrap(), "second");
    assert_eq!(cfg.dict.len(), 1);
}

#[test]
fn value_reaches_only_to_a_second_separator() {
    let cfg = AssetsManager::parse_cfg("f", " key = a = b ").unwrap();
    assert_eq!(cfg.get_str("key").unwrap(), "a");
}

#[test]
fn keys_and_values_are_trimmed() {
    let cfg = AssetsManager::parse_cfg("f", "\t name  =   spaced value  ").unwrap();
    assert_eq!(cfg.get_str("name").unwrap(), "spaced value");
}

#[test]
fn windows_line_endings_are_trimmed() {
    let cfg = AssetsManager::parse_cfg("f", "a = 1\r\nb = 2\r\n").unwrap();
    assert_eq!(cfg.get_str("a").unwrap(), "1");
    assert_eq!(cfg.get_str("b").unwrap(), "2");
}

#[test]
fn trailing_newline_opens_no_line() {
    assert!(AssetsManager::parse_cfg("f", "a = 1\n").is_ok());
}

#[test]
fn get_i32_reads_integers() {
    let cfg = AssetsManager::parse_cfg("f", "n = -42\nbad = 4x\nbig = 9999999999").unwrap();
    assert_eq!(cfg.get_i32("n").unwrap(), -42);
    assert_eq!(cfg.get_i32("bad"), Err(CfgError::ParseError(String::from("4x"))));
    assert_eq!(
        cfg.get_i32("big"),
        Err(CfgError::ParseError(String::from("9999999999")))
    );
    assert_eq!(cfg.get_i32("absent"), Err(CfgError::MissingKey(String::from("absent"))));
}

#[test]
fn get_bool_reads_true_and_false_only() {
    let cfg = AssetsManager::parse_cfg("f", "a = true\nb = false\nc = yes").unwrap();
    assert_eq!(cfg.get_bool("a").unwrap(), true);
    assert_eq!(cfg.get_bool("b").unwrap(), false);
    assert_eq!(cfg.get_bool("c"), Err(CfgError::ParseError(String::from("yes"))));
}

#[test]
fn get_vec2_reads_two_fields() {
    let cfg = AssetsManager::parse_cfg("f", "v = 0.5,1.5").unwrap();
    let v = cfg.get_vec2("v").unwrap();
    assert_eq!(v.x, Decimal { neg: false, mantissa: 5, scale: 1 });
    assert_eq!(v.y, Decimal { neg: false, mantissa: 15, scale: 1 });
}

#[test]
fn get_vec2_rejects_a_spaced_field() {
    let cfg = AssetsManager::parse_cfg("f", "v = 0.5, 1.5").unwrap();
    assert_eq!(cfg.get_vec2("v"), Err(CfgError::ParseError(String::from("0.5, 1.5"))));
}

#[test]
fn get_vec3_reads_three_fields_and_ignores_extras() {
    let cfg = AssetsManager::parse_cfg("f", "v = 1,-2,3,99").unwrap();
    let v = cfg.get_vec3("v").unwrap();
    assert_eq!(v.x, Decimal { neg: false, mantissa: 1, scale: 0 });
    assert_eq!(v.y, Decimal { neg: true, mantissa: 2, scale: 0 });
    assert_eq!(v.z, Decimal { neg: false, mantissa: 3, scale: 0 });
}

#[test]
fn get_vec3_needs_three_fields() {
    let cfg = AssetsManager::parse_cfg("f", "v = 1,2").unwrap();
    assert_eq!(cfg.get_vec3("v"), Err(CfgError::ParseError(String::from("1,2"))));
}
