use rat_engine::assets_manager::AssetsManager;
use rat_engine::decimal::Decimal;
use rat_engine::rat_cfg::CfgError;

#[test]
fn a_material_description_names_its_parts() {
    let cfg = AssetsManager::parse_cfg(
        "assets/materials/stone.mat",
        "name = stone\nshader = phong\ntexture = stone.png",
    )
    .unwrap();
    let d = AssetsManager::material_desc(&cfg).unwrap();
    assert_eq!(d.name, "stone");
    assert_eq!(d.shader, "phong");
    assert_eq!(d.texture, "stone.png");
}

#[test]
fn a_material_description_reports_the_first_missing_key() {
    let cfg = AssetsManager::parse_cfg("f", "name = stone").unwrap();
    assert_eq!(
        AssetsManager::material_desc(&cfg).err(),
        Some(CfgError::MissingKey(String::from("shader")))
    );
    let cfg = AssetsManager::parse_cfg("f", "shader = phong").unwrap();
    assert_eq!(
        AssetsManager::material_desc(&cfg).err(),
        Some(CfgError::MissingKey(String::from("name")))
    );
}

#[test]
fn an_object_description_names_its_parts() {
    let cfg = AssetsManager::parse_cfg(
        "assets/objects/rat.robj",
        "name = rat\nmodel = rat\nmaterial = fur\nweight = 0.3",
    )
    .unwrap();
    let d = AssetsManager::object_desc(&cfg).unwrap();
    assert_eq!(d.name, "rat");
    assert_eq!(d.model, "rat");
    assert_eq!(d.material, "fur");
    assert_eq!(d.weight, Decimal { neg: false, mantissa: 3, scale: 1 });
}

#[test]
fn an_object_description_checks_its_weight() {
    let cfg = AssetsManager::parse_cfg(
        "f",
        "name = rat\nmodel = rat\nmaterial = fur\nweight = heavy",
    )
    .unwrap();
    assert_eq!(
        AssetsManager::object_desc(&cfg).err(),
        Some(CfgError::ParseError(String::from("heavy")))
    );
    let cfg = AssetsManager::parse_cfg("f", "name = rat\nmodel = rat\nmaterial = fur").unwrap();
    assert_eq!(
        AssetsManager::object_desc(&cfg).err(),
        Some(CfgError::MissingKey(String::from("weight")))
    );
}
