use mantra::cfg::{
    duplicate_products, select_product, ConfigError, GeneralField, Inheritable, InheritableProductConfig, Product,
    ProductDataConfig,
};
use mantra::properties::Properties;

fn general() -> InheritableProductConfig {
    InheritableProductConfig {
        name: Some("general".to_string()),
        base: Some("main".to_string()),
        version: Some("1.0".to_string()),
        homepage: None,
        repository: None,
        license: Some("MIT".to_string()),
        description: None,
        properties: None,
    }
}

#[test]
fn id_from_name_and_base() {
    let cfg = ProductDataConfig {
        id: None,
        name: Inheritable::Value("prod".to_string()),
        base: Some(Inheritable::Inherited),
        version: Some(Inheritable::Inherited),
        homepage: None,
        repository: None,
        license: Some(Inheritable::Value("Apache".to_string())),
        description: None,
        properties: None,
    };
    let product = cfg.to_product(&general()).unwrap();
    assert_eq!(product.id, "prod@main");
    assert_eq!(product.version.as_deref(), Some("1.0"));
    assert_eq!(product.license.as_deref(), Some("Apache"));
    let _ = Properties::new();
}

#[test]
fn general_marker_rejected() {
    let mut g = general();
    g.version = Some("$inherit".to_string());
    assert_eq!(g.check_validity(), Err(ConfigError::GeneralValueInherited(GeneralField::Version)));
}

fn product(id: &str) -> Product {
    Product {
        id: id.to_string(),
        name: "name".to_string(),
        base: Some("main".to_string()),
        version: Some("1.0".to_string()),
        homepage: None,
        repository: None,
        license: None,
        description: None,
        properties: None,
    }
}

#[test]
fn products_selected_by_command() {
    let all = select_product(product("p"), &None, &Some("dev".to_string()), &None).unwrap();
    assert_eq!(all.base, Some("main".to_string()));
    let chosen = select_product(product("p"), &Some("p".to_string()), &Some("dev".to_string()), &None).unwrap();
    assert_eq!(chosen.base, Some("dev".to_string()));
    assert_eq!(chosen.version, Some("1.0".to_string()));
    assert!(select_product(product("p"), &Some("q".to_string()), &None, &None).is_none());
}

#[test]
fn duplicate_product_entries() {
    let ids: Vec<String> = ["a", "b", "a", "c", "b", "a"].iter().map(|s| s.to_string()).collect();
    assert_eq!(duplicate_products(&ids), vec![2, 4, 5]);
}

#[test]
fn config_error_messages() {
    assert_eq!(
        ConfigError::GeneralValueInherited(GeneralField::Version).message(),
        "The general version cannot inherit its value"
    );
    assert_eq!(ConfigError::IdInherited.message(), "The product ID cannot be inherited!");
    assert_eq!(ConfigError::NameContainsDivider.message(), "The product name must not contain '@'");
}
