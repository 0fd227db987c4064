use shared_service::models::{AdminPrivilege, ForeignKey};
use shared_service::schemas::blog::BlogCategory;

#[test]
fn privileges_convert_to_and_from_numbers() {
    assert_eq!(AdminPrivilege::try_from(0), Ok(AdminPrivilege::Admin));
    assert_eq!(AdminPrivilege::try_from(1), Ok(AdminPrivilege::SuperAdmin));
    assert_eq!(AdminPrivilege::try_from(2), Ok(AdminPrivilege::NoPrivilege));
    assert_eq!(AdminPrivilege::try_from(3), Err("Invalid status"));
    assert_eq!(AdminPrivilege::try_from(-1), Err("Invalid status"));
    assert_eq!(i32::from(AdminPrivilege::Admin), 0);
    assert_eq!(i32::from(AdminPrivilege::SuperAdmin), 1);
    assert_eq!(i32::from(AdminPrivilege::NoPrivilege), 2);
    for p in [AdminPrivilege::Admin, AdminPrivilege::SuperAdmin, AdminPrivilege::NoPrivilege] {
        assert_eq!(AdminPrivilege::try_from(i32::from(p)), Ok(p));
    }
}

#[test]
fn foreign_keys_use_the_table_as_column() {
    let fk = ForeignKey::in_table("currency_id", "usd");
    assert_eq!(fk.table, "currency_id");
    assert_eq!(fk.column, "currency_id");
    assert_eq!(fk.foreign_key, "usd");
}

#[test]
fn category_names() {
    assert_eq!(BlogCategory::WebDevelopment.to_string(), "WebDevelopment");
    assert_eq!(BlogCategory::MobileDevelopment.to_string(), "MobileDevelopment");
    assert_eq!(BlogCategory::ArtificialIntelligence.to_string(), "ArtificialIntelligence");
    assert_eq!(BlogCategory::Technology.to_string(), "Technology");
    assert_eq!(BlogCategory::Lifestyle.to_string(), "Lifestyle");
}
