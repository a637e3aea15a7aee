use mod_counter::modloader::display_name;
use mod_counter::modloader::modloader_filter;
use mod_counter::query::build_query;

#[test]
fn catalog_names_for_known_identifiers() {
    assert_eq!(display_name(0), "Any".to_string());
    assert_eq!(display_name(1), "Forge".to_string());
    assert_eq!(display_name(2), "Cauldron".to_string());
    assert_eq!(display_name(3), "LiteLoader".to_string());
    assert_eq!(display_name(4), "Fabric".to_string());
    assert_eq!(display_name(5), "Quilt".to_string());
    assert_eq!(display_name(6), "NeoForge".to_string());
}

#[test]
fn identifiers_beyond_the_catalog_are_unknown() {
    assert_eq!(display_name(7), "Unknown mod loader".to_string());
    assert_eq!(display_name(100), "Unknown mod loader".to_string());
}

#[test]
fn filter_is_empty_only_for_token_zero() {
    assert_eq!(modloader_filter("0"), "".to_string());
    assert_eq!(modloader_filter("4"), "4".to_string());
    assert_eq!(modloader_filter("00"), "00".to_string());
    assert_eq!(modloader_filter("abc"), "abc".to_string());
}

#[test]
fn query_carries_fixed_fields_and_the_filter() {
    let q: Vec<(String, String)> = build_query("1.20.1", "4");
    assert_eq!(q.len(), 7);
    assert_eq!(q[0], ("gameId".to_string(), "432".to_string()));
    assert_eq!(q[1], ("gameVersion".to_string(), "1.20.1".to_string()));
    assert_eq!(q[2], ("modLoaderType".to_string(), "4".to_string()));
    assert_eq!(q[3], ("pageSize".to_string(), "50".to_string()));
    assert_eq!(q[4], ("sortField".to_string(), "1".to_string()));
    assert_eq!(q[5], ("sortOrder".to_string(), "desc".to_string()));
    assert_eq!(q[6], ("index".to_string(), "0".to_string()));
}

#[test]
fn query_filter_for_token_zero_is_empty() {
    let q: Vec<(String, String)> = build_query("1.19.2", "0");
    assert_eq!(q[2], ("modLoaderType".to_string(), "".to_string()));
    assert_eq!(q[1], ("gameVersion".to_string(), "1.19.2".to_string()));
}
