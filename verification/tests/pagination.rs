use ax_exchange_sdk::protocol::pagination::{resolve_limit_offset, DEFAULT_PAGE_SIZE};

#[test]
fn resolve_limit_offset_defaults() {
    let (limit, offset) = resolve_limit_offset(None, None);
    assert_eq!(limit, DEFAULT_PAGE_SIZE);
    assert_eq!(offset, 0);
}

#[test]
fn resolve_limit_offset_explicit_values() {
    let (limit, offset) = resolve_limit_offset(Some(25), Some(50));
    assert_eq!(limit, 25);
    assert_eq!(offset, 50);
}

#[test]
fn default_page_size_is_one_hundred() {
    assert_eq!(resolve_limit_offset(None, Some(7)), (100, 7));
}
