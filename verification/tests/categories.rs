use talk_wall::categories::{normalize_post_category, normalize_query_category};
use talk_wall::errors::ApiError;

#[test]
fn write_absent_input_resolves_to_default() {
    let r = normalize_post_category(None).unwrap();
    assert_eq!(r, "其它".to_string());
}

#[test]
fn write_blank_input_resolves_to_default() {
    let r = normalize_post_category(Some("  ".to_string())).unwrap();
    assert_eq!(r, "其它".to_string());
}

#[test]
fn write_unknown_category_is_rejected() {
    let r = normalize_post_category(Some("不存在".to_string()));
    assert!(matches!(r, Err(ApiError::Validation(_))));
}

#[test]
fn write_unknown_category_maps_to_400() {
    let e = normalize_post_category(Some("未知分类".to_string())).unwrap_err();
    assert_eq!(e.status_code(), 400);
}

#[test]
fn write_valid_category_passes_through() {
    let r = normalize_post_category(Some("吐槽".to_string())).unwrap();
    assert_eq!(r, "吐槽".to_string());
}

#[test]
fn write_valid_category_is_trimmed() {
    let r = normalize_post_category(Some(" 表白 ".to_string())).unwrap();
    assert_eq!(r, "表白".to_string());
}

#[test]
fn query_latest_means_no_filter() {
    let r = normalize_query_category(Some("最新".to_string())).unwrap();
    assert_eq!(r, None);
}

#[test]
fn query_empty_means_no_filter() {
    let r = normalize_query_category(Some("".to_string())).unwrap();
    assert_eq!(r, None);
}

#[test]
fn query_absent_means_no_filter() {
    let r = normalize_query_category(None).unwrap();
    assert_eq!(r, None);
}

#[test]
fn query_valid_category_filters_exactly() {
    let r = normalize_query_category(Some("吐槽".to_string())).unwrap();
    assert_eq!(r, Some("吐槽".to_string()));
}

#[test]
fn query_unknown_category_is_rejected() {
    let r = normalize_query_category(Some("不存在".to_string()));
    assert!(matches!(r, Err(ApiError::Validation(_))));
}

#[test]
fn error_messages_carry_class_prefix() {
    let e = normalize_post_category(Some("不存在".to_string())).unwrap_err();
    assert_eq!(e.message(), "请求参数错误: 请选择有效的分区".to_string());
}

#[test]
fn fullwidth_space_is_trimmed_on_the_write_path() {
    let r = normalize_post_category(Some("\u{3000}吐槽\u{3000}".to_string())).unwrap();
    assert_eq!(r, "吐槽".to_string());
}

#[test]
fn fullwidth_space_alone_resolves_to_default() {
    let r = normalize_post_category(Some("\u{3000}\u{a0}".to_string())).unwrap();
    assert_eq!(r, "其它".to_string());
}

#[test]
fn fullwidth_space_is_trimmed_on_the_query_path() {
    let r = normalize_query_category(Some(" \u{3000}最新".to_string())).unwrap();
    assert_eq!(r, None);
}
