use talk_wall::domain::AppConfig;
use talk_wall::errors::ApiError;
use talk_wall::forum::Forum;

fn forum_with_admin() -> Forum {
    let mut f = Forum::new(AppConfig { admin_uids: vec!["uid-admin".to_string()] });
    f.register_at("alice", "1111", "password1", "uid-a".to_string(), 0).unwrap();
    f.register_at("root", "9999", "password1", "uid-admin".to_string(), 1).unwrap();
    f.login_at("alice", "password1", "tok-alice".to_string(), 10).unwrap();
    f.login_at("root", "password1", "tok-admin".to_string(), 11).unwrap();
    f
}

#[test]
fn create_post_requires_title_content_and_session() {
    let mut f = forum_with_admin();
    let e = f
        .create_post(Some("tok-alice"), "  ", "body", None, None, 20)
        .unwrap_err();
    assert!(matches!(e, ApiError::Validation(_)));
    let e2 = f
        .create_post(Some("tok-alice"), "title", "   ", None, None, 20)
        .unwrap_err();
    assert!(matches!(e2, ApiError::Validation(_)));
    let e3 = f.create_post(None, "title", "body", None, None, 20).unwrap_err();
    assert!(matches!(e3, ApiError::Unauthorized));
}

#[test]
fn create_post_with_unknown_category_is_validation() {
    let mut f = forum_with_admin();
    let e = f
        .create_post(Some("tok-alice"), "t", "c", Some("未知分类".to_string()), None, 20)
        .unwrap_err();
    assert!(matches!(e, ApiError::Validation(_)));
    assert_eq!(e.status_code(), 400);
}

#[test]
fn latest_filter_lists_all_categories_newest_first() {
    let mut f = forum_with_admin();
    f.create_post(Some("tok-alice"), "a", "c1", Some("吐槽".to_string()), None, 20).unwrap();
    f.create_post(Some("tok-alice"), "b", "c2", Some("表白".to_string()), None, 30).unwrap();
    f.create_post(Some("tok-alice"), "c", "c3", None, None, 25).unwrap();
    let posts = f.list_posts(Some("tok-alice"), Some("最新".to_string()), 40).unwrap();
    assert_eq!(posts.len(), 3);
    assert_eq!(posts[0].title, "b".to_string());
    assert_eq!(posts[1].title, "c".to_string());
    assert_eq!(posts[2].title, "a".to_string());
}

#[test]
fn category_filter_is_exact() {
    let mut f = forum_with_admin();
    f.create_post(Some("tok-alice"), "a", "c1", Some("吐槽".to_string()), None, 20).unwrap();
    f.create_post(Some("tok-alice"), "b", "c2", Some("表白".to_string()), None, 30).unwrap();
    let posts = f.list_posts(Some("tok-alice"), Some("吐槽".to_string()), 40).unwrap();
    assert_eq!(posts.len(), 1);
    assert_eq!(posts[0].title, "a".to_string());
    assert_eq!(posts[0].category, "吐槽".to_string());
}

#[test]
fn anonymous_post_is_masked_everywhere_even_for_its_owner() {
    let mut f = forum_with_admin();
    f.create_post(Some("tok-alice"), "secret", "body", None, Some(true), 20).unwrap();
    // the public listing, read back by the owner herself, shows no author
    let posts = f.list_posts(Some("tok-alice"), None, 30).unwrap();
    assert_eq!(posts.len(), 1);
    assert!(posts[0].anonymous);
    assert!(posts[0].author.is_none());
    // the detail view masks it too
    let detail = f.get_post(Some("tok-alice"), posts[0].id, 30).unwrap();
    assert!(detail.author.is_none());
}

#[test]
fn attributed_post_reveals_author_fields() {
    let mut f = forum_with_admin();
    f.create_post(Some("tok-alice"), "open", "body", None, Some(false), 20).unwrap();
    let posts = f.list_posts(Some("tok-alice"), None, 30).unwrap();
    let author = posts[0].author.as_ref().unwrap();
    assert_eq!(author.username, "alice".to_string());
    assert_eq!(author.qq, "1111".to_string());
    assert_eq!(author.uid, "uid-a".to_string());
}

#[test]
fn own_listing_includes_anonymous_posts_profile_excludes_them() {
    let mut f = forum_with_admin();
    f.create_post(Some("tok-alice"), "secret", "body", None, Some(true), 20).unwrap();
    f.create_post(Some("tok-alice"), "open", "body", None, None, 21).unwrap();
    let mine = f.list_my_posts(Some("tok-alice"), 30).unwrap();
    assert_eq!(mine.len(), 2);
    // included, but still masked
    assert!(mine.iter().any(|p| p.title == "secret".to_string() && p.author.is_none()));
    // a third party's profile view omits the anonymous post entirely
    let prof = f.get_user_profile(Some("tok-admin"), "uid-a", 30).unwrap();
    assert_eq!(prof.username, "alice".to_string());
    assert_eq!(prof.posts.len(), 1);
    assert_eq!(prof.posts[0].title, "open".to_string());
}

#[test]
fn profile_of_unknown_uid_is_not_found() {
    let mut f = forum_with_admin();
    let e = f.get_user_profile(Some("tok-alice"), "uid-nobody", 30).unwrap_err();
    assert!(matches!(e, ApiError::NotFound));
    assert_eq!(e.status_code(), 404);
}

#[test]
fn comments_are_listed_chronologically_and_masked() {
    let mut f = forum_with_admin();
    let post_id = f.create_post(Some("tok-alice"), "t", "c", None, None, 20).unwrap();
    f.create_comment(Some("tok-admin"), post_id, "late", None, 50).unwrap();
    f.create_comment(Some("tok-alice"), post_id, "early", Some(true), 30).unwrap();
    let detail = f.get_post(Some("tok-alice"), post_id, 60).unwrap();
    assert_eq!(detail.comments.len(), 2);
    assert_eq!(detail.comments[0].content, "early".to_string());
    assert!(detail.comments[0].author.is_none());
    assert_eq!(detail.comments[1].content, "late".to_string());
    assert_eq!(
        detail.comments[1].author.as_ref().unwrap().username,
        "root".to_string()
    );
}

#[test]
fn comment_needs_content_and_an_existing_post() {
    let mut f = forum_with_admin();
    let post_id = f.create_post(Some("tok-alice"), "t", "c", None, None, 20).unwrap();
    let e = f.create_comment(Some("tok-alice"), post_id, "   ", None, 30).unwrap_err();
    assert!(matches!(e, ApiError::Validation(_)));
    let e2 = f.create_comment(Some("tok-alice"), 9999, "hello", None, 30).unwrap_err();
    assert!(matches!(e2, ApiError::Internal(_)));
    assert_eq!(e2.status_code(), 500);
}

#[test]
fn delete_post_is_admin_only() {
    let mut f = forum_with_admin();
    let post_id = f.create_post(Some("tok-alice"), "t", "c", None, None, 20).unwrap();
    let e = f.delete_post(Some("tok-alice"), post_id, 30).unwrap_err();
    assert!(matches!(e, ApiError::Forbidden));
    assert_eq!(e.status_code(), 403);
}

#[test]
fn delete_of_missing_post_is_not_found() {
    let mut f = forum_with_admin();
    let e = f.delete_post(Some("tok-admin"), 9999, 30).unwrap_err();
    assert!(matches!(e, ApiError::NotFound));
    assert_eq!(e.status_code(), 404);
}

#[test]
fn admin_delete_cascades_and_get_reports_not_found() {
    let mut f = forum_with_admin();
    let post_id = f.create_post(Some("tok-alice"), "t", "c", None, None, 20).unwrap();
    f.create_comment(Some("tok-alice"), post_id, "hello", None, 25).unwrap();
    let m = f.delete_post(Some("tok-admin"), post_id, 30).unwrap();
    assert_eq!(m.message, "帖子已删除".to_string());
    let e = f.get_post(Some("tok-alice"), post_id, 40).unwrap_err();
    assert!(matches!(e, ApiError::NotFound));
    assert_eq!(f.comments.len(), 0);
}

#[test]
fn titles_and_contents_are_stored_trimmed() {
    let mut f = forum_with_admin();
    let post_id = f
        .create_post(Some("tok-alice"), "  hello  ", "\tworld\n", None, None, 20)
        .unwrap();
    let detail = f.get_post(Some("tok-alice"), post_id, 30).unwrap();
    assert_eq!(detail.title, "hello".to_string());
    assert_eq!(detail.content, "world".to_string());
}

#[test]
fn bool_to_int_encodes_flags() {
    assert_eq!(talk_wall::bool_to_int(true), 1);
    assert_eq!(talk_wall::bool_to_int(false), 0);
}
