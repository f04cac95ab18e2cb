//! View models handed back to the routing layer, and the anonymity masking
//! rule: an item flagged anonymous never carries its author, no matter who
//! asks. Masking happens here, at view construction, and nowhere else.

use vstd::prelude::*;
use crate::domain::{
    User, Post, Comment, user_by_id, has_user_id, unique_user_keys, lemma_user_found,
    find_user_index_by_id,
};

verus! {

/// The author fields revealed by a non-anonymous post or comment.
#[derive(Debug)]
pub struct AuthorInfo {
    pub username: String,
    pub qq: String,
    pub uid: String,
}

/// The identity echoed to an authenticated caller.
#[derive(Debug)]
pub struct UserResponse {
    pub id: i64,
    pub username: String,
    pub qq: String,
    pub uid: String,
    pub is_admin: bool,
}

/// A plain confirmation message.
#[derive(Debug)]
pub struct MessageResponse {
    pub message: String,
}

/// The identity a resolving session token authenticates.
#[derive(Debug)]
pub struct AuthedUser {
    pub id: i64,
    pub username: String,
    pub qq: String,
    pub uid: String,
}

/// A successful login: the identity echoed back, and the session token the
/// routing layer delivers as an HTTP-only cookie.
#[derive(Debug)]
pub struct LoginOk {
    pub user: UserResponse,
    pub token: String,
}

/// A post as every listing and detail response shows it.
#[derive(Debug)]
pub struct PostView {
    pub id: i64,
    pub title: String,
    pub content: String,
    pub category: String,
    pub created_at: i64,
    pub anonymous: bool,
    pub author: Option<AuthorInfo>,
}

/// A comment as a post's detail response shows it.
#[derive(Debug)]
pub struct CommentView {
    pub id: i64,
    pub content: String,
    pub created_at: i64,
    pub anonymous: bool,
    pub author: Option<AuthorInfo>,
}

/// A post together with its comments, oldest comment first.
#[derive(Debug)]
pub struct PostDetail {
    pub id: i64,
    pub title: String,
    pub content: String,
    pub category: String,
    pub created_at: i64,
    pub anonymous: bool,
    pub author: Option<AuthorInfo>,
    pub comments: Vec<CommentView>,
}

/// A user's public profile: identity fields and their attributed posts.
#[derive(Debug)]
pub struct UserProfileResponse {
    pub username: String,
    pub qq: String,
    pub uid: String,
    pub joined_at: i64,
    pub posts: Vec<PostView>,
}

/// The author fields of the owning user.
pub open spec fn author_of(users: Seq<User>, user_id: i64) -> AuthorInfo {
    let u = user_by_id(users, user_id);
    AuthorInfo { username: u.username, qq: u.qq, uid: u.uid }
}

/// The one masking rule: an anonymous item carries no author at all.
pub open spec fn post_view_of(users: Seq<User>, p: Post) -> PostView {
    PostView {
        id: p.id,
        title: p.title,
        content: p.content,
        category: p.category,
        created_at: p.created_at,
        anonymous: p.anonymous,
        author: if p.anonymous {
            None
        } else {
            Some(author_of(users, p.user_id))
        },
    }
}

pub open spec fn comment_view_of(users: Seq<User>, c: Comment) -> CommentView {
    CommentView {
        id: c.id,
        content: c.content,
        created_at: c.created_at,
        anonymous: c.anonymous,
        author: if c.anonymous {
            None
        } else {
            Some(author_of(users, c.user_id))
        },
    }
}

pub open spec fn post_views_of(users: Seq<User>, posts: Seq<Post>) -> Seq<PostView> {
    posts.map_values(|p: Post| post_view_of(users, p))
}

pub open spec fn comment_views_of(users: Seq<User>, comments: Seq<Comment>) -> Seq<CommentView> {
    comments.map_values(|c: Comment| comment_view_of(users, c))
}

/// A post created anonymous never carries author fields in any view,
/// whoever the requester is.
pub proof fn lemma_anonymous_post_masked(users: Seq<User>, p: Post)
    requires
        p.anonymous,
    ensures
        post_view_of(users, p).author is None,
{
}

/// A comment created anonymous never carries author fields in any view,
/// whoever the requester is.
pub proof fn lemma_anonymous_comment_masked(users: Seq<User>, c: Comment)
    requires
        c.anonymous,
    ensures
        comment_view_of(users, c).author is None,
{
}

/// Builds the masked view of one post.
pub fn make_post_view(users: &Vec<User>, p: &Post) -> (v: PostView)
    requires
        unique_user_keys(users@),
        has_user_id(users@, p.user_id),
    ensures
        v == post_view_of(users@, *p),
{
    let author = if p.anonymous {
        None
    } else {
        let k = find_user_index_by_id(users, p.user_id).unwrap();
        proof {
            lemma_user_found(users@, k as int);
        }
        let u = &users[k];
        Some(AuthorInfo { username: u.username.clone(), qq: u.qq.clone(), uid: u.uid.clone() })
    };
    PostView {
        id: p.id,
        title: p.title.clone(),
        content: p.content.clone(),
        category: p.category.clone(),
        created_at: p.created_at,
        anonymous: p.anonymous,
        author,
    }
}

/// Builds the masked view of one comment.
pub fn make_comment_view(users: &Vec<User>, c: &Comment) -> (v: CommentView)
    requires
        unique_user_keys(users@),
        has_user_id(users@, c.user_id),
    ensures
        v == comment_view_of(users@, *c),
{
    let author = if c.anonymous {
        None
    } else {
        let k = find_user_index_by_id(users, c.user_id).unwrap();
        proof {
            lemma_user_found(users@, k as int);
        }
        let u = &users[k];
        Some(AuthorInfo { username: u.username.clone(), qq: u.qq.clone(), uid: u.uid.clone() })
    };
    CommentView {
        id: c.id,
        content: c.content.clone(),
        created_at: c.created_at,
        anonymous: c.anonymous,
        author,
    }
}

} // verus!
