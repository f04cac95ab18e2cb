//! The data model: users, sessions, posts and comments as the store holds
//! them, the admin allow-list, and the spec-level vocabulary (lookups,
//! uniqueness, referential integrity, ordering) that every contract of the
//! core is phrased in.

use vstd::prelude::*;
use crate::categories::is_category;
use crate::text::{trim_spec, str_eq};

verus! {

/// A registered account row.
#[derive(Debug)]
pub struct User {
    pub id: i64,
    pub uid: String,
    pub username: String,
    pub qq: String,
    pub password_hash: String,
    pub created_at: i64,
}

/// A login session row. Valid exactly while `now < expires_at`.
#[derive(Debug)]
pub struct Session {
    pub token: String,
    pub user_id: i64,
    pub created_at: i64,
    pub expires_at: i64,
}

/// A post row. The category is always one of the fixed set; title and
/// content are stored trimmed and non-empty.
#[derive(Debug)]
pub struct Post {
    pub id: i64,
    pub user_id: i64,
    pub title: String,
    pub content: String,
    pub category: String,
    pub anonymous: bool,
    pub created_at: i64,
}

/// A comment row, owned by a post and a user.
#[derive(Debug)]
pub struct Comment {
    pub id: i64,
    pub post_id: i64,
    pub user_id: i64,
    pub content: String,
    pub anonymous: bool,
    pub created_at: i64,
}

/// The immutable configuration: which uids hold the admin role.
#[derive(Debug)]
pub struct AppConfig {
    pub admin_uids: Vec<String>,
}

/// Membership of a uid in the admin allow-list: exact match, no wildcards.
pub open spec fn is_admin_spec(admins: Seq<String>, uid: Seq<char>) -> bool {
    exists|i: int| 0 <= i < admins.len() && (#[trigger] admins[i])@ == uid
}

impl AppConfig {
    /// Decides whether the uid holds the admin role.
    pub fn is_admin(&self, uid: &str) -> (r: bool)
        ensures
            r == is_admin_spec(self.admin_uids@, uid@),
    {
        let n = self.admin_uids.len();
        let mut i: usize = 0;
        while i < n
            invariant
                0 <= i <= n,
                n == self.admin_uids@.len(),
                forall|k: int| 0 <= k < i ==> (#[trigger] self.admin_uids@[k])@ != uid@,
            decreases n - i,
        {
            if str_eq(self.admin_uids[i].as_str(), uid) {
                return true;
            }
            i = i + 1;
        }
        false
    }
}

// ---------------------------------------------------------------------------
// Users
// ---------------------------------------------------------------------------
/// No two users share an id, a uid, or a username.
pub open spec fn unique_user_keys(users: Seq<User>) -> bool {
    forall|i: int, j: int|
        0 <= i < users.len() && 0 <= j < users.len() && i != j ==> {
            &&& (#[trigger] users[i]).id != (#[trigger] users[j]).id
            &&& users[i].uid@ != users[j].uid@
            &&& users[i].username@ != users[j].username@
        }
}

pub open spec fn user_ids_below(users: Seq<User>, bound: i64) -> bool {
    forall|i: int| 0 <= i < users.len() ==> (#[trigger] users[i]).id < bound
}

pub open spec fn has_user_id(users: Seq<User>, id: i64) -> bool {
    exists|i: int| 0 <= i < users.len() && (#[trigger] users[i]).id == id
}

pub open spec fn user_by_id(users: Seq<User>, id: i64) -> User {
    users[choose|i: int| 0 <= i < users.len() && (#[trigger] users[i]).id == id]
}

pub open spec fn has_username(users: Seq<User>, name: Seq<char>) -> bool {
    exists|i: int| 0 <= i < users.len() && (#[trigger] users[i]).username@ == name
}

pub open spec fn user_by_username(users: Seq<User>, name: Seq<char>) -> User {
    users[choose|i: int| 0 <= i < users.len() && (#[trigger] users[i]).username@ == name]
}

pub open spec fn has_uid(users: Seq<User>, uid: Seq<char>) -> bool {
    exists|i: int| 0 <= i < users.len() && (#[trigger] users[i]).uid@ == uid
}

pub open spec fn user_by_uid(users: Seq<User>, uid: Seq<char>) -> User {
    users[choose|i: int| 0 <= i < users.len() && (#[trigger] users[i]).uid@ == uid]
}

/// Some other user (a different id) already owns this username.
pub open spec fn username_taken_by_other(users: Seq<User>, id: i64, name: Seq<char>) -> bool {
    exists|i: int|
        0 <= i < users.len() && (#[trigger] users[i]).id != id && users[i].username@ == name
}

/// With unique keys, the user found at any index is exactly the user each
/// lookup function names.
pub proof fn lemma_user_found(users: Seq<User>, k: int)
    requires
        unique_user_keys(users),
        0 <= k < users.len(),
    ensures
        has_user_id(users, users[k].id),
        user_by_id(users, users[k].id) == users[k],
        has_username(users, users[k].username@),
        user_by_username(users, users[k].username@) == users[k],
        has_uid(users, users[k].uid@),
        user_by_uid(users, users[k].uid@) == users[k],
{
    assert(has_user_id(users, users[k].id));
    let a = choose|i: int| 0 <= i < users.len() && (#[trigger] users[i]).id == users[k].id;
    assert(a == k);
    assert(has_username(users, users[k].username@));
    let b = choose|i: int|
        0 <= i < users.len() && (#[trigger] users[i]).username@ == users[k].username@;
    assert(b == k);
    assert(has_uid(users, users[k].uid@));
    let c = choose|i: int| 0 <= i < users.len() && (#[trigger] users[i]).uid@ == users[k].uid@;
    assert(c == k);
}

// ---------------------------------------------------------------------------
// Sessions
// ---------------------------------------------------------------------------
/// No two sessions share a token.
pub open spec fn unique_tokens(sessions: Seq<Session>) -> bool {
    forall|i: int, j: int|
        0 <= i < sessions.len() && 0 <= j < sessions.len() && i != j ==> (#[trigger] sessions[i]).token@
            != (#[trigger] sessions[j]).token@
}

pub open spec fn has_token(sessions: Seq<Session>, t: Seq<char>) -> bool {
    exists|i: int| 0 <= i < sessions.len() && (#[trigger] sessions[i]).token@ == t
}

pub open spec fn session_by_token(sessions: Seq<Session>, t: Seq<char>) -> Session {
    sessions[choose|i: int| 0 <= i < sessions.len() && (#[trigger] sessions[i]).token@ == t]
}

/// Every session belongs to an existing user.
pub open spec fn sessions_ref_users(sessions: Seq<Session>, users: Seq<User>) -> bool {
    forall|i: int|
        0 <= i < sessions.len() ==> has_user_id(users, (#[trigger] sessions[i]).user_id)
}

/// The sessions left after every session holding this token is removed.
pub open spec fn without_token(sessions: Seq<Session>, t: Seq<char>) -> Seq<Session>
    decreases sessions.len(),
{
    if sessions.len() == 0 {
        Seq::empty()
    } else {
        let rest = without_token(sessions.drop_last(), t);
        if sessions.last().token@ == t {
            rest
        } else {
            rest.push(sessions.last())
        }
    }
}

/// With unique tokens, the session found at any index is the session the
/// lookup names.
pub proof fn lemma_session_found(sessions: Seq<Session>, k: int)
    requires
        unique_tokens(sessions),
        0 <= k < sessions.len(),
    ensures
        has_token(sessions, sessions[k].token@),
        session_by_token(sessions, sessions[k].token@) == sessions[k],
{
    assert(has_token(sessions, sessions[k].token@));
    let a = choose|i: int|
        0 <= i < sessions.len() && (#[trigger] sessions[i]).token@ == sessions[k].token@;
    assert(a == k);
}

/// Removing a token removes nothing else: what is left are exactly the other
/// sessions, in order, and the token is gone.
pub proof fn lemma_without_token_props(sessions: Seq<Session>, t: Seq<char>)
    ensures
        without_token(sessions, t).len() <= sessions.len(),
        forall|k: int|
            0 <= k < without_token(sessions, t).len() ==> (#[trigger] without_token(sessions, t)[k]).token@
                != t,
        forall|k: int|
            0 <= k < without_token(sessions, t).len() ==> exists|i: int|
                0 <= i < sessions.len() && sessions[i] == (#[trigger] without_token(sessions, t)[k]),
        !has_token(without_token(sessions, t), t),
    decreases sessions.len(),
{
    if sessions.len() > 0 {
        lemma_without_token_props(sessions.drop_last(), t);
        let r = without_token(sessions, t);
        assert forall|k: int| #![trigger r[k]] 0 <= k < r.len() implies exists|i: int|
            0 <= i < sessions.len() && (#[trigger] sessions[i]) == r[k] by {
            if sessions.last().token@ == t || k < r.len() - 1 {
                let i0 = choose|i: int|
                    0 <= i < sessions.drop_last().len() && sessions.drop_last()[i]
                        == without_token(sessions.drop_last(), t)[k];
                assert(sessions[i0] == r[k]);
            } else {
                assert(sessions[sessions.len() - 1] == r[k]);
            }
        }
    }
}

/// A token that no session holds removes nothing.
pub proof fn lemma_without_token_absent(sessions: Seq<Session>, t: Seq<char>)
    requires
        !has_token(sessions, t),
    ensures
        without_token(sessions, t) == sessions,
    decreases sessions.len(),
{
    if sessions.len() > 0 {
        assert(sessions.last() == sessions[sessions.len() - 1]);
        assert(forall|i: int|
            0 <= i < sessions.drop_last().len() ==> sessions.drop_last()[i] == sessions[i]);
        lemma_without_token_absent(sessions.drop_last(), t);
        assert(without_token(sessions, t) =~= sessions);
    } else {
        assert(without_token(sessions, t) =~= sessions);
    }
}

/// With unique tokens, removing the one session at index `k` that holds the
/// token is the same as filtering the token out.
pub proof fn lemma_remove_is_without_token(sessions: Seq<Session>, k: int, t: Seq<char>)
    requires
        unique_tokens(sessions),
        0 <= k < sessions.len(),
        sessions[k].token@ == t,
    ensures
        sessions.remove(k) == without_token(sessions, t),
    decreases sessions.len(),
{
    let d = sessions.drop_last();
    assert(unique_tokens(d));
    if k == sessions.len() - 1 {
        assert(!has_token(d, t)) by {
            if has_token(d, t) {
                let i = choose|i: int| 0 <= i < d.len() && (#[trigger] d[i]).token@ == t;
                assert(sessions[i].token@ == sessions[k].token@);
            }
        }
        lemma_without_token_absent(d, t);
        assert(sessions.remove(k) =~= d);
    } else {
        assert(sessions.last().token@ != t);
        assert(d[k].token@ == t);
        lemma_remove_is_without_token(d, k, t);
        assert(sessions.remove(k) =~= d.remove(k).push(sessions.last()));
    }
}

/// Filtering a token out is idempotent: a second revocation of the same
/// token is a no-op.
pub proof fn lemma_without_token_idempotent(sessions: Seq<Session>, t: Seq<char>)
    ensures
        without_token(without_token(sessions, t), t) == without_token(sessions, t),
{
    lemma_without_token_props(sessions, t);
    lemma_without_token_absent(without_token(sessions, t), t);
}

/// Filtering preserves token uniqueness and referential integrity.
pub proof fn lemma_without_token_wf(sessions: Seq<Session>, t: Seq<char>, users: Seq<User>)
    requires
        unique_tokens(sessions),
        sessions_ref_users(sessions, users),
    ensures
        unique_tokens(without_token(sessions, t)),
        sessions_ref_users(without_token(sessions, t), users),
    decreases sessions.len(),
{
    if sessions.len() > 0 {
        let d = sessions.drop_last();
        assert(unique_tokens(d));
        assert(sessions_ref_users(d, users)) by {
            assert(forall|i: int| 0 <= i < d.len() ==> d[i] == sessions[i]);
        }
        lemma_without_token_wf(d, t, users);
        lemma_without_token_props(d, t);
        let r = without_token(sessions, t);
        if sessions.last().token@ != t {
            let r0 = without_token(d, t);
            assert(r == r0.push(sessions.last()));
            assert forall|i: int, j: int|
                0 <= i < r.len() && 0 <= j < r.len() && i != j implies (#[trigger] r[i]).token@
                != (#[trigger] r[j]).token@ by {
                if i < r.len() - 1 && j < r.len() - 1 {
                    assert(r[i] == r0[i] && r[j] == r0[j]);
                } else {
                    let a = if i < r.len() - 1 {
                        i
                    } else {
                        j
                    };
                    assert(r[a] == r0[a]);
                    let i0 = choose|m: int| 0 <= m < d.len() && d[m] == r0[a];
                    assert(sessions[i0] == r0[a]);
                    assert(sessions[i0].token@ != sessions[sessions.len() - 1].token@);
                }
            }
            assert forall|i: int| 0 <= i < r.len() implies has_user_id(
                users,
                (#[trigger] r[i]).user_id,
            ) by {
                if i < r.len() - 1 {
                    assert(r[i] == r0[i]);
                } else {
                    assert(r[i] == sessions[sessions.len() - 1]);
                }
            }
        }
    }
}

/// Finds the row index of the user with this id.
pub fn find_user_index_by_id(users: &Vec<User>, id: i64) -> (r: Option<usize>)
    ensures
        match r {
            Some(k) => k < users@.len() && users@[k as int].id == id,
            None => !has_user_id(users@, id),
        },
{
    let n = users.len();
    let mut i: usize = 0;
    while i < n
        invariant
            0 <= i <= n,
            n == users@.len(),
            forall|k: int| 0 <= k < i ==> (#[trigger] users@[k]).id != id,
        decreases n - i,
    {
        if users[i].id == id {
            return Some(i);
        }
        i = i + 1;
    }
    None
}

/// Finds the row index of the user with this username.
pub fn find_user_index_by_username(users: &Vec<User>, name: &str) -> (r: Option<usize>)
    ensures
        match r {
            Some(k) => k < users@.len() && users@[k as int].username@ == name@,
            None => !has_username(users@, name@),
        },
{
    let n = users.len();
    let mut i: usize = 0;
    while i < n
        invariant
            0 <= i <= n,
            n == users@.len(),
            forall|k: int| 0 <= k < i ==> (#[trigger] users@[k]).username@ != name@,
        decreases n - i,
    {
        if str_eq(users[i].username.as_str(), name) {
            return Some(i);
        }
        i = i + 1;
    }
    None
}

/// Finds the row index of the user with this uid.
pub fn find_user_index_by_uid(users: &Vec<User>, uid: &str) -> (r: Option<usize>)
    ensures
        match r {
            Some(k) => k < users@.len() && users@[k as int].uid@ == uid@,
            None => !has_uid(users@, uid@),
        },
{
    let n = users.len();
    let mut i: usize = 0;
    while i < n
        invariant
            0 <= i <= n,
            n == users@.len(),
            forall|k: int| 0 <= k < i ==> (#[trigger] users@[k]).uid@ != uid@,
        decreases n - i,
    {
        if str_eq(users[i].uid.as_str(), uid) {
            return Some(i);
        }
        i = i + 1;
    }
    None
}

/// Decides whether a different user (another id) already owns this username.
pub fn username_conflict(users: &Vec<User>, id: i64, name: &str) -> (r: bool)
    ensures
        r == username_taken_by_other(users@, id, name@),
{
    let n = users.len();
    let mut i: usize = 0;
    while i < n
        invariant
            0 <= i <= n,
            n == users@.len(),
            forall|k: int|
                0 <= k < i ==> !((#[trigger] users@[k]).id != id && users@[k].username@ == name@),
        decreases n - i,
    {
        if users[i].id != id && str_eq(users[i].username.as_str(), name) {
            return true;
        }
        i = i + 1;
    }
    false
}

/// Finds the row index of the session holding this token.
pub fn find_session_index(sessions: &Vec<Session>, token: &str) -> (r: Option<usize>)
    ensures
        match r {
            Some(k) => k < sessions@.len() && sessions@[k as int].token@ == token@,
            None => !has_token(sessions@, token@),
        },
{
    let n = sessions.len();
    let mut i: usize = 0;
    while i < n
        invariant
            0 <= i <= n,
            n == sessions@.len(),
            forall|k: int| 0 <= k < i ==> (#[trigger] sessions@[k]).token@ != token@,
        decreases n - i,
    {
        if str_eq(sessions[i].token.as_str(), token) {
            return Some(i);
        }
        i = i + 1;
    }
    None
}

/// Finds the row index of the post with this id.
pub fn find_post_index(posts: &Vec<Post>, id: i64) -> (r: Option<usize>)
    ensures
        match r {
            Some(k) => k < posts@.len() && posts@[k as int].id == id,
            None => !has_post_id(posts@, id),
        },
{
    let n = posts.len();
    let mut i: usize = 0;
    while i < n
        invariant
            0 <= i <= n,
            n == posts@.len(),
            forall|k: int| 0 <= k < i ==> (#[trigger] posts@[k]).id != id,
        decreases n - i,
    {
        if posts[i].id == id {
            return Some(i);
        }
        i = i + 1;
    }
    None
}

// ---------------------------------------------------------------------------
// Posts
// ---------------------------------------------------------------------------
pub open spec fn unique_post_ids(posts: Seq<Post>) -> bool {
    forall|i: int, j: int|
        0 <= i < posts.len() && 0 <= j < posts.len() && i != j ==> (#[trigger] posts[i]).id != (
        #[trigger] posts[j]).id
}

pub open spec fn post_ids_below(posts: Seq<Post>, bound: i64) -> bool {
    forall|i: int| 0 <= i < posts.len() ==> (#[trigger] posts[i]).id < bound
}

pub open spec fn has_post_id(posts: Seq<Post>, id: i64) -> bool {
    exists|i: int| 0 <= i < posts.len() && (#[trigger] posts[i]).id == id
}

pub open spec fn post_by_id(posts: Seq<Post>, id: i64) -> Post {
    posts[choose|i: int| 0 <= i < posts.len() && (#[trigger] posts[i]).id == id]
}

pub open spec fn posts_ref_users(posts: Seq<Post>, users: Seq<User>) -> bool {
    forall|i: int| 0 <= i < posts.len() ==> has_user_id(users, (#[trigger] posts[i]).user_id)
}

/// Posts are held newest first, as every listing returns them.
pub open spec fn posts_sorted_desc(posts: Seq<Post>) -> bool {
    forall|i: int, j: int|
        0 <= i <= j < posts.len() ==> (#[trigger] posts[i]).created_at >= (
        #[trigger] posts[j]).created_at
}

/// The stored-row invariant of a post: a fixed category, and trimmed
/// non-empty title and content.
pub open spec fn post_content_valid(p: Post) -> bool {
    &&& is_category(p.category@)
    &&& p.title@ == trim_spec(p.title@) && p.title@.len() > 0
    &&& p.content@ == trim_spec(p.content@) && p.content@.len() > 0
}

pub open spec fn posts_valid(posts: Seq<Post>) -> bool {
    forall|i: int| 0 <= i < posts.len() ==> post_content_valid(#[trigger] posts[i])
}

/// With unique ids, the post found at any index is the post the lookup names.
pub proof fn lemma_post_found(posts: Seq<Post>, k: int)
    requires
        unique_post_ids(posts),
        0 <= k < posts.len(),
    ensures
        has_post_id(posts, posts[k].id),
        post_by_id(posts, posts[k].id) == posts[k],
{
    assert(has_post_id(posts, posts[k].id));
    let a = choose|i: int| 0 <= i < posts.len() && (#[trigger] posts[i]).id == posts[k].id;
    assert(a == k);
}

/// Removing one post keeps every well-formedness property of the table.
pub proof fn lemma_posts_remove_wf(posts: Seq<Post>, k: int, users: Seq<User>, bound: i64)
    requires
        0 <= k < posts.len(),
        unique_post_ids(posts),
        post_ids_below(posts, bound),
        posts_ref_users(posts, users),
        posts_sorted_desc(posts),
        posts_valid(posts),
    ensures
        unique_post_ids(posts.remove(k)),
        post_ids_below(posts.remove(k), bound),
        posts_ref_users(posts.remove(k), users),
        posts_sorted_desc(posts.remove(k)),
        posts_valid(posts.remove(k)),
        forall|x: i64|
            x != posts[k].id ==> #[trigger] has_post_id(posts.remove(k), x) == has_post_id(
                posts,
                x,
            ),
        !has_post_id(posts.remove(k), posts[k].id),
{
    let r = posts.remove(k);
    assert(forall|i: int|
        0 <= i < r.len() ==> #[trigger] r[i] == (if i < k {
            posts[i]
        } else {
            posts[i + 1]
        }));
    assert forall|x: i64| x != posts[k].id implies #[trigger] has_post_id(r, x) == has_post_id(
        posts,
        x,
    ) by {
        if has_post_id(posts, x) {
            let i = choose|i: int| 0 <= i < posts.len() && (#[trigger] posts[i]).id == x;
            if i < k {
                assert(r[i] == posts[i]);
            } else {
                assert(i > k);
                assert(r[i - 1] == posts[i]);
            }
            assert(has_post_id(r, x));
        }
    }
}

/// Whether a post passes a category filter; no filter passes everything.
pub open spec fn category_matches(p: Post, f: Option<Seq<char>>) -> bool {
    match f {
        None => true,
        Some(c) => p.category@ == c,
    }
}

/// The posts passing a category filter, in stored order.
pub open spec fn posts_with_category(posts: Seq<Post>, f: Option<Seq<char>>) -> Seq<Post>
    decreases posts.len(),
{
    if posts.len() == 0 {
        Seq::empty()
    } else {
        let rest = posts_with_category(posts.drop_last(), f);
        if category_matches(posts.last(), f) {
            rest.push(posts.last())
        } else {
            rest
        }
    }
}

/// An empty category filter filters nothing out: the listing shows every
/// post, whatever its category.
pub proof fn lemma_no_filter_keeps_all(posts: Seq<Post>)
    ensures
        posts_with_category(posts, None) == posts,
    decreases posts.len(),
{
    if posts.len() > 0 {
        lemma_no_filter_keeps_all(posts.drop_last());
        assert(posts_with_category(posts, None) =~= posts);
    } else {
        assert(posts_with_category(posts, None) =~= posts);
    }
}

/// Whether a post shows up in a listing of this user's posts: an anonymous
/// post is excluded entirely unless the view may include anonymous ones.
pub open spec fn user_post_visible(p: Post, user_id: i64, include_anonymous: bool) -> bool {
    p.user_id == user_id && (include_anonymous || !p.anonymous)
}

/// The posts of one user that the listing shows, in stored order.
pub open spec fn posts_of_user(posts: Seq<Post>, user_id: i64, include_anonymous: bool) -> Seq<
    Post,
>
    decreases posts.len(),
{
    if posts.len() == 0 {
        Seq::empty()
    } else {
        let rest = posts_of_user(posts.drop_last(), user_id, include_anonymous);
        if user_post_visible(posts.last(), user_id, include_anonymous) {
            rest.push(posts.last())
        } else {
            rest
        }
    }
}

/// Every post of a user, anonymous ones included, appears in the user's own
/// listing when anonymous posts are included.
pub proof fn lemma_own_post_listed(posts: Seq<Post>, user_id: i64, k: int)
    requires
        0 <= k < posts.len(),
        posts[k].user_id == user_id,
    ensures
        exists|j: int|
            0 <= j < posts_of_user(posts, user_id, true).len() && #[trigger] posts_of_user(
                posts,
                user_id,
                true,
            )[j] == posts[k],
    decreases posts.len(),
{
    let r = posts_of_user(posts, user_id, true);
    if k == posts.len() - 1 {
        assert(r[r.len() - 1] == posts[k]);
    } else {
        let d = posts.drop_last();
        lemma_own_post_listed(d, user_id, k);
        let r0 = posts_of_user(d, user_id, true);
        let j0 = choose|j: int| 0 <= j < r0.len() && #[trigger] r0[j] == d[k];
        assert(r[j0] == posts[k]);
    }
}

// ---------------------------------------------------------------------------
// Comments
// ---------------------------------------------------------------------------
/// The comments under one post, in stored order.
pub open spec fn comments_of_post(comments: Seq<Comment>, post_id: i64) -> Seq<Comment>
    decreases comments.len(),
{
    if comments.len() == 0 {
        Seq::empty()
    } else {
        let rest = comments_of_post(comments.drop_last(), post_id);
        if comments.last().post_id == post_id {
            rest.push(comments.last())
        } else {
            rest
        }
    }
}


pub open spec fn unique_comment_ids(comments: Seq<Comment>) -> bool {
    forall|i: int, j: int|
        0 <= i < comments.len() && 0 <= j < comments.len() && i != j ==> (#[trigger] comments[i]).id
            != (#[trigger] comments[j]).id
}

pub open spec fn comment_ids_below(comments: Seq<Comment>, bound: i64) -> bool {
    forall|i: int| 0 <= i < comments.len() ==> (#[trigger] comments[i]).id < bound
}

pub open spec fn comments_ref_users(comments: Seq<Comment>, users: Seq<User>) -> bool {
    forall|i: int|
        0 <= i < comments.len() ==> has_user_id(users, (#[trigger] comments[i]).user_id)
}

pub open spec fn comments_ref_posts(comments: Seq<Comment>, posts: Seq<Post>) -> bool {
    forall|i: int|
        0 <= i < comments.len() ==> has_post_id(posts, (#[trigger] comments[i]).post_id)
}

/// Comments are held oldest first, as every listing returns them.
pub open spec fn comments_sorted_asc(comments: Seq<Comment>) -> bool {
    forall|i: int, j: int|
        0 <= i <= j < comments.len() ==> (#[trigger] comments[i]).created_at <= (
        #[trigger] comments[j]).created_at
}

pub open spec fn comment_content_valid(c: Comment) -> bool {
    c.content@ == trim_spec(c.content@) && c.content@.len() > 0
}

pub open spec fn comments_valid(comments: Seq<Comment>) -> bool {
    forall|i: int| 0 <= i < comments.len() ==> comment_content_valid(#[trigger] comments[i])
}

/// The comments left after a post's cascade delete.
pub open spec fn without_post_comments(comments: Seq<Comment>, post_id: i64) -> Seq<Comment>
    decreases comments.len(),
{
    if comments.len() == 0 {
        Seq::empty()
    } else {
        let rest = without_post_comments(comments.drop_last(), post_id);
        if comments.last().post_id == post_id {
            rest
        } else {
            rest.push(comments.last())
        }
    }
}

/// A cascade delete removes exactly the dead post's comments: what is left
/// are the other comments, in order, and every table property survives.
pub proof fn lemma_without_post_comments_wf(
    comments: Seq<Comment>,
    post_id: i64,
    users: Seq<User>,
    bound: i64,
)
    requires
        unique_comment_ids(comments),
        comment_ids_below(comments, bound),
        comments_ref_users(comments, users),
        comments_sorted_asc(comments),
        comments_valid(comments),
    ensures
        unique_comment_ids(without_post_comments(comments, post_id)),
        comment_ids_below(without_post_comments(comments, post_id), bound),
        comments_ref_users(without_post_comments(comments, post_id), users),
        comments_sorted_asc(without_post_comments(comments, post_id)),
        comments_valid(without_post_comments(comments, post_id)),
        forall|k: int|
            0 <= k < without_post_comments(comments, post_id).len() ==> (
            #[trigger] without_post_comments(comments, post_id)[k]).post_id != post_id,
        forall|k: int|
            0 <= k < without_post_comments(comments, post_id).len() ==> exists|i: int|
                0 <= i < comments.len() && (#[trigger] comments[i]) == (
                #[trigger] without_post_comments(comments, post_id)[k]),
    decreases comments.len(),
{
    if comments.len() > 0 {
        let d = comments.drop_last();
        assert(forall|i: int| 0 <= i < d.len() ==> d[i] == comments[i]);
        lemma_without_post_comments_wf(d, post_id, users, bound);
        let r0 = without_post_comments(d, post_id);
        let r = without_post_comments(comments, post_id);
        if comments.last().post_id != post_id {
            assert(r == r0.push(comments.last()));
            assert forall|k: int| #![trigger r[k]] 0 <= k < r.len() implies exists|i: int|
                0 <= i < comments.len() && (#[trigger] comments[i]) == r[k] by {
                if k < r.len() - 1 {
                    assert(r[k] == r0[k]);
                    let i0 = choose|i: int| 0 <= i < d.len() && (#[trigger] d[i]) == r0[k];
                    assert(comments[i0] == r[k]);
                } else {
                    assert(comments[comments.len() - 1] == r[k]);
                }
            }
            assert forall|i: int, j: int|
                0 <= i < r.len() && 0 <= j < r.len() && i != j implies (#[trigger] r[i]).id != (
            #[trigger] r[j]).id by {
                if i < r.len() - 1 && j < r.len() - 1 {
                    assert(r[i] == r0[i] && r[j] == r0[j]);
                } else {
                    let a = if i < r.len() - 1 {
                        i
                    } else {
                        j
                    };
                    assert(r[a] == r0[a]);
                    let i0 = choose|m: int| 0 <= m < d.len() && (#[trigger] d[m]) == r0[a];
                    assert(comments[i0].id != comments[comments.len() - 1].id);
                }
            }
            assert forall|i: int, j: int|
                0 <= i <= j < r.len() implies (#[trigger] r[i]).created_at <= (
            #[trigger] r[j]).created_at by {
                if j < r.len() - 1 {
                    assert(r[i] == r0[i] && r[j] == r0[j]);
                } else if i < r.len() - 1 {
                    assert(r[i] == r0[i]);
                    let i0 = choose|m: int| 0 <= m < d.len() && (#[trigger] d[m]) == r0[i];
                    assert(comments[i0].created_at <= comments[comments.len() - 1].created_at);
                }
            }
            assert forall|k: int| 0 <= k < r.len() implies has_user_id(
                users,
                (#[trigger] r[k]).user_id,
            ) && comment_content_valid(r[k]) && r[k].id < bound && r[k].post_id != post_id by {
                if k < r.len() - 1 {
                    assert(r[k] == r0[k]);
                } else {
                    assert(r[k] == comments[comments.len() - 1]);
                }
            }
        }
    }
}

} // verus!
