//! The core state machine of the service: the four tables, their combined
//! well-formedness invariant, and every operation the routing layer exposes.
//! Each operation takes the caller's session token and the current time as
//! plain values, so its whole behaviour is stated in its contract.

use vstd::prelude::*;
use crate::categories::{
    opt_view, write_category, query_category, normalize_post_category, normalize_query_category,
};
use crate::domain::{
    User, Session, Post, Comment, AppConfig, is_admin_spec, unique_user_keys, user_ids_below,
    has_user_id, user_by_id, has_username, user_by_username, has_uid, user_by_uid,
    username_taken_by_other, lemma_user_found, unique_tokens, has_token, session_by_token,
    sessions_ref_users, without_token, lemma_session_found, lemma_without_token_absent,
    lemma_remove_is_without_token, lemma_without_token_wf, find_user_index_by_id,
    find_user_index_by_username,
    find_user_index_by_uid, find_session_index, find_post_index, unique_post_ids, post_ids_below,
    has_post_id, post_by_id, posts_ref_users, posts_sorted_desc, posts_valid, post_content_valid,
    lemma_post_found, lemma_posts_remove_wf, unique_comment_ids, comment_ids_below,
    comments_ref_users, comments_ref_posts, comments_sorted_asc, comments_valid,
    comment_content_valid, without_post_comments, lemma_without_post_comments_wf,
    category_matches, posts_with_category, posts_of_user, comments_of_post, username_conflict,
};
use crate::errors::ApiError;
use crate::hashing::{argon_verifies, is_argon_hash, hash_password, verify_password};
use crate::sys::{now_unix, fresh_uuid};
use crate::text::{trim_spec, trim_str, str_eq, lemma_trim_idempotent};
use crate::views::{
    UserResponse, MessageResponse, PostView, CommentView, PostDetail, UserProfileResponse,
    AuthedUser, LoginOk, post_view_of, post_views_of, comment_views_of, make_post_view,
    make_comment_view,
};
use vstd::string::StrSliceExecFns;

verus! {

/// How long a session stays valid: seven days, in seconds.
pub const SESSION_TTL_SECS: i64 = 604_800;

/// The whole durable state of the service.
pub struct Forum {
    pub config: AppConfig,
    pub users: Vec<User>,
    pub sessions: Vec<Session>,
    pub posts: Vec<Post>,
    pub comments: Vec<Comment>,
    pub next_user_id: i64,
    pub next_post_id: i64,
    pub next_comment_id: i64,
}

/// The view a request's optional session cookie gives.
pub open spec fn token_view(t: Option<&str>) -> Option<Seq<char>> {
    match t {
        Some(s) => Some(s@),
        None => None,
    }
}

impl Forum {
    /// The combined invariant of the four tables: unique keys, referential
    /// integrity, listing order, and per-row content validity.
    pub open spec fn wf(self) -> bool {
        &&& unique_user_keys(self.users@)
        &&& user_ids_below(self.users@, self.next_user_id)
        &&& unique_tokens(self.sessions@)
        &&& sessions_ref_users(self.sessions@, self.users@)
        &&& unique_post_ids(self.posts@)
        &&& post_ids_below(self.posts@, self.next_post_id)
        &&& posts_ref_users(self.posts@, self.users@)
        &&& posts_sorted_desc(self.posts@)
        &&& posts_valid(self.posts@)
        &&& unique_comment_ids(self.comments@)
        &&& comment_ids_below(self.comments@, self.next_comment_id)
        &&& comments_ref_users(self.comments@, self.users@)
        &&& comments_ref_posts(self.comments@, self.posts@)
        &&& comments_sorted_asc(self.comments@)
        &&& comments_valid(self.comments@)
    }

    /// Whether this token resolves to a live session at this time.
    pub open spec fn resolves(self, tok: Option<Seq<char>>, now: i64) -> bool {
        &&& tok is Some
        &&& has_token(self.sessions@, tok->0)
        &&& now < session_by_token(self.sessions@, tok->0).expires_at
    }

    /// The user a resolving token authenticates as.
    pub open spec fn resolved_user(self, tok: Option<Seq<char>>) -> User {
        user_by_id(self.users@, session_by_token(self.sessions@, tok->0).user_id)
    }

    /// Everything but the session table is untouched.
    pub open spec fn same_except_sessions(pre: Forum, post: Forum) -> bool {
        &&& post.config == pre.config
        &&& post.users == pre.users
        &&& post.posts == pre.posts
        &&& post.comments == pre.comments
        &&& post.next_user_id == pre.next_user_id
        &&& post.next_post_id == pre.next_post_id
        &&& post.next_comment_id == pre.next_comment_id
    }

    /// Looking something up may lazily evict the expired session the request
    /// presented; it changes nothing else about the session table.
    pub open spec fn sessions_evicted_at_most(pre: Forum, post: Forum, tok: Option<Seq<char>>) -> bool {
        if tok is Some && has_token(pre.sessions@, tok->0) {
            post.sessions@ == pre.sessions@ || post.sessions@ == without_token(
                pre.sessions@,
                tok->0,
            )
        } else {
            post.sessions@ == pre.sessions@
        }
    }

    /// An empty forum under the given configuration.
    pub fn new(config: AppConfig) -> (f: Forum)
        ensures
            f.wf(),
            f.config == config,
            f.users@ =~= Seq::<User>::empty(),
            f.sessions@ =~= Seq::<Session>::empty(),
            f.posts@ =~= Seq::<Post>::empty(),
            f.comments@ =~= Seq::<Comment>::empty(),
            f.next_user_id == 1 && f.next_post_id == 1 && f.next_comment_id == 1,
    {
        Forum {
            config,
            users: Vec::new(),
            sessions: Vec::new(),
            posts: Vec::new(),
            comments: Vec::new(),
            next_user_id: 1,
            next_post_id: 1,
            next_comment_id: 1,
        }
    }

    /// Creates an account from the given fresh uid at the given time.
    ///
    /// Rejects a blank username or contact field and a password of fewer than
    /// six characters; an already taken username or uid is a conflict. On
    /// success the stored hash verifies against exactly the given password.
    pub fn register_at(
        &mut self,
        username: &str,
        qq: &str,
        password: &str,
        uid: String,
        now: i64,
    ) -> (r: Result<(), ApiError>)
        requires
            old(self).wf(),
        ensures
            final(self).wf(),
            match r {
                Ok(()) => {
                    &&& trim_spec(username@).len() > 0
                    &&& trim_spec(qq@).len() > 0
                    &&& password@.len() >= 6
                    &&& !has_username(old(self).users@, trim_spec(username@))
                    &&& !has_uid(old(self).users@, uid@)
                    &&& old(self).next_user_id < i64::MAX
                    &&& final(self).users@ == old(self).users@.push(final(self).users@.last())
                    &&& ({
                        let u = final(self).users@.last();
                        &&& u.id == old(self).next_user_id
                        &&& u.uid == uid
                        &&& u.username@ == trim_spec(username@)
                        &&& u.qq@ == trim_spec(qq@)
                        &&& u.created_at == now
                        &&& is_argon_hash(u.password_hash@)
                        &&& argon_verifies(u.password_hash@, password@)
                    })
                    &&& final(self).next_user_id == old(self).next_user_id + 1
                    &&& final(self).sessions == old(self).sessions
                    &&& final(self).posts == old(self).posts
                    &&& final(self).comments == old(self).comments
                    &&& final(self).config == old(self).config
                    &&& final(self).next_post_id == old(self).next_post_id
                    &&& final(self).next_comment_id == old(self).next_comment_id
                },
                Err(e) => {
                    &&& *final(self) == *old(self)
                    &&& (e is Validation <==> trim_spec(username@).len() == 0 || trim_spec(qq@).len()
                        == 0 || password@.len() < 6)
                    &&& (e is Conflict ==> has_username(old(self).users@, trim_spec(username@))
                        || has_uid(old(self).users@, uid@))
                    &&& (e is Internal ==> old(self).next_user_id == i64::MAX)
                    &&& (e is Validation || e is Conflict || e is PasswordHash || e is Internal)
                },
            },
    {
        let username_t = trim_str(username);
        if username_t.as_str().is_empty() {
            return Err(ApiError::Validation("用户名不能为空".to_owned()));
        }
        let qq_t = trim_str(qq);
        if qq_t.as_str().is_empty() {
            return Err(ApiError::Validation("QQ号不能为空".to_owned()));
        }
        if password.unicode_len() < 6 {
            return Err(ApiError::Validation("密码至少需要6位".to_owned()));
        }
        let hashed = match hash_password(password) {
            Ok(h) => h,
            Err(e) => {
                return Err(e);
            },
        };
        if find_user_index_by_username(&self.users, username_t.as_str()).is_some() {
            return Err(ApiError::Conflict("用户名已存在".to_owned()));
        }
        if find_user_index_by_uid(&self.users, uid.as_str()).is_some() {
            return Err(ApiError::Conflict("用户名已存在".to_owned()));
        }
        if self.next_user_id == i64::MAX {
            return Err(ApiError::Internal("无法分配新的用户编号".to_owned()));
        }
        let id = self.next_user_id;
        self.next_user_id = id + 1;
        proof {
            lemma_trim_idempotent(username@);
            lemma_trim_idempotent(qq@);
        }
        let user = User {
            id,
            uid,
            username: username_t,
            qq: qq_t,
            password_hash: hashed,
            created_at: now,
        };
        self.users.push(user);
        proof {
            let pre = old(self).users@;
            let post = self.users@;
            assert(forall|i: int| 0 <= i < pre.len() ==> post[i] == pre[i]);
            assert forall|i: int, j: int|
                0 <= i < post.len() && 0 <= j < post.len() && i != j implies {
                &&& (#[trigger] post[i]).id != (#[trigger] post[j]).id
                &&& post[i].uid@ != post[j].uid@
                &&& post[i].username@ != post[j].username@
            } by {
                if i < post.len() - 1 && j < post.len() - 1 {
                    assert(post[i] == pre[i] && post[j] == pre[j]);
                } else {
                    let a = if i < post.len() - 1 {
                        i
                    } else {
                        j
                    };
                    assert(post[a] == pre[a]);
                    assert(pre[a].id < old(self).next_user_id);
                    assert(!has_username(pre, trim_spec(username@)));
                    assert(!has_uid(pre, uid@));
                }
            }
            assert forall|i: int| 0 <= i < post.len() implies (#[trigger] post[i]).id
                < self.next_user_id by {
                if i < post.len() - 1 {
                    assert(post[i] == pre[i]);
                }
            }
            assert forall|i: int| 0 <= i < self.sessions@.len() implies has_user_id(
                post,
                (#[trigger] self.sessions@[i]).user_id,
            ) by {
                let w = choose|k: int|
                    0 <= k < pre.len() && (#[trigger] pre[k]).id == self.sessions@[i].user_id;
                assert(post[w] == pre[w]);
            }
            assert forall|i: int| 0 <= i < self.posts@.len() implies has_user_id(
                post,
                (#[trigger] self.posts@[i]).user_id,
            ) by {
                let w = choose|k: int|
                    0 <= k < pre.len() && (#[trigger] pre[k]).id == self.posts@[i].user_id;
                assert(post[w] == pre[w]);
            }
            assert forall|i: int| 0 <= i < self.comments@.len() implies has_user_id(
                post,
                (#[trigger] self.comments@[i]).user_id,
            ) by {
                let w = choose|k: int|
                    0 <= k < pre.len() && (#[trigger] pre[k]).id == self.comments@[i].user_id;
                assert(post[w] == pre[w]);
            }
            assert(self.users@ =~= pre.push(self.users@.last()));
        }
        Ok(())
    }

    /// Creates an account now, under a freshly drawn uid.
    ///
    /// The uid is random, so a conflict on it cannot be ruled out; every
    /// other clause of `register_at` holds as stated there.
    pub fn register(&mut self, username: &str, qq: &str, password: &str) -> (r: Result<
        (),
        ApiError,
    >)
        requires
            old(self).wf(),
        ensures
            final(self).wf(),
            match r {
                Ok(()) => {
                    &&& trim_spec(username@).len() > 0
                    &&& trim_spec(qq@).len() > 0
                    &&& password@.len() >= 6
                    &&& !has_username(old(self).users@, trim_spec(username@))
                    &&& final(self).users@ == old(self).users@.push(final(self).users@.last())
                    &&& ({
                        let u = final(self).users@.last();
                        &&& u.username@ == trim_spec(username@)
                        &&& u.qq@ == trim_spec(qq@)
                        &&& is_argon_hash(u.password_hash@)
                        &&& argon_verifies(u.password_hash@, password@)
                    })
                    &&& final(self).sessions == old(self).sessions
                    &&& final(self).posts == old(self).posts
                    &&& final(self).comments == old(self).comments
                },
                Err(e) => {
                    &&& *final(self) == *old(self)
                    &&& (e is Validation <==> trim_spec(username@).len() == 0 || trim_spec(qq@).len()
                        == 0 || password@.len() < 6)
                    &&& (e is Conflict ==> has_username(old(self).users@, trim_spec(username@))
                        || old(self).users@.len() > 0)
                    &&& (e is Internal ==> old(self).next_user_id == i64::MAX)
                    &&& (e is Validation || e is Conflict || e is PasswordHash || e is Internal)
                },
            },
    {
        let uid = fresh_uuid();
        let now = now_unix();
        self.register_at(username, qq, password, uid, now)
    }

    /// Opens a session for the given credentials under the given fresh token
    /// at the given time.
    ///
    /// An unknown username and a wrong password fail identically with
    /// `Unauthorized`; on success the new session expires exactly the TTL
    /// after `now`.
    pub fn login_at(&mut self, username: &str, password: &str, token: String, now: i64) -> (r:
        Result<LoginOk, ApiError>)
        requires
            old(self).wf(),
            now <= i64::MAX - SESSION_TTL_SECS,
        ensures
            final(self).wf(),
            Self::same_except_sessions(*old(self), *final(self)),
            match r {
                Ok(res) => {
                    &&& has_username(old(self).users@, trim_spec(username@))
                    &&& ({
                        let u = user_by_username(old(self).users@, trim_spec(username@));
                        &&& argon_verifies(u.password_hash@, password@)
                        &&& res.user.id == u.id
                        &&& res.user.username@ == u.username@
                        &&& res.user.qq@ == u.qq@
                        &&& res.user.uid@ == u.uid@
                        &&& res.user.is_admin == is_admin_spec(
                            old(self).config.admin_uids@,
                            u.uid@,
                        )
                        &&& res.token@ == token@
                        &&& !has_token(old(self).sessions@, token@)
                        &&& final(self).sessions@ == old(self).sessions@.push(
                            final(self).sessions@.last(),
                        )
                        &&& ({
                            let s = final(self).sessions@.last();
                            &&& s.token == token
                            &&& s.user_id == u.id
                            &&& s.created_at == now
                            &&& s.expires_at == now + SESSION_TTL_SECS
                        })
                    })
                },
                Err(e) => {
                    &&& *final(self) == *old(self)
                    &&& (e is Unauthorized || e is PasswordHash || e is Internal)
                    &&& (!has_username(old(self).users@, trim_spec(username@))
                        ==> e is Unauthorized)
                    &&& (has_username(old(self).users@, trim_spec(username@)) ==> ({
                        let u = user_by_username(old(self).users@, trim_spec(username@));
                        &&& (e is Unauthorized ==> !argon_verifies(u.password_hash@, password@))
                        &&& (e is PasswordHash ==> !is_argon_hash(u.password_hash@))
                        &&& (e is Internal ==> argon_verifies(u.password_hash@, password@)
                            && has_token(old(self).sessions@, token@))
                    }))
                },
            },
            ({
                let tu = trim_spec(username@);
                (has_username(old(self).users@, tu) && is_argon_hash(
                    user_by_username(old(self).users@, tu).password_hash@,
                ) && argon_verifies(user_by_username(old(self).users@, tu).password_hash@, password@)
                    && !has_token(old(self).sessions@, token@)) ==> r is Ok
            }),
    {
        let username_t = trim_str(username);
        let uk = match find_user_index_by_username(&self.users, username_t.as_str()) {
            Some(k) => k,
            None => {
                return Err(ApiError::Unauthorized);
            },
        };
        proof {
            lemma_user_found(self.users@, uk as int);
        }
        let verified = match verify_password(self.users[uk].password_hash.as_str(), password) {
            Ok(b) => b,
            Err(e) => {
                return Err(e);
            },
        };
        if !verified {
            return Err(ApiError::Unauthorized);
        }
        if find_session_index(&self.sessions, token.as_str()).is_some() {
            return Err(ApiError::Internal("会话标识冲突".to_owned()));
        }
        let user_id = self.users[uk].id;
        let token_out = token.clone();
        let sess = Session { token, user_id, created_at: now, expires_at: now + SESSION_TTL_SECS };
        self.sessions.push(sess);
        proof {
            let pre = old(self).sessions@;
            let post = self.sessions@;
            assert(forall|i: int| 0 <= i < pre.len() ==> post[i] == pre[i]);
            assert forall|i: int, j: int|
                0 <= i < post.len() && 0 <= j < post.len() && i != j implies (
            #[trigger] post[i]).token@ != (#[trigger] post[j]).token@ by {
                if i < post.len() - 1 && j < post.len() - 1 {
                    assert(post[i] == pre[i] && post[j] == pre[j]);
                } else {
                    let a = if i < post.len() - 1 {
                        i
                    } else {
                        j
                    };
                    assert(post[a] == pre[a]);
                }
            }
            assert forall|i: int| 0 <= i < post.len() implies has_user_id(
                self.users@,
                (#[trigger] post[i]).user_id,
            ) by {
                if i < post.len() - 1 {
                    assert(post[i] == pre[i]);
                } else {
                    assert(post[i].user_id == self.users@[uk as int].id);
                    lemma_user_found(self.users@, uk as int);
                }
            }
            assert(post =~= pre.push(post.last()));
        }
        let u = &self.users[uk];
        let is_admin = self.config.is_admin(u.uid.as_str());
        Ok(
            LoginOk {
                user: UserResponse {
                    id: u.id,
                    username: u.username.clone(),
                    qq: u.qq.clone(),
                    uid: u.uid.clone(),
                    is_admin,
                },
                token: token_out,
            },
        )
    }

    /// Opens a session now, under a freshly drawn random token.
    ///
    /// The token is random, so a collision with a live session cannot be
    /// ruled out; every other clause of `login_at` holds as stated there.
    pub fn login(&mut self, username: &str, password: &str) -> (r: Result<LoginOk, ApiError>)
        requires
            old(self).wf(),
        ensures
            final(self).wf(),
            Self::same_except_sessions(*old(self), *final(self)),
            match r {
                Ok(res) => {
                    &&& has_username(old(self).users@, trim_spec(username@))
                    &&& ({
                        let u = user_by_username(old(self).users@, trim_spec(username@));
                        &&& argon_verifies(u.password_hash@, password@)
                        &&& res.user.id == u.id
                        &&& res.user.username@ == u.username@
                        &&& res.user.qq@ == u.qq@
                        &&& res.user.uid@ == u.uid@
                        &&& res.user.is_admin == is_admin_spec(
                            old(self).config.admin_uids@,
                            u.uid@,
                        )
                        &&& final(self).sessions@ == old(self).sessions@.push(
                            final(self).sessions@.last(),
                        )
                        &&& ({
                            let s = final(self).sessions@.last();
                            &&& s.token@ == res.token@
                            &&& s.user_id == u.id
                            &&& s.expires_at == s.created_at + SESSION_TTL_SECS
                        })
                    })
                },
                Err(e) => {
                    &&& *final(self) == *old(self)
                    &&& (e is Unauthorized || e is PasswordHash || e is Internal)
                    &&& (!has_username(old(self).users@, trim_spec(username@))
                        ==> e is Unauthorized)
                    &&& (has_username(old(self).users@, trim_spec(username@)) ==> ({
                        let u = user_by_username(old(self).users@, trim_spec(username@));
                        &&& (e is Unauthorized ==> !argon_verifies(u.password_hash@, password@))
                        &&& (e is PasswordHash ==> !is_argon_hash(u.password_hash@))
                        &&& (e is Internal ==> argon_verifies(u.password_hash@, password@))
                    }))
                },
            },
    {
        let token = fresh_uuid();
        let now = now_unix();
        self.login_at(username, password, token, now)
    }

    /// Deletes the session holding this token, if any. Idempotent: revoking
    /// an absent or already revoked token is a no-op success.
    pub fn revoke(&mut self, token: &str)
        requires
            old(self).wf(),
        ensures
            final(self).wf(),
            Self::same_except_sessions(*old(self), *final(self)),
            final(self).sessions@ == without_token(old(self).sessions@, token@),
    {
        match find_session_index(&self.sessions, token) {
            Some(k) => {
                proof {
                    lemma_remove_is_without_token(self.sessions@, k as int, token@);
                    lemma_without_token_wf(self.sessions@, token@, self.users@);
                }
                let _removed = self.sessions.remove(k);
            },
            None => {
                proof {
                    lemma_without_token_absent(self.sessions@, token@);
                }
            },
        }
    }

    /// Ends the session the request's cookie names, if it names one. Always
    /// succeeds, whether or not such a session exists.
    pub fn logout(&mut self, token: Option<&str>) -> (m: MessageResponse)
        requires
            old(self).wf(),
        ensures
            final(self).wf(),
            Self::same_except_sessions(*old(self), *final(self)),
            m.message@ == "退出成功"@,
            match token {
                Some(t) => final(self).sessions@ == without_token(old(self).sessions@, t@),
                None => *final(self) == *old(self),
            },
    {
        match token {
            Some(t) => {
                self.revoke(t);
            },
            None => {},
        }
        MessageResponse { message: "退出成功".to_owned() }
    }

    /// Resolves a request's session cookie to an authenticated identity.
    ///
    /// An absent cookie, an unknown token and an expired session all fail
    /// identically with `Unauthorized`; an expired session is deleted on this
    /// access, never served.
    pub fn authenticate(&mut self, token: Option<&str>, now: i64) -> (r: Result<
        AuthedUser,
        ApiError,
    >)
        requires
            old(self).wf(),
        ensures
            final(self).wf(),
            Self::same_except_sessions(*old(self), *final(self)),
            Self::sessions_evicted_at_most(*old(self), *final(self), token_view(token)),
            old(self).resolves(token_view(token), now) ==> final(self).sessions@ == old(
                self,
            ).sessions@,
            match r {
                Ok(au) => {
                    &&& old(self).resolves(token_view(token), now)
                    &&& *final(self) == *old(self)
                    &&& ({
                        let u = old(self).resolved_user(token_view(token));
                        &&& au.id == u.id
                        &&& au.username@ == u.username@
                        &&& au.qq@ == u.qq@
                        &&& au.uid@ == u.uid@
                    })
                    &&& has_user_id(old(self).users@, au.id)
                },
                Err(e) => {
                    &&& e is Unauthorized
                    &&& !old(self).resolves(token_view(token), now)
                    &&& ({
                        let tv = token_view(token);
                        if tv is Some && has_token(old(self).sessions@, tv->0) {
                            &&& session_by_token(old(self).sessions@, tv->0).expires_at <= now
                            &&& final(self).sessions@ == without_token(
                                old(self).sessions@,
                                tv->0,
                            )
                        } else {
                            *final(self) == *old(self)
                        }
                    })
                },
            },
    {
        let tok = match token {
            Some(t) => t,
            None => {
                return Err(ApiError::Unauthorized);
            },
        };
        let k = match find_session_index(&self.sessions, tok) {
            Some(k) => k,
            None => {
                return Err(ApiError::Unauthorized);
            },
        };
        proof {
            lemma_session_found(self.sessions@, k as int);
        }
        if self.sessions[k].expires_at <= now {
            proof {
                lemma_remove_is_without_token(self.sessions@, k as int, tok@);
                lemma_without_token_wf(self.sessions@, tok@, self.users@);
            }
            let _removed = self.sessions.remove(k);
            return Err(ApiError::Unauthorized);
        }
        let user_id = self.sessions[k].user_id;
        proof {
            assert(has_user_id(self.users@, self.sessions@[k as int].user_id));
        }
        let uk = find_user_index_by_id(&self.users, user_id).unwrap();
        proof {
            lemma_user_found(self.users@, uk as int);
        }
        let u = &self.users[uk];
        Ok(
            AuthedUser {
                id: u.id,
                username: u.username.clone(),
                qq: u.qq.clone(),
                uid: u.uid.clone(),
            },
        )
    }

    /// Echoes the authenticated caller's identity, admin flag included.
    pub fn me(&mut self, token: Option<&str>, now: i64) -> (r: Result<UserResponse, ApiError>)
        requires
            old(self).wf(),
        ensures
            final(self).wf(),
            Self::same_except_sessions(*old(self), *final(self)),
            Self::sessions_evicted_at_most(*old(self), *final(self), token_view(token)),
            old(self).resolves(token_view(token), now) ==> final(self).sessions@ == old(
                self,
            ).sessions@,
            match r {
                Ok(res) => {
                    &&& old(self).resolves(token_view(token), now)
                    &&& *final(self) == *old(self)
                    &&& ({
                        let u = old(self).resolved_user(token_view(token));
                        &&& res.id == u.id
                        &&& res.username@ == u.username@
                        &&& res.qq@ == u.qq@
                        &&& res.uid@ == u.uid@
                        &&& res.is_admin == is_admin_spec(old(self).config.admin_uids@, u.uid@)
                    })
                },
                Err(e) => {
                    &&& e is Unauthorized
                    &&& !old(self).resolves(token_view(token), now)
                },
            },
    {
        let au = match self.authenticate(token, now) {
            Ok(au) => au,
            Err(e) => {
                return Err(e);
            },
        };
        let is_admin = self.config.is_admin(au.uid.as_str());
        Ok(
            UserResponse {
                id: au.id,
                username: au.username,
                qq: au.qq,
                uid: au.uid,
                is_admin,
            },
        )
    }

    /// Writes a new post for the authenticated caller and returns its id.
    ///
    /// A blank title or content is rejected before the session is even
    /// looked at; the category resolves by the write path rule; title and
    /// content are stored trimmed.
    pub fn create_post(
        &mut self,
        token: Option<&str>,
        title: &str,
        content: &str,
        category: Option<String>,
        anonymous: Option<bool>,
        now: i64,
    ) -> (r: Result<i64, ApiError>)
        requires
            old(self).wf(),
        ensures
            final(self).wf(),
            Self::sessions_evicted_at_most(*old(self), *final(self), token_view(token)),
            old(self).resolves(token_view(token), now) ==> final(self).sessions@ == old(
                self,
            ).sessions@,
            final(self).users == old(self).users,
            final(self).comments == old(self).comments,
            final(self).config == old(self).config,
            final(self).next_user_id == old(self).next_user_id,
            final(self).next_comment_id == old(self).next_comment_id,
            match r {
                Ok(id) => {
                    &&& trim_spec(title@).len() > 0
                    &&& trim_spec(content@).len() > 0
                    &&& old(self).resolves(token_view(token), now)
                    &&& write_category(opt_view(category)) is Some
                    &&& old(self).next_post_id < i64::MAX
                    &&& id == old(self).next_post_id
                    &&& final(self).next_post_id == old(self).next_post_id + 1
                    &&& final(self).sessions == old(self).sessions
                    &&& exists|k: int|
                        0 <= k <= old(self).posts@.len() && final(self).posts@ == old(
                            self,
                        ).posts@.insert(k, #[trigger] final(self).posts@[k]) && ({
                            let p = final(self).posts@[k];
                            &&& p.id == id
                            &&& p.user_id == old(self).resolved_user(token_view(token)).id
                            &&& p.title@ == trim_spec(title@)
                            &&& p.content@ == trim_spec(content@)
                            &&& Some(p.category@) == write_category(opt_view(category))
                            &&& p.anonymous == (anonymous == Some(true))
                            &&& p.created_at == now
                        })
                },
                Err(e) => {
                    &&& final(self).posts == old(self).posts
                    &&& final(self).next_post_id == old(self).next_post_id
                    &&& (e is Validation <==> trim_spec(title@).len() == 0 || trim_spec(
                        content@,
                    ).len() == 0 || (old(self).resolves(token_view(token), now) && write_category(
                        opt_view(category),
                    ) is None))
                    &&& (e is Unauthorized <==> trim_spec(title@).len() > 0 && trim_spec(
                        content@,
                    ).len() > 0 && !old(self).resolves(token_view(token), now))
                    &&& (e is Internal <==> trim_spec(title@).len() > 0 && trim_spec(content@).len()
                        > 0 && old(self).resolves(token_view(token), now) && write_category(
                        opt_view(category),
                    ) is Some && old(self).next_post_id == i64::MAX)
                    &&& (e is Validation || e is Unauthorized || e is Internal)
                },
            },
    {
        let title_t = trim_str(title);
        if title_t.as_str().is_empty() {
            return Err(ApiError::Validation("标题不能为空".to_owned()));
        }
        let content_t = trim_str(content);
        if content_t.as_str().is_empty() {
            return Err(ApiError::Validation("内容不能为空".to_owned()));
        }
        let au = match self.authenticate(token, now) {
            Ok(a) => a,
            Err(e) => {
                return Err(e);
            },
        };
        let anon = match anonymous {
            Some(b) => b,
            None => false,
        };
        let cat = match normalize_post_category(category) {
            Ok(c) => c,
            Err(e) => {
                return Err(e);
            },
        };
        if self.next_post_id == i64::MAX {
            return Err(ApiError::Internal("无法分配新的帖子编号".to_owned()));
        }
        let id = self.next_post_id;
        self.next_post_id = id + 1;
        proof {
            lemma_trim_idempotent(title@);
            lemma_trim_idempotent(content@);
        }
        let post = Post {
            id,
            user_id: au.id,
            title: title_t,
            content: content_t,
            category: cat,
            anonymous: anon,
            created_at: now,
        };
        let k = post_insert_position(&self.posts, now);
        let ghost pre = self.posts@;
        self.posts.insert(k, post);
        proof {
            let r = self.posts@;
            let ki = k as int;
            assert(forall|i: int| 0 <= i < ki ==> r[i] == pre[i]);
            assert(forall|i: int| ki < i < r.len() ==> r[i] == pre[i - 1]);
            assert forall|i: int, j: int|
                0 <= i < r.len() && 0 <= j < r.len() && i != j implies (#[trigger] r[i]).id != (
            #[trigger] r[j]).id by {
                if i != ki && j != ki {
                    let a = if i < ki {
                        i
                    } else {
                        i - 1
                    };
                    let b = if j < ki {
                        j
                    } else {
                        j - 1
                    };
                    assert(r[i] == pre[a] && r[j] == pre[b]);
                } else {
                    let m = if i == ki {
                        j
                    } else {
                        i
                    };
                    let a = if m < ki {
                        m
                    } else {
                        m - 1
                    };
                    assert(r[m] == pre[a]);
                    assert(pre[a].id < old(self).next_post_id);
                }
            }
            assert forall|i: int| 0 <= i < r.len() implies (#[trigger] r[i]).id
                < self.next_post_id by {
                if i != ki {
                    let a = if i < ki {
                        i
                    } else {
                        i - 1
                    };
                    assert(r[i] == pre[a]);
                }
            }
            assert forall|i: int, j: int| 0 <= i <= j < r.len() implies (#[trigger] r[i]).created_at
                >= (#[trigger] r[j]).created_at by {
                let a = if i < ki {
                    i
                } else {
                    i - 1
                };
                let b = if j < ki {
                    j
                } else {
                    j - 1
                };
                if i != ki && j != ki {
                    assert(r[i] == pre[a] && r[j] == pre[b]);
                } else if i == ki && j != ki {
                    assert(r[j] == pre[b]);
                    assert(pre[b].created_at <= now);
                } else if i != ki && j == ki {
                    assert(r[i] == pre[a]);
                    assert(pre[a].created_at > now);
                }
            }
            assert forall|i: int| 0 <= i < r.len() implies has_user_id(
                self.users@,
                (#[trigger] r[i]).user_id,
            ) && post_content_valid(r[i]) by {
                if i != ki {
                    let a = if i < ki {
                        i
                    } else {
                        i - 1
                    };
                    assert(r[i] == pre[a]);
                }
            }
            assert forall|i: int| 0 <= i < self.comments@.len() implies has_post_id(
                r,
                (#[trigger] self.comments@[i]).post_id,
            ) by {
                let w = choose|m: int|
                    0 <= m < pre.len() && (#[trigger] pre[m]).id == self.comments@[i].post_id;
                if w < ki {
                    assert(r[w] == pre[w]);
                } else {
                    assert(r[w + 1] == pre[w]);
                }
            }
            assert(self.posts@ == pre.insert(ki, self.posts@[ki]));
        }
        Ok(id)
    }

    /// The masked views of one user's posts, newest first. When the view may
    /// not include anonymous posts, they are left out entirely, not merely
    /// masked.
    pub fn fetch_posts_for_user(&self, user_id: i64, include_anonymous: bool) -> (v: Vec<PostView>)
        requires
            self.wf(),
        ensures
            v@ == post_views_of(self.users@, posts_of_user(self.posts@, user_id, include_anonymous)),
            forall|a: int, b: int|
                0 <= a <= b < v@.len() ==> (#[trigger] v@[a]).created_at >= (
                #[trigger] v@[b]).created_at,
            forall|a: int| 0 <= a < v@.len() ==> ((#[trigger] v@[a]).anonymous ==> v@[a].author is None),
            !include_anonymous ==> forall|a: int| 0 <= a < v@.len() ==> !(#[trigger] v@[a]).anonymous,
    {
        let n = self.posts.len();
        let mut out: Vec<PostView> = Vec::new();
        let mut i: usize = 0;
        proof {
            assert(self.posts@.take(0) =~= Seq::<Post>::empty());
        }
        while i < n
            invariant
                self.wf(),
                0 <= i <= n,
                n == self.posts@.len(),
                out@ == post_views_of(
                    self.users@,
                    posts_of_user(self.posts@.take(i as int), user_id, include_anonymous),
                ),
                forall|a: int, b: int|
                    0 <= a <= b < out@.len() ==> (#[trigger] out@[a]).created_at >= (
                    #[trigger] out@[b]).created_at,
                out@.len() > 0 && i < n ==> out@.last().created_at >= self.posts@[i as int].created_at,
                forall|a: int|
                    0 <= a < out@.len() ==> ((#[trigger] out@[a]).anonymous ==> out@[a].author is None),
                include_anonymous || (forall|a: int|
                    0 <= a < out@.len() ==> !(#[trigger] out@[a]).anonymous),
            decreases n - i,
        {
            let p = &self.posts[i];
            if p.user_id == user_id && (include_anonymous || !p.anonymous) {
                let view = make_post_view(&self.users, p);
                out.push(view);
            }
            proof {
                let tk0 = self.posts@.take(i as int);
                let tk1 = self.posts@.take(i as int + 1);
                assert(tk1.drop_last() =~= tk0);
                assert(tk1.last() == self.posts@[i as int]);
                assert(out@ =~= post_views_of(
                    self.users@,
                    posts_of_user(tk1, user_id, include_anonymous),
                ));
                if i + 1 < n && out@.len() > 0 {
                    assert(self.posts@[i as int].created_at >= self.posts@[i as int
                        + 1].created_at);
                }
            }
            i = i + 1;
        }
        proof {
            assert(self.posts@.take(n as int) =~= self.posts@);
        }
        out
    }

    /// The authenticated caller's own posts, anonymous ones included.
    pub fn list_my_posts(&mut self, token: Option<&str>, now: i64) -> (r: Result<
        Vec<PostView>,
        ApiError,
    >)
        requires
            old(self).wf(),
        ensures
            final(self).wf(),
            Self::same_except_sessions(*old(self), *final(self)),
            Self::sessions_evicted_at_most(*old(self), *final(self), token_view(token)),
            old(self).resolves(token_view(token), now) ==> final(self).sessions@ == old(
                self,
            ).sessions@,
            match r {
                Ok(v) => {
                    &&& old(self).resolves(token_view(token), now)
                    &&& *final(self) == *old(self)
                    &&& v@ == post_views_of(
                        old(self).users@,
                        posts_of_user(
                            old(self).posts@,
                            old(self).resolved_user(token_view(token)).id,
                            true,
                        ),
                    )
                    &&& forall|a: int, b: int|
                        0 <= a <= b < v@.len() ==> (#[trigger] v@[a]).created_at >= (
                        #[trigger] v@[b]).created_at
                },
                Err(e) => {
                    &&& e is Unauthorized
                    &&& !old(self).resolves(token_view(token), now)
                },
            },
    {
        let au = match self.authenticate(token, now) {
            Ok(a) => a,
            Err(e) => {
                return Err(e);
            },
        };
        Ok(self.fetch_posts_for_user(au.id, true))
    }

    /// The public listing: every post passing the query filter, newest
    /// first, each masked by the anonymity rule.
    pub fn list_posts(&mut self, token: Option<&str>, category: Option<String>, now: i64) -> (r:
        Result<Vec<PostView>, ApiError>)
        requires
            old(self).wf(),
        ensures
            final(self).wf(),
            Self::same_except_sessions(*old(self), *final(self)),
            Self::sessions_evicted_at_most(*old(self), *final(self), token_view(token)),
            old(self).resolves(token_view(token), now) ==> final(self).sessions@ == old(
                self,
            ).sessions@,
            match r {
                Ok(v) => {
                    &&& old(self).resolves(token_view(token), now)
                    &&& *final(self) == *old(self)
                    &&& query_category(opt_view(category)) is Some
                    &&& v@ == post_views_of(
                        old(self).users@,
                        posts_with_category(
                            old(self).posts@,
                            query_category(opt_view(category))->0,
                        ),
                    )
                    &&& forall|a: int, b: int|
                        0 <= a <= b < v@.len() ==> (#[trigger] v@[a]).created_at >= (
                        #[trigger] v@[b]).created_at
                    &&& forall|a: int|
                        0 <= a < v@.len() ==> ((#[trigger] v@[a]).anonymous ==> v@[a].author is None)
                },
                Err(e) => {
                    &&& (e is Unauthorized <==> !old(self).resolves(token_view(token), now))
                    &&& (e is Validation <==> old(self).resolves(token_view(token), now)
                        && query_category(opt_view(category)) is None)
                    &&& (e is Unauthorized || e is Validation)
                },
            },
    {
        if let Err(e) = self.authenticate(token, now) {
            return Err(e);
        }
        let filter = match normalize_query_category(category) {
            Ok(f) => f,
            Err(e) => {
                return Err(e);
            },
        };
        let ghost f = opt_view(filter);
        let n = self.posts.len();
        let mut out: Vec<PostView> = Vec::new();
        let mut i: usize = 0;
        proof {
            assert(self.posts@.take(0) =~= Seq::<Post>::empty());
        }
        while i < n
            invariant
                self.wf(),
                0 <= i <= n,
                n == self.posts@.len(),
                f == opt_view(filter),
                out@ == post_views_of(
                    self.users@,
                    posts_with_category(self.posts@.take(i as int), f),
                ),
                forall|a: int, b: int|
                    0 <= a <= b < out@.len() ==> (#[trigger] out@[a]).created_at >= (
                    #[trigger] out@[b]).created_at,
                out@.len() > 0 && i < n ==> out@.last().created_at >= self.posts@[i as int].created_at,
                forall|a: int|
                    0 <= a < out@.len() ==> ((#[trigger] out@[a]).anonymous ==> out@[a].author is None),
            decreases n - i,
        {
            let p = &self.posts[i];
            let keep = match &filter {
                None => true,
                Some(c) => crate::text::str_eq(p.category.as_str(), c.as_str()),
            };
            if keep {
                let view = make_post_view(&self.users, p);
                out.push(view);
            }
            proof {
                let tk0 = self.posts@.take(i as int);
                let tk1 = self.posts@.take(i as int + 1);
                assert(tk1.drop_last() =~= tk0);
                assert(tk1.last() == self.posts@[i as int]);
                assert(keep == category_matches(self.posts@[i as int], f));
                assert(out@ =~= post_views_of(self.users@, posts_with_category(tk1, f)));
                if i + 1 < n && out@.len() > 0 {
                    assert(self.posts@[i as int].created_at >= self.posts@[i as int
                        + 1].created_at);
                }
            }
            i = i + 1;
        }
        proof {
            assert(self.posts@.take(n as int) =~= self.posts@);
        }
        Ok(out)
    }

    /// The masked views of one post's comments, oldest first.
    pub fn fetch_comments(&self, post_id: i64) -> (v: Vec<CommentView>)
        requires
            self.wf(),
        ensures
            v@ == comment_views_of(self.users@, comments_of_post(self.comments@, post_id)),
            forall|a: int, b: int|
                0 <= a <= b < v@.len() ==> (#[trigger] v@[a]).created_at <= (
                #[trigger] v@[b]).created_at,
            forall|a: int| 0 <= a < v@.len() ==> ((#[trigger] v@[a]).anonymous ==> v@[a].author is None),
    {
        let n = self.comments.len();
        let mut out: Vec<CommentView> = Vec::new();
        let mut i: usize = 0;
        proof {
            assert(self.comments@.take(0) =~= Seq::<Comment>::empty());
        }
        while i < n
            invariant
                self.wf(),
                0 <= i <= n,
                n == self.comments@.len(),
                out@ == comment_views_of(
                    self.users@,
                    comments_of_post(self.comments@.take(i as int), post_id),
                ),
                forall|a: int, b: int|
                    0 <= a <= b < out@.len() ==> (#[trigger] out@[a]).created_at <= (
                    #[trigger] out@[b]).created_at,
                out@.len() > 0 && i < n ==> out@.last().created_at <= self.comments@[i as int].created_at,
                forall|a: int|
                    0 <= a < out@.len() ==> ((#[trigger] out@[a]).anonymous ==> out@[a].author is None),
            decreases n - i,
        {
            let c = &self.comments[i];
            if c.post_id == post_id {
                let view = make_comment_view(&self.users, c);
                out.push(view);
            }
            proof {
                let tk0 = self.comments@.take(i as int);
                let tk1 = self.comments@.take(i as int + 1);
                assert(tk1.drop_last() =~= tk0);
                assert(tk1.last() == self.comments@[i as int]);
                assert(out@ =~= comment_views_of(self.users@, comments_of_post(tk1, post_id)));
                if i + 1 < n && out@.len() > 0 {
                    assert(self.comments@[i as int].created_at <= self.comments@[i as int
                        + 1].created_at);
                }
            }
            i = i + 1;
        }
        proof {
            assert(self.comments@.take(n as int) =~= self.comments@);
        }
        out
    }

    /// One post with its comment thread, masked by the anonymity rule.
    pub fn get_post(&mut self, token: Option<&str>, post_id: i64, now: i64) -> (r: Result<
        PostDetail,
        ApiError,
    >)
        requires
            old(self).wf(),
        ensures
            final(self).wf(),
            Self::same_except_sessions(*old(self), *final(self)),
            Self::sessions_evicted_at_most(*old(self), *final(self), token_view(token)),
            old(self).resolves(token_view(token), now) ==> final(self).sessions@ == old(
                self,
            ).sessions@,
            match r {
                Ok(d) => {
                    &&& old(self).resolves(token_view(token), now)
                    &&& *final(self) == *old(self)
                    &&& has_post_id(old(self).posts@, post_id)
                    &&& ({
                        let pv = post_view_of(
                            old(self).users@,
                            post_by_id(old(self).posts@, post_id),
                        );
                        &&& d.id == post_id
                        &&& d.title == pv.title
                        &&& d.content == pv.content
                        &&& d.category == pv.category
                        &&& d.created_at == pv.created_at
                        &&& d.anonymous == pv.anonymous
                        &&& d.author == pv.author
                        &&& d.comments@ == comment_views_of(
                            old(self).users@,
                            comments_of_post(old(self).comments@, post_id),
                        )
                    })
                },
                Err(e) => {
                    &&& (e is Unauthorized <==> !old(self).resolves(token_view(token), now))
                    &&& (e is NotFound <==> old(self).resolves(token_view(token), now)
                        && !has_post_id(old(self).posts@, post_id))
                    &&& (e is Unauthorized || e is NotFound)
                },
            },
    {
        if let Err(e) = self.authenticate(token, now) {
            return Err(e);
        }
        let k = match find_post_index(&self.posts, post_id) {
            Some(k) => k,
            None => {
                return Err(ApiError::NotFound);
            },
        };
        proof {
            lemma_post_found(self.posts@, k as int);
            assert(has_user_id(self.users@, self.posts@[k as int].user_id));
        }
        let view = make_post_view(&self.users, &self.posts[k]);
        let comments = self.fetch_comments(post_id);
        Ok(
            PostDetail {
                id: view.id,
                title: view.title,
                content: view.content,
                category: view.category,
                created_at: view.created_at,
                anonymous: view.anonymous,
                author: view.author,
                comments,
            },
        )
    }

    /// Writes a new comment under a post for the authenticated caller and
    /// returns its id. A missing post surfaces as an internal error, as the
    /// store's broken-reference failure would.
    pub fn create_comment(
        &mut self,
        token: Option<&str>,
        post_id: i64,
        content: &str,
        anonymous: Option<bool>,
        now: i64,
    ) -> (r: Result<i64, ApiError>)
        requires
            old(self).wf(),
        ensures
            final(self).wf(),
            Self::sessions_evicted_at_most(*old(self), *final(self), token_view(token)),
            old(self).resolves(token_view(token), now) ==> final(self).sessions@ == old(
                self,
            ).sessions@,
            final(self).users == old(self).users,
            final(self).posts == old(self).posts,
            final(self).config == old(self).config,
            final(self).next_user_id == old(self).next_user_id,
            final(self).next_post_id == old(self).next_post_id,
            match r {
                Ok(id) => {
                    &&& trim_spec(content@).len() > 0
                    &&& old(self).resolves(token_view(token), now)
                    &&& has_post_id(old(self).posts@, post_id)
                    &&& old(self).next_comment_id < i64::MAX
                    &&& id == old(self).next_comment_id
                    &&& final(self).next_comment_id == old(self).next_comment_id + 1
                    &&& final(self).sessions == old(self).sessions
                    &&& exists|k: int|
                        0 <= k <= old(self).comments@.len() && final(self).comments@ == old(
                            self,
                        ).comments@.insert(k, #[trigger] final(self).comments@[k]) && ({
                            let c = final(self).comments@[k];
                            &&& c.id == id
                            &&& c.post_id == post_id
                            &&& c.user_id == old(self).resolved_user(token_view(token)).id
                            &&& c.content@ == trim_spec(content@)
                            &&& c.anonymous == (anonymous == Some(true))
                            &&& c.created_at == now
                        })
                },
                Err(e) => {
                    &&& final(self).comments == old(self).comments
                    &&& final(self).next_comment_id == old(self).next_comment_id
                    &&& (e is Validation <==> trim_spec(content@).len() == 0)
                    &&& (e is Unauthorized <==> trim_spec(content@).len() > 0 && !old(
                        self,
                    ).resolves(token_view(token), now))
                    &&& (e is Internal <==> trim_spec(content@).len() > 0 && old(self).resolves(
                        token_view(token),
                        now,
                    ) && (!has_post_id(old(self).posts@, post_id) || old(self).next_comment_id
                        == i64::MAX))
                    &&& (e is Validation || e is Unauthorized || e is Internal)
                },
            },
    {
        let content_t = trim_str(content);
        if content_t.as_str().is_empty() {
            return Err(ApiError::Validation("内容不能为空".to_owned()));
        }
        let au = match self.authenticate(token, now) {
            Ok(a) => a,
            Err(e) => {
                return Err(e);
            },
        };
        let anon = match anonymous {
            Some(b) => b,
            None => false,
        };
        if find_post_index(&self.posts, post_id).is_none() {
            return Err(ApiError::Internal("评论的帖子不存在".to_owned()));
        }
        if self.next_comment_id == i64::MAX {
            return Err(ApiError::Internal("无法分配新的评论编号".to_owned()));
        }
        let id = self.next_comment_id;
        self.next_comment_id = id + 1;
        proof {
            lemma_trim_idempotent(content@);
        }
        let comment = Comment {
            id,
            post_id,
            user_id: au.id,
            content: content_t,
            anonymous: anon,
            created_at: now,
        };
        let k = comment_insert_position(&self.comments, now);
        let ghost pre = self.comments@;
        self.comments.insert(k, comment);
        proof {
            let r = self.comments@;
            let ki = k as int;
            assert(forall|i: int| 0 <= i < ki ==> r[i] == pre[i]);
            assert(forall|i: int| ki < i < r.len() ==> r[i] == pre[i - 1]);
            assert forall|i: int, j: int|
                0 <= i < r.len() && 0 <= j < r.len() && i != j implies (#[trigger] r[i]).id != (
            #[trigger] r[j]).id by {
                if i != ki && j != ki {
                    let a = if i < ki {
                        i
                    } else {
                        i - 1
                    };
                    let b = if j < ki {
                        j
                    } else {
                        j - 1
                    };
                    assert(r[i] == pre[a] && r[j] == pre[b]);
                } else {
                    let m = if i == ki {
                        j
                    } else {
                        i
                    };
                    let a = if m < ki {
                        m
                    } else {
                        m - 1
                    };
                    assert(r[m] == pre[a]);
                    assert(pre[a].id < old(self).next_comment_id);
                }
            }
            assert forall|i: int| 0 <= i < r.len() implies (#[trigger] r[i]).id
                < self.next_comment_id by {
                if i != ki {
                    let a = if i < ki {
                        i
                    } else {
                        i - 1
                    };
                    assert(r[i] == pre[a]);
                }
            }
            assert forall|i: int, j: int| 0 <= i <= j < r.len() implies (#[trigger] r[i]).created_at
                <= (#[trigger] r[j]).created_at by {
                let a = if i < ki {
                    i
                } else {
                    i - 1
                };
                let b = if j < ki {
                    j
                } else {
                    j - 1
                };
                if i != ki && j != ki {
                    assert(r[i] == pre[a] && r[j] == pre[b]);
                } else if i == ki && j != ki {
                    assert(r[j] == pre[b]);
                    assert(pre[b].created_at > now);
                } else if i != ki && j == ki {
                    assert(r[i] == pre[a]);
                    assert(pre[a].created_at <= now);
                }
            }
            assert forall|i: int| 0 <= i < r.len() implies has_user_id(
                self.users@,
                (#[trigger] r[i]).user_id,
            ) && has_post_id(self.posts@, r[i].post_id) && comment_content_valid(r[i]) by {
                if i != ki {
                    let a = if i < ki {
                        i
                    } else {
                        i - 1
                    };
                    assert(r[i] == pre[a]);
                }
            }
            assert(self.comments@ == pre.insert(ki, self.comments@[ki]));
        }
        Ok(id)
    }

    /// A user's public profile: identity fields, join time, and their
    /// attributed (never anonymous) posts.
    pub fn get_user_profile(&mut self, token: Option<&str>, uid: &str, now: i64) -> (r: Result<
        UserProfileResponse,
        ApiError,
    >)
        requires
            old(self).wf(),
        ensures
            final(self).wf(),
            Self::same_except_sessions(*old(self), *final(self)),
            Self::sessions_evicted_at_most(*old(self), *final(self), token_view(token)),
            old(self).resolves(token_view(token), now) ==> final(self).sessions@ == old(
                self,
            ).sessions@,
            match r {
                Ok(prof) => {
                    &&& old(self).resolves(token_view(token), now)
                    &&& *final(self) == *old(self)
                    &&& has_uid(old(self).users@, uid@)
                    &&& ({
                        let u = user_by_uid(old(self).users@, uid@);
                        &&& prof.username@ == u.username@
                        &&& prof.qq@ == u.qq@
                        &&& prof.uid@ == u.uid@
                        &&& prof.joined_at == u.created_at
                        &&& prof.posts@ == post_views_of(
                            old(self).users@,
                            posts_of_user(old(self).posts@, u.id, false),
                        )
                    })
                    &&& forall|a: int| 0 <= a < prof.posts@.len() ==> !(#[trigger] prof.posts@[a]).anonymous
                },
                Err(e) => {
                    &&& (e is Unauthorized <==> !old(self).resolves(token_view(token), now))
                    &&& (e is NotFound <==> old(self).resolves(token_view(token), now) && !has_uid(
                        old(self).users@,
                        uid@,
                    ))
                    &&& (e is Unauthorized || e is NotFound)
                },
            },
    {
        if let Err(e) = self.authenticate(token, now) {
            return Err(e);
        }
        let uk = match find_user_index_by_uid(&self.users, uid) {
            Some(k) => k,
            None => {
                return Err(ApiError::NotFound);
            },
        };
        proof {
            lemma_user_found(self.users@, uk as int);
        }
        let user_id = self.users[uk].id;
        let username = self.users[uk].username.clone();
        let qq = self.users[uk].qq.clone();
        let uid_out = self.users[uk].uid.clone();
        let joined_at = self.users[uk].created_at;
        let posts = self.fetch_posts_for_user(user_id, false);
        Ok(UserProfileResponse { username, qq, uid: uid_out, joined_at, posts })
    }

    /// Renames the authenticated caller and/or changes their contact field.
    ///
    /// A blank or absent field falls back to its current value; if nothing
    /// would change, that is a validation error; a username another user
    /// already owns is a conflict.
    pub fn update_profile(
        &mut self,
        token: Option<&str>,
        username: Option<String>,
        qq: Option<String>,
        now: i64,
    ) -> (r: Result<UserResponse, ApiError>)
        requires
            old(self).wf(),
        ensures
            final(self).wf(),
            Self::sessions_evicted_at_most(*old(self), *final(self), token_view(token)),
            old(self).resolves(token_view(token), now) ==> final(self).sessions@ == old(
                self,
            ).sessions@,
            final(self).posts == old(self).posts,
            final(self).comments == old(self).comments,
            final(self).config == old(self).config,
            final(self).next_user_id == old(self).next_user_id,
            final(self).next_post_id == old(self).next_post_id,
            final(self).next_comment_id == old(self).next_comment_id,
            match r {
                Ok(res) => {
                    &&& old(self).resolves(token_view(token), now)
                    &&& final(self).sessions == old(self).sessions
                    &&& ({
                        let u = old(self).resolved_user(token_view(token));
                        let nu = updated_field(opt_view(username), u.username@);
                        let nq = updated_field(opt_view(qq), u.qq@);
                        &&& !(nu == u.username@ && nq == u.qq@)
                        &&& !username_taken_by_other(old(self).users@, u.id, nu)
                        &&& res.id == u.id
                        &&& res.username@ == nu
                        &&& res.qq@ == nq
                        &&& res.uid@ == u.uid@
                        &&& res.is_admin == is_admin_spec(old(self).config.admin_uids@, u.uid@)
                        &&& final(self).users@.len() == old(self).users@.len()
                        &&& exists|k: int|
                            0 <= k < old(self).users@.len() && old(self).users@[k].id == u.id
                                && final(self).users@ == old(self).users@.update(
                                k,
                                #[trigger] final(self).users@[k],
                            ) && ({
                                let w = final(self).users@[k];
                                &&& w.id == u.id
                                &&& w.uid == old(self).users@[k].uid
                                &&& w.username@ == nu
                                &&& w.qq@ == nq
                                &&& w.password_hash == old(self).users@[k].password_hash
                                &&& w.created_at == old(self).users@[k].created_at
                            })
                    })
                },
                Err(e) => {
                    &&& final(self).users == old(self).users
                    &&& (e is Unauthorized <==> !old(self).resolves(token_view(token), now))
                    &&& (old(self).resolves(token_view(token), now) ==> ({
                        let u = old(self).resolved_user(token_view(token));
                        let nu = updated_field(opt_view(username), u.username@);
                        let nq = updated_field(opt_view(qq), u.qq@);
                        &&& (e is Validation <==> nu == u.username@ && nq == u.qq@)
                        &&& (e is Conflict <==> !(nu == u.username@ && nq == u.qq@)
                            && username_taken_by_other(old(self).users@, u.id, nu))
                    }))
                    &&& (e is Unauthorized || e is Validation || e is Conflict)
                },
            },
    {
        let au = match self.authenticate(token, now) {
            Ok(a) => a,
            Err(e) => {
                return Err(e);
            },
        };
        let uk = find_user_index_by_id(&self.users, au.id).unwrap();
        proof {
            lemma_user_found(self.users@, uk as int);
        }
        let new_username: String = match &username {
            Some(v) => {
                let t = trim_str(v.as_str());
                if t.as_str().is_empty() {
                    self.users[uk].username.clone()
                } else {
                    t
                }
            },
            None => self.users[uk].username.clone(),
        };
        let new_qq: String = match &qq {
            Some(v) => {
                let t = trim_str(v.as_str());
                if t.as_str().is_empty() {
                    self.users[uk].qq.clone()
                } else {
                    t
                }
            },
            None => self.users[uk].qq.clone(),
        };
        if str_eq(new_username.as_str(), self.users[uk].username.as_str()) && str_eq(
            new_qq.as_str(),
            self.users[uk].qq.as_str(),
        ) {
            return Err(ApiError::Validation("没有需要更新的内容".to_owned()));
        }
        if username_conflict(&self.users, au.id, new_username.as_str()) {
            return Err(ApiError::Conflict("用户名已存在".to_owned()));
        }
        let ghost pre = self.users@;
        let updated = User {
            id: self.users[uk].id,
            uid: self.users[uk].uid.clone(),
            username: new_username.clone(),
            qq: new_qq.clone(),
            password_hash: self.users[uk].password_hash.clone(),
            created_at: self.users[uk].created_at,
        };
        self.users[uk] = updated;
        proof {
            let post = self.users@;
            let ki = uk as int;
            assert(forall|i: int| 0 <= i < post.len() && i != ki ==> post[i] == pre[i]);
            assert(forall|i: int| 0 <= i < post.len() ==> (#[trigger] post[i]).id == pre[i].id);
            assert forall|i: int, j: int|
                0 <= i < post.len() && 0 <= j < post.len() && i != j implies {
                &&& (#[trigger] post[i]).id != (#[trigger] post[j]).id
                &&& post[i].uid@ != post[j].uid@
                &&& post[i].username@ != post[j].username@
            } by {
                if i != ki && j != ki {
                    assert(post[i] == pre[i] && post[j] == pre[j]);
                } else {
                    let m = if i == ki {
                        j
                    } else {
                        i
                    };
                    assert(post[m] == pre[m]);
                    assert(pre[m].id != pre[ki].id);
                    assert(!(pre[m].id != pre[ki].id && pre[m].username@
                        == post[ki].username@));
                }
            }
            assert forall|x: i64| true implies #[trigger] has_user_id(post, x) == has_user_id(
                pre,
                x,
            ) by {
                if has_user_id(pre, x) {
                    let w = choose|i: int| 0 <= i < pre.len() && (#[trigger] pre[i]).id == x;
                    assert(post[w].id == x);
                    assert(has_user_id(post, x));
                }
                if has_user_id(post, x) {
                    let w = choose|i: int| 0 <= i < post.len() && (#[trigger] post[i]).id == x;
                    assert(pre[w].id == x);
                    assert(has_user_id(pre, x));
                }
            }
        }
        let is_admin = self.config.is_admin(self.users[uk].uid.as_str());
        Ok(
            UserResponse {
                id: au.id,
                username: new_username,
                qq: new_qq,
                uid: self.users[uk].uid.clone(),
                is_admin,
            },
        )
    }

    /// Replaces the authenticated caller's password after checking the
    /// current one. A new password of fewer than six characters is rejected
    /// before the session is even looked at; a wrong current password is a
    /// validation failure, not an authentication failure.
    pub fn change_password(
        &mut self,
        token: Option<&str>,
        current_password: &str,
        new_password: &str,
        now: i64,
    ) -> (r: Result<MessageResponse, ApiError>)
        requires
            old(self).wf(),
        ensures
            final(self).wf(),
            Self::sessions_evicted_at_most(*old(self), *final(self), token_view(token)),
            old(self).resolves(token_view(token), now) ==> final(self).sessions@ == old(
                self,
            ).sessions@,
            final(self).posts == old(self).posts,
            final(self).comments == old(self).comments,
            final(self).config == old(self).config,
            final(self).next_user_id == old(self).next_user_id,
            final(self).next_post_id == old(self).next_post_id,
            final(self).next_comment_id == old(self).next_comment_id,
            new_password@.len() < 6 ==> *final(self) == *old(self),
            match r {
                Ok(m) => {
                    &&& new_password@.len() >= 6
                    &&& old(self).resolves(token_view(token), now)
                    &&& final(self).sessions == old(self).sessions
                    &&& m.message@ == "密码修改成功"@
                    &&& ({
                        let u = old(self).resolved_user(token_view(token));
                        &&& argon_verifies(u.password_hash@, current_password@)
                        &&& final(self).users@.len() == old(self).users@.len()
                        &&& exists|k: int|
                            0 <= k < old(self).users@.len() && old(self).users@[k].id == u.id
                                && final(self).users@ == old(self).users@.update(
                                k,
                                #[trigger] final(self).users@[k],
                            ) && ({
                                let w = final(self).users@[k];
                                &&& w.id == u.id
                                &&& w.uid == old(self).users@[k].uid
                                &&& w.username == old(self).users@[k].username
                                &&& w.qq == old(self).users@[k].qq
                                &&& w.created_at == old(self).users@[k].created_at
                                &&& is_argon_hash(w.password_hash@)
                                &&& argon_verifies(w.password_hash@, new_password@)
                            })
                    })
                },
                Err(e) => {
                    &&& final(self).users == old(self).users
                    &&& (new_password@.len() < 6 ==> e is Validation)
                    &&& (e is Validation ==> new_password@.len() < 6 || (old(self).resolves(
                        token_view(token),
                        now,
                    ) && !argon_verifies(
                        old(self).resolved_user(token_view(token)).password_hash@,
                        current_password@,
                    )))
                    &&& (e is Unauthorized <==> new_password@.len() >= 6 && !old(self).resolves(
                        token_view(token),
                        now,
                    ))
                    &&& (e is PasswordHash ==> new_password@.len() >= 6 && old(self).resolves(
                        token_view(token),
                        now,
                    ) && (!is_argon_hash(
                        old(self).resolved_user(token_view(token)).password_hash@,
                    ) || argon_verifies(
                        old(self).resolved_user(token_view(token)).password_hash@,
                        current_password@,
                    )))
                    &&& (e is Validation || e is Unauthorized || e is PasswordHash)
                },
            },
    {
        if new_password.unicode_len() < 6 {
            return Err(ApiError::Validation("新密码至少需要6位".to_owned()));
        }
        let au = match self.authenticate(token, now) {
            Ok(a) => a,
            Err(e) => {
                return Err(e);
            },
        };
        let uk = find_user_index_by_id(&self.users, au.id).unwrap();
        proof {
            lemma_user_found(self.users@, uk as int);
        }
        let verified = match verify_password(
            self.users[uk].password_hash.as_str(),
            current_password,
        ) {
            Ok(b) => b,
            Err(e) => {
                return Err(e);
            },
        };
        if !verified {
            return Err(ApiError::Validation("原密码错误".to_owned()));
        }
        let new_hash = match hash_password(new_password) {
            Ok(h) => h,
            Err(e) => {
                return Err(e);
            },
        };
        let ghost pre = self.users@;
        let updated = User {
            id: self.users[uk].id,
            uid: self.users[uk].uid.clone(),
            username: self.users[uk].username.clone(),
            qq: self.users[uk].qq.clone(),
            password_hash: new_hash,
            created_at: self.users[uk].created_at,
        };
        self.users[uk] = updated;
        proof {
            let post = self.users@;
            let ki = uk as int;
            assert(forall|i: int| 0 <= i < post.len() && i != ki ==> post[i] == pre[i]);
            assert(forall|i: int| 0 <= i < post.len() ==> (#[trigger] post[i]).id == pre[i].id);
            assert forall|i: int, j: int|
                0 <= i < post.len() && 0 <= j < post.len() && i != j implies {
                &&& (#[trigger] post[i]).id != (#[trigger] post[j]).id
                &&& post[i].uid@ != post[j].uid@
                &&& post[i].username@ != post[j].username@
            } by {
                if i != ki && j != ki {
                    assert(post[i] == pre[i] && post[j] == pre[j]);
                } else {
                    let m = if i == ki {
                        j
                    } else {
                        i
                    };
                    assert(post[m] == pre[m]);
                }
            }
            assert forall|x: i64| true implies #[trigger] has_user_id(post, x) == has_user_id(
                pre,
                x,
            ) by {
                if has_user_id(pre, x) {
                    let w = choose|i: int| 0 <= i < pre.len() && (#[trigger] pre[i]).id == x;
                    assert(post[w].id == x);
                }
                if has_user_id(post, x) {
                    let w = choose|i: int| 0 <= i < post.len() && (#[trigger] post[i]).id == x;
                    assert(pre[w].id == x);
                }
            }
        }
        Ok(MessageResponse { message: "密码修改成功".to_owned() })
    }

    /// Deletes a post and its whole comment thread. Admin only: any
    /// authenticated non-admin is forbidden, whoever owns the post; deleting
    /// a missing id reports it, never a silent success.
    pub fn delete_post(&mut self, token: Option<&str>, post_id: i64, now: i64) -> (r: Result<
        MessageResponse,
        ApiError,
    >)
        requires
            old(self).wf(),
        ensures
            final(self).wf(),
            Self::sessions_evicted_at_most(*old(self), *final(self), token_view(token)),
            old(self).resolves(token_view(token), now) ==> final(self).sessions@ == old(
                self,
            ).sessions@,
            final(self).users == old(self).users,
            final(self).config == old(self).config,
            final(self).next_user_id == old(self).next_user_id,
            final(self).next_post_id == old(self).next_post_id,
            final(self).next_comment_id == old(self).next_comment_id,
            match r {
                Ok(m) => {
                    &&& old(self).resolves(token_view(token), now)
                    &&& is_admin_spec(
                        old(self).config.admin_uids@,
                        old(self).resolved_user(token_view(token)).uid@,
                    )
                    &&& has_post_id(old(self).posts@, post_id)
                    &&& final(self).sessions == old(self).sessions
                    &&& exists|k: int|
                        0 <= k < old(self).posts@.len() && (#[trigger] old(self).posts@[k]).id
                            == post_id && final(self).posts@ == old(self).posts@.remove(k)
                    &&& !has_post_id(final(self).posts@, post_id)
                    &&& final(self).comments@ == without_post_comments(
                        old(self).comments@,
                        post_id,
                    )
                    &&& m.message@ == "帖子已删除"@
                },
                Err(e) => {
                    &&& final(self).posts == old(self).posts
                    &&& final(self).comments == old(self).comments
                    &&& (e is Unauthorized <==> !old(self).resolves(token_view(token), now))
                    &&& (e is Forbidden <==> old(self).resolves(token_view(token), now)
                        && !is_admin_spec(
                        old(self).config.admin_uids@,
                        old(self).resolved_user(token_view(token)).uid@,
                    ))
                    &&& (e is NotFound <==> old(self).resolves(token_view(token), now)
                        && is_admin_spec(
                        old(self).config.admin_uids@,
                        old(self).resolved_user(token_view(token)).uid@,
                    ) && !has_post_id(old(self).posts@, post_id))
                    &&& (e is Unauthorized || e is Forbidden || e is NotFound)
                },
            },
    {
        let au = match self.authenticate(token, now) {
            Ok(a) => a,
            Err(e) => {
                return Err(e);
            },
        };
        if !self.config.is_admin(au.uid.as_str()) {
            return Err(ApiError::Forbidden);
        }
        let k = match find_post_index(&self.posts, post_id) {
            Some(k) => k,
            None => {
                return Err(ApiError::NotFound);
            },
        };
        proof {
            lemma_post_found(self.posts@, k as int);
            lemma_posts_remove_wf(self.posts@, k as int, self.users@, self.next_post_id);
        }
        let _removed = self.posts.remove(k);
        let n = self.comments.len();
        let mut kept: Vec<Comment> = Vec::new();
        let mut i: usize = 0;
        proof {
            assert(self.comments@.take(0) =~= Seq::<Comment>::empty());
        }
        while i < n
            invariant
                0 <= i <= n,
                n == self.comments@.len(),
                kept@ == without_post_comments(self.comments@.take(i as int), post_id),
            decreases n - i,
        {
            let c = &self.comments[i];
            if c.post_id != post_id {
                let copy = Comment {
                    id: c.id,
                    post_id: c.post_id,
                    user_id: c.user_id,
                    content: c.content.clone(),
                    anonymous: c.anonymous,
                    created_at: c.created_at,
                };
                proof {
                    assert(copy == self.comments@[i as int]);
                }
                kept.push(copy);
            }
            proof {
                let tk0 = self.comments@.take(i as int);
                let tk1 = self.comments@.take(i as int + 1);
                assert(tk1.drop_last() =~= tk0);
                assert(tk1.last() == self.comments@[i as int]);
                assert(kept@ =~= without_post_comments(tk1, post_id));
            }
            i = i + 1;
        }
        proof {
            assert(self.comments@.take(n as int) =~= self.comments@);
            lemma_without_post_comments_wf(
                self.comments@,
                post_id,
                self.users@,
                self.next_comment_id,
            );
        }
        self.comments = kept;
        proof {
            assert forall|ci: int| 0 <= ci < self.comments@.len() implies has_post_id(
                self.posts@,
                (#[trigger] self.comments@[ci]).post_id,
            ) by {
                let orig = without_post_comments(old(self).comments@, post_id);
                assert(self.comments@[ci] == orig[ci]);
                let w = choose|m: int|
                    0 <= m < old(self).comments@.len() && (#[trigger] old(self).comments@[m])
                        == orig[ci];
                assert(has_post_id(old(self).posts@, old(self).comments@[w].post_id));
                assert(orig[ci].post_id != post_id);
            }
        }
        Ok(MessageResponse { message: "帖子已删除".to_owned() })
    }
}

/// The session TTL law: the session a login pushed, created at `t0`, resolves
/// for a check at `t` exactly when `t` lies before `t0` plus the TTL.
pub proof fn lemma_new_session_window(f: Forum, tok: Seq<char>, t0: i64, t: i64)
    requires
        unique_tokens(f.sessions@),
        f.sessions@.len() > 0,
        f.sessions@.last().token@ == tok,
        f.sessions@.last().created_at == t0,
        f.sessions@.last().expires_at == t0 + SESSION_TTL_SECS,
    ensures
        f.resolves(Some(tok), t) <==> t < t0 + SESSION_TTL_SECS,
{
    lemma_session_found(f.sessions@, f.sessions@.len() - 1);
}

/// The value a profile field resolves to: a present, non-blank input is
/// taken trimmed; anything else keeps the current value.
pub open spec fn updated_field(input: Option<Seq<char>>, current: Seq<char>) -> Seq<char> {
    match input {
        Some(v) => if trim_spec(v).len() > 0 {
            trim_spec(v)
        } else {
            current
        },
        None => current,
    }
}

/// The slot a post written at this time takes, so that the table stays
/// ordered newest first.
fn post_insert_position(posts: &Vec<Post>, created_at: i64) -> (k: usize)
    requires
        posts_sorted_desc(posts@),
    ensures
        k <= posts@.len(),
        forall|i: int| 0 <= i < k ==> (#[trigger] posts@[i]).created_at > created_at,
        forall|i: int| k <= i < posts@.len() ==> (#[trigger] posts@[i]).created_at <= created_at,
{
    let n = posts.len();
    let mut i: usize = 0;
    while i < n && posts[i].created_at > created_at
        invariant
            0 <= i <= n,
            n == posts@.len(),
            posts_sorted_desc(posts@),
            forall|m: int| 0 <= m < i ==> (#[trigger] posts@[m]).created_at > created_at,
        decreases n - i,
    {
        i = i + 1;
    }
    proof {
        if i < n {
            assert forall|m: int| i <= m < n implies (#[trigger] posts@[m]).created_at
                <= created_at by {
                assert(posts@[i as int].created_at >= posts@[m].created_at);
            }
        }
    }
    i
}

/// The slot a comment written at this time takes, so that the table stays
/// ordered oldest first.
fn comment_insert_position(comments: &Vec<Comment>, created_at: i64) -> (k: usize)
    requires
        comments_sorted_asc(comments@),
    ensures
        k <= comments@.len(),
        forall|i: int| 0 <= i < k ==> (#[trigger] comments@[i]).created_at <= created_at,
        forall|i: int| k <= i < comments@.len() ==> (#[trigger] comments@[i]).created_at > created_at,
{
    let n = comments.len();
    let mut i: usize = 0;
    while i < n && comments[i].created_at <= created_at
        invariant
            0 <= i <= n,
            n == comments@.len(),
            comments_sorted_asc(comments@),
            forall|m: int| 0 <= m < i ==> (#[trigger] comments@[m]).created_at <= created_at,
        decreases n - i,
    {
        i = i + 1;
    }
    proof {
        if i < n {
            assert forall|m: int| i <= m < n implies (#[trigger] comments@[m]).created_at
                > created_at by {
                assert(comments@[i as int].created_at <= comments@[m].created_at);
            }
        }
    }
    i
}

} // verus!
