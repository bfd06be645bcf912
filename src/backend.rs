//! Plain records of the community backend that feeds the tracker: its service
//! configuration and the request and result shapes of its API.

use vstd::prelude::*;

verus! {

/// A configuration value that could not be read.
#[derive(Clone, Debug, PartialEq, Eq)]
pub enum Error {
    EnvVariableParseError(String),
}

/// Where the HTTP server listens.
#[derive(Clone, Debug)]
pub struct ActixConfig {
    pub host: String,
    pub port: u16,
}

/// Where the cache server is.
#[derive(Clone, Debug)]
pub struct RedisConfig {
    pub host: String,
    pub password: String,
    pub port: u16,
}

/// The outgoing mail server, when one is configured.
#[derive(Clone, Debug)]
pub struct SmtpConfig {
    pub host: Option<String>,
    pub port: Option<u16>,
    pub username: Option<String>,
    pub password: Option<String>,
    pub from_email: Option<String>,
    pub from_name: Option<String>,
}

/// A torrent file as the backend hands it out.
#[derive(Clone, Debug)]
pub struct GetTorrentResult {
    pub title: String,
    pub file_contents: Vec<u8>,
}

#[derive(Clone, Copy, Debug)]
pub struct GetUserQuery {
    pub id: i32,
}

#[derive(Clone, Copy, Debug)]
pub struct GetBookmarkQuery {
    pub id: i64,
}

#[derive(Clone, Copy, Debug)]
pub struct RemoveBookmarkQuery {
    pub id: i64,
}

#[derive(Clone, Copy, Debug)]
pub struct GetTitleGroupBookmarkQuery {
    pub id: i64,
}

#[derive(Clone, Copy, Debug)]
pub struct RemoveTitleGroupBookmarkQuery {
    pub id: i64,
}

#[derive(Clone, Copy, Debug)]
pub struct GetNotificationsForumThreadPostsQuery {
    pub include_read: bool,
}

#[derive(Clone, Copy, Debug)]
pub struct AddSubscriptionForumThreadPostsQuery {
    pub thread_id: i64,
}

#[derive(Clone, Copy, Debug)]
pub struct AddSubscriptionTitleGroupTorrentsQuery {
    pub title_group_id: i32,
}

#[derive(Clone, Debug)]
pub struct UserCreatedBookmark {
    pub title_group_id: i32,
    pub description: Option<String>,
}

#[derive(Clone, Debug)]
pub struct EditedBookmark {
    pub id: i64,
    pub description: Option<String>,
}

#[derive(Clone, Debug)]
pub struct UserCreatedTitleGroupBookmark {
    pub title_group_id: i32,
    pub description: Option<String>,
}

#[derive(Clone, Debug)]
pub struct EditedTitleGroupBookmark {
    pub id: i64,
    pub description: Option<String>,
}

#[derive(Clone, Debug)]
pub struct UserCreatedForumPost {
    pub content: String,
    pub forum_thread_id: i64,
}

#[derive(Clone, Debug)]
pub struct UserCreatedForumThread {
    pub forum_sub_category_id: i32,
    pub name: String,
    pub first_post: UserCreatedForumPost,
}

#[derive(Clone, Debug)]
pub struct ForumCategoryLite {
    pub id: i32,
    pub name: String,
}

#[derive(Clone, Copy, Debug)]
pub struct GetForumThreadPostsQuery {
    pub thread_id: i64,
    pub page: Option<u32>,
    pub page_size: u32,
    pub post_id: Option<i64>,
}

#[derive(Clone, Debug)]
pub struct ForumSearchQuery {
    pub thread_name: Option<String>,
    pub page: u32,
    pub page_size: u32,
}

} // verus!
