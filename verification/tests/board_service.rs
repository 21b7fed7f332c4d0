use harbour_chat::board::{format_share_content, FeedPeriod};
use harbour_chat::comments::nest_comments;
use harbour_chat::entities::{Post, PostComment};

fn sample_post() -> Post {
    Post {
        id: "post-1".into(),
        author_user_id: "u1".into(),
        author_display_name: Some("Alice".into()),
        title: Some("News".into()),
        body: "Hello world".into(),
        link_url: Some("https://example.com".into()),
        preview_title: None,
        preview_description: None,
        preview_image_url: None,
        preview_site_name: None,
        upvotes: 0,
        downvotes: 0,
        score: 0,
        comment_count: 0,
        my_vote: 0,
        created_at: 1_700_000_000_000,
        updated_at: 1_700_000_000_000,
    }
}

#[test]
fn format_share_content_includes_feed_link() {
    let text = format_share_content(&sample_post());
    assert!(text.contains("Shared from Board"));
    assert!(text.contains("News"));
    assert!(text.contains("/board/feed/post-1"));
    assert!(text.contains("https://example.com"));
}

#[test]
fn feed_period_window_and_labels() {
    assert!(FeedPeriod::parse("day").unwrap().older_than_label().is_some());
    assert!(FeedPeriod::parse("all").unwrap().older_than_label().is_none());
    let now = 1_700_000_000_000i64;
    let since = FeedPeriod::Hour.window_start_ms(now).unwrap();
    assert_eq!(now - since, chrono::Duration::hours(1).num_milliseconds());
}

fn comment(id: &str, parent: Option<&str>, body: &str) -> PostComment {
    PostComment {
        id: id.into(),
        post_id: "p".into(),
        author_user_id: "u".into(),
        author_display_name: None,
        parent_comment_id: parent.map(|p| p.to_string()),
        body: body.into(),
        created_at: 1_700_000_000_000,
        edited_at: None,
        deleted_at: None,
        replies: vec![],
    }
}

#[test]
fn nest_comments_builds_tree() {
    let flat = vec![comment("c1", None, "root"), comment("c2", Some("c1"), "child")];
    let tree = nest_comments(flat);
    assert_eq!(tree.len(), 1);
    assert_eq!(tree[0].replies.len(), 1);
    assert_eq!(tree[0].replies[0].body, "child");
}

#[test]
fn board_soft_deleted_comment_shows_placeholder_rule() {
    let mut gone = comment("c2", Some("c1"), "secret");
    gone.deleted_at = Some(5);
    let tree = nest_comments(vec![comment("c1", None, "root"), gone]);
    assert_eq!(tree.len(), 1);
    assert_eq!(tree[0].replies.len(), 1);
    assert_eq!(tree[0].replies[0].body, "[deleted]");
}

#[test]
fn orphans_and_order_in_comment_trees() {
    let flat = vec![
        comment("a", None, "first"),
        comment("b", None, "second"),
        comment("c", Some("b"), "reply"),
        comment("d", Some("zzz"), "orphan"),
    ];
    let tree = nest_comments(flat);
    assert_eq!(tree.len(), 2);
    assert_eq!(tree[0].id, "a");
    assert_eq!(tree[1].id, "b");
    assert_eq!(tree[1].replies[0].id, "c");
}

#[test]
fn repeated_ids_keep_every_top_level_comment() {
    let flat = vec![
        comment("c1", None, "first"),
        comment("c1", None, "second"),
        comment("r1", Some("c1"), "reply"),
    ];
    let tree = nest_comments(flat);
    assert_eq!(tree.len(), 2);
    assert_eq!(tree[0].body, "first");
    assert_eq!(tree[1].body, "second");
    let replies: usize = tree.iter().map(|n| n.replies.len()).sum();
    assert_eq!(replies, 1);
    assert_eq!(tree[0].replies[0].body, "reply");
}
