use harbour_chat::board::{
    assemble_feed, check_comment_depth, check_reply_parent, check_vote_value, feed_limit,
    next_vote, plan_feed, site_name_from_url, tally_votes, validate_comment_body,
    validate_new_post, vote_change, DepthStep, DepthWalk, FeedPeriod, FeedSectionKind, VoteChange,
};
use harbour_chat::entities::{Post, PostComment};
use harbour_chat::error::AppError;

fn post(id: &str) -> Post {
    Post {
        id: id.into(),
        author_user_id: "u1".into(),
        author_display_name: None,
        title: None,
        body: "b".into(),
        link_url: None,
        preview_title: None,
        preview_description: None,
        preview_image_url: None,
        preview_site_name: None,
        upvotes: 0,
        downvotes: 0,
        score: 0,
        comment_count: 0,
        my_vote: 0,
        created_at: 0,
        updated_at: 0,
    }
}

fn comment(id: &str, post_id: &str, parent: Option<&str>) -> PostComment {
    PostComment {
        id: id.into(),
        post_id: post_id.into(),
        author_user_id: "u".into(),
        author_display_name: None,
        parent_comment_id: parent.map(|p| p.to_string()),
        body: "x".into(),
        created_at: 0,
        edited_at: None,
        deleted_at: None,
        replies: vec![],
    }
}

#[test]
fn period_names_and_aliases() {
    assert_eq!(FeedPeriod::parse(" DAY ").unwrap(), FeedPeriod::Day);
    assert_eq!(FeedPeriod::parse("24h").unwrap(), FeedPeriod::Day);
    assert_eq!(FeedPeriod::parse("1h").unwrap(), FeedPeriod::Hour);
    assert_eq!(FeedPeriod::parse("all_time").unwrap(), FeedPeriod::All);
    assert!(matches!(FeedPeriod::parse("decade"), Err(AppError::Validation(m)) if m == "period must be one of: hour, day, week, month, year, all"));
    for p in [FeedPeriod::Hour, FeedPeriod::Day, FeedPeriod::Week, FeedPeriod::Month, FeedPeriod::Year, FeedPeriod::All] {
        assert_eq!(FeedPeriod::parse(p.as_str()).unwrap(), p);
        assert_eq!(p.older_than_label().is_some(), p.window_start_ms(1_700_000_000_000).is_some());
    }
}

#[test]
fn feed_windows() {
    let now = 1_700_000_000_000i64;
    assert_eq!(FeedPeriod::Day.window_start_ms(now), Some(now - 86_400_000));
    assert_eq!(FeedPeriod::Week.window_start_ms(now), Some(now - 7 * 86_400_000));
    assert_eq!(FeedPeriod::Year.window_start_ms(now), Some(now - 365 * 86_400_000));
    assert_eq!(FeedPeriod::All.window_start_ms(now), None);
    let plan = plan_feed(FeedPeriod::Week, 500, now);
    assert_eq!(plan.limit, 50);
    assert_eq!(plan.since_ms, Some(now - 7 * 86_400_000));
    assert_eq!(plan.older_cutoff_ms, plan.since_ms);
    assert_eq!(plan_feed(FeedPeriod::All, 0, now).since_ms, None);
    assert_eq!(feed_limit(0), 1);
    assert_eq!(feed_limit(20), 20);
}

#[test]
fn board_period_top_excludes_old_from_first_section_shape() {
    let feed = assemble_feed(FeedPeriod::Day, vec![post("new")], Some(vec![post("old")]));
    assert_eq!(feed.period, "day");
    assert_eq!(feed.sections.len(), 2);
    assert_eq!(feed.sections[0].kind, FeedSectionKind::Top);
    assert_eq!(feed.sections[0].posts[0].id, "new");
    assert_eq!(feed.sections[1].kind, FeedSectionKind::Older);
    assert_eq!(feed.sections[1].posts[0].id, "old");
    assert!(feed.sections[1].label.is_some());
    let feed = assemble_feed(FeedPeriod::Day, vec![], Some(vec![]));
    assert_eq!(feed.sections.len(), 1);
    let feed = assemble_feed(FeedPeriod::All, vec![post("a")], Some(vec![post("b")]));
    assert_eq!(feed.sections.len(), 1);
}

#[test]
fn vote_toggle_flip_clear() {
    assert!(check_vote_value(2).is_err());
    assert!(check_vote_value(-1).is_ok());
    assert_eq!(next_vote(0, 1), 1);
    assert_eq!(next_vote(1, 1), 0);
    assert_eq!(next_vote(1, -1), -1);
    assert_eq!(next_vote(-1, 0), 0);
    assert_eq!(vote_change(0, 1), VoteChange::Insert);
    assert_eq!(vote_change(1, -1), VoteChange::Update);
    assert_eq!(vote_change(1, 0), VoteChange::Delete);
    assert_eq!(vote_change(0, 0), VoteChange::Unchanged);
}

#[test]
fn vote_tally_score() {
    let t = tally_votes(&vec![1, 1, -1, 0, 1]);
    assert_eq!((t.upvotes, t.downvotes, t.score), (3, 1, 2));
    let t = tally_votes(&vec![]);
    assert_eq!((t.upvotes, t.downvotes, t.score), (0, 0, 0));
}

#[test]
fn link_site_names() {
    assert_eq!(site_name_from_url("https://example.com/a/b").as_deref(), Some("example.com"));
    assert_eq!(site_name_from_url("http://host:8080/x").as_deref(), Some("host"));
    assert_eq!(site_name_from_url("example.org/path").as_deref(), Some("example.org"));
    assert_eq!(site_name_from_url("https:///x"), None);
}

#[test]
fn new_post_validation() {
    let p = validate_new_post(Some("  Hi "), "  body ", Some(" https://news.site/x ")).unwrap();
    assert_eq!(p.title.as_deref(), Some("Hi"));
    assert_eq!(p.body, "body");
    assert_eq!(p.link_url.as_deref(), Some("https://news.site/x"));
    assert_eq!(p.site_name.as_deref(), Some("news.site"));
    let p = validate_new_post(Some("   "), "b", None).unwrap();
    assert!(p.title.is_none() && p.site_name.is_none());
    assert!(matches!(validate_new_post(None, "  ", None), Err(AppError::Validation(m)) if m == "body is required"));
    assert!(matches!(validate_new_post(None, &"x".repeat(8001), None), Err(AppError::Validation(m)) if m == "body must be at most 8000 characters"));
}

#[test]
fn comment_rules() {
    assert_eq!(validate_comment_body(" hi ").unwrap(), "hi");
    assert!(matches!(validate_comment_body(&"x".repeat(4001)), Err(AppError::Validation(_))));
    let parent = comment("c1", "p1", None);
    assert!(check_reply_parent(Some(&parent), "p1").is_ok());
    assert!(matches!(check_reply_parent(Some(&parent), "p2"), Err(AppError::Validation(m)) if m == "parent comment must belong to the same post"));
    assert!(matches!(check_reply_parent(None, "p1"), Err(AppError::NotFound(m)) if m == "parent comment not found"));
    assert!(check_comment_depth(7).is_ok());
    assert!(matches!(check_comment_depth(8), Err(AppError::Validation(m)) if m == "comment nesting is limited to 8 levels"));
}

#[test]
fn depth_walk_counts_ancestors() {
    let parent = comment("c3", "p", Some("c2"));
    let mut walk = DepthWalk::start(&parent);
    assert_eq!(walk.depth, 1);
    match walk.step() {
        DepthStep::Fetch(id) => assert_eq!(id, "c2"),
        DepthStep::Done(_) => panic!("expected fetch"),
    }
    walk.resume(Some("c1".into()));
    match walk.step() {
        DepthStep::Fetch(id) => assert_eq!(id, "c1"),
        DepthStep::Done(_) => panic!("expected fetch"),
    }
    walk.resume(None);
    match walk.step() {
        DepthStep::Done(d) => assert_eq!(d, 3),
        DepthStep::Fetch(_) => panic!("expected done"),
    }
}

#[test]
fn period_parse_ignores_case_and_spaces() {
    for raw in ["  DAY ", "\tWeek\n", "All_Time", " 1H"] {
        let normalized = raw.trim().to_ascii_lowercase();
        assert_eq!(FeedPeriod::parse(raw).unwrap(), FeedPeriod::parse(&normalized).unwrap());
    }
    assert!(FeedPeriod::parse(" fortnight ").is_err());
    assert!(FeedPeriod::parse("fortnight").is_err());
}
