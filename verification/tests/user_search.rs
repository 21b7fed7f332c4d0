use harbour_chat::users::plan_user_search;

#[test]
fn search_users_requires_min_query_length() {
    assert!(plan_user_search("a", 10).is_none());
    assert!(plan_user_search("  a  ", 10).is_none());
    assert!(plan_user_search("", 10).is_none());
    let plan = plan_user_search(" Al ", 10).expect("two bytes");
    assert_eq!(plan.pattern, "%al%");
    assert_eq!(plan.limit, 10);
    let plan = plan_user_search("é", 0).expect("two-byte character");
    assert_eq!(plan.pattern, "%é%");
    assert_eq!(plan.limit, 1);
    assert_eq!(plan_user_search("ÄBC", 500).unwrap().pattern, "%äbc%");
    assert_eq!(plan_user_search("abc", 500).unwrap().limit, 50);
}
