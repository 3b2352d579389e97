use seer::intel::kind::{IntelKind, KindRegistry};
use seer::reddit::fetch::{
    extract_http_urls, feed_subreddits, feed_url, fresh_cap, feed_bytes_checked, feed_posts, feed_wants_more, posts_from_entries, post_filter_content, record_post, start_feed,
    FeedProgress, PostOutcome,
    post_from_entry, post_id_from_entry_id, scrape_targets, FeedEntry, RedditPost,
};
use seer::reddit::hook::StateHook;
use seer::reddit::intel_kind::{register, RedditIntelKind};
use seer::reddit::names::{normalize_subreddit, normalize_subreddit_names};
use seer::reddit::runners::{
    delete_worker_check, edited_worker_name, invalid_args_message, missing_object_arg_message,
    new_worker_duration, new_worker_name, runner_interval_secs, runner_not_found_message,
    source_ids_for_runner, AddWorkerArgs, RedditWorkerSelectPage, WorkerSelectRow, apply_worker_edit,
    delete_worker_step, EditWorkerArgs, RunnerRow,
};
use seer::reddit::sources::{
    apply_source_edit, create_page_from_form, edit_page_from_form, edit_page_from_source,
    filter_mode_label, filter_select_rows, json_list_of, json_string_list, list_sources_limit,
    new_source_from_args, new_source_page, runner_change, select_target_input, source_from_form,
    source_label, source_list_cells, unset_select_page, delete_source_check, worker_label, AddSourceArgs, EditSourceArgs, JsonField,
    JsonItem, RedditSource, RedditSourceUnsetSelectPage, RunnerChange, SourceForm, SourceSelectRow,
    SourceUnsetSelectQuery,
};

fn strs(v: &[&str]) -> Vec<String> {
    v.iter().map(|s| s.to_string()).collect()
}

fn array(v: &[&str]) -> JsonField {
    JsonField::Array(v.iter().map(|s| JsonItem::Str(s.to_string())).collect())
}

fn source(subs: JsonField, q: &str) -> RedditSource {
    RedditSource {
        id: 7,
        created_at: Some(1),
        updated_at: Some(1),
        reddit_runner_id: Some(3),
        subreddits: subs,
        search_query: q.to_string(),
        filter: "f".to_string(),
        is_filter_whitelist: false,
        max_fresh_posts: 10,
        load_websites: true,
    }
}

#[test]
fn normalizing_is_idempotent_on_examples() {
    for s in ["  r/rust ", "/R/ r/Foo", "plain", "   ", "r/"] {
        let n = normalize_subreddit(s);
        assert_eq!(normalize_subreddit(&n), n);
    }
    assert_eq!(normalize_subreddit("r/"), "");
    assert_eq!(normalize_subreddit_names(&strs(&["r/a", " ", "/r/"])), strs(&["a"]));
}

#[test]
fn stored_lists_and_labels() {
    assert_eq!(json_string_list(&array(&["a", "b"])), strs(&["a", "b"]));
    assert!(json_string_list(&JsonField::Array(vec![JsonItem::Str("a".into()), JsonItem::Other])).is_empty());
    assert!(json_string_list(&JsonField::Text("a,b".into())).is_empty());
    assert_eq!(source_label(&source(array(&["rust", "golang"]), "")), "rust,golang");
    assert_eq!(source_label(&source(array(&[]), " war ")), "#7 (war)");
    assert_eq!(source_label(&source(JsonField::Other, "")), "#7");
    let cells = source_list_cells(&source(array(&["a", "b"]), "q"));
    assert_eq!(cells, ("a, b".to_string(), "q".to_string(), "10".to_string(), "Yes".to_string()));
    assert_eq!(filter_mode_label(true), "Whitelist");
    assert_eq!(worker_label(String::new()), "\u{2014}");
    assert_eq!(worker_label("w".into()), "w");
    assert_eq!(json_string_list(&json_list_of(&strs(&["x", "y"]))), strs(&["x", "y"]));
}

fn form(subs: &[&str], max: i64, runner: Option<i64>) -> SourceForm {
    SourceForm {
        reddit_runner_id: runner,
        subreddits: strs(subs),
        search_query: "  q ".to_string(),
        is_filter_whitelist: true,
        filter: " f ".to_string(),
        max_fresh_posts: max,
        load_websites: false,
    }
}

#[test]
fn source_forms() {
    assert_eq!(source_from_form(&form(&[" ", "r/"], 5, None)).unwrap_err(), "At least one subreddit is required");
    let s = source_from_form(&form(&["r/a", "b"], 0, Some(-1))).unwrap();
    assert_eq!(s.subreddits, strs(&["a", "b"]));
    assert_eq!(s.max_fresh_posts, 25);
    assert_eq!(s.reddit_runner_id, None);
    assert_eq!(s.search_query, "q");
    assert_eq!(s.filter, " f ");
    let s2 = source_from_form(&form(&["a"], 3, Some(4))).unwrap();
    assert_eq!((s2.max_fresh_posts, s2.reddit_runner_id), (3, Some(4)));
    let page = new_source_page("n".into(), "t".into(), "i".into());
    assert_eq!(page.max_fresh_posts, 25);
    let again = create_page_from_form(form(&["r/a", ""], -2, None), "n".into(), "t".into(), "i".into(), "w".into(), "err".into());
    assert_eq!(again.subreddits, strs(&["a"]));
    assert_eq!(again.max_fresh_posts, -2);
    assert_eq!(again.search_query, "  q ");
    let edit = edit_page_from_form(7, form(&["/r/x"], 1, None), String::new(), "e".into());
    assert_eq!((edit.id, edit.subreddits.clone(), edit.error.as_str()), (7, strs(&["x"]), "e"));
    let from_row = edit_page_from_source(source(array(&["s"]), "q"), "w".into());
    assert_eq!(from_row.subreddits, strs(&["s"]));
}

#[test]
fn picker_rows_filter_by_label() {
    let rows = vec![
        SourceSelectRow { id: 1, label: "Rust,golang".into() },
        SourceSelectRow { id: 2, label: "news".into() },
    ];
    let kept = filter_select_rows(rows.clone(), &Some("RUST".into()));
    assert_eq!(kept.len(), 1);
    assert_eq!(kept[0].id, 1);
    assert_eq!(filter_select_rows(rows.clone(), &Some("  ".into())).len(), 2);
    assert_eq!(filter_select_rows(rows, &None).len(), 2);
    assert_eq!(select_target_input(&SourceUnsetSelectQuery { name: None, target_input: None }), "source_ids");
    assert_eq!(select_target_input(&SourceUnsetSelectQuery { name: None, target_input: Some("x".into()) }), "x");
}

fn add_args(subs: &[&str]) -> AddSourceArgs {
    AddSourceArgs {
        reddit_runner_id: Some(0),
        subreddits: strs(subs),
        search_query: None,
        filter: Some("f".into()),
        is_filter_whitelist: None,
        max_fresh_posts: Some(-5),
        load_websites: Some(true),
    }
}

#[test]
fn assistant_source_arguments() {
    assert_eq!(new_source_from_args(add_args(&[]), false).unwrap_err(), "at least one subreddit is required");
    let s = new_source_from_args(add_args(&["r/a"]), false).unwrap();
    assert_eq!((s.reddit_runner_id, s.max_fresh_posts, s.load_websites, s.is_filter_whitelist), (None, 1, true, false));
    assert_eq!((s.search_query.as_str(), s.filter.as_str()), ("", "f"));
    let mut a = add_args(&["a"]);
    a.max_fresh_posts = None;
    assert_eq!(new_source_from_args(a, false).unwrap().max_fresh_posts, 25);
    let mut r = add_args(&["a"]);
    r.reddit_runner_id = Some(4);
    assert_eq!(new_source_from_args(r.clone(), false).unwrap_err(), "runner 4 not found");
    assert_eq!(new_source_from_args(r, true).unwrap().reddit_runner_id, Some(4));
    let mut both = add_args(&[" "]);
    both.reddit_runner_id = Some(4);
    assert_eq!(new_source_from_args(both, false).unwrap_err(), "at least one subreddit is required");
    assert_eq!(list_sources_limit(None), 50);
    assert_eq!(list_sources_limit(Some(500)), 200);
    assert_eq!(list_sources_limit(Some(5)), 5);
}

fn edit_args() -> EditSourceArgs {
    EditSourceArgs {
        reddit_source_id: 7,
        reddit_runner_id: None,
        clear_reddit_runner_id: None,
        subreddits: None,
        search_query: None,
        filter: None,
        is_filter_whitelist: None,
        max_fresh_posts: None,
        load_websites: None,
    }
}

#[test]
fn assistant_source_edits() {
    let mut a = edit_args();
    assert_eq!(runner_change(&a), RunnerChange::Keep);
    a.reddit_runner_id = Some(9);
    assert_eq!(runner_change(&a), RunnerChange::Assign(9));
    a.reddit_runner_id = Some(0);
    assert_eq!(runner_change(&a), RunnerChange::Clear);
    a.reddit_runner_id = Some(9);
    a.clear_reddit_runner_id = Some(true);
    assert_eq!(runner_change(&a), RunnerChange::Clear);

    let unchanged = apply_source_edit(Some(source(array(&["a"]), "q")), edit_args(), false, 99).unwrap();
    assert_eq!((unchanged.reddit_runner_id, unchanged.updated_at, unchanged.max_fresh_posts), (Some(3), Some(99), 10));
    assert_eq!(json_string_list(&unchanged.subreddits), strs(&["a"]));

    let mut b = edit_args();
    b.subreddits = Some(strs(&[" r/new ", ""]));
    b.max_fresh_posts = Some(0);
    b.reddit_runner_id = Some(11);
    assert_eq!(
        apply_source_edit(Some(source(array(&["a"]), "q")), b.clone(), false, 100).unwrap_err(),
        "runner 11 not found"
    );
    let changed = apply_source_edit(Some(source(array(&["a"]), "q")), b, true, 100).unwrap();
    assert_eq!(json_string_list(&changed.subreddits), strs(&["new"]));
    assert_eq!((changed.max_fresh_posts, changed.reddit_runner_id), (0, Some(11)));

    let mut c = edit_args();
    c.subreddits = Some(strs(&["  "]));
    assert_eq!(
        apply_source_edit(Some(source(array(&["a"]), "q")), c.clone(), true, 1).unwrap_err(),
        "at least one subreddit is required"
    );
    c.reddit_runner_id = Some(5);
    assert_eq!(apply_source_edit(Some(source(array(&["a"]), "q")), c.clone(), false, 1).unwrap_err(), "runner 5 not found");
    assert_eq!(apply_source_edit(None, c, true, 1).unwrap_err(), "source not found");
}

#[test]
fn fetch_pass_subreddits_and_urls() {
    assert_eq!(feed_subreddits(&array(&["r/rust", "r/r/x", "", "r/"])), strs(&["rust", "x"]));
    assert_eq!(
        feed_subreddits(&JsonField::Array(vec![JsonItem::Other, JsonItem::Str("a".into())])),
        strs(&["a"])
    );
    assert_eq!(feed_subreddits(&JsonField::Text(" r/a , b,, ".into())), strs(&["a", "b"]));
    assert!(feed_subreddits(&JsonField::Other).is_empty());
    assert_eq!(feed_url("rust", "  "), "https://www.reddit.com/r/rust/.rss");
    assert_eq!(
        feed_url("rust", "async io"),
        "https://www.reddit.com/r/rust/search.rss?q=async+io&restrict_sr=1&sort=new"
    );
    assert_eq!(fresh_cap(0), 1);
    assert_eq!(fresh_cap(30), 30);
}

#[test]
fn entry_to_post() {
    assert_eq!(post_id_from_entry_id("t3_abc"), "abc");
    assert_eq!(post_id_from_entry_id("https://reddit.com/x/t3_q/zz"), "zz");
    assert_eq!(post_id_from_entry_id("t3_t3_a/b/"), "");
    let e = FeedEntry {
        id: "t3_xyz".into(),
        title: Some("T".into()),
        summary: None,
        content: Some(Some("body".into())),
        first_link: Some("https://www.reddit.com/r/x/comments/xyz".into()),
        first_author: None,
        published: Some(123),
    };
    let p = post_from_entry(&source(array(&["x"]), ""), "x", &e, 5);
    assert_eq!((p.post_id.as_str(), p.title.as_str(), p.selftext.as_str(), p.author.as_str()), ("xyz", "T", "body", ""));
    assert_eq!((p.created_utc, p.score, p.is_self, p.reddit_runner_id), (123, 0, true, Some(3)));
    assert_eq!(post_filter_content("T", "B"), "Title: T\n\nBody:\nB");
}

#[test]
fn urls_sent_for_scraping() {
    assert_eq!(
        extract_http_urls("see https://a.example/x). and http://b.example/y, ok"),
        strs(&["https://a.example/x", "http://b.example/y"])
    );
    assert!(scrape_targets(false, "https://a.example", "https://b.example").is_empty());
    assert_eq!(
        scrape_targets(true, "go to https://a.example.", "https://b.example/post"),
        strs(&["https://a.example", "https://b.example/post"])
    );
    assert_eq!(
        scrape_targets(true, "", "https://www.reddit.com/r/x"),
        Vec::<String>::new()
    );
}

#[test]
fn feeds_are_parsed() {
    let rss = br#"<?xml version="1.0"?><rss version="2.0"><channel><title>x</title>
<item><guid>t3_abc</guid><title>Hello</title><link>https://example.com/p</link><description>Body text</description></item>
</channel></rss>"#;
    let src = source(array(&["news"]), "");
    let posts = feed_posts(&src, "news", rss, 99).unwrap();
    assert_eq!(posts.len(), 1);
    assert_eq!(posts[0].post_id, "abc");
    assert_eq!(posts[0].title, "Hello");
    assert_eq!(posts[0].selftext, "Body text");
    assert_eq!(posts[0].permalink, "https://example.com/p");
    assert_eq!(posts[0].subreddit, "news");
    assert_eq!(posts[0].created_at, Some(99));
    assert!(feed_posts(&src, "news", b"not a feed", 99).is_none());
}

#[test]
fn posts_as_intel() {
    let k = RedditIntelKind::from(RedditPost {
        id: 5,
        reddit_runner_id: None,
        post_id: "p".into(),
        title: "Title".into(),
        selftext: "Text".into(),
        author: "a".into(),
        subreddit: "news".into(),
        permalink: "https://r/p".into(),
        url: "u".into(),
        created_utc: 0,
        score: 0,
        num_comments: 0,
        is_self: true,
        created_at: None,
        updated_at: None,
    });
    assert_eq!(k.content(), "r/news: Title\n\nText\n\nhttps://r/p");
    assert_eq!(k.kind(), "reddit");
    assert_eq!(k.intel_id(), 5);
    assert_eq!(k.intel_detail().unwrap(), "/seer-reddit/posts/5/");
    let mut reg = KindRegistry::new();
    register(&mut reg);
    StateHook::register_kinds(&mut reg);
    assert_eq!(reg.list_intel_kinds(), vec!["reddit".to_string()]);
}

#[test]
fn runners() {
    assert_eq!(runner_interval_secs(10), 60);
    assert_eq!(runner_interval_secs(300), 300);
    let args = AddWorkerArgs { worker_name: "  w ".into(), worker_duration: None, source_ids: vec![] };
    assert_eq!(new_worker_name(&args).unwrap(), "w");
    assert_eq!(new_worker_duration(&args), "5m");
    let blank = AddWorkerArgs { worker_name: " ".into(), worker_duration: Some("1h".into()), source_ids: vec![1] };
    assert_eq!(new_worker_name(&blank).unwrap_err(), "worker_name required");
    assert_eq!(new_worker_duration(&blank), "1h");
    assert_eq!(edited_worker_name("old", &Some(" new ".into())), "new");
    assert_eq!(edited_worker_name("old", &Some("  ".into())), "old");
    assert_eq!(edited_worker_name("old", &None), "old");
    assert!(delete_worker_check(4, 0).is_ok());
    assert_eq!(delete_worker_check(4, 2).unwrap_err(), "cannot delete runner 4: 2 source(s) still assigned");
    assert_eq!(runner_not_found_message(-3), "runner -3 not found");
    assert_eq!(source_ids_for_runner(&vec![(1, Some(2)), (3, None), (4, Some(2)), (5, Some(9))], 2), vec![1, 4]);
    assert_eq!(missing_object_arg_message("reddit_add_source"), "reddit_add_source requires an object argument");
    assert_eq!(invalid_args_message("x", "bad"), "invalid x arguments: bad");
}

#[test]
fn unset_select_page_filters_and_defaults_target() {
    let rows = vec![
        SourceSelectRow { id: 2, label: "r/UkraineNews".to_string() },
        SourceSelectRow { id: 1, label: "r/rust".to_string() },
    ];
    let q = SourceUnsetSelectQuery { name: Some("ukraine".to_string()), target_input: None };
    let p = unset_select_page(rows, &q, "/seer-reddit/sources/unset/select/?name=ukraine".to_string());
    assert_eq!(p.sources.len(), 1);
    assert_eq!(p.sources[0].id, 2);
    assert_eq!(p.filter_name, "ukraine");
    assert_eq!(p.target_input, "source_ids");
    assert_eq!(p.path_and_query, "/seer-reddit/sources/unset/select/?name=ukraine");
    assert_eq!(p.table_target(), "source_ids");
}

#[test]
fn select_tables_fill_given_or_default_input() {
    let mut page = RedditSourceUnsetSelectPage {
        sources: vec![],
        filter_name: String::new(),
        target_input: String::new(),
        path_and_query: String::new(),
    };
    assert_eq!(page.table_target(), "source_ids");
    page.target_input = "picked".to_string();
    assert_eq!(page.table_target(), "picked");
    let mut w = RedditWorkerSelectPage {
        runners: vec![WorkerSelectRow { id: 1, name: "w".to_string() }],
        filter_name: String::new(),
        target_input: String::new(),
        path_and_query: String::new(),
    };
    assert_eq!(w.table_target(), "reddit_runner_id");
    w.target_input = "runner".to_string();
    assert_eq!(w.table_target(), "runner");
}

#[test]
fn feed_progress_counts_only_stored_posts() {
    let p = start_feed(2);
    assert_eq!(p, FeedProgress { cap: 2, fresh: 0 });
    assert!(feed_wants_more(&p));
    let p = record_post(p, PostOutcome::AlreadyStored);
    let p = record_post(p, PostOutcome::Filtered);
    assert_eq!(p.fresh, 0);
    let p = record_post(p, PostOutcome::Stored);
    assert!(feed_wants_more(&p));
    let p = record_post(p, PostOutcome::Stored);
    assert_eq!(p.fresh, 2);
    assert!(!feed_wants_more(&p));
    let q = start_feed(-5);
    assert_eq!(q.cap, 1);
    assert!(!feed_wants_more(&record_post(q, PostOutcome::Stored)));
}

#[test]
fn media_timing_attributes_are_refused_before_parsing() {
    let with_time = br#"<?xml version="1.0"?><rss version="2.0" xmlns:media="http://search.yahoo.com/mrss/"><channel><title>x</title>
<item><guid>t3_a</guid><title>T</title><link>https://e.x/p</link><media:thumbnail url="u" time="99999999999999999999999"/></item>
</channel></rss>"#;
    assert!(!feed_bytes_checked(with_time));
    let src = source(array(&["news"]), "");
    assert!(feed_posts(&src, "news", with_time, 1).is_none());
    let spaced = b"<a end =\"1\"/>";
    assert!(!feed_bytes_checked(spaced));
    assert!(feed_bytes_checked(b"<a href=\"x?start=1&amp;time=2\">the end</a>"));
    assert!(!feed_bytes_checked(b"<a\x00>"));
    let thumb = br#"<?xml version="1.0"?><rss version="2.0" xmlns:media="http://search.yahoo.com/mrss/"><channel><title>x</title>
<item><guid>t3_a</guid><title>T</title><link>https://e.x/p</link><media:thumbnail url="u"/></item>
</channel></rss>"#;
    assert!(feed_bytes_checked(thumb));
    let posts = feed_posts(&src, "news", thumb, 1).unwrap();
    assert_eq!(posts[0].post_id, "t3_a".trim_start_matches("t3_"));
}

#[test]
fn posts_follow_entries_one_for_one() {
    let src = source(array(&["news"]), "");
    let e = |id: &str, link: Option<&str>| FeedEntry {
        id: id.to_string(),
        title: Some(format!("title {id}")),
        summary: None,
        content: Some(Some("body".to_string())),
        first_link: link.map(|l| l.to_string()),
        first_author: None,
        published: Some(5),
    };
    let entries = vec![e("t3_one", Some("https://r/1")), e("https://r/x/two", None)];
    let posts = posts_from_entries(&src, "news", &entries, 9);
    assert_eq!(posts.len(), 2);
    assert_eq!((posts[0].post_id.as_str(), posts[0].title.as_str()), ("one", "title t3_one"));
    assert_eq!((posts[1].post_id.as_str(), posts[1].selftext.as_str()), ("two", "body"));
    assert_eq!((posts[1].created_utc, posts[1].created_at), (5, Some(9)));
}

#[test]
fn url_matches_follow_the_pattern() {
    assert_eq!(extract_http_urls("see https:// http://a.b/c<d"), vec!["http://a.b/c".to_string()]);
    assert_eq!(extract_http_urls("xhttps://q.r'y httpx://no"), vec!["https://q.r".to_string()]);
    assert_eq!(extract_http_urls("(https://a.b/c).\u{3000}http://d"), vec!["https://a.b/c".to_string(), "http://d".to_string()]);
}

#[test]
fn assistant_worker_edits_and_deletes() {
    let row = RunnerRow { id: 3, name: "w".into(), duration_secs: 300, created_at: Some(1), updated_at: Some(1) };
    let args = EditWorkerArgs { reddit_runner_id: 3, worker_name: Some("  new ".into()), worker_duration: Some("x".into()), source_ids: None };
    assert_eq!(apply_worker_edit(None, &args, None, 5).unwrap_err(), "runner not found");
    assert_eq!(apply_worker_edit(Some(row.clone()), &args, Some(Err("bad duration".into())), 5).unwrap_err(), "bad duration");
    let w = apply_worker_edit(Some(row.clone()), &args, Some(Ok(600)), 5).unwrap();
    assert_eq!((w.id, w.name.as_str(), w.duration_secs, w.created_at, w.updated_at), (3, "new", 600, Some(1), Some(5)));
    let blank = EditWorkerArgs { reddit_runner_id: 3, worker_name: Some(" ".into()), worker_duration: None, source_ids: None };
    let k = apply_worker_edit(Some(row), &blank, None, 6).unwrap();
    assert_eq!((k.name.as_str(), k.duration_secs), ("w", 300));
    assert_eq!(delete_worker_step(false, 3, 0).unwrap_err(), "runner not found");
    assert_eq!(delete_worker_step(true, 3, 2).unwrap_err(), "cannot delete runner 3: 2 source(s) still assigned");
    assert!(delete_worker_step(true, 3, 0).is_ok());
    assert_eq!(delete_source_check(false).unwrap_err(), "source not found");
    assert!(delete_source_check(true).is_ok());
}
