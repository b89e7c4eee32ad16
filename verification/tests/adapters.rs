use richard::bot::Module;
use richard::bot::TriggerOutcome;
use richard::down_detectors::DownDetector;
use richard::down_detectors::DownDetectors;
use richard::feeds::Feed;
use richard::feeds::FeedEntry;
use richard::feeds::Feeds;
use richard::feeds::select_latest;
use richard::github::calculate_hash;
use richard::github::Release;
use richard::github::Repo;
use richard::github_orgs::GithubOrg;
use richard::github_orgs::GithubRepoLight;
use richard::github_repos::GithubRepo;
use richard::ollama::Ollama;
use richard::osc::Endpoint;
use richard::osc::EndpointError;
use richard::outscale_api_versions::OutscaleApiVersions;
use richard::outscale_api_versions::VersionEndpoint;
use richard::webex::sort_by_created;
use richard::webex::WebexAgent;
use richard::webex::WebexMessage;
use richard::webpages::Webpage;
use richard::webpages::Webpages;

fn entry(id: &str, title: Option<&str>, link: Option<&str>, published: Option<i64>) -> FeedEntry {
    FeedEntry {
        id: id.to_string(),
        title: title.map(|t| t.to_string()),
        link: link.map(|l| l.to_string()),
        published,
    }
}

#[test]
fn rfc3339_dates_drive_the_age_rule() {
    // published at epoch 0: ancient against any later clock
    let dated = |p: &str| Release {
        html_url: String::new(),
        tag_name: "v".to_string(),
        name: "v".to_string(),
        prerelease: false,
        draft: false,
        body: String::new(),
        published_at: Some(p.to_string()),
    };
    assert!(dated("1970-01-01T00:00:00Z").is_too_old(864000));
    assert!(!dated("1970-01-01T00:00:00Z").is_too_old(863999));
    // timezone offsets denote the same instant
    assert!(dated("2024-01-01T01:00:00+01:00").is_too_old(1704067200 + 864000));
    assert!(!dated("2024-01-01T01:00:00+01:00").is_too_old(1704067200 + 863999));
    // an unreadable date never counts as old
    assert!(!dated("not a date").is_too_old(i64::MAX));
    assert!(!dated("").is_too_old(i64::MAX));
}

#[test]
fn release_rules() {
    let repo = Repo {
        name: "proj".to_string(),
        full_name: "org/proj".to_string(),
        archived: false,
        fork: false,
    };
    let release = Release {
        html_url: "https://example.test/r/1".to_string(),
        tag_name: "v1.2.3".to_string(),
        name: "v1.2.3".to_string(),
        prerelease: false,
        draft: false,
        body: String::new(),
        published_at: Some("2024-01-01T00:00:00Z".to_string()),
    };
    assert!(!release.is_not_official());
    assert!(!repo.is_not_maintained());
    assert_eq!(
        release.get_notification_message(&repo),
        "\u{1f44b} Release de [proj v1.2.3](https://example.test/r/1)"
    );
    // ten days minus one second later: not yet too old; at ten days: too old
    assert!(!release.is_too_old(1704067200 + 864000 - 1));
    assert!(release.is_too_old(1704067200 + 864000));
    // no or unreadable date: never too old
    let undated = Release { published_at: None, ..release };
    assert!(!undated.is_too_old(i64::MAX));
}

#[test]
fn hash_is_stable_within_a_run() {
    let a = calculate_hash(&"v1.2.3".to_string());
    let b = calculate_hash(&"v1.2.3".to_string());
    assert_eq!(a, b);
}

#[test]
fn repo_watcher_announces_only_new_recent_releases() {
    let mk = |tag: &str, published: Option<&str>| richard::github_repos::Release {
        html_url: format!("https://example.test/{}", tag),
        tag_name: tag.to_string(),
        name: tag.to_string(),
        prerelease: false,
        draft: false,
        body: String::new(),
        published_at: published.map(|p| p.to_string()),
    };
    let now = 1704067200; // 2024-01-01
    let mut watcher = GithubRepo::new("org/proj", "demo-token");
    assert_eq!(watcher.is_maintained(), None);
    watcher.set_details(richard::github_repos::GithubRepoLight { archived: false, fork: false });
    assert_eq!(watcher.is_maintained(), Some(true));

    // the first batch only primes the memory
    assert!(watcher.absorb(Some(vec![mk("v1", None)]), now).is_none());
    // a failed fetch changes nothing
    assert!(watcher.absorb(None, now).is_none());
    // a new recent release is announced once; the old one is not repeated
    let msgs = watcher
        .absorb(Some(vec![mk("v1", None), mk("v2", Some("2023-12-31T00:00:00Z"))]), now)
        .expect("one announcement");
    assert_eq!(msgs, vec!["\u{1f44b} Release de [org/proj v2](https://example.test/v2)".to_string()]);
    // absorbing the same batch again announces nothing
    assert!(watcher
        .absorb(Some(vec![mk("v1", None), mk("v2", Some("2023-12-31T00:00:00Z"))]), now)
        .is_none());
    // a new but stale release is remembered yet not announced
    assert!(watcher.absorb(Some(vec![mk("v0", Some("2023-01-01T00:00:00Z"))]), now).is_none());
    assert!(watcher.absorb(Some(vec![mk("v0", Some("2023-01-01T00:00:00Z"))]), now).is_none());
}

#[test]
fn org_watcher_keeps_one_watcher_per_listed_repo() {
    let mut org = GithubOrg::new("org", "demo-token");
    org.update_repo_listing(vec![
        GithubRepoLight { full_name: "org/a".to_string() },
        GithubRepoLight { full_name: "org/b".to_string() },
    ]);
    assert_eq!(org.repos.len(), 2);
    org.update_repo_listing(vec![GithubRepoLight { full_name: "org/b".to_string() }]);
    assert_eq!(org.repos.len(), 2, "known repositories stay");
}

#[test]
fn endpoint_version_changes_are_reported_after_first_sighting() {
    let mut e = Endpoint::new("eu".to_string(), "https://api.test".to_string());
    assert_eq!(e.update_version(None), None);
    assert_eq!(e.update_version(Some("1.0".to_string())), None, "first sighting is silent");
    assert_eq!(e.update_version(Some("1.0".to_string())), None);
    assert_eq!(e.update_version(Some("1.1".to_string())), Some("1.1".to_string()));
}

#[test]
fn endpoint_transition_messages() {
    let mut e = Endpoint::new("eu".to_string(), "https://api.test".to_string());
    let mut down_msg = None;
    for _ in 0..6 {
        if let Some(m) = e.alive(Err(EndpointError::Code(503))) {
            down_msg = Some(m);
        }
    }
    assert_eq!(
        down_msg.expect("a message on the transition"),
        "eu region: API has been very properly put in maintenance mode by the wonderful ops team, thanks for your understanding"
    );
    let mut up_msg = None;
    for _ in 0..3 {
        if let Some(m) = e.alive(Ok(())) {
            up_msg = Some(m);
        }
    }
    assert_eq!(up_msg.expect("a message on recovery"), "API on eu region is up");
}

#[test]
fn endpoint_agent_failures_stay_silent() {
    let mut e = Endpoint::new("eu".to_string(), "https://api.test".to_string());
    let mut messages = 0;
    for _ in 0..10 {
        if e.alive(Err(EndpointError::AgentInit("boom".to_string()))).is_some() {
            messages += 1;
        }
    }
    assert_eq!(messages, 0, "the bot's own failures are logged, not broadcast");
}

#[test]
fn down_detector_round() {
    let mut dd = DownDetectors::new();
    dd.add_watch(DownDetector::new("svc".to_string(), "https://svc.test".to_string()));
    // six failing liveness rounds: one transition message with the reason
    let mut messages = Vec::new();
    for _ in 0..6 {
        messages.extend(dd.run_alive(&vec![Some(EndpointError::Code(500))]));
    }
    assert_eq!(messages, vec!["svc: API is down (error code: 500)".to_string()]);
    // error-rate rounds: a warning only once the window is full and high
    let mut warned = false;
    for _ in 0..100 {
        warned = !dd.run_error_rate(&vec![true]).is_empty();
    }
    assert!(warned, "a full window of failures is a high error rate");
    let report = match dd.trigger("/status") {
        TriggerOutcome::Replies(v) => v,
        _ => panic!("expected replies"),
    };
    assert_eq!(report.len(), 1);
    assert!(report[0].starts_with("svc: alive=false, error_rate="));
}

#[test]
fn webpage_change_detection() {
    let mut p = Webpage::new("docs", "https://docs.test");
    assert!(!p.changed(None));
    assert!(!p.changed(Some("v1".to_string())), "the first body only primes");
    assert!(!p.changed(Some("v1".to_string())));
    assert!(p.changed(Some("v2".to_string())));
    assert!(!p.changed(None), "a failed fetch is not a change");

    let mut pages = Webpages::new();
    pages.add_page(Webpage::new("docs", "https://docs.test"));
    assert!(pages.run_with(vec![Some("v1".to_string())]).is_none());
    let msgs = pages.run_with(vec![Some("v2".to_string())]).expect("one change");
    assert_eq!(msgs, vec!["[docs](https://docs.test) has changed".to_string()]);
}

#[test]
fn feed_updates_and_announcements() {
    let mut f = Feed::new("blog".to_string(), "https://blog.test/rss".to_string());
    assert!(!f.update(Some(entry("e1", Some("First"), Some("https://blog.test/1"), None))));
    assert!(f.update(Some(entry("e2", Some("Second"), None, None))));
    assert_eq!(f.announce(), Some("New post on blog: Second".to_string()));
    assert!(!f.update(None));

    let mut feeds = Feeds::new();
    feeds.add_feed(Feed::new("blog".to_string(), "https://blog.test/rss".to_string()));
    assert!(feeds.run_with(vec![Some(entry("e1", None, None, None))]).is_none());
    let msgs = feeds
        .run_with(vec![Some(entry("e2", None, Some("https://blog.test/2"), None))])
        .expect("one announcement");
    assert_eq!(msgs, vec!["New post on [blog](https://blog.test/2)".to_string()]);
}

#[test]
fn latest_entry_selection() {
    assert!(select_latest(&vec![]).is_none());
    let undated = vec![entry("a", None, None, None), entry("b", None, None, None)];
    assert_eq!(select_latest(&undated).unwrap().id, "a");
    let mixed = vec![
        entry("a", None, None, Some(5)),
        entry("b", None, None, None),
        entry("c", None, None, Some(9)),
        entry("d", None, None, Some(9)),
    ];
    assert_eq!(select_latest(&mixed).unwrap().id, "c", "first of the freshest wins");
}

#[test]
fn version_endpoints_report() {
    let mut m = OutscaleApiVersions::new();
    m.add_endpoint(VersionEndpoint::new("eu".to_string(), "https://api.test".to_string()));
    assert!(m.run_version(vec![Some("1.0".to_string())]).is_none());
    let msgs = m.run_version(vec![Some("1.1".to_string())]).expect("a change notice");
    assert_eq!(msgs, vec!["New API version on eu: 1.1".to_string()]);
    let report = match m.trigger("/oapi-versions") {
        TriggerOutcome::Replies(v) => v,
        _ => panic!("expected replies"),
    };
    assert_eq!(report, vec!["eu: version=1.1\n".to_string()]);
}

#[test]
fn version_report_names_unknown_versions() {
    let mut m = OutscaleApiVersions::new();
    m.add_endpoint(VersionEndpoint::new("eu".to_string(), "https://api.test".to_string()));
    let report = match m.trigger("/oapi-versions") {
        TriggerOutcome::Replies(v) => v,
        _ => panic!("expected replies"),
    };
    assert_eq!(report, vec!["eu: version=unkown\n".to_string()]);
}

fn msg(id: &str, text: &str, created: &str) -> WebexMessage {
    WebexMessage { id: id.to_string(), text: text.to_string(), created: created.to_string() }
}

#[test]
fn webex_messages_sort_by_timestamp() {
    let sorted = sort_by_created(&vec![
        msg("b", "second", "2024-01-02"),
        msg("a", "first", "2024-01-01"),
        msg("c", "third", "2024-01-03"),
    ]);
    let ids: Vec<&str> = sorted.iter().map(|m| m.id.as_str()).collect();
    assert_eq!(ids, vec!["a", "b", "c"]);
}

#[test]
fn webex_watermark_deduplicates() {
    let mut agent = WebexAgent::new("demo-token", "room-1");
    assert_eq!(agent.auth_header, "Bearer demo-token");
    // first fetch: the backlog is swallowed, the watermark seeds
    let out = agent.sift_unread(sort_by_created(&vec![
        msg("a", "old", "2024-01-01"),
        msg("b", "older", "2023-12-31"),
    ]));
    assert!(out.is_empty());
    assert_eq!(agent.last_unread_message_date.as_deref(), Some("2024-01-01"));
    // later fetches: only strictly newer messages pass, newest last
    let out = agent.sift_unread(sort_by_created(&vec![
        msg("c", "new", "2024-01-02"),
        msg("a", "old", "2024-01-01"),
        msg("d", "newer", "2024-01-03"),
    ]));
    let ids: Vec<&str> = out.iter().map(|m| m.id.as_str()).collect();
    assert_eq!(ids, vec!["c", "d"]);
    assert_eq!(agent.last_unread_message_date.as_deref(), Some("2024-01-03"));
    // nothing new: nothing passes, the watermark stays
    let out = agent.sift_unread(sort_by_created(&vec![msg("a", "old", "2024-01-01")]));
    assert!(out.is_empty());
    assert_eq!(agent.last_unread_message_date.as_deref(), Some("2024-01-03"));
}

#[test]
fn webex_empty_first_fetch_seeds_zero_watermark() {
    let mut agent = WebexAgent::new("demo-token", "room-1");
    let out = agent.sift_unread(Vec::new());
    assert!(out.is_empty());
    assert_eq!(agent.last_unread_message_date.as_deref(), Some("0"));
}

#[test]
fn ollama_replies_or_apologises() {
    let mut o = Ollama::new("model-x", "https://llm.test");
    assert_eq!(o.prompt_url(), "https://llm.test/api/generate");
    assert_eq!(Ollama::reply_or_apology(Some("hi".to_string())), "hi");
    assert_eq!(
        Ollama::reply_or_apology(None),
        "Sorry, I can't respond to that right now."
    );
    o.set_context(Some(vec![1, 2, 3]));
    assert_eq!(o.context, vec![1, 2, 3]);
    o.set_context(None);
    assert_eq!(o.context, vec![1, 2, 3]);
}
