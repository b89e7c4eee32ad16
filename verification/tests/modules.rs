use richard::bot::Module;
use richard::bot::TriggerOutcome;
use richard::hello::Hello;
use richard::roll::Roll;

#[test]
fn ping_answers_pong() {
    let mut p = richard::ping::Ping::new();
    match p.trigger("whatever /ping whatever") {
        TriggerOutcome::Replies(v) => assert_eq!(v, vec!["pong".to_string()]),
        _ => panic!("expected replies"),
    }
}

#[test]
fn roll_single_die_is_deterministic() {
    let r = Roll::gen(&"/roll 1d1".to_string());
    assert_eq!(r, Some("roll 1d1: 1".to_string()));
}

#[test]
fn roll_lists_dice_for_small_counts() {
    let r = Roll::gen(&"/roll 3d1".to_string()).unwrap();
    assert_eq!(r, "roll 3d1: (1+1+1) = 3");
}

#[test]
fn roll_skips_listing_for_large_counts() {
    let r = Roll::gen(&"/roll 100d1".to_string()).unwrap();
    assert_eq!(r, "roll 100d1: 100");
}

#[test]
fn roll_totals_stay_in_range() {
    for _ in 0..20 {
        let r = Roll::gen(&"/roll 2d6".to_string()).unwrap();
        let total: u64 = r.split(" = ").nth(1).unwrap().parse().unwrap();
        assert!((2..=12).contains(&total));
    }
}

#[test]
fn roll_rejects_malformed_and_out_of_range_requests() {
    assert_eq!(Roll::gen(&"no dice here".to_string()), None);
    assert_eq!(Roll::gen(&"/roll".to_string()), None);
    assert_eq!(Roll::gen(&"/roll 0d6".to_string()), None);
    assert_eq!(Roll::gen(&"/roll 1001d6".to_string()), None);
    assert_eq!(Roll::gen(&"/roll 1d0".to_string()), None);
    assert_eq!(Roll::gen(&"/roll 1d1001".to_string()), None);
    assert_eq!(Roll::gen(&"/roll 2x6".to_string()), None);
}

#[test]
fn roll_trigger_falls_back_to_usage_text() {
    let mut roll = Roll::new();
    match roll.trigger("/roll nonsense") {
        TriggerOutcome::Replies(v) => {
            assert_eq!(v.len(), 1);
            assert_eq!(v[0], Roll::help());
        }
        _ => panic!("expected replies"),
    }
}

#[test]
fn hello_skips_its_first_turn() {
    let mut h = Hello::new();
    assert!(h.run(0).is_none());
    let second = h.run(0).expect("a quote on the second turn");
    assert_eq!(second.len(), 1);
    assert!(second[0].contains(" \u{2014} "), "quote and author joined by an em dash");
}

#[test]
fn random_draws_stay_in_range() {
    for _ in 0..50 {
        let r = Roll::gen(&"/roll 1d6".to_string()).unwrap();
        let total: u64 = r.split(": ").nth(1).unwrap().parse().unwrap();
        assert!((1..=6).contains(&total));
    }
}

#[test]
fn capability_descriptors_are_as_declared() {
    let ping = richard::ping::Ping::new();
    let caps = ping.capabilities();
    assert_eq!(caps.triggers, Some(vec!["/ping".to_string()]));
    assert!(!caps.catch_all && !caps.catch_non_triggered);
    assert!(!caps.send_message && !caps.read_message && !caps.resp_message);

    let ollama = richard::ollama::Ollama::new("m", "http://o");
    let caps = ollama.capabilities();
    assert!(caps.catch_non_triggered);
    assert_eq!(caps.triggers, None);

    let mut webex = richard::webex::Webex::new("tok", "room");
    let caps = webex.capabilities();
    assert!(caps.send_message && caps.read_message && !caps.resp_message);
    assert_eq!(webex.name(), "webex");
    assert_eq!(webex.variation_durations(), vec![10]);
    assert!(webex.run(0).is_none());
}
