use richard::bot::Bot;
use richard::help::Help;
use richard::bot::MessageCtx;
use richard::bot::Module;
use richard::bot::ModuleCapabilities;
use richard::bot::ModuleInfo;
use richard::bot::ModuleParam;
use richard::bot::TriggerOutcome;
use richard::ping::Ping;
use richard::sched::ModuleLocks;
use richard::triggers::dispatch_plan;
use richard::triggers::Triggers;

enum TestModule {
    Ping(Ping),
    Fallback,
    CatchAll,
    Sender,
}

fn no_caps() -> ModuleCapabilities {
    ModuleCapabilities {
        triggers: None,
        catch_non_triggered: false,
        catch_all: false,
        send_message: false,
        read_message: false,
        resp_message: false,
    }
}

impl Module for TestModule {
    fn name(&self) -> &'static str {
        match self {
            TestModule::Ping(_) => "ping",
            TestModule::Fallback => "fallback",
            TestModule::CatchAll => "catchall",
            TestModule::Sender => "sender",
        }
    }

    fn params(&self) -> Vec<ModuleParam> {
        Vec::new()
    }

    fn capabilities(&self) -> ModuleCapabilities {
        match self {
            TestModule::Ping(p) => p.capabilities(),
            TestModule::Fallback => ModuleCapabilities { catch_non_triggered: true, ..no_caps() },
            TestModule::CatchAll => ModuleCapabilities { catch_all: true, ..no_caps() },
            TestModule::Sender => ModuleCapabilities { send_message: true, ..no_caps() },
        }
    }

    fn variation_durations(&self) -> Vec<u64> {
        match self {
            TestModule::Ping(_) => vec![100],
            _ => vec![50, 60],
        }
    }

    fn module_offering(&mut self, _modules: &Vec<ModuleInfo>) {}

    fn run(&mut self, _variation: usize) -> Option<Vec<String>> {
        None
    }

    fn trigger(&mut self, message: &str) -> TriggerOutcome {
        match self {
            TestModule::Ping(p) => p.trigger(message),
            TestModule::Fallback => {
                TriggerOutcome::Replies(vec![format!("fallback:{}", message)])
            }
            TestModule::CatchAll => TriggerOutcome::Replies(vec!["seen".to_string()]),
            TestModule::Sender => TriggerOutcome::Ignored,
        }
    }
}

fn replies(outcome: &TriggerOutcome) -> Vec<String> {
    match outcome {
        TriggerOutcome::Replies(v) => v.clone(),
        _ => panic!("expected replies"),
    }
}

#[test]
fn ping_and_fallback_scenario() {
    // Module A answers "/ping" with "pong"; module B catches what nothing
    // matched. "/ping" reaches only A, "hello" reaches only B.
    let mut bot: Bot<TestModule> = Bot::new();
    bot.register(true, Some(TestModule::Ping(Ping::new())));
    bot.register(true, Some(TestModule::Fallback));
    let snap = bot.snapshot();
    let mut router = Triggers::new();
    router.module_offering(&snap);
    assert_eq!(router.trigger_modules, vec![0, 1]);

    let out = router.process_message(&mut bot, &MessageCtx::new("/ping", "id-1"));
    assert_eq!(out.len(), 1);
    assert_eq!(out[0].module, 0);
    assert_eq!(replies(&out[0].outcome), vec!["pong".to_string()]);

    let out = router.process_message(&mut bot, &MessageCtx::new("hello", "id-2"));
    assert_eq!(out.len(), 1);
    assert_eq!(out[0].module, 1);
    assert_eq!(replies(&out[0].outcome), vec!["fallback:hello".to_string()]);
}

#[test]
fn catch_all_fires_on_both_tiers() {
    let mut bot: Bot<TestModule> = Bot::new();
    bot.register(true, Some(TestModule::Ping(Ping::new())));
    bot.register(true, Some(TestModule::CatchAll));
    bot.register(true, Some(TestModule::Fallback));
    let snap = bot.snapshot();
    let mut router = Triggers::new();
    router.module_offering(&snap);

    // A matched message invokes the matching module and the catch-all, never
    // the fallback.
    let out = router.process_message(&mut bot, &MessageCtx::new("say /ping now", "id-3"));
    let modules: Vec<usize> = out.iter().map(|d| d.module).collect();
    assert_eq!(modules, vec![0, 1]);

    // An unmatched message invokes the catch-all and the fallback.
    let out = router.process_message(&mut bot, &MessageCtx::new("nothing here", "id-4"));
    let modules: Vec<usize> = out.iter().map(|d| d.module).collect();
    assert_eq!(modules, vec![1, 2]);
}

#[test]
fn trigger_matching_is_case_sensitive_substring() {
    let mut bot: Bot<TestModule> = Bot::new();
    bot.register(true, Some(TestModule::Ping(Ping::new())));
    let snap = bot.snapshot();
    let mut router = Triggers::new();
    router.module_offering(&snap);

    let out = router.process_message(&mut bot, &MessageCtx::new("/PING", "id-5"));
    assert_eq!(out.len(), 0, "matching is case-sensitive");
    let out = router.process_message(&mut bot, &MessageCtx::new("xx/pingyy", "id-6"));
    assert_eq!(out.len(), 1, "any containment matches");
}

#[test]
fn dispatch_plan_over_snapshot() {
    let infos = vec![
        ModuleInfo {
            name: "a".to_string(),
            capabilities: ModuleCapabilities {
                triggers: Some(vec!["/a".to_string()]),
                ..no_caps()
            },
            variation_durations: vec![1],
        },
        ModuleInfo {
            name: "b".to_string(),
            capabilities: ModuleCapabilities { catch_non_triggered: true, ..no_caps() },
            variation_durations: vec![1],
        },
    ];
    let cands = vec![0, 1];
    assert_eq!(dispatch_plan(&infos, &cands, "try /a"), vec![0]);
    assert_eq!(dispatch_plan(&infos, &cands, "try /b"), vec![1]);
}

#[test]
fn registration_policy() {
    let mut bot: Bot<TestModule> = Bot::new();
    bot.register(false, Some(TestModule::Fallback));
    assert_eq!(bot.modules.len(), 0, "disabled modules are skipped");
    bot.register(true, None);
    assert_eq!(bot.modules.len(), 0, "misconfigured modules are skipped");
    bot.register(true, Some(TestModule::Fallback));
    assert_eq!(bot.modules.len(), 1);
    assert_eq!(bot.modules[0].name, "fallback");
}

#[test]
fn broadcast_targets_are_exactly_the_send_capable() {
    let mut bot: Bot<TestModule> = Bot::new();
    bot.register(true, Some(TestModule::Sender));
    bot.register(true, Some(TestModule::Ping(Ping::new())));
    bot.register(true, Some(TestModule::Sender));
    assert_eq!(bot.send_targets(), vec![0, 2]);
}

#[test]
fn worker_plan_covers_every_variation() {
    let mut bot: Bot<TestModule> = Bot::new();
    bot.register(true, Some(TestModule::Ping(Ping::new())));
    bot.register(true, Some(TestModule::Sender));
    let plan = bot.worker_plan();
    let triples: Vec<(usize, usize, u64)> =
        plan.iter().map(|w| (w.module, w.variation, w.cooldown_s)).collect();
    assert_eq!(triples, vec![(0, 0, 100), (1, 0, 50), (1, 1, 60)]);
}

#[test]
fn help_module_harvests_and_lists_commands() {
    let mut help = Help::new();
    let infos = vec![
        ModuleInfo {
            name: "a".to_string(),
            capabilities: ModuleCapabilities {
                triggers: Some(vec!["/ping".to_string(), "/roll".to_string()]),
                ..no_caps()
            },
            variation_durations: vec![1],
        },
        ModuleInfo {
            name: "b".to_string(),
            capabilities: ModuleCapabilities {
                triggers: Some(vec!["/ping".to_string()]),
                ..no_caps()
            },
            variation_durations: vec![1],
        },
    ];
    help.module_offering(&infos);
    assert_eq!(help.commands, vec!["/ping".to_string(), "/roll".to_string()]);
    let out = help.trigger("/help");
    match out {
        TriggerOutcome::Replies(v) => {
            assert_eq!(v, vec!["Available commands are:\n- /ping\n- /roll\n".to_string()]);
        }
        _ => panic!("expected replies"),
    }
}

#[test]
fn bot_help_text_lists_params_once() {
    let mut bot: Bot<TestModule> = Bot::new();
    bot.register(true, Some(TestModule::Ping(Ping::new())));
    let text = bot.help();
    assert_eq!(
        text,
        "# 'ping' module parameters\n- BOT_MODULE_PING_ENABLED: enable module ping (optional: false)\n\n"
    );
}

#[test]
fn variations_of_one_module_exclude_each_other() {
    // three workers: two variations of module 5, one of module 7
    let mut locks = ModuleLocks::new(3);
    assert!(locks.violation_free());
    assert!(locks.try_acquire(0, 5), "a free module is acquired");
    assert!(!locks.try_acquire(1, 5), "the sibling variation must wait");
    assert!(locks.try_acquire(2, 7), "a different module runs concurrently");
    assert!(locks.violation_free());
    locks.release(0);
    assert!(locks.try_acquire(1, 5), "the sibling runs once the module is free");
    assert!(locks.violation_free());
    assert!(!locks.try_acquire(1, 7), "a busy worker acquires nothing");
}
