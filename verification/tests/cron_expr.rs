use bpp_onest_lite::utils::cron::build_cron_expr;
use bpp_onest_lite::cron::{Scheduler, SchedulerPhase};
use bpp_onest_lite::config::{AppConfig, Bap, Bpp, CronConfig, HttpConfig, JobConfig,
    ProviderDb};

fn test_config(seconds: u64) -> AppConfig {
    AppConfig::new(
        false,
        false,
        Bpp {
            id: "bpp.example".to_string(),
            caller_uri: "http://bpp.example/callback".to_string(),
            domain: "example-domain".to_string(),
            version: "1.1.0".to_string(),
            ttl: "PT30S".to_string(),
        },
        HttpConfig { address: "0.0.0.0".to_string(), port: "8080".to_string() },
        ProviderDb { db_uri: "http://backend.example/".to_string() },
        Bap { caller_uri: "http://adapter.example".to_string() },
        CronConfig { fetch_profiles: JobConfig { seconds } },
    )
}

#[test]
fn sub_minute_period() {
    let (desc, expr) = build_cron_expr(5);
    assert_eq!(desc, "every 5 seconds");
    assert_eq!(expr, "*/5 * * * * *");
}

#[test]
fn whole_minute_period() {
    let (desc, expr) = build_cron_expr(120);
    assert_eq!(desc, "every 2 minutes");
    assert_eq!(expr, "0 */2 * * * *");
}

#[test]
fn mixed_period() {
    let (desc, expr) = build_cron_expr(90);
    assert_eq!(desc, "every 1 minutes 30 seconds");
    assert_eq!(expr, "0 */1 * * * *");
}

#[test]
fn scheduler_warms_up_then_steadies() {
    let config = test_config(300);
    let mut scheduler = Scheduler::new();
    assert!(matches!(scheduler.phase, SchedulerPhase::WarmingUp));
    assert_eq!(scheduler.next_fire_delay_secs(&config), 5);
    scheduler.fired();
    assert!(matches!(scheduler.phase, SchedulerPhase::Steady));
    assert_eq!(scheduler.next_fire_delay_secs(&config), 300);
    scheduler.fired();
    assert!(matches!(scheduler.phase, SchedulerPhase::Steady));
}
