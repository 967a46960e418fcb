use mega_downloader::aria2::{Aria2Client, AriaConfig};
use mega_downloader::error::Error;
use mega_downloader::settings::{
    aria2_config, aria2_status, build_downloader, get_settings, job_dest, resolve_concurrency,
    resolve_dest, save_settings, upsert_or_clear, Aria2Report, EnvSettings, SettingWrite,
    SettingsReq, StoredSettings,
};
use mega_downloader::PathMapping;

fn some(s: &str) -> Option<String> {
    Some(s.to_string())
}

fn put(key: &str, value: &str) -> SettingWrite {
    SettingWrite::Put { key: key.to_string(), value: value.to_string() }
}

fn clear(key: &str) -> SettingWrite {
    SettingWrite::Clear { key: key.to_string() }
}

fn nothing() -> SettingsReq {
    SettingsReq {
        rd_token: None,
        download_dir: None,
        concurrency: None,
        aria2_rpc_url: None,
        aria2_rpc_secret: None,
        max_download_speed: None,
    }
}

fn empty() -> StoredSettings {
    StoredSettings {
        rd_token: None,
        download_dir: None,
        concurrency: None,
        aria2_rpc_url: None,
        aria2_rpc_secret: None,
        max_download_speed: None,
    }
}

fn no_env() -> EnvSettings {
    EnvSettings {
        aria2_rpc_url: None,
        aria2_secret: None,
        aria2_rpc_secret: None,
        max_download_speed: None,
    }
}

#[test]
fn omitted_fields_change_nothing() {
    assert!(save_settings(&nothing()).is_empty());
}

#[test]
fn fields_are_trimmed_and_blank_ones_clear() {
    let req = SettingsReq {
        rd_token: some(" tok "),
        download_dir: some(""),
        concurrency: Some(99),
        aria2_rpc_url: some("http://x"),
        aria2_rpc_secret: some(" \t"),
        max_download_speed: some("5M"),
    };
    assert_eq!(
        save_settings(&req),
        vec![
            put("rd_token", "tok"),
            clear("download_dir"),
            put("concurrency", "16"),
            put("aria2_rpc_url", "http://x"),
            clear("aria2_rpc_secret"),
            put("max_download_speed", "5M"),
        ]
    );
    assert_eq!(upsert_or_clear("k", " v"), put("k", "v"));
    assert_eq!(upsert_or_clear("k", " "), clear("k"));
}

#[test]
fn saved_concurrency_is_in_range() {
    for (asked, saved) in [(0, "1"), (1, "1"), (8, "8"), (17, "16"), (u32::MAX, "16")] {
        let req = SettingsReq { concurrency: Some(asked), ..nothing() };
        assert_eq!(save_settings(&req), vec![put("concurrency", saved)]);
        let n: usize = saved.parse().unwrap();
        assert_eq!(resolve_concurrency(&some(saved)), n);
    }
}

#[test]
fn concurrency_falls_back_to_the_default() {
    assert_eq!(resolve_concurrency(&None), 4);
    assert_eq!(resolve_concurrency(&some("many")), 4);
    assert_eq!(resolve_concurrency(&some("-1")), 4);
    assert_eq!(resolve_concurrency(&some("0")), 1);
    assert_eq!(resolve_concurrency(&some("+3")), 3);
    assert_eq!(resolve_concurrency(&some("1000")), 16);
}

#[test]
fn destinations_fall_back_to_the_default() {
    assert_eq!(resolve_dest(&some("/mine "), "/default"), "/mine ");
    assert_eq!(resolve_dest(&some("  "), "/default"), "/default");
    assert_eq!(resolve_dest(&None, "/default"), "/default");
    assert_eq!(job_dest(some("/job"), "/default"), "/job");
    assert_eq!(job_dest(None, "/default"), "/default");
}

#[test]
fn secrets_are_not_reported() {
    let stored = StoredSettings {
        rd_token: some("tok"),
        aria2_rpc_secret: some("sec"),
        aria2_rpc_url: some("http://x"),
        concurrency: some("2"),
        ..empty()
    };
    let report = get_settings(&stored, "/default");
    assert!(report.rd_token_set && report.aria2_rpc_secret_set);
    assert_eq!(report.download_dir, "/default");
    assert_eq!(report.concurrency, 2);
    assert_eq!(report.aria2_rpc_url, "http://x");
    assert_eq!(report.max_download_speed, "");
    let others = StoredSettings {
        rd_token: some("another"),
        aria2_rpc_secret: some("one"),
        ..stored
    };
    assert_eq!(get_settings(&others, "/default"), report);
    let none = get_settings(&empty(), "/default");
    assert!(!none.rd_token_set && !none.aria2_rpc_secret_set);
}

#[test]
fn aria2_is_off_without_a_url() {
    assert_eq!(aria2_config(&empty(), &no_env()), None);
    let blank = StoredSettings { aria2_rpc_url: some(" "), ..empty() };
    assert_eq!(aria2_config(&blank, &no_env()), None);
    let env = EnvSettings { aria2_rpc_url: some("  "), ..no_env() };
    assert_eq!(aria2_config(&empty(), &env), None);
}

#[test]
fn saved_values_override_the_environment() {
    let env = EnvSettings {
        aria2_rpc_url: some(" http://env "),
        aria2_secret: some("first"),
        aria2_rpc_secret: some("second"),
        max_download_speed: some("1M"),
    };
    assert_eq!(
        aria2_config(&empty(), &env),
        Some(AriaConfig {
            rpc_url: some("http://env"),
            secret: some("first"),
            max_download_limit: some("1M"),
        })
    );
    let stored = StoredSettings {
        aria2_rpc_url: some("http://db"),
        aria2_rpc_secret: some("mine"),
        max_download_speed: some("2M"),
        ..empty()
    };
    assert_eq!(
        aria2_config(&stored, &env),
        Some(AriaConfig {
            rpc_url: some("http://db"),
            secret: some("mine"),
            max_download_limit: some("2M"),
        })
    );
}

#[test]
fn the_second_secret_variable_is_a_fallback() {
    let env = EnvSettings {
        aria2_rpc_url: some("http://env"),
        aria2_rpc_secret: some("second"),
        ..no_env()
    };
    assert_eq!(aria2_config(&empty(), &env).unwrap().secret.as_deref(), Some("second"));
}

#[test]
fn downloads_are_unlimited_by_default() {
    let stored = StoredSettings { aria2_rpc_url: some("http://x"), ..empty() };
    let limit = |s: &StoredSettings, e: &EnvSettings| {
        aria2_config(s, e).unwrap().max_download_limit
    };
    assert_eq!(limit(&stored, &no_env()), None);
    let fast = StoredSettings { max_download_speed: some("50M"), ..stored.clone() };
    assert_eq!(limit(&fast, &no_env()), some("50M"));
    let blank_env = EnvSettings { max_download_speed: some(" "), ..no_env() };
    assert_eq!(limit(&stored, &blank_env), None);
    // A blank value that is stored hides the environment's.
    let blank = StoredSettings { max_download_speed: some(" "), ..stored };
    let env = EnvSettings { max_download_speed: some("1M"), ..no_env() };
    assert_eq!(limit(&blank, &env), None);
    assert_eq!(limit(&blank, &no_env()), None);
}

#[test]
fn configs_in_effect_make_a_client() {
    let env = EnvSettings { aria2_rpc_url: some(" http://env "), ..no_env() };
    let cfg = aria2_config(&empty(), &env).unwrap();
    assert!(cfg.enabled());
    assert_eq!(Aria2Client::from_config(&cfg).unwrap().url, "http://env");
}

#[test]
fn downloaders_are_built_from_settings() {
    let cfg = AriaConfig {
        rpc_url: some("http://x"),
        secret: some("s"),
        max_download_limit: some("3M"),
    };
    let mappings = vec![PathMapping::new("/rd", "/mnt")];
    let dl = build_downloader("/d", &some("7"), &Some(cfg), mappings.clone());
    assert_eq!(dl.dest_root, "/d");
    assert_eq!(dl.concurrency, 7);
    assert!(dl.aria2_enabled());
    assert_eq!(dl.max_download_speed.as_deref(), Some("3M"));
    assert_eq!(dl.path_mappings, mappings);
    let plain = build_downloader("/d", &None, &None, Vec::new());
    assert_eq!(plain.concurrency, 4);
    assert!(!plain.aria2_enabled());
    assert!(plain.path_mappings.is_empty());
}

#[test]
fn aria2_is_reported_in_four_ways() {
    let cfg = AriaConfig { rpc_url: some("http://x"), secret: None, max_download_limit: some("5M") };
    assert_eq!(aria2_status(None, None), Aria2Report::NotConfigured);
    assert_eq!(
        aria2_status(Some(cfg.clone()), None),
        Aria2Report::Invalid { error: "invalid Aria2 config".to_string() }
    );
    assert_eq!(
        aria2_status(Some(cfg.clone()), Some(Ok("1.37.0".to_string()))),
        Aria2Report::Connected {
            version: "1.37.0".to_string(),
            max_download_speed: some("5M"),
        }
    );
    assert_eq!(
        aria2_status(Some(cfg), Some(Err(Error::Http("refused".to_string())))),
        Aria2Report::Unreachable {
            error: "http error: refused".to_string(),
            max_download_speed: some("5M"),
        }
    );
}
