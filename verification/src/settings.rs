//! Settings: what the user saves, what is reported back, and what takes
//! effect.

use crate::aria2::{self, AriaConfig};
use crate::decimal::{self, decimal_u64, parse_usize};
use crate::downloader::{self, clamp_concurrency, Downloader, DEFAULT_CONCURRENCY};
use crate::error::Error;
use crate::pathmap::PathMapping;
use crate::text::{self, is_blank, trimmed};
use vstd::prelude::*;

verus! {

/// A request to save settings.
#[derive(Debug, Clone, PartialEq, Eq)]
pub struct SettingsReq {
    pub rd_token: Option<String>,
    pub download_dir: Option<String>,
    pub concurrency: Option<u32>,
    pub aria2_rpc_url: Option<String>,
    pub aria2_rpc_secret: Option<String>,
    pub max_download_speed: Option<String>,
}

/// A change to the `settings` table.
#[derive(Debug, Clone, PartialEq, Eq)]
pub enum SettingWrite {
    Put { key: String, value: String },
    Clear { key: String },
}

/// The contents of a change.
pub ghost enum WriteView {
    Put { key: Seq<char>, value: Seq<char> },
    Clear { key: Seq<char> },
}

impl View for SettingWrite {
    type V = WriteView;

    open spec fn view(&self) -> WriteView {
        match *self {
            SettingWrite::Put { key, value } => WriteView::Put { key: key@, value: value@ },
            SettingWrite::Clear { key } => WriteView::Clear { key: key@ },
        }
    }
}

/// The views of a list of changes.
pub open spec fn write_views(writes: Seq<SettingWrite>) -> Seq<WriteView> {
    writes.map_values(|w: SettingWrite| w@)
}

// ---------------------------------------------------------------------------
// Saving
// ---------------------------------------------------------------------------

/// The change for a text setting: a value with nothing but white space clears
/// it (so that the engine falls back to its default).
pub open spec fn upserted(key: Seq<char>, value: Seq<char>) -> WriteView {
    if text::blank(value) {
        WriteView::Clear { key }
    } else {
        WriteView::Put { key, value: text::trim(value) }
    }
}

/// The changes for a text setting that may be left out.
pub open spec fn text_writes(key: Seq<char>, value: Option<String>) -> Seq<WriteView> {
    match value {
        Some(v) => seq![upserted(key, v@)],
        None => Seq::empty(),
    }
}

/// The changes for the number of parallel downloads.
pub open spec fn concurrency_writes(value: Option<u32>) -> Seq<WriteView> {
    match value {
        Some(c) => seq![
            WriteView::Put {
                key: "concurrency"@,
                value: decimal::decimal(downloader::clamped(c as int)),
            },
        ],
        None => Seq::empty(),
    }
}

/// The changes for a request.
pub open spec fn writes_for(req: SettingsReq) -> Seq<WriteView> {
    text_writes("rd_token"@, req.rd_token) + text_writes("download_dir"@, req.download_dir)
        + concurrency_writes(req.concurrency) + text_writes("aria2_rpc_url"@, req.aria2_rpc_url)
        + text_writes("aria2_rpc_secret"@, req.aria2_rpc_secret) + text_writes(
        "max_download_speed"@,
        req.max_download_speed,
    )
}

/// Sets a setting, or clears it when the new value is empty.
pub fn upsert_or_clear(key: &str, value: &str) -> (r: SettingWrite)
    ensures
        r@ == upserted(key@, value@),
        text::blank(value@) ==> (r matches SettingWrite::Clear { key: k } && k@ == key@),
        !text::blank(value@) ==> (r matches SettingWrite::Put { key: k, value: v } && k@ == key@
            && v@ == text::trim(value@)),
{
    let value = trimmed(value);
    if value.as_str().is_empty() {
        SettingWrite::Clear { key: key.to_owned() }
    } else {
        SettingWrite::Put { key: key.to_owned(), value }
    }
}

fn add_text(writes: &mut Vec<SettingWrite>, key: &str, value: &Option<String>)
    ensures
        write_views(final(writes)@) == write_views(old(writes)@) + text_writes(key@, *value),
{
    let ghost before = writes@;
    if let Some(v) = value {
        writes.push(upsert_or_clear(key, v.as_str()));
    }
    assert(write_views(writes@) =~= write_views(before) + text_writes(key@, *value));
}

/// The changes for a request, in order. A present but empty value clears a
/// setting (back to the default); an omitted field is left unchanged.
pub fn save_settings(req: &SettingsReq) -> (r: Vec<SettingWrite>)
    ensures
        write_views(r@) == writes_for(*req),
{
    let mut writes: Vec<SettingWrite> = Vec::new();
    assert(write_views(writes@) =~= Seq::<WriteView>::empty());
    add_text(&mut writes, "rd_token", &req.rd_token);
    add_text(&mut writes, "download_dir", &req.download_dir);
    let ghost before = writes@;
    if let Some(c) = req.concurrency {
        let c: usize = clamp_concurrency(c as usize);
        writes.push(
            SettingWrite::Put { key: "concurrency".to_owned(), value: decimal_u64(c as u64) },
        );
    }
    assert(write_views(writes@) =~= write_views(before) + concurrency_writes(req.concurrency));
    add_text(&mut writes, "aria2_rpc_url", &req.aria2_rpc_url);
    add_text(&mut writes, "aria2_rpc_secret", &req.aria2_rpc_secret);
    add_text(&mut writes, "max_download_speed", &req.max_download_speed);
    assert(write_views(writes@) =~= writes_for(*req));
    writes
}

// ---------------------------------------------------------------------------
// What takes effect
// ---------------------------------------------------------------------------

/// The settings as they are stored.
#[derive(Debug, Clone, PartialEq, Eq)]
pub struct StoredSettings {
    pub rd_token: Option<String>,
    pub download_dir: Option<String>,
    pub concurrency: Option<String>,
    pub aria2_rpc_url: Option<String>,
    pub aria2_rpc_secret: Option<String>,
    pub max_download_speed: Option<String>,
}

/// The download directory that takes effect.
pub open spec fn effective_dir(saved: Option<Seq<char>>, fallback: Seq<char>) -> Seq<char> {
    match saved {
        Some(d) if !text::blank(d) => d,
        _ => fallback,
    }
}

/// Effective download directory: the saved setting, else the default.
pub fn resolve_dest(saved: &Option<String>, fallback: &str) -> (r: String)
    ensures
        r@ == effective_dir(text::text_of(*saved), fallback@),
        saved matches Some(d) ==> !text::blank(d@) ==> r@ == d@,
        saved is None || text::blank(saved->0@) ==> r@ == fallback@,
{
    match saved {
        Some(d) => if is_blank(d.as_str()) {
            fallback.to_owned()
        } else {
            d.clone()
        },
        None => fallback.to_owned(),
    }
}

/// The number of parallel downloads that takes effect.
pub open spec fn effective_concurrency(saved: Option<Seq<char>>) -> int {
    match saved {
        Some(s) => match decimal::parsed_usize(s) {
            Some(c) => downloader::clamped(c as int),
            None => DEFAULT_CONCURRENCY as int,
        },
        None => DEFAULT_CONCURRENCY as int,
    }
}

/// Effective concurrency: the saved setting (1 to 16), else the default.
pub fn resolve_concurrency(saved: &Option<String>) -> (r: usize)
    ensures
        r == effective_concurrency(text::text_of(*saved)),
        saved is None ==> r == 4,
        saved matches Some(s) ==> match decimal::parsed_usize(s@) {
            Some(c) => r == if c < 1 {
                1
            } else if c > 16 {
                16
            } else {
                c
            },
            None => r == 4,
        },
        1 <= r <= 16,
{
    let parsed = match saved {
        Some(s) => parse_usize(s.as_str()),
        None => None,
    };
    match parsed {
        Some(c) => clamp_concurrency(c),
        None => DEFAULT_CONCURRENCY,
    }
}

/// The destination a job was created with, so that resume and retry write to
/// the same place even if the setting changes later; else the default.
pub fn job_dest(root_path: Option<String>, fallback: &str) -> (r: String)
    ensures
        r@ == match root_path {
            Some(p) => p@,
            None => fallback@,
        },
{
    match root_path {
        Some(p) => p,
        None => fallback.to_owned(),
    }
}

/// Settings from the environment.
#[derive(Debug, Clone, PartialEq, Eq)]
pub struct EnvSettings {
    /// `ARIA2_RPC_URL`
    pub aria2_rpc_url: Option<String>,
    /// `ARIA2_SECRET`
    pub aria2_secret: Option<String>,
    /// `ARIA2_RPC_SECRET`
    pub aria2_rpc_secret: Option<String>,
    /// `MAX_DOWNLOAD_SPEED`
    pub max_download_speed: Option<String>,
}

/// The first of two texts that is there.
pub open spec fn first_text(a: Option<Seq<char>>, b: Option<Seq<char>>) -> Option<Seq<char>> {
    if a is Some {
        a
    } else {
        b
    }
}

/// A text that is there and is not blank.
pub open spec fn not_blank(t: Option<Seq<char>>) -> Option<Seq<char>> {
    match t {
        Some(s) if !text::blank(s) => t,
        _ => None,
    }
}

/// The URL of Aria2 that takes effect: the saved one, unless it is blank, or
/// else the environment's; without white space at its ends.
pub open spec fn effective_url(saved: Option<Seq<char>>, env: Option<Seq<char>>) -> Option<
    Seq<char>,
> {
    match not_blank(first_text(not_blank(saved), env)) {
        Some(u) => Some(text::trim(u)),
        None => None,
    }
}

/// The speed limit that takes effect: the saved one or the environment's. None
/// or a blank one leaves downloads unlimited.
pub open spec fn effective_limit(saved: Option<Seq<char>>, env: Option<Seq<char>>) -> Option<
    Seq<char>,
> {
    not_blank(first_text(saved, env))
}

fn first_of(a: &Option<String>, b: &Option<String>) -> (r: Option<String>)
    ensures
        text::text_of(r) == first_text(text::text_of(*a), text::text_of(*b)),
{
    match a {
        Some(s) => Some(s.clone()),
        None => b.clone(),
    }
}

fn unless_blank(t: Option<String>) -> (r: Option<String>)
    ensures
        text::text_of(r) == not_blank(text::text_of(t)),
{
    match t {
        Some(s) => if is_blank(s.as_str()) {
            None
        } else {
            Some(s)
        },
        None => None,
    }
}

/// The effective Aria2 config. The environment seeds the defaults; what is
/// saved overrides them. Returns `None` when no RPC URL is configured (Aria2
/// backend disabled: built-in streamer).
pub fn aria2_config(stored: &StoredSettings, env: &EnvSettings) -> (r: Option<AriaConfig>)
    ensures
        r is Some <==> effective_url(
            text::text_of(stored.aria2_rpc_url),
            text::text_of(env.aria2_rpc_url),
        ) is Some,
        r matches Some(cfg) ==> {
            &&& text::text_of(cfg.rpc_url) == effective_url(
                text::text_of(stored.aria2_rpc_url),
                text::text_of(env.aria2_rpc_url),
            )
            &&& text::text_of(cfg.secret) == first_text(
                text::text_of(stored.aria2_rpc_secret),
                first_text(text::text_of(env.aria2_secret), text::text_of(env.aria2_rpc_secret)),
            )
            &&& text::text_of(cfg.max_download_limit) == effective_limit(
                text::text_of(stored.max_download_speed),
                text::text_of(env.max_download_speed),
            )
        },
{
    let saved_url = unless_blank(stored.aria2_rpc_url.clone());
    let url = match unless_blank(first_of(&saved_url, &env.aria2_rpc_url)) {
        Some(u) => trimmed(u.as_str()),
        None => return None,
    };
    let env_secret = first_of(&env.aria2_secret, &env.aria2_rpc_secret);
    let secret = first_of(&stored.aria2_rpc_secret, &env_secret);
    let limit = unless_blank(first_of(&stored.max_download_speed, &env.max_download_speed));
    Some(AriaConfig { rpc_url: Some(url), secret, max_download_limit: limit })
}

/// A downloader that writes to `dest` with the current settings: the saved
/// concurrency, and the optional Aria2 backend and path mappings.
pub fn build_downloader(
    dest: &str,
    concurrency: &Option<String>,
    aria2_cfg: &Option<AriaConfig>,
    mappings: Vec<PathMapping>,
) -> (r: Downloader)
    ensures
        r.well_formed(),
        r.dest_root@ == dest@,
        r.concurrency == effective_concurrency(text::text_of(*concurrency)),
        r.path_mappings@ == mappings@,
        r.aria2 is Some <==> aria2_cfg is Some && aria2::url_given(
            text::text_of(aria2_cfg->0.rpc_url),
        ),
        r.aria2 matches Some(c) ==> {
            &&& c.url@ == text::trim(aria2_cfg->0.rpc_url->0@)
            &&& text::text_of(c.secret) == text::text_of(aria2_cfg->0.secret)
        },
        text::text_of(r.max_download_speed) == match *aria2_cfg {
            Some(cfg) => text::text_of(cfg.max_download_limit),
            None => None,
        },
{
    let mut dl = Downloader::new(dest, resolve_concurrency(concurrency));
    if let Some(cfg) = aria2_cfg {
        let _ = dl.with_aria2(cfg);
    }
    if mappings.len() > 0 {
        let _ = dl.set_path_mappings(mappings);
    } else {
        assert(dl.path_mappings@ =~= mappings@);
    }
    dl
}

// ---------------------------------------------------------------------------
// Reporting
// ---------------------------------------------------------------------------

/// The settings as they are reported: of the secrets only whether they are
/// set, never the secrets themselves.
#[derive(Debug, Clone, PartialEq, Eq)]
pub struct SettingsReport {
    pub rd_token_set: bool,
    pub download_dir: String,
    pub concurrency: usize,
    pub aria2_rpc_url: String,
    pub aria2_rpc_secret_set: bool,
    pub max_download_speed: String,
}

/// A stored text, or the empty one.
pub open spec fn shown(t: Option<String>) -> Seq<char> {
    match t {
        Some(s) => s@,
        None => Seq::empty(),
    }
}

/// Whether a report is the one for some settings.
pub open spec fn is_report(r: SettingsReport, stored: StoredSettings, fallback: Seq<char>) -> bool {
    &&& r.rd_token_set == stored.rd_token is Some
    &&& r.download_dir@ == effective_dir(text::text_of(stored.download_dir), fallback)
    &&& r.concurrency == effective_concurrency(text::text_of(stored.concurrency))
    &&& r.aria2_rpc_url@ == shown(stored.aria2_rpc_url)
    &&& r.aria2_rpc_secret_set == stored.aria2_rpc_secret is Some
    &&& r.max_download_speed@ == shown(stored.max_download_speed)
}

fn text_shown(t: &Option<String>) -> (r: String)
    ensures
        r@ == shown(*t),
{
    match t {
        Some(s) => s.clone(),
        None => {
            let s = String::new();
            assert(s@ =~= Seq::<char>::empty());
            s
        },
    }
}

/// Reports the current settings.
pub fn get_settings(stored: &StoredSettings, fallback: &str) -> (r: SettingsReport)
    ensures
        is_report(r, *stored, fallback@),
        r.rd_token_set <==> stored.rd_token is Some,
        r.aria2_rpc_secret_set <==> stored.aria2_rpc_secret is Some,
        stored.aria2_rpc_url matches Some(u) ==> r.aria2_rpc_url@ == u@,
        stored.aria2_rpc_url is None ==> r.aria2_rpc_url@.len() == 0,
        stored.max_download_speed matches Some(s) ==> r.max_download_speed@ == s@,
        stored.max_download_speed is None ==> r.max_download_speed@.len() == 0,
{
    SettingsReport {
        rd_token_set: stored.rd_token.is_some(),
        download_dir: resolve_dest(&stored.download_dir, fallback),
        concurrency: resolve_concurrency(&stored.concurrency),
        aria2_rpc_url: text_shown(&stored.aria2_rpc_url),
        aria2_rpc_secret_set: stored.aria2_rpc_secret.is_some(),
        max_download_speed: text_shown(&stored.max_download_speed),
    }
}

/// How Aria2 is doing.
#[derive(Debug, Clone, PartialEq, Eq)]
pub enum Aria2Report {
    Connected { version: String, max_download_speed: Option<String> },
    Unreachable { error: String, max_download_speed: Option<String> },
    Invalid { error: String },
    NotConfigured,
}

/// Reports how Aria2 is doing, given its config, and the answer to a version
/// probe: none if there is no client to ask with.
pub fn aria2_status(cfg: Option<AriaConfig>, probe: Option<Result<String, Error>>) -> (r:
    Aria2Report)
    ensures
        match cfg {
            None => r == Aria2Report::NotConfigured,
            Some(c) => match probe {
                Some(Ok(v)) => r == (Aria2Report::Connected {
                    version: v,
                    max_download_speed: c.max_download_limit,
                }),
                Some(Err(e)) => r matches Aria2Report::Unreachable { error, max_download_speed }
                    && error@ == crate::error::error_text(e) && max_download_speed
                    == c.max_download_limit,
                None => r matches Aria2Report::Invalid { error } && error@
                    == "invalid Aria2 config"@,
            },
        },
{
    match cfg {
        None => Aria2Report::NotConfigured,
        Some(c) => match probe {
            Some(Ok(version)) => Aria2Report::Connected {
                version,
                max_download_speed: c.max_download_limit,
            },
            Some(Err(e)) => Aria2Report::Unreachable {
                error: e.to_string(),
                max_download_speed: c.max_download_limit,
            },
            None => Aria2Report::Invalid { error: "invalid Aria2 config".to_owned() },
        },
    }
}

// ---------------------------------------------------------------------------
// Laws
// ---------------------------------------------------------------------------

/// The `settings` table after a change.
pub open spec fn written(table: Map<Seq<char>, Seq<char>>, w: WriteView) -> Map<
    Seq<char>,
    Seq<char>,
> {
    match w {
        WriteView::Put { key, value } => table.insert(key, value),
        WriteView::Clear { key } => table.remove(key),
    }
}

/// The `settings` table after some changes, one after the other.
pub open spec fn all_written(table: Map<Seq<char>, Seq<char>>, ws: Seq<WriteView>) -> Map<
    Seq<char>,
    Seq<char>,
>
    decreases ws.len(),
{
    if ws.len() == 0 {
        table
    } else {
        written(all_written(table, ws.drop_last()), ws.last())
    }
}

/// What the table holds for a key.
pub open spec fn looked_up(table: Map<Seq<char>, Seq<char>>, key: Seq<char>) -> Option<Seq<char>> {
    if table.dom().contains(key) {
        Some(table[key])
    } else {
        None
    }
}

/// What is stored for a text setting after a request: what was stored if the
/// field was omitted, nothing if it was blank, else the trimmed value.
pub open spec fn stored_after(before: Option<Seq<char>>, value: Option<String>) -> Option<
    Seq<char>,
> {
    match value {
        None => before,
        Some(v) => if text::blank(v@) {
            None
        } else {
            Some(text::trim(v@))
        },
    }
}

/// Changes one after the other.
proof fn written_in_parts(
    table: Map<Seq<char>, Seq<char>>,
    a: Seq<WriteView>,
    b: Seq<WriteView>,
)
    ensures
        all_written(table, a + b) == all_written(all_written(table, a), b),
    decreases b.len(),
{
    if b.len() == 0 {
        assert(a + b =~= a);
    } else {
        assert((a + b).drop_last() =~= a + b.drop_last());
        written_in_parts(table, a, b.drop_last());
    }
}

/// What the changes for one text setting do.
proof fn text_written(
    table: Map<Seq<char>, Seq<char>>,
    key: Seq<char>,
    value: Option<String>,
    other: Seq<char>,
)
    ensures
        looked_up(all_written(table, text_writes(key, value)), key) == stored_after(
            looked_up(table, key),
            value,
        ),
        other != key ==> looked_up(all_written(table, text_writes(key, value)), other)
            == looked_up(table, other),
{
    let ws = text_writes(key, value);
    if value is Some {
        assert(ws.drop_last() =~= Seq::<WriteView>::empty());
        assert(all_written(table, ws.drop_last()) == table);
    }
}

/// What the changes for the concurrency do.
proof fn concurrency_written(
    table: Map<Seq<char>, Seq<char>>,
    value: Option<u32>,
    other: Seq<char>,
)
    ensures
        looked_up(all_written(table, concurrency_writes(value)), "concurrency"@) == match value {
            Some(c) => Some(decimal::decimal(downloader::clamped(c as int))),
            None => looked_up(table, "concurrency"@),
        },
        other != "concurrency"@ ==> looked_up(all_written(table, concurrency_writes(value)), other)
            == looked_up(table, other),
{
    let ws = concurrency_writes(value);
    if value is Some {
        assert(ws.drop_last() =~= Seq::<WriteView>::empty());
        assert(all_written(table, ws.drop_last()) == table);
    }
}

/// The keys are distinct.
proof fn keys_are_distinct()
    ensures
        "rd_token"@ != "download_dir"@,
        "rd_token"@ != "concurrency"@,
        "rd_token"@ != "aria2_rpc_url"@,
        "rd_token"@ != "aria2_rpc_secret"@,
        "rd_token"@ != "max_download_speed"@,
        "download_dir"@ != "concurrency"@,
        "download_dir"@ != "aria2_rpc_url"@,
        "download_dir"@ != "aria2_rpc_secret"@,
        "download_dir"@ != "max_download_speed"@,
        "concurrency"@ != "aria2_rpc_url"@,
        "concurrency"@ != "aria2_rpc_secret"@,
        "concurrency"@ != "max_download_speed"@,
        "aria2_rpc_url"@ != "aria2_rpc_secret"@,
        "aria2_rpc_url"@ != "max_download_speed"@,
        "aria2_rpc_secret"@ != "max_download_speed"@,
{
    reveal_strlit("rd_token");
    reveal_strlit("download_dir");
    reveal_strlit("concurrency");
    reveal_strlit("aria2_rpc_url");
    reveal_strlit("aria2_rpc_secret");
    reveal_strlit("max_download_speed");
    assert("rd_token"@.len() == 8);
    assert("download_dir"@.len() == 12);
    assert("concurrency"@.len() == 11);
    assert("aria2_rpc_url"@.len() == 13);
    assert("aria2_rpc_secret"@.len() == 16);
    assert("max_download_speed"@.len() == 18);
}

/// What is saved is read back: after a request every setting holds the trimmed
/// value of its field; a blank field has cleared it, an omitted one has left
/// it unchanged. The number of parallel downloads that takes effect is the one
/// asked for, brought into range.
pub proof fn saved_settings_are_read_back(table: Map<Seq<char>, Seq<char>>, req: SettingsReq)
    ensures
        ({
            let after = all_written(table, writes_for(req));
            &&& looked_up(after, "rd_token"@) == stored_after(
                looked_up(table, "rd_token"@),
                req.rd_token,
            )
            &&& looked_up(after, "download_dir"@) == stored_after(
                looked_up(table, "download_dir"@),
                req.download_dir,
            )
            &&& looked_up(after, "aria2_rpc_url"@) == stored_after(
                looked_up(table, "aria2_rpc_url"@),
                req.aria2_rpc_url,
            )
            &&& looked_up(after, "aria2_rpc_secret"@) == stored_after(
                looked_up(table, "aria2_rpc_secret"@),
                req.aria2_rpc_secret,
            )
            &&& looked_up(after, "max_download_speed"@) == stored_after(
                looked_up(table, "max_download_speed"@),
                req.max_download_speed,
            )
            &&& req.concurrency is None ==> looked_up(after, "concurrency"@) == looked_up(
                table,
                "concurrency"@,
            )
            &&& req.concurrency matches Some(c) ==> effective_concurrency(
                looked_up(after, "concurrency"@),
            ) == downloader::clamped(c as int)
        }),
{
    keys_are_distinct();
    let w1 = text_writes("rd_token"@, req.rd_token);
    let w2 = text_writes("download_dir"@, req.download_dir);
    let w3 = concurrency_writes(req.concurrency);
    let w4 = text_writes("aria2_rpc_url"@, req.aria2_rpc_url);
    let w5 = text_writes("aria2_rpc_secret"@, req.aria2_rpc_secret);
    let w6 = text_writes("max_download_speed"@, req.max_download_speed);
    let t1 = all_written(table, w1);
    let t2 = all_written(t1, w2);
    let t3 = all_written(t2, w3);
    let t4 = all_written(t3, w4);
    let t5 = all_written(t4, w5);
    let t6 = all_written(t5, w6);
    written_in_parts(table, w1, w2);
    written_in_parts(table, w1 + w2, w3);
    written_in_parts(table, w1 + w2 + w3, w4);
    written_in_parts(table, w1 + w2 + w3 + w4, w5);
    written_in_parts(table, w1 + w2 + w3 + w4 + w5, w6);
    assert(all_written(table, writes_for(req)) == t6);
    let keys = seq![
        "rd_token"@,
        "download_dir"@,
        "concurrency"@,
        "aria2_rpc_url"@,
        "aria2_rpc_secret"@,
        "max_download_speed"@,
    ];
    assert forall|i: int| 0 <= i < 6 implies {
        let k = #[trigger] keys[i];
        &&& k != "rd_token"@ ==> looked_up(t1, k) == looked_up(table, k)
        &&& k != "download_dir"@ ==> looked_up(t2, k) == looked_up(t1, k)
        &&& k != "concurrency"@ ==> looked_up(t3, k) == looked_up(t2, k)
        &&& k != "aria2_rpc_url"@ ==> looked_up(t4, k) == looked_up(t3, k)
        &&& k != "aria2_rpc_secret"@ ==> looked_up(t5, k) == looked_up(t4, k)
        &&& k != "max_download_speed"@ ==> looked_up(t6, k) == looked_up(t5, k)
    } by {
        let k = keys[i];
        text_written(table, "rd_token"@, req.rd_token, k);
        text_written(t1, "download_dir"@, req.download_dir, k);
        concurrency_written(t2, req.concurrency, k);
        text_written(t3, "aria2_rpc_url"@, req.aria2_rpc_url, k);
        text_written(t4, "aria2_rpc_secret"@, req.aria2_rpc_secret, k);
        text_written(t5, "max_download_speed"@, req.max_download_speed, k);
    }
    assert(keys[0] == "rd_token"@ && keys[1] == "download_dir"@ && keys[2] == "concurrency"@);
    assert(keys[3] == "aria2_rpc_url"@ && keys[4] == "aria2_rpc_secret"@);
    assert(keys[5] == "max_download_speed"@);
    text_written(table, "rd_token"@, req.rd_token, keys[0]);
    text_written(t1, "download_dir"@, req.download_dir, keys[0]);
    concurrency_written(t2, req.concurrency, keys[0]);
    text_written(t3, "aria2_rpc_url"@, req.aria2_rpc_url, keys[0]);
    text_written(t4, "aria2_rpc_secret"@, req.aria2_rpc_secret, keys[0]);
    text_written(t5, "max_download_speed"@, req.max_download_speed, keys[0]);
    if let Some(c) = req.concurrency {
        decimal::written_integers_read_back(downloader::clamped(c as int));
    }
}

/// A report hides the secrets: whatever the token and the secret are, as long
/// as they are set, the same reports come out.
pub proof fn reports_hide_the_secrets(
    r: SettingsReport,
    a: StoredSettings,
    b: StoredSettings,
    fallback: Seq<char>,
)
    requires
        a.rd_token is Some <==> b.rd_token is Some,
        a.aria2_rpc_secret is Some <==> b.aria2_rpc_secret is Some,
        a.download_dir == b.download_dir,
        a.concurrency == b.concurrency,
        a.aria2_rpc_url == b.aria2_rpc_url,
        a.max_download_speed == b.max_download_speed,
    ensures
        is_report(r, a, fallback) <==> is_report(r, b, fallback),
{
}

/// A config that is in effect enables Aria2, with a URL that has no white
/// space at its ends.
pub proof fn effective_configs_are_enabled(saved: Option<Seq<char>>, env: Option<Seq<char>>)
    requires
        effective_url(saved, env) is Some,
    ensures
        aria2::url_given(effective_url(saved, env)),
        text::trim(effective_url(saved, env)->0) == effective_url(saved, env)->0,
{
    let u = not_blank(first_text(not_blank(saved), env))->0;
    text::trim_idempotent(u);
}

/// What a text field does to its setting, whatever was stored: nothing if it is
/// omitted; it clears it if there is nothing but white space in it; else its
/// value is stored without the white space around it.
pub proof fn fields_are_stored_trimmed(before: Option<Seq<char>>, value: Option<String>)
    ensures
        value is None ==> stored_after(before, value) == before,
        value matches Some(v) ==> {
            &&& text::blank(v@) ==> stored_after(before, value) is None
            &&& !text::blank(v@) ==> stored_after(before, value) == Some(text::trim(v@))
        },
{
}

/// A change to the table touches its own key only: what was put is found, what
/// was cleared is not, and every other key holds what it held.
pub proof fn a_change_touches_its_own_key(
    table: Map<Seq<char>, Seq<char>>,
    key: Seq<char>,
    value: Seq<char>,
    other: Seq<char>,
)
    requires
        other != key,
    ensures
        looked_up(written(table, WriteView::Put { key, value }), key) == Some(value),
        looked_up(written(table, WriteView::Clear { key }), key) is None,
        looked_up(written(table, WriteView::Put { key, value }), other) == looked_up(table, other),
        looked_up(written(table, WriteView::Clear { key }), other) == looked_up(table, other),
        looked_up(table, key) is Some <==> table.dom().contains(key),
{
}

/// The view of a change is of the same sort, with its key and its value.
pub proof fn write_views_tell_all(w: SettingWrite)
    ensures
        w matches SettingWrite::Put { key, value } ==> w@ == (WriteView::Put {
            key: key@,
            value: value@,
        }),
        w matches SettingWrite::Clear { key } ==> w@ == (WriteView::Clear { key: key@ }),
{
}

/// A saved number of parallel downloads takes effect as it is from 1 to 16; a
/// smaller one means 1, a larger one 16, and none at all, or a text that is no
/// number, means 4.
pub proof fn saved_concurrency_takes_effect(n: int, junk: Seq<char>)
    requires
        0 <= n <= usize::MAX,
        decimal::parsed_usize(junk) is None,
    ensures
        1 <= n <= 16 ==> effective_concurrency(Some(decimal::decimal(n))) == n,
        n < 1 ==> effective_concurrency(Some(decimal::decimal(n))) == 1,
        n > 16 ==> effective_concurrency(Some(decimal::decimal(n))) == 16,
        effective_concurrency(Some(junk)) == 4,
        effective_concurrency(None) == 4,
{
    decimal::written_integers_read_back(n);
    decimal::numbers_are_written_plainly(n);
}

/// The saved directory takes effect as it is, unless it is blank; only then, or
/// without one, does the default.
pub proof fn saved_directories_take_effect(saved: Seq<char>, fallback: Seq<char>)
    ensures
        !text::blank(saved) ==> effective_dir(Some(saved), fallback) == saved,
        text::blank(saved) ==> effective_dir(Some(saved), fallback) == fallback,
        effective_dir(None, fallback) == fallback,
{
}

/// What is saved comes before the environment: a saved URL that is not blank is
/// used, else the environment's; a URL that is blank in the end turns Aria2 off.
pub proof fn saved_urls_come_first(saved: Seq<char>, env: Seq<char>)
    ensures
        !text::blank(saved) ==> effective_url(Some(saved), Some(env)) == Some(text::trim(saved))
            && effective_url(Some(saved), None) == Some(text::trim(saved)),
        text::blank(saved) ==> effective_url(Some(saved), Some(env)) == effective_url(
            None,
            Some(env),
        ) && effective_url(Some(saved), None) is None,
        !text::blank(env) ==> effective_url(None, Some(env)) == Some(text::trim(env)),
        text::blank(env) ==> effective_url(None, Some(env)) is None,
        effective_url(None, None) is None,
{
}

/// A saved limit comes before the environment's, even a blank one, and a blank
/// limit is none.
pub proof fn saved_limits_come_first(saved: Seq<char>, env: Seq<char>)
    ensures
        !text::blank(saved) ==> effective_limit(Some(saved), Some(env)) == Some(saved)
            && effective_limit(Some(saved), None) == Some(saved),
        text::blank(saved) ==> effective_limit(Some(saved), Some(env)) is None && effective_limit(
            Some(saved),
            None,
        ) is None,
        !text::blank(env) ==> effective_limit(None, Some(env)) == Some(env),
        text::blank(env) ==> effective_limit(None, Some(env)) is None,
        effective_limit(None, None) is None,
        first_text(Some(saved), Some(env)) == Some(saved),
        first_text(None, Some(env)) == Some(env),
        first_text(Some(saved), None) == Some(saved),
        first_text(None, None) is None,
{
}

/// A report says what is in effect, and of the secrets only whether they are
/// set.
pub proof fn reports_say_what_is_in_effect(
    r: SettingsReport,
    stored: StoredSettings,
    fallback: Seq<char>,
)
    requires
        is_report(r, stored, fallback),
    ensures
        r.rd_token_set <==> stored.rd_token is Some,
        r.aria2_rpc_secret_set <==> stored.aria2_rpc_secret is Some,
        r.concurrency == effective_concurrency(text::text_of(stored.concurrency)),
        r.download_dir@ == effective_dir(text::text_of(stored.download_dir), fallback),
        stored.aria2_rpc_url matches Some(u) ==> r.aria2_rpc_url@ == u@,
        stored.aria2_rpc_url is None ==> r.aria2_rpc_url@.len() == 0,
        stored.max_download_speed matches Some(s) ==> r.max_download_speed@ == s@,
        stored.max_download_speed is None ==> r.max_download_speed@.len() == 0,
{
}

/// Saving touches nothing else: a key that is no setting of a request holds what
/// it held.
pub proof fn saving_touches_nothing_else(
    table: Map<Seq<char>, Seq<char>>,
    req: SettingsReq,
    other: Seq<char>,
)
    requires
        other != "rd_token"@,
        other != "download_dir"@,
        other != "concurrency"@,
        other != "aria2_rpc_url"@,
        other != "aria2_rpc_secret"@,
        other != "max_download_speed"@,
    ensures
        looked_up(all_written(table, writes_for(req)), other) == looked_up(table, other),
{
    let w1 = text_writes("rd_token"@, req.rd_token);
    let w2 = text_writes("download_dir"@, req.download_dir);
    let w3 = concurrency_writes(req.concurrency);
    let w4 = text_writes("aria2_rpc_url"@, req.aria2_rpc_url);
    let w5 = text_writes("aria2_rpc_secret"@, req.aria2_rpc_secret);
    let w6 = text_writes("max_download_speed"@, req.max_download_speed);
    let t1 = all_written(table, w1);
    let t2 = all_written(t1, w2);
    let t3 = all_written(t2, w3);
    let t4 = all_written(t3, w4);
    let t5 = all_written(t4, w5);
    written_in_parts(table, w1, w2);
    written_in_parts(table, w1 + w2, w3);
    written_in_parts(table, w1 + w2 + w3, w4);
    written_in_parts(table, w1 + w2 + w3 + w4, w5);
    written_in_parts(table, w1 + w2 + w3 + w4 + w5, w6);
    text_written(table, "rd_token"@, req.rd_token, other);
    text_written(t1, "download_dir"@, req.download_dir, other);
    concurrency_written(t2, req.concurrency, other);
    text_written(t3, "aria2_rpc_url"@, req.aria2_rpc_url, other);
    text_written(t4, "aria2_rpc_secret"@, req.aria2_rpc_secret, other);
    text_written(t5, "max_download_speed"@, req.max_download_speed, other);
}

} // verus!
