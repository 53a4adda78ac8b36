use wiki_storage::config::{
    default_host, default_log_max_files, default_port, AuthConfig, Config, CrowdinConfig,
    CurseForgeConfig, DatabaseConfig, DiscordConfig, GithubConfig, LoggingConfig, ModrinthConfig,
    RedisConfig, Rule, SearchConfig, SentryConfig, ServerConfig, StorageConfig,
};
use wiki_storage::game_data::{
    asset_index_url, client_jar_url, extract_dirs, game_locale_codes, item_name_step, ItemNameStep, LoadStatus, game_data_up_to_date, game_item_id,
    is_merged_entry, item_name_cache_key, lang_cache_entries, lang_downloads, lang_subject,
    mojang_locale_remap, should_extract, version_manifest_entry,
};
use wiki_storage::json::{json_error_message, strip_bom, JsonValue};
use wiki_storage::util::{merge_entries, merge_json_bytes};

fn s(v: &str) -> JsonValue {
    JsonValue::String(v.to_owned())
}

fn obj(entries: Vec<(&str, JsonValue)>) -> JsonValue {
    JsonValue::Object(entries.into_iter().map(|(k, v)| (k.to_owned(), v)).collect())
}

fn manifest() -> JsonValue {
    obj(vec![
        ("latest", obj(vec![("release", s("1.21.1")), ("snapshot", s("24w40a"))])),
        (
            "versions",
            JsonValue::Array(vec![
                obj(vec![("id", s("24w40a")), ("url", s("https://meta/24w40a.json"))]),
                obj(vec![("id", s("1.21.1")), ("url", s("https://meta/1.21.1.json"))]),
                obj(vec![("id", s("1.20.1"))]),
            ]),
        ),
    ])
}

#[test]
fn launcher_manifest_picks_the_version() {
    assert_eq!(
        version_manifest_entry(&manifest(), None),
        Ok(("1.21.1".to_owned(), "https://meta/1.21.1.json".to_owned()))
    );
    assert_eq!(
        version_manifest_entry(&manifest(), Some("24w40a")),
        Ok(("24w40a".to_owned(), "https://meta/24w40a.json".to_owned()))
    );
    assert_eq!(
        version_manifest_entry(&manifest(), Some("1.20.1")),
        Err("missing version url".to_owned())
    );
    assert_eq!(
        version_manifest_entry(&manifest(), Some("1.8")),
        Err("version 1.8 not found in launcher manifest".to_owned())
    );
    assert_eq!(
        version_manifest_entry(&obj(vec![]), None),
        Err("missing latest.release in manifest".to_owned())
    );
    assert_eq!(
        version_manifest_entry(&obj(vec![("versions", s("x"))]), Some("1.21")),
        Err("missing versions array".to_owned())
    );
}

#[test]
fn version_manifest_urls() {
    let m = obj(vec![
        ("assetIndex", obj(vec![("url", s("https://assets/index.json"))])),
        ("downloads", obj(vec![("client", obj(vec![("url", s("https://jar/client.jar"))]))])),
    ]);
    assert_eq!(asset_index_url(&m), Ok("https://assets/index.json".to_owned()));
    assert_eq!(client_jar_url(&m), Ok("https://jar/client.jar".to_owned()));
    assert_eq!(asset_index_url(&obj(vec![])), Err("missing assetIndex.url".to_owned()));
    assert_eq!(client_jar_url(&obj(vec![])), Err("missing downloads.client.url".to_owned()));
}

#[test]
fn language_files_to_download() {
    let objects = vec![
        ("minecraft/lang/de_de.json".to_owned(), obj(vec![("hash", s("ab12cd"))])),
        ("minecraft/lang/readme.txt".to_owned(), obj(vec![("hash", s("ffff"))])),
        ("minecraft/sounds/x.ogg".to_owned(), obj(vec![("hash", s("0000"))])),
    ];
    assert_eq!(
        lang_downloads(&objects),
        Ok(vec![(
            "de_de.json".to_owned(),
            "https://resources.download.minecraft.net/ab/ab12cd".to_owned()
        )])
    );
    let broken = vec![("minecraft/lang/fr_fr.json".to_owned(), obj(vec![]))];
    assert_eq!(lang_downloads(&broken), Err("missing hash in asset object".to_owned()));
}

#[test]
fn game_items_and_extraction() {
    assert_eq!(game_item_id("diamond_sword.json"), Some("minecraft:diamond_sword".to_owned()));
    assert_eq!(game_item_id("readme.txt"), None);
    assert!(is_merged_entry("assets/minecraft/lang/en_us.json"));
    assert!(!is_merged_entry("assets/minecraft/items/stone.json"));
    let dirs = extract_dirs();
    assert_eq!(dirs[0], "assets/minecraft/lang");
    assert!(dirs.contains(&"data/minecraft/recipe".to_owned()));
    assert!(dirs.contains(&"data/fabric/tags/item".to_owned()));
    assert!(should_extract("data/minecraft/recipe/stick.json", &dirs));
    assert!(!should_extract("data/minecraft/recipe/", &dirs));
    assert!(!should_extract("data/minecraft/loot_table/a.json", &dirs));
    assert!(should_extract("anything", &[]));
}

#[test]
fn translations() {
    assert_eq!(mojang_locale_remap("ms_arab"), Some("zlm_arab"));
    assert_eq!(mojang_locale_remap("en_us"), None);
    assert_eq!(lang_subject("item.minecraft.stick"), Some("stick".to_owned()));
    assert_eq!(lang_subject("block.minecraft.stone"), Some("stone".to_owned()));
    assert_eq!(lang_subject("item.minecraft.potion.effect"), None);
    assert_eq!(lang_subject("gui.done"), None);
    let entries = vec![
        ("item.minecraft.stick".to_owned(), "Stock".to_owned()),
        ("gui.done".to_owned(), "Fertig".to_owned()),
    ];
    assert_eq!(
        lang_cache_entries("de_de", &entries),
        vec![("lang:de_de:minecraft:stick".to_owned(), "Stock".to_owned())]
    );
    assert_eq!(
        item_name_cache_key("de_de", "minecraft:stone"),
        Some("lang:de_de:minecraft:stone".to_owned())
    );
    assert_eq!(item_name_cache_key("de_de", "somemod:gear"), None);
}

#[test]
fn game_data_freshness() {
    assert!(game_data_up_to_date(Some(("neoforge", "21.1.77")), false, "neoforge", "21.1.80"));
    assert!(game_data_up_to_date(Some(("neoforge", "21.1.77")), true, "neoforge", "21.1.77"));
    assert!(!game_data_up_to_date(Some(("neoforge", "21.1.77")), true, "neoforge", "21.1.80"));
    assert!(!game_data_up_to_date(None, false, "neoforge", "21.1.77"));
}

#[test]
fn translation_merge() {
    let merged = merge_entries(
        vec![("a".to_owned(), "1".to_owned()), ("b".to_owned(), "2".to_owned())],
        &vec![("b".to_owned(), "3".to_owned()), ("c".to_owned(), "4".to_owned())],
    );
    assert_eq!(
        merged,
        vec![
            ("a".to_owned(), "1".to_owned()),
            ("b".to_owned(), "3".to_owned()),
            ("c".to_owned(), "4".to_owned())
        ]
    );
    assert_eq!(merge_json_bytes(None, b"{\"x\":\"y\"}"), b"{\"x\":\"y\"}".to_vec());
    assert_eq!(merge_json_bytes(Some(b"not json"), b"{\"x\":\"y\"}"), b"{\"x\":\"y\"}".to_vec());
    let out = merge_json_bytes(Some(b"{\"a\":\"1\",\"b\":\"2\"}"), b"{\"b\":\"3\"}");
    let value: std::collections::HashMap<String, String> = serde_json::from_slice(&out).unwrap();
    assert_eq!(value.get("a").map(String::as_str), Some("1"));
    assert_eq!(value.get("b").map(String::as_str), Some("3"));
}

#[test]
fn json_file_helpers() {
    assert_eq!(strip_bom("\u{FEFF}\u{FEFF}{}"), "{}");
    assert_eq!(strip_bom("{}"), "{}");
    assert_eq!(
        json_error_message("recipe", true, "EOF while parsing"),
        "Malformed recipe JSON: EOF while parsing"
    );
    assert_eq!(
        json_error_message("tag", false, "missing field `values`"),
        "Invalid tag JSON format: missing field `values`"
    );
}

fn config() -> Config {
    Config {
        server: ServerConfig {
            host: default_host(),
            port: default_port(),
            allow_origins: Vec::new(),
        },
        database: DatabaseConfig {
            url: "postgres://db".to_owned(),
            max_connections: 10,
            acquire_timeout_secs: 5,
        },
        redis: RedisConfig {
            url: "redis://cache".to_owned(),
        },
        storage: StorageConfig {
            path: "/srv/wiki".to_owned(),
        },
        auth: AuthConfig {
            frontend_url: "https://wiki.example".to_owned(),
            callback_url: "https://wiki.example/cb".to_owned(),
            settings_callback_url: "https://wiki.example/settings".to_owned(),
            error_callback_url: "https://wiki.example/error".to_owned(),
            frontend_api_key: "k".to_owned(),
            session_cookie_name: "s".to_owned(),
        },
        sentry: SentryConfig {
            environment: None,
            dsn: String::new(),
        },
        logging: LoggingConfig {
            path: "logs".to_owned(),
            filter: "info".to_owned(),
            max_files: default_log_max_files(),
        },
        github: GithubConfig {
            client_id: "id".to_owned(),
            client_secret: "secret".to_owned(),
        },
        modrinth: ModrinthConfig {
            client_id: "id".to_owned(),
            client_secret: "secret".to_owned(),
        },
        crowdin: CrowdinConfig {
            token: "t".to_owned(),
            project_id: "1".to_owned(),
        },
        curseforge: CurseForgeConfig {
            api_key: "key".to_owned(),
        },
        discord: DiscordConfig { webhook_url: None },
        search: None,
        app_url: "https://wiki.example".to_owned(),
        local: false,
        api_key: "key".to_owned(),
    }
}

#[test]
fn configuration_rules() {
    let good = config();
    assert!(good.is_valid());
    let mut bad = config();
    bad.database.max_connections = 0;
    bad.redis.url = String::new();
    bad.auth.callback_url = "not a url".to_owned();
    bad.search = Some(SearchConfig {
        url: "http://search".to_owned(),
        api_key: String::new(),
        collection: "pages".to_owned(),
    });
    let found: Vec<(String, Rule)> = bad.violations().into_iter().map(|v| (v.path, v.rule)).collect();
    assert_eq!(
        found,
        vec![
            ("database.max_connections".to_owned(), Rule::Range),
            ("redis.url".to_owned(), Rule::Length),
            ("auth.callback_url".to_owned(), Rule::Url),
            ("search.api_key".to_owned(), Rule::Length),
        ]
    );
    assert!(!bad.is_valid());
}

#[test]
fn locale_codes_use_game_codes() {
    let codes = vec!["en_us".to_owned(), "ms_arab".to_owned(), "de_de".to_owned()];
    assert_eq!(game_locale_codes(codes), vec!["en_us", "zlm_arab", "de_de"]);
}

#[test]
fn item_name_lookup_steps() {
    assert!(matches!(
        item_name_step(Some("de_de"), LoadStatus::Loaded, "minecraft:stone"),
        ItemNameStep::Lookup(k) if k == "lang:de_de:minecraft:stone"
    ));
    assert!(matches!(
        item_name_step(None, LoadStatus::Loaded, "stone"),
        ItemNameStep::Lookup(k) if k == "lang:en_us:minecraft:stone"
    ));
    assert!(matches!(item_name_step(Some("de_de"), LoadStatus::Loaded, "mymod:gear"), ItemNameStep::NoName));
    assert!(matches!(item_name_step(Some("de_de"), LoadStatus::NotFound, "minecraft:stone"), ItemNameStep::RetryDefault));
    assert!(matches!(item_name_step(None, LoadStatus::NotFound, "minecraft:stone"), ItemNameStep::NoName));
    assert!(matches!(item_name_step(Some("en_us"), LoadStatus::NotFound, "minecraft:stone"), ItemNameStep::NoName));
    assert!(matches!(item_name_step(Some("de_de"), LoadStatus::Failed, "minecraft:stone"), ItemNameStep::NoName));
}
