use home_nas::config::{
    default_db_host, default_db_name, default_db_port, default_db_user, default_jwt_secret,
    get_app_base_path, AppsConfig, Config, DatabaseConfig, GlobalConfig,
};

fn sample_config() -> Config {
    Config {
        global: GlobalConfig {
            web_url: "http://nas.local".to_string(),
            jwt_secret: default_jwt_secret(),
        },
        apps: AppsConfig {
            medias: vec!["photos:/mnt/nas/photos".to_string()],
            documents: vec![],
            videos: vec!["/mnt/nas/videos".to_string(), "other:/x".to_string()],
            music: vec!["library:/srv/music:extra".to_string()],
        },
        database: DatabaseConfig::default(),
    }
}

#[test]
fn test_parse_app_paths() {
    let paths = vec![
        "photos:/mnt/nas/photos".to_string(),
        "/mnt/nas/documents".to_string(),
    ];
    let parsed = Config::parse_app_paths(&paths);
    assert_eq!(parsed[0].name, "photos");
    assert_eq!(parsed[0].path, "/mnt/nas/photos");
    assert_eq!(parsed[1].name, "documents");
    assert_eq!(parsed[1].path, "/mnt/nas/documents");
}

#[test]
fn parse_app_paths_bare_path_with_trailing_slashes() {
    let paths = vec!["/mnt/nas/music///".to_string(), "plain".to_string(), "a:b:c".to_string()];
    let parsed = Config::parse_app_paths(&paths);
    assert_eq!(parsed.len(), 3);
    assert_eq!(parsed[0].name, "music");
    assert_eq!(parsed[0].path, "/mnt/nas/music///");
    assert_eq!(parsed[1].name, "plain");
    assert_eq!(parsed[1].path, "plain");
    assert_eq!(parsed[2].name, "a");
    assert_eq!(parsed[2].path, "b:c");
}

#[test]
fn parse_app_paths_root_only() {
    let parsed = Config::parse_app_paths(&["/".to_string()]);
    assert_eq!(parsed[0].name, "");
    assert_eq!(parsed[0].path, "/");
}

#[test]
fn database_defaults() {
    let db = DatabaseConfig::default();
    assert_eq!(db.host, "localhost");
    assert_eq!(db.port, 5432);
    assert_eq!(db.name, "home_nas");
    assert_eq!(db.user, "postgres");
    assert_eq!(db.password, "");
    assert_eq!(default_db_host(), "localhost");
    assert_eq!(default_db_port(), 5432);
    assert_eq!(default_db_name(), "home_nas");
    assert_eq!(default_db_user(), "postgres");
    assert_eq!(default_jwt_secret(), "change-me-in-production");
}

#[test]
fn database_url_formats_all_fields() {
    let mut config = sample_config();
    assert_eq!(config.database_url(), "postgres://postgres:@localhost:5432/home_nas");
    config.database = DatabaseConfig {
        host: "db".to_string(),
        port: 0,
        name: "n".to_string(),
        user: "u".to_string(),
        password: "p@ss".to_string(),
    };
    assert_eq!(config.database_url(), "postgres://u:p@ss@db:0/n");
    config.database.port = 65535;
    assert_eq!(config.database_url(), "postgres://u:p@ss@db:65535/n");
}

#[test]
fn app_base_paths() {
    let config = sample_config();
    assert_eq!(get_app_base_path(&config, "medias"), Some("/mnt/nas/photos".to_string()));
    assert_eq!(get_app_base_path(&config, "videos"), Some("/mnt/nas/videos".to_string()));
    assert_eq!(get_app_base_path(&config, "music"), Some("extra".to_string()));
    assert_eq!(get_app_base_path(&config, "documents"), None);
    assert_eq!(get_app_base_path(&config, "games"), None);
    let medias = Config::parse_app_paths(&config.apps.medias);
    assert_eq!(Some(medias[0].path.clone()), get_app_base_path(&config, "medias"));
    let videos = Config::parse_app_paths(&config.apps.videos);
    assert_eq!(Some(videos[0].path.clone()), get_app_base_path(&config, "videos"));
}
