use staple::config::{Config, ConfigFile, Hook, HookLine, Site};
use staple::error::StapleError;

#[test]
fn test_hook_display() {
    assert_eq!("[./] ls", HookLine::Command("ls".to_string()).display_string());
    assert_eq!(
        "[data] ls",
        HookLine::TargetDir {
            dir: "data".to_string(),
            command: "ls".to_string()
        }
        .display_string()
    );
}

#[test]
fn test_config_file_site_default() {
    let config = Config::default();
    let site = config.site;
    assert_eq!("Staple Site", site.title);
    assert_eq!("", site.author);
    assert_eq!("staple", site.theme);
    assert_eq!("", site.domain_root);
    assert_eq!("article.html", site.default_template);
    assert_eq!(800, site.utc_offset);
}

#[test]
fn test_config_file_hook_default() {
    let config = Config::default();
    assert!(config.hook.before_build.is_empty());
    assert!(config.hook.after_build.is_empty());
}

#[test]
fn test_config_file_statics_default() {
    let config = Config::default();
    assert!(config.statics.is_empty());
}

#[test]
fn test_config_file_extra_default() {
    let config = Config::default();
    assert!(config.extra.is_empty());
}

#[test]
fn test_config_default_generator() {
    let config = Config::get_default_file();
    assert_eq!(ConfigFile::default(), config);
}

#[test]
fn hook_to_dir_and_to_cmd() {
    let bare = HookLine::Command("make all".to_string());
    assert_eq!("./", bare.to_dir());
    assert_eq!("make all", bare.to_cmd());
    let dir = HookLine::TargetDir {
        dir: "scripts".to_string(),
        command: "sync.sh".to_string(),
    };
    assert_eq!("scripts", dir.to_dir());
    assert_eq!("sync.sh", dir.to_cmd());
}

#[test]
fn theme_check_rejects_empty_and_missing_themes() {
    let mut config = Config::default();
    match config.get_theme(false) {
        Err(StapleError::ThemeNotFound(t)) => assert_eq!("staple", t),
        other => panic!("expected ThemeNotFound, got {other:?}"),
    }
    assert_eq!("staple", config.get_theme(true).unwrap());
    config.site.theme = "".to_string();
    assert!(matches!(
        config.get_theme(true),
        Err(StapleError::ThemeNotFound(_))
    ));
}

#[test]
fn default_site_struct_is_complete() {
    let site = Site::default();
    assert_eq!("", site.subtitle);
    assert_eq!("", site.description);
    assert!(site.keywords.is_empty());
    assert_eq!("", site.email);
    assert_eq!("", site.domain);
    let hook = Hook::default();
    assert!(hook.before_build.is_empty());
}

#[test]
fn error_messages_name_their_subject() {
    assert_eq!(
        "`Staple.toml` does not exist, try to run `staple init` before.",
        StapleError::ConfigNotFound.message()
    );
    assert_eq!(
        "error on loading article data/a.md : url does not exist in article's metadata",
        StapleError::MissingField {
            file: "data/a.md".to_string(),
            field: "url".to_string()
        }
        .message()
    );
    assert_eq!(
        "error on loading article a.md : front matter grammar error at line 3",
        StapleError::Grammar {
            file: "a.md".to_string(),
            line: 3
        }
        .message()
    );
    assert_eq!(
        "execute hook `make` get non-zero exit code: 2",
        StapleError::Hook {
            command: "make".to_string(),
            code: Some(2)
        }
        .message()
    );
    assert_eq!(
        "execute hook `make` get non-zero exit code: -1",
        StapleError::Hook {
            command: "make".to_string(),
            code: None
        }
        .message()
    );
    assert_eq!(
        "cannot acquire the build lock: is another build in progress?",
        StapleError::LockTaken.message()
    );
}
