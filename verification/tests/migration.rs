use backup_core::migration::{KnownHost, MarketplaceSettings, Setting};
use backup_core::version::{MarketPlaceUrls, Version};

fn host(key: &str, url: Option<&str>, name: Option<&str>) -> KnownHost {
    KnownHost {
        key: key.to_string(),
        text: None,
        url: url.map(|s| s.to_string()),
        name: name.map(|s| s.to_string()),
    }
}

fn text(setting: &Setting) -> Option<&str> {
    match setting {
        Setting::Text(t) => Some(t.as_str()),
        _ => None,
    }
}

#[test]
fn test_that_ui_includes_url() {
    let seed = MarketplaceSettings {
        selected_id: None,
        selected_url: Setting::Absent,
        known_hosts: vec![],
    };
    let ui = Version::new().up(&seed);
    for market_place in [MarketPlaceUrls::Default] {
        let url = market_place.url();
        assert!(
            ui.known_hosts.contains(&url),
            "Should have a market place for {url}"
        );
    }
    assert_eq!(text(&ui.selected_url), Some("https://registry.start9.com/"));
}

#[test]
fn up_keeps_each_url_once_with_a_slash() {
    let settings = MarketplaceSettings {
        selected_id: Some("b".to_string()),
        selected_url: Setting::Absent,
        known_hosts: vec![
            host("a", Some("https://registry.start9.com"), Some("Start9")),
            host("b", Some("https://beta.example.com/"), Some("Beta")),
            host("c", None, Some("No URL")),
            host("d", Some("https://beta.example.com"), Some("Beta again")),
            host("e", Some("https://community.example.com/x"), None),
        ],
    };
    let ui = Version::new().up(&settings);
    assert_eq!(
        ui.known_hosts,
        vec![
            "https://registry.start9.com/",
            "https://beta.example.com/",
            "https://community.example.com/x/",
        ]
    );
    // the entry that the chosen identifier names is no text: the default is chosen
    assert_eq!(text(&ui.selected_url), Some("https://registry.start9.com/"));
}

#[test]
fn up_chooses_the_named_text_then_the_old_url_then_the_default() {
    let mut settings = MarketplaceSettings {
        selected_id: Some("b".to_string()),
        selected_url: Setting::Text("https://old.example.com/".to_string()),
        known_hosts: vec![
            host("a", None, None),
            KnownHost {
                key: "b".to_string(),
                text: Some("https://b.example.com".to_string()),
                url: None,
                name: None,
            },
        ],
    };
    assert_eq!(text(&Version::new().up(&settings).selected_url), Some("https://b.example.com"));
    settings.selected_id = Some("a".to_string());
    assert_eq!(text(&Version::new().up(&settings).selected_url), Some("https://old.example.com/"));
    settings.selected_id = Some("zz".to_string());
    assert_eq!(text(&Version::new().up(&settings).selected_url), Some("https://old.example.com/"));
    settings.selected_url = Setting::Other;
    assert!(matches!(Version::new().up(&settings).selected_url, Setting::Other));
    settings.selected_url = Setting::Absent;
    settings.selected_id = None;
    assert_eq!(
        text(&Version::new().up(&settings).selected_url),
        Some("https://registry.start9.com/")
    );
}

#[test]
fn down_names_the_marketplaces_by_the_identifiers_given() {
    let settings = MarketplaceSettings {
        selected_id: None,
        selected_url: Setting::Text("Beta".to_string()),
        known_hosts: vec![
            host("https://registry.start9.com/", None, Some("Start9")),
            host("https://nameless.example.com/", None, None),
            host("https://beta.example.com/", None, Some("Beta")),
        ],
    };
    let ids = vec!["id-1".to_string(), "id-2".to_string()];
    let packages = vec!["acme-crm".to_string(), "other".to_string()];
    let ui = Version::new().down_with(&settings, &ids, &packages).unwrap();
    let got: Vec<(&str, &str, &str)> = ui
        .known_hosts
        .iter()
        .map(|h| (h.id.as_str(), h.name.as_str(), h.url.as_str()))
        .collect();
    assert_eq!(
        got,
        vec![
            ("id-1", "Start9", "https://registry.start9.com/"),
            ("id-2", "Beta", "https://beta.example.com/"),
        ]
    );
    assert_eq!(ui.selected_id.as_deref(), Some("id-2"));
    assert!(ui.auto_check_updates);
    assert_eq!(ui.pkg_order, packages);
    // too few identifiers
    assert!(Version::new().down_with(&settings, &ids[..1].to_vec(), &packages).is_none());
    assert!(Version::new().down_with(&settings, &vec![], &packages).is_none());
}

#[test]
fn down_draws_a_fresh_identifier_for_each_named_marketplace() {
    let settings = MarketplaceSettings {
        selected_id: None,
        selected_url: Setting::Text("https://registry.start9.com/".to_string()),
        known_hosts: vec![
            host("https://registry.start9.com/", None, Some("Start9")),
            host("https://beta.example.com/", None, Some("Beta")),
        ],
    };
    let ui = Version::new().down(&settings, &vec![]);
    assert_eq!(ui.known_hosts.len(), 2);
    assert_eq!(ui.known_hosts[0].id.len(), 36);
    assert_ne!(ui.known_hosts[0].id, ui.known_hosts[1].id);
    assert_eq!(ui.known_hosts[1].url, "https://beta.example.com/");
    // no marketplace is named like the chosen URL
    assert!(ui.selected_id.is_none());
    assert!(ui.pkg_order.is_empty());
}
