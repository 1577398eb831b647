//! The migration of the user interface's marketplace settings to version
//! 0.3.3 and back. Before, the marketplaces were kept under identifiers and
//! the chosen one was named by its identifier; from this version on they are
//! kept under their URLs, each with a slash at its end, and the chosen one is
//! named by its URL.

use vstd::prelude::*;
use crate::text::{contains_text, copy_text, copy_texts, text_equal, text_view, texts_view};
use crate::version::{ensure_trailing_slashes, regex_search, MarketPlaceUrls, Version};

verus! {

/// One setting of the document: absent or null, a text, or anything else.
#[derive(Debug)]
pub enum Setting {
    Absent,
    Text(String),
    Other,
}

/// A setting as plain values.
pub enum SettingView {
    Absent,
    Text(Seq<char>),
    Other,
}

impl View for Setting {
    type V = SettingView;

    open spec fn view(&self) -> SettingView {
        match self {
            Setting::Absent => SettingView::Absent,
            Setting::Text(text) => SettingView::Text(text@),
            Setting::Other => SettingView::Other,
        }
    }
}

/// One entry of the known marketplaces: the key it is kept under, the entry
/// itself where it is a text, and its `url` and `name` where they are texts.
#[derive(Debug)]
pub struct KnownHost {
    pub key: String,
    pub text: Option<String>,
    pub url: Option<String>,
    pub name: Option<String>,
}

/// An entry as plain values.
pub struct KnownHostView {
    pub key: Seq<char>,
    pub text: Option<Seq<char>>,
    pub url: Option<Seq<char>>,
    pub name: Option<Seq<char>>,
}

impl View for KnownHost {
    type V = KnownHostView;

    open spec fn view(&self) -> KnownHostView {
        KnownHostView {
            key: self.key@,
            text: text_view(self.text),
            url: text_view(self.url),
            name: text_view(self.name),
        }
    }
}

/// The marketplace settings as a migration reads them.
#[derive(Debug)]
pub struct MarketplaceSettings {
    /// `selected-id`, where it is a text.
    pub selected_id: Option<String>,
    /// `selected-url`.
    pub selected_url: Setting,
    /// `known-hosts`, entry by entry.
    pub known_hosts: Vec<KnownHost>,
}

/// The entries as plain values.
pub open spec fn hosts_view(hosts: Seq<KnownHost>) -> Seq<KnownHostView> {
    Seq::new(hosts.len(), |i: int| hosts[i]@)
}

/// The settings after the migration up: the chosen marketplace's URL and
/// the URLs of the known ones, each once.
#[derive(Debug)]
pub struct Upgraded {
    pub selected_url: Setting,
    pub known_hosts: Vec<String>,
}

/// A marketplace as the version before keeps it.
#[derive(Debug)]
pub struct NamedHost {
    pub id: String,
    pub name: String,
    pub url: String,
}

/// The settings after the migration down.
#[derive(Debug)]
pub struct Downgraded {
    /// The identifier of the chosen marketplace; `None` leaves the setting
    /// as it is.
    pub selected_id: Option<String>,
    pub known_hosts: Vec<NamedHost>,
    pub auto_check_updates: bool,
    pub pkg_order: Vec<String>,
}

/// The URL of the default marketplace.
pub open spec fn default_url() -> Seq<char> {
    "https://registry.start9.com"@ + "/"@
}

/// A URL with a slash at its end, as `ensure_trailing_slashes` gives it.
pub open spec fn with_slash(url: Seq<char>) -> Seq<char> {
    if regex_search(".*/$"@, url) == Some(true) {
        url
    } else {
        url + "/"@
    }
}

/// The entry under `key` where it is a text: that of the first entry with
/// this key.
pub open spec fn text_under(hosts: Seq<KnownHostView>, key: Seq<char>) -> Option<Seq<char>>
    decreases hosts.len(),
{
    if hosts.len() == 0 {
        None
    } else if hosts[0].key == key {
        hosts[0].text
    } else {
        text_under(hosts.drop_first(), key)
    }
}

/// The keys with `key` among them, once.
pub open spec fn keys_with(keys: Seq<Seq<char>>, key: Seq<char>) -> Seq<Seq<char>> {
    if keys.contains(key) {
        keys
    } else {
        keys.push(key)
    }
}

/// The URLs of the entries that have one, each with a slash at its end and
/// each once, in the order of the entries.
pub open spec fn host_urls(hosts: Seq<KnownHostView>) -> Seq<Seq<char>>
    decreases hosts.len(),
{
    if hosts.len() == 0 {
        Seq::empty()
    } else {
        let before = host_urls(hosts.drop_last());
        match hosts.last().url {
            Some(url) => keys_with(before, with_slash(url)),
            None => before,
        }
    }
}

/// The chosen URL after the migration up: the entry that the chosen
/// identifier names, where that entry is a text; else the URL that was
/// chosen already; else the default marketplace.
pub open spec fn selected_after_up(
    selected_id: Option<Seq<char>>,
    selected_url: SettingView,
    hosts: Seq<KnownHostView>,
) -> SettingView {
    let named = match selected_id {
        Some(id) => text_under(hosts, id),
        None => None,
    };
    match named {
        Some(url) => SettingView::Text(url),
        None => match selected_url {
            SettingView::Absent => SettingView::Text(default_url()),
            other => other,
        },
    }
}

/// How many of the entries have a name.
pub open spec fn named_count(hosts: Seq<KnownHostView>) -> nat
    decreases hosts.len(),
{
    if hosts.len() == 0 {
        0
    } else {
        named_count(hosts.drop_last()) + if hosts.last().name.is_some() {
            1nat
        } else {
            0nat
        }
    }
}

/// The marketplaces after the migration down: each entry that has a name,
/// under the next of the fresh identifiers, with the key it was kept under
/// as its URL.
pub open spec fn named_hosts(hosts: Seq<KnownHostView>, ids: Seq<Seq<char>>) -> Seq<
    (Seq<char>, Seq<char>, Seq<char>),
>
    decreases hosts.len(),
{
    if hosts.len() == 0 {
        Seq::empty()
    } else {
        let before = named_hosts(hosts.drop_last(), ids);
        match hosts.last().name {
            Some(name) => before.push(
                (ids[named_count(hosts.drop_last()) as int], name, hosts.last().key),
            ),
            None => before,
        }
    }
}

/// The chosen identifier after the migration down: that of the last entry
/// whose name is the chosen URL's text; `None` where there is none.
pub open spec fn selected_after_down(
    hosts: Seq<KnownHostView>,
    ids: Seq<Seq<char>>,
    selected_url: SettingView,
) -> Option<Seq<char>>
    decreases hosts.len(),
{
    if hosts.len() == 0 {
        None
    } else {
        match hosts.last().name {
            Some(name) => if selected_url == SettingView::Text(name) {
                Some(ids[named_count(hosts.drop_last()) as int])
            } else {
                selected_after_down(hosts.drop_last(), ids, selected_url)
            },
            None => selected_after_down(hosts.drop_last(), ids, selected_url),
        }
    }
}

/// The marketplaces as plain values: identifier, name and URL.
pub open spec fn named_view(hosts: Seq<NamedHost>) -> Seq<(Seq<char>, Seq<char>, Seq<char>)> {
    Seq::new(hosts.len(), |i: int| (hosts[i].id@, hosts[i].name@, hosts[i].url@))
}

/// The settings after the migration down are what the entries, the fresh
/// identifiers, the chosen URL and the installed packages give.
pub open spec fn is_downgrade(
    settings: &MarketplaceSettings,
    ids: Seq<Seq<char>>,
    package_ids: Seq<Seq<char>>,
    r: &Downgraded,
) -> bool {
    &&& named_view(r.known_hosts@) == named_hosts(hosts_view(settings.known_hosts@), ids)
    &&& text_view(r.selected_id) == selected_after_down(
        hosts_view(settings.known_hosts@),
        ids,
        settings.selected_url@,
    )
    &&& r.auto_check_updates
    &&& texts_view(r.pkg_order@) == package_ids
}

/// A fresh identifier: `uuid::Uuid::new_v4` as a text. It is drawn at
/// random, so nothing is claimed of it.
#[verifier::external_body]
fn fresh_id() -> (id: String) {
    uuid::Uuid::new_v4().to_string()
}

fn put_key(keys: &mut Vec<String>, key: String)
    ensures
        texts_view(final(keys)@) == keys_with(texts_view(old(keys)@), key@),
{
    if !contains_text(keys, key.as_str()) {
        keys.push(key);
        assert(texts_view(keys@) =~= texts_view(old(keys)@).push(key@));
    }
}

impl MarketplaceSettings {
    /// The entry under `key`, where it is a text.
    fn text_of(&self, key: &str) -> (text: Option<String>)
        ensures
            text_view(text) == text_under(hosts_view(self.known_hosts@), key@),
    {
        let ghost hosts = hosts_view(self.known_hosts@);
        let mut i: usize = 0;
        proof {
            assert(hosts.skip(0) =~= hosts);
        }
        while i < self.known_hosts.len()
            invariant
                i <= self.known_hosts@.len(),
                hosts == hosts_view(self.known_hosts@),
                text_under(hosts, key@) == text_under(hosts.skip(i as int), key@),
            decreases self.known_hosts@.len() - i,
        {
            proof {
                let rest = hosts.skip(i as int);
                assert(rest[0] == hosts[i as int]);
                assert(rest.drop_first() =~= hosts.skip(i + 1));
            }
            let host = &self.known_hosts[i];
            if text_equal(host.key.as_str(), key) {
                return copy_text(&host.text);
            }
            i += 1;
        }
        None
    }
}

impl Version {
    /// Brings the marketplace settings up to this version. The known
    /// marketplaces become the URLs of the entries that have one, each with
    /// a slash at its end, and the default marketplace; the chosen one is
    /// named by its URL, and is the default marketplace where none was
    /// chosen.
    pub fn up(&self, settings: &MarketplaceSettings) -> (r: Upgraded)
        ensures
            r.selected_url@ == selected_after_up(
                text_view(settings.selected_id),
                settings.selected_url@,
                hosts_view(settings.known_hosts@),
            ),
            texts_view(r.known_hosts@) == keys_with(
                host_urls(hosts_view(settings.known_hosts@)),
                default_url(),
            ),
    {
        let ghost hosts = hosts_view(settings.known_hosts@);
        let named: Option<String> = match &settings.selected_id {
            Some(id) => settings.text_of(id.as_str()),
            None => None,
        };
        let selected_url = match named {
            Some(url) => Setting::Text(url),
            None => match &settings.selected_url {
                Setting::Absent => Setting::Text(MarketPlaceUrls::Default.url()),
                Setting::Text(url) => Setting::Text(url.clone()),
                Setting::Other => Setting::Other,
            },
        };
        let mut known_hosts: Vec<String> = Vec::new();
        let mut i: usize = 0;
        proof {
            assert(hosts.take(0) =~= Seq::empty());
            assert(texts_view(known_hosts@) =~= Seq::empty());
        }
        while i < settings.known_hosts.len()
            invariant
                i <= settings.known_hosts@.len(),
                hosts == hosts_view(settings.known_hosts@),
                texts_view(known_hosts@) == host_urls(hosts.take(i as int)),
            decreases settings.known_hosts@.len() - i,
        {
            proof {
                let longer = hosts.take(i + 1);
                assert(longer.drop_last() =~= hosts.take(i as int));
                assert(longer.last() == hosts[i as int]);
            }
            match &settings.known_hosts[i].url {
                Some(url) => {
                    put_key(&mut known_hosts, ensure_trailing_slashes(url.as_str()));
                },
                None => {},
            }
            i += 1;
        }
        proof {
            assert(hosts.take(settings.known_hosts@.len() as int) =~= hosts);
        }
        put_key(&mut known_hosts, MarketPlaceUrls::Default.url());
        Upgraded { selected_url, known_hosts }
    }

    /// Takes the marketplace settings back to the version before, with
    /// these identifiers for the marketplaces that have a name, in their
    /// order. `None` where the identifiers are too few.
    pub fn down_with(
        &self,
        settings: &MarketplaceSettings,
        ids: &Vec<String>,
        package_ids: &Vec<String>,
    ) -> (r: Option<Downgraded>)
        ensures
            r.is_some() == (named_count(hosts_view(settings.known_hosts@)) <= ids@.len()),
            r matches Some(d) ==> is_downgrade(
                settings,
                texts_view(ids@),
                texts_view(package_ids@),
                &d,
            ),
    {
        let ghost hosts = hosts_view(settings.known_hosts@);
        let ghost fresh = texts_view(ids@);
        let mut known_hosts: Vec<NamedHost> = Vec::new();
        let mut selected_id: Option<String> = None;
        let mut used: usize = 0;
        let mut i: usize = 0;
        proof {
            assert(hosts.take(0) =~= Seq::empty());
            assert(named_view(known_hosts@) =~= Seq::empty());
        }
        while i < settings.known_hosts.len()
            invariant
                i <= settings.known_hosts@.len(),
                hosts == hosts_view(settings.known_hosts@),
                fresh == texts_view(ids@),
                used == named_count(hosts.take(i as int)),
                used <= i,
                used <= ids@.len(),
                named_view(known_hosts@) == named_hosts(hosts.take(i as int), fresh),
                text_view(selected_id) == selected_after_down(
                    hosts.take(i as int),
                    fresh,
                    settings.selected_url@,
                ),
            decreases settings.known_hosts@.len() - i,
        {
            proof {
                let longer = hosts.take(i + 1);
                assert(longer.drop_last() =~= hosts.take(i as int));
                assert(longer.last() == hosts[i as int]);
            }
            let host = &settings.known_hosts[i];
            match &host.name {
                Some(name) => {
                    if used >= ids.len() {
                        proof {
                            lemma_named_count_grows(hosts, i + 1);
                        }
                        return None;
                    }
                    let id = &ids[used];
                    let chosen: bool = match &settings.selected_url {
                        Setting::Text(url) => text_equal(url.as_str(), name.as_str()),
                        _ => false,
                    };
                    if chosen {
                        selected_id = Some(id.clone());
                    }
                    let ghost before = named_view(known_hosts@);
                    known_hosts.push(
                        NamedHost { id: id.clone(), name: name.clone(), url: host.key.clone() },
                    );
                    assert(named_view(known_hosts@) =~= before.push((id@, name@, host.key@)));
                    used += 1;
                },
                None => {},
            }
            i += 1;
        }
        proof {
            assert(hosts.take(settings.known_hosts@.len() as int) =~= hosts);
        }
        Some(
            Downgraded {
                selected_id,
                known_hosts,
                auto_check_updates: true,
                pkg_order: copy_texts(package_ids),
            },
        )
    }

    /// Takes the marketplace settings back to the version before: each
    /// marketplace that has a name gets a fresh identifier, and the chosen
    /// one is named by the identifier of the marketplace whose name is the
    /// chosen URL's text.
    pub fn down(&self, settings: &MarketplaceSettings, package_ids: &Vec<String>) -> (r: Downgraded)
        ensures
            exists|ids: Seq<Seq<char>>|
                ids.len() == settings.known_hosts@.len() && #[trigger] is_downgrade(
                    settings,
                    ids,
                    texts_view(package_ids@),
                    &r,
                ),
    {
        let mut ids: Vec<String> = Vec::new();
        let mut i: usize = 0;
        while i < settings.known_hosts.len()
            invariant
                i <= settings.known_hosts@.len(),
                ids@.len() == i,
            decreases settings.known_hosts@.len() - i,
        {
            ids.push(fresh_id());
            i += 1;
        }
        proof {
            lemma_named_count_grows(
                hosts_view(settings.known_hosts@),
                settings.known_hosts@.len() as int,
            );
            assert(hosts_view(settings.known_hosts@).take(settings.known_hosts@.len() as int)
                =~= hosts_view(settings.known_hosts@));
        }
        match self.down_with(settings, &ids, package_ids) {
            Some(d) => d,
            None => Downgraded {
                selected_id: None,
                known_hosts: Vec::new(),
                auto_check_updates: true,
                pkg_order: Vec::new(),
            },
        }
    }
}

/// The entries with a name among the first `k` are no more than among all,
/// and no more than `k`.
pub proof fn lemma_named_count_grows(hosts: Seq<KnownHostView>, k: int)
    requires
        0 <= k <= hosts.len(),
    ensures
        named_count(hosts.take(k)) <= named_count(hosts),
        named_count(hosts.take(k)) <= k,
    decreases hosts.len(),
{
    if k == hosts.len() {
        assert(hosts.take(k) =~= hosts);
        if hosts.len() > 0 {
            lemma_named_count_grows(hosts.drop_last(), k - 1);
            assert(hosts.drop_last().take(k - 1) =~= hosts.drop_last());
        }
    } else {
        lemma_named_count_grows(hosts.drop_last(), k);
        assert(hosts.drop_last().take(k) =~= hosts.take(k));
    }
}

} // verus!
