//! The settings of the connector: those of the command line and the environment over those of the
//! configuration file, and those over the defaults.

use vstd::prelude::*;

use crate::document::{
    has_room_for_id, is_long_run, is_plain_text, is_with_client_id, persisted_id_is_read_back,
    quotes_can_be_counted, string_at, SectionReader, TomlContents,
};
use crate::urls::{parse_url, parsed_url};

verus! {

/// Where Ollama listens when nobody says otherwise.
pub const DEFAULT_OLLAMA_URL: &'static str = "http://127.0.0.1:11434";

/// What is logged when nobody says otherwise.
pub const DEFAULT_LOG_LEVEL: &'static str = "info";

/// The configuration file that is read when there is one and no other is named.
pub const DEFAULT_CONFIG_PATH: &'static str = "config.toml";

/// The settings of a configuration file. None of them has to be given there.
#[derive(Debug, Clone, Default)]
pub struct FileConfig {
    pub websocket: WebsocketSection,
    pub ollama: OllamaSection,
    pub client: ClientSection,
}

/// The table `[websocket]`.
#[derive(Debug, Clone, Default)]
pub struct WebsocketSection {
    pub url: Option<String>,
    pub auth_header: Option<String>,
}

/// The table `[ollama]`.
#[derive(Debug, Clone, Default)]
pub struct OllamaSection {
    pub url: Option<String>,
}

/// The table `[client]`.
#[derive(Debug, Clone, Default)]
pub struct ClientSection {
    pub id: Option<String>,
    pub log_level: Option<String>,
}

/// The settings of the command line and the environment.
#[derive(Debug, Default)]
pub struct ConfigOverrides {
    pub ws_url: Option<String>,
    pub ws_auth_header: Option<String>,
    pub ollama_url: Option<String>,
    pub client_id: Option<String>,
    pub log_level: Option<String>,
}

/// The settings in force. The URLs are in their normal form.
#[derive(Debug, Clone)]
pub struct Config {
    pub ws_url: String,
    pub ws_auth_header: Option<String>,
    pub ollama_url: String,
    pub client_id: String,
    pub log_level: String,
}

/// Why there are no settings. A `cause` is the message of the error underneath.
#[derive(Debug, Clone, PartialEq)]
pub enum ConfigError {
    /// Nothing says where the service is.
    MissingWsUrl,
    /// What should be the URL of the service is none.
    WsUrl { cause: String },
    /// What should be the URL of Ollama is none.
    OllamaUrl { cause: String },
}

/// What loading the settings comes to.
#[derive(Debug)]
pub struct Loaded {
    /// An identifier that was made up and belongs in the configuration file, whether or not the
    /// settings are usable.
    pub persist: Option<String>,
    /// The settings.
    pub config: Result<Config, ConfigError>,
}

/// The settings that a source gives, one by one.
#[verifier::ext_equal]
pub struct SettingsView {
    pub ws_url: Option<Seq<char>>,
    pub ws_auth_header: Option<Seq<char>>,
    pub ollama_url: Option<Seq<char>>,
    pub client_id: Option<Seq<char>>,
    pub log_level: Option<Seq<char>>,
}

/// The contents of a [`Config`].
#[verifier::ext_equal]
pub struct ConfigView {
    pub ws_url: Seq<char>,
    pub ws_auth_header: Option<Seq<char>>,
    pub ollama_url: Seq<char>,
    pub client_id: Seq<char>,
    pub log_level: Seq<char>,
}

/// The contents of a [`ConfigError`].
#[verifier::ext_equal]
pub enum ConfigErrorView {
    MissingWsUrl,
    WsUrl { cause: Seq<char> },
    OllamaUrl { cause: Seq<char> },
}

/// The contents of a [`Loaded`].
#[verifier::ext_equal]
pub struct LoadedView {
    pub persist: Option<Seq<char>>,
    pub config: Result<ConfigView, ConfigErrorView>,
}

impl View for ConfigOverrides {
    type V = SettingsView;

    open spec fn view(&self) -> SettingsView {
        SettingsView {
            ws_url: self.ws_url.deep_view(),
            ws_auth_header: self.ws_auth_header.deep_view(),
            ollama_url: self.ollama_url.deep_view(),
            client_id: self.client_id.deep_view(),
            log_level: self.log_level.deep_view(),
        }
    }
}

impl View for FileConfig {
    type V = SettingsView;

    open spec fn view(&self) -> SettingsView {
        SettingsView {
            ws_url: self.websocket.url.deep_view(),
            ws_auth_header: self.websocket.auth_header.deep_view(),
            ollama_url: self.ollama.url.deep_view(),
            client_id: self.client.id.deep_view(),
            log_level: self.client.log_level.deep_view(),
        }
    }
}

impl View for Config {
    type V = ConfigView;

    open spec fn view(&self) -> ConfigView {
        ConfigView {
            ws_url: self.ws_url@,
            ws_auth_header: self.ws_auth_header.deep_view(),
            ollama_url: self.ollama_url@,
            client_id: self.client_id@,
            log_level: self.log_level@,
        }
    }
}

impl View for ConfigError {
    type V = ConfigErrorView;

    open spec fn view(&self) -> ConfigErrorView {
        match self {
            ConfigError::MissingWsUrl => ConfigErrorView::MissingWsUrl,
            ConfigError::WsUrl { cause } => ConfigErrorView::WsUrl { cause: cause@ },
            ConfigError::OllamaUrl { cause } => ConfigErrorView::OllamaUrl { cause: cause@ },
        }
    }
}

impl View for Loaded {
    type V = LoadedView;

    open spec fn view(&self) -> LoadedView {
        LoadedView {
            persist: self.persist.deep_view(),
            config: match self.config {
                Ok(config) => Ok(config@),
                Err(error) => Err(error@),
            },
        }
    }
}

/// The settings of a file, or none where no file is read.
pub open spec fn file_settings(file: Option<FileConfig>) -> SettingsView {
    match file {
        Some(file) => file@,
        None => SettingsView {
            ws_url: None,
            ws_auth_header: None,
            ollama_url: None,
            client_id: None,
            log_level: None,
        },
    }
}

/// The first of two settings that is given.
pub open spec fn first_of(over: Option<Seq<char>>, under: Option<Seq<char>>) -> Option<Seq<char>> {
    if over is Some {
        over
    } else {
        under
    }
}

/// A setting, or what stands in for it where it is not given.
pub open spec fn or_default(setting: Option<Seq<char>>, default: Seq<char>) -> Seq<char> {
    match setting {
        Some(text) => text,
        None => default,
    }
}

/// The settings of `over` where it gives them, and those of `under` where it does not.
pub open spec fn layered(over: SettingsView, under: SettingsView) -> SettingsView {
    SettingsView {
        ws_url: first_of(over.ws_url, under.ws_url),
        ws_auth_header: first_of(over.ws_auth_header, under.ws_auth_header),
        ollama_url: first_of(over.ollama_url, under.ollama_url),
        client_id: first_of(over.client_id, under.client_id),
        log_level: first_of(over.log_level, under.log_level),
    }
}

/// What `settings` come to once the defaults fill them up and the URLs are read. The URL of the
/// service is read first.
pub open spec fn completed(settings: SettingsView, made_up_id: Seq<char>) -> Result<
    ConfigView,
    ConfigErrorView,
> {
    match settings.ws_url {
        None => Err(ConfigErrorView::MissingWsUrl),
        Some(ws_url) => match parsed_url(ws_url) {
            Err(cause) => Err(ConfigErrorView::WsUrl { cause }),
            Ok(ws_url) => match parsed_url(
                or_default(settings.ollama_url, DEFAULT_OLLAMA_URL@),
            ) {
                Err(cause) => Err(ConfigErrorView::OllamaUrl { cause }),
                Ok(ollama_url) => Ok(
                    ConfigView {
                        ws_url,
                        ws_auth_header: settings.ws_auth_header,
                        ollama_url,
                        client_id: or_default(settings.client_id, made_up_id),
                        log_level: or_default(settings.log_level, DEFAULT_LOG_LEVEL@),
                    },
                ),
            },
        },
    }
}

/// The identifier that is made up from a UUID.
pub open spec fn made_up_id(uuid: Seq<char>) -> Seq<char> {
    "client-"@ + uuid
}

/// Whether an identifier has to be made up: the service is known, and nothing gives one.
pub open spec fn needs_id(settings: SettingsView) -> bool {
    settings.ws_url is Some && settings.client_id is None
}

proof fn lemma_made_up_id_is_plain(uuid: Seq<char>)
    requires
        is_random_uuid(uuid),
    ensures
        is_plain_text(made_up_id(uuid)),
        quotes_can_be_counted(made_up_id(uuid)),
{
    reveal_strlit("client-");
    let id = made_up_id(uuid);
    assert forall|i: int| 0 <= i < id.len() implies #[trigger] id[i] >= '\u{20}' && id[i]
        != '\u{7f}' && id[i] != '"' && id[i] != '\'' && id[i] != '\\' by {
        if i >= 7 {
            assert(id[i] == uuid[i - 7]);
        }
    }
    assert(id.len() < 256);
    assert forall|start: int| !#[trigger] is_long_run(id, '\'', start) by {}
    assert forall|start: int| !#[trigger] is_long_run(id, '"', start) by {}
}

/// What loading comes to when `uuid` serves for an identifier that has to be made up.
pub open spec fn loaded(
    file: Option<FileConfig>,
    overrides: SettingsView,
    uuid: Seq<char>,
) -> LoadedView {
    let settings = layered(overrides, file_settings(file));
    LoadedView {
        persist: if needs_id(settings) && file is Some {
            Some(made_up_id(uuid))
        } else {
            None
        },
        config: completed(settings, made_up_id(uuid)),
    }
}

/// Whether `c` is a digit of a UUID: a hexadecimal one, in lower case.
pub open spec fn is_uuid_digit(c: char) -> bool {
    '0' <= c <= '9' || 'a' <= c <= 'f'
}

/// Whether `s` is a random UUID as it is usually written: five groups of digits with hyphens
/// between them, and the marks of a random one.
pub open spec fn is_random_uuid(s: Seq<char>) -> bool {
    &&& s.len() == 36
    &&& s[8] == '-' && s[13] == '-' && s[18] == '-' && s[23] == '-'
    &&& forall|i: int|
        0 <= i < 36 && i != 8 && i != 13 && i != 18 && i != 23 ==> is_uuid_digit(#[trigger] s[i])
    &&& s[14] == '4'
    &&& s[19] == '8' || s[19] == '9' || s[19] == 'a' || s[19] == 'b'
}

/// Calls `uuid::Uuid::new_v4` and `to_string` on what it gives. Which UUID it is rests on chance;
/// the shape of the text does not. The call panics where the system has no random numbers to give.
#[verifier::external_body]
fn new_uuid() -> (r: String)
    ensures
        is_random_uuid(r@),
{
    uuid::Uuid::new_v4().to_string()
}

/// The first of two settings that is given.
fn choose_setting(over: Option<String>, under: Option<String>) -> (r: Option<String>)
    ensures
        r.deep_view() == first_of(over.deep_view(), under.deep_view()),
{
    match over {
        Some(text) => Some(text),
        None => under,
    }
}

/// A setting, or what stands in for it where it is not given.
fn setting_or(setting: Option<String>, default: &str) -> (r: String)
    ensures
        r@ == or_default(setting.deep_view(), default@),
{
    match setting {
        Some(text) => text,
        None => default.to_owned(),
    }
}

impl ConfigError {
    /// The error in words, from the outermost context to the innermost cause.
    pub fn message(&self) -> (r: String)
        ensures
            r@ == error_text(self@),
    {
        match self {
            ConfigError::MissingWsUrl =>
                "websocket url not configured (set [websocket].url in config.toml or --ws-url)".to_owned(),
            ConfigError::WsUrl { cause } => {
                let mut r: String = "parsing websocket url: ".to_owned();
                r.append(cause.as_str());
                r
            },
            ConfigError::OllamaUrl { cause } => {
                let mut r: String = "parsing ollama url: ".to_owned();
                r.append(cause.as_str());
                r
            },
        }
    }
}

/// The words for why there are no settings.
pub open spec fn error_text(error: ConfigErrorView) -> Seq<char> {
    match error {
        ConfigErrorView::MissingWsUrl =>
            "websocket url not configured (set [websocket].url in config.toml or --ws-url)"@,
        ConfigErrorView::WsUrl { cause } => "parsing websocket url: "@ + cause,
        ConfigErrorView::OllamaUrl { cause } => "parsing ollama url: "@ + cause,
    }
}

impl Config {
    /// Loads the settings from what the configuration file says, where one is read, and what the
    /// command line and the environment say. Where an identifier has to be made up, it is a random
    /// one.
    pub fn load(file: Option<FileConfig>, overrides: ConfigOverrides) -> (r: Loaded)
        ensures
            needs_id(layered(overrides@, file_settings(file))) ==> exists|uuid: Seq<char>|
                is_random_uuid(uuid) && r@ == #[trigger] loaded(file, overrides@, uuid),
            !needs_id(layered(overrides@, file_settings(file))) ==> forall|uuid: Seq<char>|
                r@ == #[trigger] loaded(file, overrides@, uuid),
            r.persist matches Some(id) ==> is_plain_text(id@) && quotes_can_be_counted(id@),
            r.config matches Ok(config) ==> match (overrides.client_id, file) {
                (Some(id), _) => config.client_id@ == id@,
                (None, Some(FileConfig { client: ClientSection { id: Some(id), .. }, .. })) =>
                    config.client_id@ == id@,
                _ => exists|uuid: Seq<char>| #[trigger]
                    is_random_uuid(uuid) && config.client_id@ == "client-"@ + uuid,
            },
    {
        let known: bool = overrides.ws_url.is_some() || match &file {
            Some(file) => file.websocket.url.is_some(),
            None => false,
        };
        let named: bool = overrides.client_id.is_some() || match &file {
            Some(file) => file.client.id.is_some(),
            None => false,
        };
        let uuid: String = if known && !named {
            new_uuid()
        } else {
            String::new()
        };
        proof {
            if known && !named {
                lemma_made_up_id_is_plain(uuid@);
            }
        }
        let ghost drawn = uuid@;
        let r = Config::load_with(file, overrides, uuid);
        proof {
            if r.config is Ok && known && !named {
                assert(is_random_uuid(drawn) && r.config->Ok_0.client_id@ == "client-"@ + drawn);
            }
        }
        r
    }

    /// Loads the settings as [`Config::load`] does, with `uuid` for an identifier that has to be
    /// made up.
    pub fn load_with(file: Option<FileConfig>, overrides: ConfigOverrides, uuid: String) -> (r:
        Loaded)
        ensures
            r@ == loaded(file, overrides@, uuid@),
    {
        let has_file: bool = file.is_some();
        let (f_ws_url, f_auth, f_ollama, f_id, f_level) = match file {
            Some(f) => (
                f.websocket.url,
                f.websocket.auth_header,
                f.ollama.url,
                f.client.id,
                f.client.log_level,
            ),
            None => (None, None, None, None, None),
        };
        let ws_url_text: String = match choose_setting(overrides.ws_url, f_ws_url) {
            Some(text) => text,
            None => {
                return Loaded { persist: None, config: Err(ConfigError::MissingWsUrl) };
            },
        };
        let ollama_url_text: String = setting_or(
            choose_setting(overrides.ollama_url, f_ollama),
            DEFAULT_OLLAMA_URL,
        );
        let mut persist: Option<String> = None;
        let client_id: String = match choose_setting(overrides.client_id, f_id) {
            Some(id) => id,
            None => {
                let mut id: String = "client-".to_owned();
                id.append(uuid.as_str());
                if has_file {
                    persist = Some(id.clone());
                }
                id
            },
        };
        let log_level: String = setting_or(
            choose_setting(overrides.log_level, f_level),
            DEFAULT_LOG_LEVEL,
        );
        let ws_auth_header: Option<String> = choose_setting(overrides.ws_auth_header, f_auth);
        let config = match parse_url(ws_url_text.as_str()) {
            Err(cause) => Err(ConfigError::WsUrl { cause }),
            Ok(ws_url) => match parse_url(ollama_url_text.as_str()) {
                Err(cause) => Err(ConfigError::OllamaUrl { cause }),
                Ok(ollama_url) => Ok(
                    Config { ws_url, ws_auth_header, ollama_url, client_id, log_level },
                ),
            },
        };
        Loaded { persist, config }
    }
}

/// Which configuration file is read.
#[derive(Debug, Clone, Copy, PartialEq, Eq, Structural)]
pub enum ConfigSource {
    /// The one that the command line or the environment names.
    Named,
    /// The one at [`DEFAULT_CONFIG_PATH`].
    Default,
    /// None.
    Absent,
}

/// Which configuration file is read: the one that is named, or else the default one, if it
/// exists.
pub open spec fn source_of(named: bool, default_exists: bool) -> ConfigSource {
    if named {
        ConfigSource::Named
    } else if default_exists {
        ConfigSource::Default
    } else {
        ConfigSource::Absent
    }
}

/// Which configuration file is read: the one that is named, or else the default one, if it
/// exists.
pub fn config_source(named: bool, default_exists: bool) -> (r: ConfigSource)
    ensures
        r == source_of(named, default_exists),
        r == if named {
            ConfigSource::Named
        } else if default_exists {
            ConfigSource::Default
        } else {
            ConfigSource::Absent
        },
{
    if named {
        ConfigSource::Named
    } else if default_exists {
        ConfigSource::Default
    } else {
        ConfigSource::Absent
    }
}

/// Each setting in force is that of the command line or the environment, or else that of the
/// file, or else the default.
pub proof fn settings_take_precedence(
    file: Option<FileConfig>,
    overrides: SettingsView,
    uuid: Seq<char>,
)
    ensures
        loaded(file, overrides, uuid).config matches Ok(config) ==> {
            let below = file_settings(file);
            &&& overrides.ws_url matches Some(url) ==> parsed_url(url) == Ok::<
                Seq<char>,
                Seq<char>,
            >(config.ws_url)
            &&& overrides.ws_url is None ==> below.ws_url is Some && parsed_url(below.ws_url->0)
                == Ok::<Seq<char>, Seq<char>>(config.ws_url)
            &&& overrides.ollama_url matches Some(url) ==> parsed_url(url) == Ok::<
                Seq<char>,
                Seq<char>,
            >(config.ollama_url)
            &&& overrides.ollama_url is None && below.ollama_url is Some ==> parsed_url(
                below.ollama_url->0,
            ) == Ok::<Seq<char>, Seq<char>>(config.ollama_url)
            &&& overrides.ollama_url is None && below.ollama_url is None ==> parsed_url(
                DEFAULT_OLLAMA_URL@,
            ) == Ok::<Seq<char>, Seq<char>>(config.ollama_url)
            &&& overrides.ws_auth_header is Some ==> config.ws_auth_header
                == overrides.ws_auth_header
            &&& overrides.ws_auth_header is None ==> config.ws_auth_header == below.ws_auth_header
            &&& overrides.client_id matches Some(id) ==> config.client_id == id
            &&& overrides.client_id is None && below.client_id is Some ==> config.client_id
                == below.client_id->0
            &&& overrides.client_id is None && below.client_id is None ==> config.client_id
                == made_up_id(uuid)
            &&& overrides.log_level matches Some(level) ==> config.log_level == level
            &&& overrides.log_level is None && below.log_level is Some ==> config.log_level
                == below.log_level->0
            &&& overrides.log_level is None && below.log_level is None ==> config.log_level
                == DEFAULT_LOG_LEVEL@
        },
{
}

/// An identifier is written to the configuration file only where it was made up, which takes that
/// the service is known: never one that the command line or the environment gives, and none over
/// one that the file gives.
pub proof fn only_made_up_ids_are_persisted(
    file: Option<FileConfig>,
    overrides: SettingsView,
    uuid: Seq<char>,
)
    ensures
        loaded(file, overrides, uuid).persist is Some <==> {
            &&& file is Some
            &&& overrides.ws_url is Some || file_settings(file).ws_url is Some
            &&& overrides.client_id is None
            &&& file_settings(file).client_id is None
        },
        loaded(file, overrides, uuid).persist matches Some(id) ==> id == made_up_id(uuid),
        loaded(file, overrides, uuid) matches LoadedView { persist: Some(id), config: Ok(config) }
            ==> config.client_id == id,
{
}

/// Whether `file` holds what a configuration file with these contents says. `other` reads a section
/// that is no table.
pub open spec fn is_read_from(
    file: FileConfig,
    contents: TomlContents,
    other: SectionReader,
) -> bool {
    file@ == SettingsView {
        ws_url: string_at(contents, "websocket"@, "url"@, other),
        ws_auth_header: string_at(contents, "websocket"@, "auth_header"@, other),
        ollama_url: string_at(contents, "ollama"@, "url"@, other),
        client_id: string_at(contents, "client"@, "id"@, other),
        log_level: string_at(contents, "client"@, "log_level"@, other),
    }
}

/// An identifier that was made up and written to the configuration file is the one that is loaded
/// from then on: loading again, with the same overrides, gives the same settings and writes
/// nothing.
pub proof fn a_made_up_id_is_kept(
    contents: TomlContents,
    updated: TomlContents,
    other: SectionReader,
    before: FileConfig,
    after: FileConfig,
    overrides: SettingsView,
    uuid: Seq<char>,
    later_uuid: Seq<char>,
)
    requires
        has_room_for_id(contents),
        is_with_client_id(contents, updated, made_up_id(uuid)),
        is_read_from(before, contents, other),
        is_read_from(after, updated, other),
        loaded(Some(before), overrides, uuid).persist is Some,
    ensures
        loaded(Some(after), overrides, later_uuid).config == loaded(
            Some(before),
            overrides,
            uuid,
        ).config,
        loaded(Some(after), overrides, later_uuid).persist is None,
{
    let id = made_up_id(uuid);
    reveal_strlit("websocket");
    reveal_strlit("ollama");
    reveal_strlit("client");
    reveal_strlit("id");
    reveal_strlit("log_level");
    assert("log_level"@.len() != "id"@.len());
    assert("websocket"@.len() != "client"@.len());
    assert("ollama"@[0] != "client"@[0]);
    persisted_id_is_read_back(contents, updated, id, "websocket"@, "url"@, other);
    persisted_id_is_read_back(contents, updated, id, "websocket"@, "auth_header"@, other);
    persisted_id_is_read_back(contents, updated, id, "ollama"@, "url"@, other);
    persisted_id_is_read_back(contents, updated, id, "client"@, "log_level"@, other);
    assert(after@ == SettingsView { client_id: Some(id), ..before@ });
}

/// When loading succeeds, and what comes of it. The URL of the service is that of the overrides or
/// else that of the file; it is missing exactly if neither gives one. Loading succeeds exactly if
/// there is one and both URLs can be read, and each URL is to blame exactly if it cannot. Then each
/// setting is that of the overrides, or else that of the file, or else the default, and an
/// identifier is to be kept exactly if it was made up and there is a file to keep it in.
pub proof fn loading_succeeds_if_the_urls_are_good(
    file: Option<FileConfig>,
    overrides: ConfigOverrides,
    uuid: Seq<char>,
    r: Loaded,
)
    requires
        r@ == loaded(file, overrides@, uuid),
    ensures
        ({
            let ws_url = match (overrides.ws_url, file) {
                (Some(url), _) => Some(url@),
                (None, Some(f)) => f.websocket.url.deep_view(),
                (None, None) => None,
            };
            let ollama_url = match (overrides.ollama_url, file) {
                (Some(url), _) => url@,
                (None, Some(f)) => match f.ollama.url {
                    Some(url) => url@,
                    None => "http://127.0.0.1:11434"@,
                },
                (None, None) => "http://127.0.0.1:11434"@,
            };
            let header = match (overrides.ws_auth_header, file) {
                (Some(header), _) => Some(header@),
                (None, Some(f)) => f.websocket.auth_header.deep_view(),
                (None, None) => None,
            };
            let level = match (overrides.log_level, file) {
                (Some(level), _) => level@,
                (None, Some(f)) => match f.client.log_level {
                    Some(level) => level@,
                    None => "info"@,
                },
                (None, None) => "info"@,
            };
            let id = match (overrides.client_id, file) {
                (Some(id), _) => Some(id@),
                (None, Some(f)) => f.client.id.deep_view(),
                (None, None) => None,
            };
            &&& r.config is Ok <==> ws_url is Some && parsed_url(ws_url->0) is Ok && parsed_url(
                ollama_url,
            ) is Ok
            &&& (r.config matches Err(ConfigError::MissingWsUrl)) <==> ws_url is None
            &&& (r.config matches Err(ConfigError::WsUrl { .. })) <==> ws_url is Some && parsed_url(
                ws_url->0,
            ) is Err
            &&& (r.config matches Err(ConfigError::OllamaUrl { .. })) <==> ws_url is Some
                && parsed_url(ws_url->0) is Ok && parsed_url(ollama_url) is Err
            &&& r.config matches Err(ConfigError::WsUrl { cause }) ==> parsed_url(ws_url->0)->Err_0
                == cause@
            &&& r.config matches Err(ConfigError::OllamaUrl { cause }) ==> parsed_url(
                ollama_url,
            )->Err_0 == cause@
            &&& r.config matches Ok(config) ==> {
                &&& config.ws_url@ == parsed_url(ws_url->0)->Ok_0
                &&& config.ollama_url@ == parsed_url(ollama_url)->Ok_0
                &&& config.ws_auth_header.deep_view() == header
                &&& config.log_level@ == level
                &&& id matches Some(text) ==> config.client_id@ == text
                &&& id is None ==> config.client_id@ == "client-"@ + uuid
            }
            &&& r.persist is Some <==> file is Some && ws_url is Some && id is None
            &&& r.persist matches Some(made_up) ==> made_up@ == "client-"@ + uuid
        }),
{
}

/// What the overrides give, the file has no say in: files that agree on the settings that are not
/// overridden, and are both there, come to the same.
pub proof fn overridden_settings_of_a_file_do_not_matter(
    one: FileConfig,
    other: FileConfig,
    overrides: ConfigOverrides,
    uuid: Seq<char>,
)
    requires
        overrides.ws_url is Some || one.websocket.url.deep_view()
            == other.websocket.url.deep_view(),
        overrides.ws_auth_header is Some || one.websocket.auth_header.deep_view()
            == other.websocket.auth_header.deep_view(),
        overrides.ollama_url is Some || one.ollama.url.deep_view() == other.ollama.url.deep_view(),
        overrides.client_id is Some || one.client.id.deep_view() == other.client.id.deep_view(),
        overrides.log_level is Some || one.client.log_level.deep_view()
            == other.client.log_level.deep_view(),
    ensures
        loaded(Some(one), overrides@, uuid) == loaded(Some(other), overrides@, uuid),
{
}

/// The file that is named is read, whether or not the default one exists; the default one is read
/// exactly if it exists and none is named.
pub proof fn the_named_file_comes_first(named: bool, default_exists: bool)
    ensures
        source_of(named, default_exists) == ConfigSource::Named <==> named,
        source_of(named, default_exists) == ConfigSource::Default <==> !named && default_exists,
        source_of(named, default_exists) == ConfigSource::Absent <==> !named && !default_exists,
{
}

/// The words for why there are no settings, from what they are made of.
pub proof fn config_errors_say_what_is_wrong(error: ConfigError)
    ensures
        match error {
            ConfigError::MissingWsUrl => error_text(error@)
                == "websocket url not configured (set [websocket].url in config.toml or --ws-url)"@,
            ConfigError::WsUrl { cause } => error_text(error@) == "parsing websocket url: "@
                + cause@,
            ConfigError::OllamaUrl { cause } => error_text(error@) == "parsing ollama url: "@
                + cause@,
        },
{
}

} // verus!
