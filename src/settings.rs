//! The plugin's settings.
use vstd::prelude::*;
use vstd::string::{StrSliceExecFns, StringExecFns};

verus! {

#[derive(Debug, Clone)]
pub struct SavedToken {
    pub name: String,
    pub token: String,
}

#[derive(Debug, Clone)]
pub struct Settings {
    pub history_token: String,
    pub api_endpoint: String,
    pub log_directory: String,
    pub show_formatted_timestamps: bool,
    pub saved_tokens: Vec<SavedToken>,
    pub auto_cleanup_enabled: bool,
    pub auto_cleanup_days: u32,
    pub mouse_lock_enabled: bool,
    pub guild_name: String,
    pub enable_legacy_parser: bool,
}

/// Where reports are requested.
pub const DEFAULT_API_ENDPOINT: &'static str = "https://parser.rethl.net/api.php";

/// Days after which old logs are cleaned up, unless set otherwise.
pub const DEFAULT_CLEANUP_DAYS: u32 = 30;

/// Relies on `dirs_next::document_dir`: the user's documents folder, where the
/// platform has one, rendered as text.
#[verifier::external_body]
fn document_dir() -> (r: Option<String>) {
    match dirs_next::document_dir() {
        Some(p) => Some(p.display().to_string()),
        None => None,
    }
}

/// Relies on `std::path::PathBuf::push`: `part` joined to `base` with the
/// platform's separator, rendered as text.
#[verifier::external_body]
fn join_path(base: &str, part: &str) -> (r: String) {
    let mut p = std::path::PathBuf::from(base);
    p.push(part);
    p.display().to_string()
}

impl Settings {
    /// Settings with nothing configured yet: no token, endpoint or log
    /// directory, formatted timestamps shown, cleanup off after 30 days.
    pub fn new() -> (r: Settings)
        ensures
            r.history_token@ == Seq::<char>::empty(),
            r.api_endpoint@ == Seq::<char>::empty(),
            r.log_directory@ == Seq::<char>::empty(),
            r.show_formatted_timestamps,
            r.saved_tokens@.len() == 0,
            !r.auto_cleanup_enabled,
            r.auto_cleanup_days == DEFAULT_CLEANUP_DAYS,
            !r.mouse_lock_enabled,
            r.guild_name@ == Seq::<char>::empty(),
            !r.enable_legacy_parser,
    {
        Settings {
            history_token: String::new(),
            api_endpoint: String::new(),
            log_directory: String::new(),
            show_formatted_timestamps: true,
            saved_tokens: Vec::new(),
            auto_cleanup_enabled: false,
            auto_cleanup_days: DEFAULT_CLEANUP_DAYS,
            mouse_lock_enabled: false,
            guild_name: String::new(),
            enable_legacy_parser: false,
        }
    }

    /// The log folder of the game's combat logger under the documents folder.
    pub fn default_log_dir() -> String {
        let base = match document_dir() {
            Some(d) => d,
            None => String::new(),
        };
        let p = join_path(base.as_str(), "Guild Wars 2");
        let p = join_path(p.as_str(), "addons");
        let p = join_path(p.as_str(), "arcdps");
        join_path(p.as_str(), "arcdps.cbtlogs")
    }

    /// Resets every setting but the token and the saved tokens to its default,
    /// with `log_directory` as the log folder.
    pub fn init_with_log_dir(&mut self, log_directory: String)
        ensures
            final(self).api_endpoint@ == DEFAULT_API_ENDPOINT@,
            final(self).log_directory@ == log_directory@,
            final(self).show_formatted_timestamps,
            !final(self).auto_cleanup_enabled,
            final(self).auto_cleanup_days == DEFAULT_CLEANUP_DAYS,
            !final(self).mouse_lock_enabled,
            final(self).guild_name@ == Seq::<char>::empty(),
            !final(self).enable_legacy_parser,
            final(self).history_token@ == old(self).history_token@,
            final(self).saved_tokens@ == old(self).saved_tokens@,
    {
        self.api_endpoint = String::from_str(DEFAULT_API_ENDPOINT);
        self.log_directory = log_directory;
        self.show_formatted_timestamps = true;
        self.auto_cleanup_enabled = false;
        self.auto_cleanup_days = DEFAULT_CLEANUP_DAYS;
        self.mouse_lock_enabled = false;
        self.guild_name = String::new();
        self.enable_legacy_parser = false;
    }

    /// Resets every setting but the token and the saved tokens to its default,
    /// the log folder to the one under the documents folder.
    pub fn init(&mut self)
        ensures
            final(self).api_endpoint@ == DEFAULT_API_ENDPOINT@,
            final(self).show_formatted_timestamps,
            !final(self).auto_cleanup_enabled,
            final(self).auto_cleanup_days == DEFAULT_CLEANUP_DAYS,
            !final(self).mouse_lock_enabled,
            final(self).guild_name@ == Seq::<char>::empty(),
            !final(self).enable_legacy_parser,
            final(self).history_token@ == old(self).history_token@,
            final(self).saved_tokens@ == old(self).saved_tokens@,
    {
        let dir = Settings::default_log_dir();
        self.init_with_log_dir(dir);
    }
}


impl Settings {
    /// Mends settings read from disk: an empty endpoint becomes the default
    /// one, an empty log folder becomes `fallback_log_dir`; the rest stays.
    pub fn fill_loaded_defaults(&mut self, fallback_log_dir: String)
        ensures
            old(self).api_endpoint@.len() == 0 ==> final(self).api_endpoint@ == DEFAULT_API_ENDPOINT@,
            old(self).api_endpoint@.len() > 0 ==> final(self).api_endpoint == old(self).api_endpoint,
            old(self).log_directory@.len() == 0 ==> final(self).log_directory == fallback_log_dir,
            old(self).log_directory@.len() > 0 ==> final(self).log_directory == old(self).log_directory,
            final(self).history_token == old(self).history_token,
            final(self).show_formatted_timestamps == old(self).show_formatted_timestamps,
            final(self).saved_tokens == old(self).saved_tokens,
            final(self).auto_cleanup_enabled == old(self).auto_cleanup_enabled,
            final(self).auto_cleanup_days == old(self).auto_cleanup_days,
            final(self).mouse_lock_enabled == old(self).mouse_lock_enabled,
            final(self).guild_name == old(self).guild_name,
            final(self).enable_legacy_parser == old(self).enable_legacy_parser,
    {
        if self.api_endpoint.unicode_len() == 0 {
            self.api_endpoint = String::from_str(DEFAULT_API_ENDPOINT);
        }
        if self.log_directory.unicode_len() == 0 {
            self.log_directory = fallback_log_dir;
        }
    }
}

pub open spec fn token_views(v: Seq<SavedToken>) -> Seq<(Seq<char>, Seq<char>)> {
    v.map_values(|t: SavedToken| (t.name@, t.token@))
}

/// The name of the first saved token equal to `token`.
pub open spec fn token_name(saved: Seq<(Seq<char>, Seq<char>)>, token: Seq<char>) -> Option<Seq<char>>
    decreases saved.len(),
{
    if saved.len() == 0 {
        None
    } else if saved[0].1 == token {
        Some(saved[0].0)
    } else {
        token_name(saved.drop_first(), token)
    }
}

/// The name under which `token` is saved, if it is.
pub fn find_token_name(settings: &Settings, token: &str) -> (r: Option<String>)
    ensures
        match r {
            Some(n) => token_name(token_views(settings.saved_tokens@), token@) == Some(n@),
            None => token_name(token_views(settings.saved_tokens@), token@) is None,
        },
{
    let ghost v = token_views(settings.saved_tokens@);
    let n = settings.saved_tokens.len();
    let mut i: usize = 0;
    assert(v.subrange(0, n as int) =~= v);
    while i < n
        invariant
            v == token_views(settings.saved_tokens@),
            n == v.len(),
            i <= n,
            token_name(v.subrange(i as int, n as int), token@) == token_name(v, token@),
        decreases n - i,
    {
        assert(v.subrange(i as int, n as int).drop_first() =~= v.subrange(i + 1, n as int));
        assert(v[i as int] == (settings.saved_tokens@[i as int].name@, settings.saved_tokens@[i as int].token@));
        if crate::text::str_eq(settings.saved_tokens[i].token.as_str(), token) {
            return Some(settings.saved_tokens[i].name.clone());
        }
        i = i + 1;
    }
    None
}

} // verus!
