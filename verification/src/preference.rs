//! The user's preferences and the identity of the device.
use vstd::prelude::*;
use vstd::string::*;
use crate::ident::{new_random_id, hex_digits};
use crate::text::same_text;
use crate::values::opt_text;

verus! {

/// The colour scheme of the interface.
#[derive(Debug, Clone, Copy, PartialEq, Eq, Structural)]
pub enum Theme {
    Light,
    Dark,
    System,
}

/// Which releases the application updates itself to.
#[derive(Debug, Clone, Copy, PartialEq, Eq, Structural)]
pub enum UpdateChannel {
    Stable,
    PreRelease,
}

/// The name of an update channel.
pub open spec fn channel_text(c: UpdateChannel) -> Seq<char> {
    match c {
        UpdateChannel::Stable => "stable"@,
        UpdateChannel::PreRelease => "pre-release"@,
    }
}

impl UpdateChannel {
    /// The name of the channel.
    pub fn as_str(&self) -> (r: &str)
        ensures
            r@ == channel_text(*self),
    {
        match self {
            UpdateChannel::Stable => "stable",
            UpdateChannel::PreRelease => "pre-release",
        }
    }
}

/// The language of the interface.
#[derive(Debug, Clone, PartialEq, Eq)]
pub enum LanguageCode {
    JaJp,
    EnUs,
    EnGb,
    ZhCn,
    /// A language that the user supplied, by its code.
    UserProvided(String),
}

/// A [`LanguageCode`] as plain values.
pub enum LanguageView {
    JaJp,
    EnUs,
    EnGb,
    ZhCn,
    UserProvided(Seq<char>),
}

impl View for LanguageCode {
    type V = LanguageView;

    open spec fn view(&self) -> LanguageView {
        match self {
            LanguageCode::JaJp => LanguageView::JaJp,
            LanguageCode::EnUs => LanguageView::EnUs,
            LanguageCode::EnGb => LanguageView::EnGb,
            LanguageCode::ZhCn => LanguageView::ZhCn,
            LanguageCode::UserProvided(c) => LanguageView::UserProvided(c@),
        }
    }
}

/// The code of a language.
pub open spec fn language_text(l: LanguageView) -> Seq<char> {
    match l {
        LanguageView::JaJp => "ja-JP"@,
        LanguageView::EnUs => "en-US"@,
        LanguageView::EnGb => "en-GB"@,
        LanguageView::ZhCn => "zh-CN"@,
        LanguageView::UserProvided(c) => c,
    }
}

/// The language code that the BOOTH shop expects for a language.
pub open spec fn booth_text(l: LanguageView) -> Seq<char> {
    match l {
        LanguageView::JaJp => "ja"@,
        LanguageView::EnUs => "en"@,
        LanguageView::EnGb => "en"@,
        LanguageView::ZhCn => "zh-cn"@,
        LanguageView::UserProvided(_) => "en"@,
    }
}

/// The language chosen for a system locale; English (US) for a locale
/// that has no translation, and when the locale is unknown.
pub open spec fn language_for(locale: Option<Seq<char>>) -> LanguageView {
    match locale {
        Some(t) => if t == "ja-JP"@ {
            LanguageView::JaJp
        } else if t == "en-US"@ {
            LanguageView::EnUs
        } else if t == "en-GB"@ {
            LanguageView::EnGb
        } else if t == "zh-CN"@ {
            LanguageView::ZhCn
        } else {
            LanguageView::EnUs
        },
        None => LanguageView::EnUs,
    }
}

impl LanguageCode {
    /// The code of the language.
    pub fn code(&self) -> (r: &str)
        ensures
            r@ == language_text(self@),
    {
        match self {
            LanguageCode::JaJp => "ja-JP",
            LanguageCode::EnUs => "en-US",
            LanguageCode::EnGb => "en-GB",
            LanguageCode::ZhCn => "zh-CN",
            LanguageCode::UserProvided(code) => code.as_str(),
        }
    }

    /// The language code that the BOOTH shop expects.
    pub fn booth_lang_code(&self) -> (r: &str)
        ensures
            r@ == booth_text(self@),
    {
        match self {
            LanguageCode::JaJp => "ja",
            LanguageCode::EnUs | LanguageCode::EnGb => "en",
            LanguageCode::ZhCn => "zh-cn",
            LanguageCode::UserProvided(_) => "en",
        }
    }

    /// A copy of the language.
    pub fn duplicate(&self) -> (r: Self)
        ensures
            r@ == self@,
    {
        match self {
            LanguageCode::JaJp => LanguageCode::JaJp,
            LanguageCode::EnUs => LanguageCode::EnUs,
            LanguageCode::EnGb => LanguageCode::EnGb,
            LanguageCode::ZhCn => LanguageCode::ZhCn,
            LanguageCode::UserProvided(c) => LanguageCode::UserProvided(c.clone()),
        }
    }
}

/// The language chosen for the system locale `locale`.
pub fn language_for_locale(locale: Option<String>) -> (r: LanguageCode)
    ensures
        r@ == language_for(opt_text(locale)),
{
    match locale {
        Some(t) => {
            if same_text(t.as_str(), "ja-JP") {
                LanguageCode::JaJp
            } else if same_text(t.as_str(), "en-US") {
                LanguageCode::EnUs
            } else if same_text(t.as_str(), "en-GB") {
                LanguageCode::EnGb
            } else if same_text(t.as_str(), "zh-CN") {
                LanguageCode::ZhCn
            } else {
                LanguageCode::EnUs
            }
        },
        None => LanguageCode::EnUs,
    }
}

/// The name under which a device appears: its host name, or
/// "Unknown Device" when that is unknown or empty.
pub open spec fn device_name_for(host: Option<Seq<char>>) -> Seq<char> {
    match host {
        Some(h) => if h.len() > 0 {
            h
        } else {
            "Unknown Device"@
        },
        None => "Unknown Device"@,
    }
}

/// The name under which a device with host name `host` appears.
pub fn device_name_from_host(host: Option<String>) -> (r: String)
    ensures
        r@ == device_name_for(opt_text(host)),
{
    match host {
        Some(h) => {
            if h.as_str().unicode_len() > 0 {
                h
            } else {
                String::from_str("Unknown Device")
            }
        },
        None => String::from_str("Unknown Device"),
    }
}

/// The locale of the system.
///
/// Calls `sys_locale::get_locale()`. What it returns depends on the
/// machine and its settings, so nothing is claimed of the result.
#[verifier::external_body]
fn current_locale() -> (r: Option<String>) {
    sys_locale::get_locale()
}

/// The host name of the machine.
///
/// Calls `hostname::get()` and turns the name into a `String`; `None`
/// when the call fails or the name is not valid Unicode. What it returns
/// depends on the machine, so nothing is claimed of the result.
#[verifier::external_body]
fn host_name() -> (r: Option<String>) {
    hostname::get().ok().and_then(|n| n.into_string().ok())
}

/// The name under which this device appears by default.
pub fn default_device_name() -> (r: String)
    ensures
        r@.len() > 0,
{
    proof {
        reveal_strlit("Unknown Device");
    }
    device_name_from_host(host_name())
}

/// The preferences of the user and the identity of this device.
#[derive(Debug, Clone)]
pub struct PreferenceStore {
    pub file_path: String,
    pub data_dir_path: String,
    pub theme: Theme,
    pub language: LanguageCode,
    pub delete_on_import: bool,
    pub zip_extraction: bool,
    pub use_unitypackage_selected_open: bool,
    pub use_trash_bin: bool,
    pub update_channel: UpdateChannel,
    /// Fixed when the preferences are first created; names this device's
    /// metadata files and marks the assets registered on it.
    pub device_id: u128,
    /// The name shown to the user for this device.
    pub device_name: String,
    /// 0 turns automatic refreshing off.
    pub auto_refresh_interval_seconds: u32,
}

/// A [`PreferenceStore`] as plain values.
pub struct PreferenceView {
    pub file_path: Seq<char>,
    pub data_dir_path: Seq<char>,
    pub theme: Theme,
    pub language: LanguageView,
    pub delete_on_import: bool,
    pub zip_extraction: bool,
    pub use_unitypackage_selected_open: bool,
    pub use_trash_bin: bool,
    pub update_channel: UpdateChannel,
    pub device_id: u128,
    pub device_name: Seq<char>,
    pub auto_refresh_interval_seconds: u32,
}

impl View for PreferenceStore {
    type V = PreferenceView;

    open spec fn view(&self) -> PreferenceView {
        PreferenceView {
            file_path: self.file_path@,
            data_dir_path: self.data_dir_path@,
            theme: self.theme,
            language: self.language@,
            delete_on_import: self.delete_on_import,
            zip_extraction: self.zip_extraction,
            use_unitypackage_selected_open: self.use_unitypackage_selected_open,
            use_trash_bin: self.use_trash_bin,
            update_channel: self.update_channel,
            device_id: self.device_id,
            device_name: self.device_name@,
            auto_refresh_interval_seconds: self.auto_refresh_interval_seconds,
        }
    }
}

/// The preferences of a first start, in the environment described by
/// the system locale, a fresh device identifier and the host name.
pub open spec fn initial_preferences(
    file_path: Seq<char>,
    data_dir_path: Seq<char>,
    locale: Option<Seq<char>>,
    device_id: u128,
    host: Option<Seq<char>>,
) -> PreferenceView {
    PreferenceView {
        file_path,
        data_dir_path,
        theme: Theme::System,
        language: language_for(locale),
        delete_on_import: false,
        zip_extraction: true,
        use_unitypackage_selected_open: true,
        use_trash_bin: true,
        update_channel: UpdateChannel::Stable,
        device_id,
        device_name: device_name_for(host),
        auto_refresh_interval_seconds: 0,
    }
}

/// The preferences `s` after taking over the settings of `o`: everything
/// but the file, the device's identity and a language that the user
/// supplied.
pub open spec fn overwritten(s: PreferenceView, o: PreferenceView) -> PreferenceView {
    PreferenceView {
        data_dir_path: o.data_dir_path,
        theme: o.theme,
        delete_on_import: o.delete_on_import,
        zip_extraction: o.zip_extraction,
        use_unitypackage_selected_open: o.use_unitypackage_selected_open,
        use_trash_bin: o.use_trash_bin,
        update_channel: o.update_channel,
        auto_refresh_interval_seconds: o.auto_refresh_interval_seconds,
        language: match o.language {
            LanguageView::UserProvided(_) => s.language,
            _ => o.language,
        },
        ..s
    }
}

/// The preferences of a first start: a fixed language, a fresh version-4
/// device identifier and a non-empty device name.
pub open spec fn is_initial(
    p: PreferenceView,
    file_path: Seq<char>,
    data_dir_path: Seq<char>,
) -> bool {
    &&& p.file_path == file_path
    &&& p.data_dir_path == data_dir_path
    &&& p.theme == Theme::System
    &&& !(p.language is UserProvided)
    &&& !p.delete_on_import
    &&& p.zip_extraction
    &&& p.use_unitypackage_selected_open
    &&& p.use_trash_bin
    &&& p.update_channel == UpdateChannel::Stable
    &&& hex_digits(p.device_id as nat, 32)[12] == 4
    &&& 8 <= hex_digits(p.device_id as nat, 32)[16] <= 11
    &&& p.device_name.len() > 0
    &&& p.auto_refresh_interval_seconds == 0
}

impl PreferenceStore {
    /// The preferences of a first start in the given environment.
    pub fn with_environment(
        preference_file_path: String,
        default_data_dir_path: String,
        locale: Option<String>,
        device_id: u128,
        host: Option<String>,
    ) -> (r: Self)
        ensures
            r@ == initial_preferences(
                preference_file_path@,
                default_data_dir_path@,
                opt_text(locale),
                device_id,
                opt_text(host),
            ),
    {
        PreferenceStore {
            file_path: preference_file_path,
            data_dir_path: default_data_dir_path,
            theme: Theme::System,
            language: language_for_locale(locale),
            delete_on_import: false,
            zip_extraction: true,
            use_unitypackage_selected_open: true,
            use_trash_bin: true,
            update_channel: UpdateChannel::Stable,
            device_id,
            device_name: device_name_from_host(host),
            auto_refresh_interval_seconds: 0,
        }
    }

    /// The preferences of a first start on this machine.
    pub fn default(preference_file_path: String, default_data_dir_path: String) -> (r: Self)
        ensures
            is_initial(r@, preference_file_path@, default_data_dir_path@),
            exists|locale: Option<Seq<char>>, host: Option<Seq<char>>|
                r@ == #[trigger] initial_preferences(
                    preference_file_path@,
                    default_data_dir_path@,
                    locale,
                    r.device_id,
                    host,
                ),
    {
        proof {
            reveal_strlit("Unknown Device");
        }
        let locale = current_locale();
        let id = new_random_id();
        let host = host_name();
        let ghost lv = opt_text(locale);
        let ghost hv = opt_text(host);
        let r = Self::with_environment(preference_file_path, default_data_dir_path, locale, id, host);
        assert(r@ == initial_preferences(preference_file_path@, default_data_dir_path@, lv, r.device_id, hv));
        r
    }

    /// The folder where assets are kept.
    pub fn get_data_dir(&self) -> (r: &String)
        ensures
            r@ == self.data_dir_path@,
    {
        &self.data_dir_path
    }

    /// Moves the folder where assets are kept.
    pub fn set_data_dir(&mut self, data_dir_path: String)
        ensures
            final(self)@ == (PreferenceView { data_dir_path: data_dir_path@, ..old(self)@ }),
    {
        self.data_dir_path = data_dir_path;
    }

    /// Takes over the settings of `other`, but not the file, the device's
    /// identity, nor a language that the user supplied.
    pub fn overwrite(&mut self, other: &Self)
        ensures
            final(self)@ == overwritten(old(self)@, other@),
            final(self)@.data_dir_path == other@.data_dir_path,
            final(self).theme == other.theme,
            final(self).delete_on_import == other.delete_on_import,
            final(self).zip_extraction == other.zip_extraction,
            final(self).use_unitypackage_selected_open == other.use_unitypackage_selected_open,
            final(self).use_trash_bin == other.use_trash_bin,
            final(self).update_channel == other.update_channel,
            final(self).auto_refresh_interval_seconds == other.auto_refresh_interval_seconds,
            final(self)@.file_path == old(self)@.file_path,
            final(self).device_id == old(self).device_id,
            final(self)@.device_name == old(self)@.device_name,
            (other@.language is UserProvided) ==> final(self)@.language == old(self)@.language,
            !(other@.language is UserProvided) ==> final(self)@.language == other@.language,
    {
        self.data_dir_path = other.data_dir_path.clone();
        self.theme = other.theme;
        self.delete_on_import = other.delete_on_import;
        self.zip_extraction = other.zip_extraction;
        self.use_unitypackage_selected_open = other.use_unitypackage_selected_open;
        self.use_trash_bin = other.use_trash_bin;
        self.update_channel = other.update_channel;
        self.auto_refresh_interval_seconds = other.auto_refresh_interval_seconds;
        match &other.language {
            LanguageCode::UserProvided(_) => {},
            _ => {
                self.language = other.language.duplicate();
            },
        }
    }

    /// A copy of the preferences.
    pub fn duplicate(&self) -> (r: Self)
        ensures
            r@ == self@,
    {
        PreferenceStore {
            file_path: self.file_path.clone(),
            data_dir_path: self.data_dir_path.clone(),
            theme: self.theme,
            language: self.language.duplicate(),
            delete_on_import: self.delete_on_import,
            zip_extraction: self.zip_extraction,
            use_unitypackage_selected_open: self.use_unitypackage_selected_open,
            use_trash_bin: self.use_trash_bin,
            update_channel: self.update_channel,
            device_id: self.device_id,
            device_name: self.device_name.clone(),
            auto_refresh_interval_seconds: self.auto_refresh_interval_seconds,
        }
    }
}

/// The preferences in use after reading the preference file at `path`:
/// those of a first start when there is no file (`None`) or its contents
/// could not be turned into preferences (`Some(Err(..))`); otherwise those
/// read, now tied to `path`.
pub fn resolve_preference_store(
    loaded: Option<Result<PreferenceStore, String>>,
    path: String,
    default_data_dir_path: String,
) -> (r: PreferenceStore)
    ensures
        match loaded {
            Some(Ok(p)) => r@ == (PreferenceView { file_path: path@, ..p@ }),
            _ => is_initial(r@, path@, default_data_dir_path@),
        },
{
    match loaded {
        Some(Ok(p)) => {
            let mut p = p;
            p.file_path = path;
            p
        },
        _ => PreferenceStore::default(path, default_data_dir_path),
    }
}

/// Preferences read back from their own file are the preferences that
/// were written there: tying them to the path they were read from
/// changes nothing.
pub proof fn lemma_preferences_read_back(p: PreferenceView)
    ensures
        (PreferenceView { file_path: p.file_path, ..p }) == p,
{
}

/// The interface has a translation for the locale `t`.
pub open spec fn has_translation(t: Seq<char>) -> bool {
    t == "ja-JP"@ || t == "en-US"@ || t == "en-GB"@ || t == "zh-CN"@
}

/// A first start in a supported system locale shows the interface in that
/// locale's language, whose code is the locale itself; any other locale,
/// and an unknown one, gives English (US).
pub proof fn lemma_first_start_language_follows_locale(locale: Option<Seq<char>>)
    ensures
        forall|t: Seq<char>|
            locale == Some(t) && #[trigger] has_translation(t) ==> language_text(language_for(locale)) == t,
        (forall|t: Seq<char>| locale == Some(t) ==> !#[trigger] has_translation(t)) ==> language_for(locale)
            == LanguageView::EnUs,
        !(language_for(locale) is UserProvided),
{
    if let Some(t) = locale {
        if !has_translation(t) {
            assert(language_for(locale) == LanguageView::EnUs);
        }
    }
}

/// Taking over the settings of the same preferences twice changes nothing
/// the second time.
pub proof fn lemma_overwrite_idempotent(s: PreferenceView, o: PreferenceView)
    ensures
        overwritten(overwritten(s, o), o) == overwritten(s, o),
{
}

/// Taking over settings gives every user setting the value of the other
/// preferences: folder, theme, the four switches, update channel and
/// refresh interval.
pub proof fn lemma_overwrite_takes_settings(s: PreferenceView, o: PreferenceView)
    ensures
        overwritten(s, o).data_dir_path == o.data_dir_path,
        overwritten(s, o).theme == o.theme,
        overwritten(s, o).delete_on_import == o.delete_on_import,
        overwritten(s, o).zip_extraction == o.zip_extraction,
        overwritten(s, o).use_unitypackage_selected_open == o.use_unitypackage_selected_open,
        overwritten(s, o).use_trash_bin == o.use_trash_bin,
        overwritten(s, o).update_channel == o.update_channel,
        overwritten(s, o).auto_refresh_interval_seconds == o.auto_refresh_interval_seconds,
{
}

/// Taking over settings never changes the preference file nor the
/// device's identifier and name.
pub proof fn lemma_overwrite_keeps_device(s: PreferenceView, o: PreferenceView)
    ensures
        overwritten(s, o).file_path == s.file_path,
        overwritten(s, o).device_id == s.device_id,
        overwritten(s, o).device_name == s.device_name,
{
}

/// A language that the user supplied is never taken over; any other
/// language is.
pub proof fn lemma_overwrite_language(s: PreferenceView, o: PreferenceView)
    ensures
        (o.language is UserProvided) ==> overwritten(s, o).language == s.language,
        !(o.language is UserProvided) ==> overwritten(s, o).language == o.language,
{
}

/// Preferences that take over their own settings stay as they are.
pub proof fn lemma_overwrite_self(s: PreferenceView)
    ensures
        overwritten(s, s) == s,
{
}

} // verus!
