//! Filesystem layout and persisted settings.

use vstd::prelude::*;

verus! {

/// Directory name of the bundled speech model.
pub const MODEL_DIR_NAME: &'static str = "sherpa-onnx-nemo-parakeet-tdt-0.6b-v2-int8";

/// Where the speech model archive is downloaded from.
pub const MODEL_ARCHIVE_URL: &'static str = "https://github.com/k2-fsa/sherpa-onnx/releases/download/asr-models/sherpa-onnx-nemo-parakeet-tdt-0.6b-v2-int8.tar.bz2";

/// The path that `std::path::Path::join` gives for `base` followed by `segment`.
pub uninterp spec fn path_join(base: Seq<char>, segment: Seq<char>) -> Seq<char>;

/// `Path::new(base).join(segment)`, as text. Both inputs are UTF-8, so the
/// joined path is too and the conversion back to text loses nothing. How the
/// separator is placed (and that an absolute segment replaces the base) is
/// the platform's path semantics, which the contract only names.
#[verifier::external_body]
pub(crate) fn join_path(base: &str, segment: &str) -> (r: String)
    ensures
        r@ == path_join(base@, segment@),
{
    std::path::Path::new(base).join(segment).to_string_lossy().into_owned()
}

/// Name of the application's data directory.
pub const DATA_DIR_NAME: &'static str = "yap";

/// Name under which earlier releases kept the data directory.
pub const LEGACY_DATA_DIR_NAME: &'static str = "whispr";

/// The application's data directory under the platform data directory `base`.
pub fn data_dir(base: &str) -> (r: String)
    ensures
        r@ == path_join(base@, DATA_DIR_NAME@),
{
    join_path(base, DATA_DIR_NAME)
}

/// The data directory that earlier releases used under `base`.
pub fn legacy_data_dir(base: &str) -> (r: String)
    ensures
        r@ == path_join(base@, LEGACY_DATA_DIR_NAME@),
{
    join_path(base, LEGACY_DATA_DIR_NAME)
}

/// Whether the legacy data directory is to be renamed to the current one:
/// only when the legacy directory exists and the current one does not, so
/// that existing data is never overwritten.
pub open spec fn migration_due(legacy_exists: bool, current_exists: bool) -> bool {
    legacy_exists && !current_exists
}

/// The rename that carries an existing legacy data directory over to the
/// current name, as `(from, to)`, or `None` when nothing is to be moved.
/// The caller reports whether each directory exists and performs the rename.
pub fn data_dir_migration(base: &str, legacy_exists: bool, current_exists: bool) -> (r: Option<(String, String)>)
    ensures
        r is Some <==> migration_due(legacy_exists, current_exists),
        r matches Some((from, to)) ==> from@ == path_join(base@, LEGACY_DATA_DIR_NAME@)
            && to@ == path_join(base@, DATA_DIR_NAME@),
{
    if legacy_exists && !current_exists {
        Some((legacy_data_dir(base), data_dir(base)))
    } else {
        None
    }
}

/// Directory that holds downloaded models.
pub fn models_dir(data_dir: &str) -> (r: String)
    ensures
        r@ == path_join(data_dir@, "models"@),
{
    join_path(data_dir, "models")
}

/// Directory of the speech model.
pub fn parakeet_dir(data_dir: &str) -> (r: String)
    ensures
        r@ == path_join(path_join(data_dir@, "models"@), MODEL_DIR_NAME@),
{
    let models = models_dir(data_dir);
    join_path(models.as_str(), MODEL_DIR_NAME)
}

/// File that holds the persisted settings.
pub fn settings_path(data_dir: &str) -> (r: String)
    ensures
        r@ == path_join(data_dir@, "settings.json"@),
{
    join_path(data_dir, "settings.json")
}

/// Push-to-talk modifier key.
#[derive(Clone, Copy, Debug, PartialEq, Eq, Structural)]
pub enum Hotkey {
    Fn,
    Option,
    Control,
    Command,
}

/// Modifier bits of a keyboard event, as the platform reports them.
pub open spec fn hotkey_mask(h: Hotkey) -> u64 {
    match h {
        Hotkey::Fn => 0x0080_0000,
        Hotkey::Option => 0x0008_0000,
        Hotkey::Control => 0x0004_0000,
        Hotkey::Command => 0x0010_0000,
    }
}

/// The modifier bits as single bits, and how they meet.
proof fn lemma_modifier_bits()
    by (bit_vector)
    ensures
        0x0080_0000u64 == 1u64 << 23u64,
        0x0008_0000u64 == 1u64 << 19u64,
        0x0004_0000u64 == 1u64 << 18u64,
        0x0010_0000u64 == 1u64 << 20u64,
        0x0080_0000u64 & 0x0008_0000u64 != 0x0008_0000u64,
        0x0080_0000u64 & 0x0004_0000u64 != 0x0004_0000u64,
        0x0080_0000u64 & 0x0010_0000u64 != 0x0010_0000u64,
        0x0008_0000u64 & 0x0080_0000u64 != 0x0080_0000u64,
        0x0008_0000u64 & 0x0004_0000u64 != 0x0004_0000u64,
        0x0008_0000u64 & 0x0010_0000u64 != 0x0010_0000u64,
        0x0004_0000u64 & 0x0080_0000u64 != 0x0080_0000u64,
        0x0004_0000u64 & 0x0008_0000u64 != 0x0008_0000u64,
        0x0004_0000u64 & 0x0010_0000u64 != 0x0010_0000u64,
        0x0010_0000u64 & 0x0080_0000u64 != 0x0080_0000u64,
        0x0010_0000u64 & 0x0008_0000u64 != 0x0008_0000u64,
        0x0010_0000u64 & 0x0004_0000u64 != 0x0004_0000u64,
        0x0080_0000u64 & 0x0080_0000u64 == 0x0080_0000u64,
        0x0008_0000u64 & 0x0008_0000u64 == 0x0008_0000u64,
        0x0004_0000u64 & 0x0004_0000u64 == 0x0004_0000u64,
        0x0010_0000u64 & 0x0010_0000u64 == 0x0010_0000u64,
{
}

/// Each hotkey is the platform's own modifier bit (event flags): Fn is bit
/// 23, Option bit 19, Control bit 18 and Command bit 20. So the flags of one
/// held modifier show that hotkey down and no other.
pub proof fn lemma_hotkey_bits(h: Hotkey, g: Hotkey)
    ensures
        hotkey_mask(h) == 1u64 << match h {
            Hotkey::Fn => 23u64,
            Hotkey::Option => 19u64,
            Hotkey::Control => 18u64,
            Hotkey::Command => 20u64,
        },
        (hotkey_mask(g) & hotkey_mask(h) == hotkey_mask(h)) <==> h == g,
{
    lemma_modifier_bits();
}

impl Hotkey {
    /// Every hotkey, in menu order.
    pub fn all() -> (r: [Hotkey; 4])
        ensures
            r@ == seq![Hotkey::Fn, Hotkey::Option, Hotkey::Control, Hotkey::Command],
    {
        let r = [Hotkey::Fn, Hotkey::Option, Hotkey::Control, Hotkey::Command];
        assert(r@ =~= seq![Hotkey::Fn, Hotkey::Option, Hotkey::Control, Hotkey::Command]);
        r
    }

    /// The name shown for the hotkey.
    pub fn label(self) -> (r: &'static str)
        ensures
            r@ == match self {
                Hotkey::Fn => "fn"@,
                Hotkey::Option => "option"@,
                Hotkey::Control => "control"@,
                Hotkey::Command => "command"@,
            },
    {
        match self {
            Hotkey::Fn => "fn",
            Hotkey::Option => "option",
            Hotkey::Control => "control",
            Hotkey::Command => "command",
        }
    }

    /// The modifier flag bit of this hotkey.
    pub fn mask(self) -> (r: u64)
        ensures
            r == hotkey_mask(self),
    {
        match self {
            Hotkey::Fn => 0x0080_0000,
            Hotkey::Option => 0x0008_0000,
            Hotkey::Control => 0x0004_0000,
            Hotkey::Command => 0x0010_0000,
        }
    }

    /// Whether the modifier is held in the event flags `flags`.
    pub fn is_down(self, flags: u64) -> (r: bool)
        ensures
            r == (flags & hotkey_mask(self) == hotkey_mask(self)),
    {
        let m = self.mask();
        flags & m == m
    }
}

impl Default for Hotkey {
    fn default() -> (r: Hotkey)
        ensures
            r == Hotkey::Fn,
    {
        Hotkey::Fn
    }
}

/// Default of `Settings::trailing_space` when the stored settings omit it.
pub fn default_true() -> (r: bool)
    ensures
        r,
{
    true
}

/// Default of `Settings::min_samples` when the stored settings omit it:
/// a quarter second at 16 kHz.
pub fn default_min_samples() -> (r: usize)
    ensures
        r == 4000,
{
    16000 / 4
}

/// Persisted user settings.
#[derive(Clone, Copy, Debug, PartialEq, Eq, Structural)]
pub struct Settings {
    /// If true, append a trailing space after the inserted transcript.
    pub trailing_space: bool,
    /// Min audio length (samples at 16 kHz) to bother transcribing.
    pub min_samples: usize,
    /// Push-to-talk modifier key.
    pub hotkey: Hotkey,
}

impl Default for Settings {
    fn default() -> (r: Settings)
        ensures
            r == (Settings { trailing_space: false, min_samples: 0, hotkey: Hotkey::Fn }),
    {
        Settings { trailing_space: false, min_samples: 0, hotkey: Hotkey::Fn }
    }
}

/// What reading the settings file gave.
#[derive(Clone, Copy, Debug, PartialEq, Eq)]
pub enum StoredSettings {
    /// The file could not be read.
    Unreadable,
    /// The file was read but did not parse as settings.
    Malformed,
    /// The file parsed to these settings.
    Parsed(Settings),
}

impl Settings {
    /// The settings in effect after a load: the parsed ones; the type's
    /// defaults (no trailing space, no minimum length, fn) when the file did
    /// not parse; the first-run settings (trailing space, a quarter second,
    /// fn) when it could not be read.
    pub fn resolve(stored: StoredSettings) -> (r: Settings)
        ensures
            r == match stored {
                StoredSettings::Parsed(s) => s,
                StoredSettings::Malformed => Settings {
                    trailing_space: false,
                    min_samples: 0,
                    hotkey: Hotkey::Fn,
                },
                StoredSettings::Unreadable => Settings {
                    trailing_space: true,
                    min_samples: 4000,
                    hotkey: Hotkey::Fn,
                },
            },
    {
        match stored {
            StoredSettings::Parsed(s) => s,
            StoredSettings::Malformed => Settings::default(),
            StoredSettings::Unreadable => Settings {
                trailing_space: true,
                min_samples: 16000 / 4,
                hotkey: Hotkey::Fn,
            },
        }
    }
}

} // verus!
