//! Global preferences: which entries are hidden and the bandwidth limit.

use vstd::prelude::*;
use crate::text::{
    decimal_digits, digit_val, digits_value, is_digit, is_ws, lemma_decimal_digits,
    lemma_parse_decimal_digits, parse_u32, parse_unsigned, starts_with_char, str_eq, to_decimal,
    trim, trim_spec, ws_prefix_len, ws_suffix_len,
};

verus! {

/// The names hidden by default while `hide_system_files` is on.
pub open spec fn is_system_default(name: Seq<char>) -> bool {
    ||| name == ".DS_Store"@
    ||| name == "Thumbs.db"@
    ||| name == "desktop.ini"@
    ||| name == ".git"@
    ||| name == "node_modules"@
    ||| name == ".idea"@
    ||| name == ".vscode"@
    ||| name == "__pycache__"@
}

/// Whether `name` is one of the names hidden by default.
pub fn is_system_default_name(name: &str) -> (r: bool)
    ensures
        r == is_system_default(name@),
{
    str_eq(name, ".DS_Store") || str_eq(name, "Thumbs.db") || str_eq(name, "desktop.ini")
        || str_eq(name, ".git") || str_eq(name, "node_modules") || str_eq(name, ".idea")
        || str_eq(name, ".vscode") || str_eq(name, "__pycache__")
}

/// Bandwidth limit for transfers.
#[derive(Debug, Clone, Copy, PartialEq, Eq, Structural)]
pub enum Bandwidth {
    Unlimited,
    KBps(u32),
}

impl Default for Bandwidth {
    fn default() -> (r: Self)
        ensures
            r == Bandwidth::Unlimited,
    {
        Bandwidth::Unlimited
    }
}

/// The limit in KB/s; a zero rate means no limit.
pub open spec fn limit_kbps_spec(b: Bandwidth) -> Option<u32> {
    match b {
        Bandwidth::Unlimited => None,
        Bandwidth::KBps(k) => if k == 0 {
            None
        } else {
            Some(k)
        },
    }
}

/// A bandwidth with a zero rate written as `Unlimited`.
pub open spec fn normalized(b: Bandwidth) -> Bandwidth {
    match limit_kbps_spec(b) {
        None => Bandwidth::Unlimited,
        Some(k) => Bandwidth::KBps(k),
    }
}

/// What the settings field accepts: blank or `0` means no limit, a number
/// of KB/s sets a limit, and anything else is refused.
pub open spec fn from_kbps_input_spec(input: Seq<char>) -> Option<Bandwidth> {
    let t = trim_spec(input);
    if t.len() == 0 || t == "0"@ {
        Some(Bandwidth::Unlimited)
    } else {
        match parse_unsigned(t, u32::MAX as int) {
            Some(k) => Some(
                if k == 0 {
                    Bandwidth::Unlimited
                } else {
                    Bandwidth::KBps(k as u32)
                },
            ),
            None => None,
        }
    }
}

/// The text shown in the settings field for a bandwidth.
pub open spec fn display_value_spec(b: Bandwidth) -> Seq<char> {
    match limit_kbps_spec(b) {
        None => "0"@,
        Some(k) => decimal_digits(k as nat),
    }
}

impl Bandwidth {
    /// The limit in KB/s, `None` when there is none.
    pub fn limit_kbps(self) -> (r: Option<u32>)
        ensures
            r == limit_kbps_spec(self),
    {
        match self {
            Bandwidth::Unlimited => None,
            Bandwidth::KBps(0) => None,
            Bandwidth::KBps(k) => Some(k),
        }
    }

    /// Reads the settings field.
    pub fn from_kbps_input(input: &str) -> (r: Option<Self>)
        ensures
            r == from_kbps_input_spec(input@),
    {
        let trimmed = trim(input);
        if trimmed.unicode_len() == 0 || str_eq(trimmed, "0") {
            return Some(Bandwidth::Unlimited);
        }
        match parse_u32(trimmed) {
            Some(kbps) => {
                if kbps == 0 {
                    Some(Bandwidth::Unlimited)
                } else {
                    Some(Bandwidth::KBps(kbps))
                }
            },
            None => None,
        }
    }

    /// The text the settings field shows: `0` for no limit, else the rate.
    pub fn display_value(self) -> (r: String)
        ensures
            r@ == display_value_spec(self),
    {
        match self.limit_kbps() {
            None => "0".to_string(),
            Some(k) => to_decimal(k as u64),
        }
    }
}

proof fn lemma_trim_no_ws_ends(s: Seq<char>)
    requires
        s.len() > 0,
        !is_ws(s[0]),
        !is_ws(s.last()),
    ensures
        trim_spec(s) == s,
{
    assert(ws_prefix_len(s) == 0);
    assert(s.skip(0) =~= s);
    assert(ws_suffix_len(s) == 0);
    assert(s.take(s.len() as int) =~= s);
}

/// Showing a bandwidth in the settings field and reading the field back
/// gives the same limit.
pub proof fn lemma_bandwidth_display_round_trip(b: Bandwidth)
    ensures
        from_kbps_input_spec(display_value_spec(b)) == Some(normalized(b)),
{
    match limit_kbps_spec(b) {
        None => {
            reveal_strlit("0");
            lemma_trim_no_ws_ends("0"@);
        },
        Some(k) => {
            let d = decimal_digits(k as nat);
            lemma_decimal_digits(k as nat);
            assert(is_digit(d[0]));
            assert(is_digit(d[d.len() - 1]));
            lemma_trim_no_ws_ends(d);
            lemma_parse_decimal_digits(k as nat, u32::MAX as int);
            if d == "0"@ {
                reveal_strlit("0");
                assert(d.len() == 1 && d[0] == '0');
                assert(digits_value(d) == digits_value(d.drop_last()) * 10 + digit_val(d.last()));
                assert(d.drop_last() =~= Seq::<char>::empty());
            }
        },
    }
}

/// Global preferences.
#[derive(Debug, Clone, PartialEq, Eq)]
pub struct AppSettings {
    pub hide_system_files: bool,
    pub show_dotfiles: bool,
    pub custom_hidden: Vec<String>,
    pub bandwidth: Bandwidth,
}

/// Value of `hide_system_files` when the stored preferences lack it.
pub fn default_hide_system_files() -> (r: bool)
    ensures
        r,
{
    true
}

impl Default for AppSettings {
    fn default() -> (r: Self)
        ensures
            r.hide_system_files,
            !r.show_dotfiles,
            r.custom_hidden@.len() == 0,
            r.bandwidth == Bandwidth::Unlimited,
    {
        AppSettings {
            hide_system_files: true,
            show_dotfiles: false,
            custom_hidden: Vec::new(),
            bandwidth: Bandwidth::Unlimited,
        }
    }
}

/// `name` is one of the user's extra hidden names.
pub open spec fn in_custom_hidden(name: Seq<char>, settings: AppSettings) -> bool {
    exists|i: int| 0 <= i < settings.custom_hidden@.len() && #[trigger] settings.custom_hidden@[i]@ == name
}

/// Whether an entry called `name` is hidden under `settings`.
pub open spec fn is_hidden_spec(name: Seq<char>, settings: AppSettings) -> bool {
    ||| settings.hide_system_files && is_system_default(name)
    ||| !settings.show_dotfiles && starts_with_char(name, '.')
    ||| in_custom_hidden(name, settings)
}

/// Whether an entry called `name` is hidden under the global preferences.
pub fn is_hidden(name: &str, settings: &AppSettings) -> (r: bool)
    ensures
        r == is_hidden_spec(name@, *settings),
{
    if settings.hide_system_files && is_system_default_name(name) {
        return true;
    }
    if !settings.show_dotfiles && name.unicode_len() > 0 && name.get_char(0) == '.' {
        return true;
    }
    let mut i: usize = 0;
    while i < settings.custom_hidden.len()
        invariant
            i <= settings.custom_hidden@.len(),
            forall|k: int| 0 <= k < i ==> settings.custom_hidden@[k]@ != name@,
        decreases settings.custom_hidden@.len() - i,
    {
        if str_eq(settings.custom_hidden[i].as_str(), name) {
            return true;
        }
        i = i + 1;
    }
    false
}

/// While `hide_system_files` is on, each of the eight usual system names is
/// hidden, whatever the other preferences: `.DS_Store`, `Thumbs.db`,
/// `desktop.ini`, `.git`, `node_modules`, `.idea`, `.vscode` and
/// `__pycache__`.
pub proof fn lemma_system_names_hidden(settings: AppSettings)
    requires
        settings.hide_system_files,
    ensures
        is_hidden_spec(".DS_Store"@, settings),
        is_hidden_spec("Thumbs.db"@, settings),
        is_hidden_spec("desktop.ini"@, settings),
        is_hidden_spec(".git"@, settings),
        is_hidden_spec("node_modules"@, settings),
        is_hidden_spec(".idea"@, settings),
        is_hidden_spec(".vscode"@, settings),
        is_hidden_spec("__pycache__"@, settings),
{
}

} // verus!
