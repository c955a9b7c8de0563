//! The settings of a user, and how they come about.

use crate::text::{decimal, decimal_text, opt_view, to_chars, trim, trimmed};
use std::path::PathBuf;
use vstd::prelude::*;

verus! {

/// The port that a host listens on where the user chose none.
pub const DEFAULT_PORT: u16 = 7777;

/// The settings of a user.
#[derive(Debug)]
pub struct Config {
    pub username: String,
    pub port: u16,
    pub download_dir: PathBuf,
    /// Whether speeds are shown in bits.
    pub speed_unit_bits: bool,
    /// The place of the theme among the themes.
    pub theme_idx: usize,
}

/// Settings in mathematical terms.
pub struct ConfigView {
    pub username: Seq<char>,
    pub port: u16,
    pub download_dir: PathBuf,
    pub speed_unit_bits: bool,
    pub theme_idx: usize,
}

impl View for Config {
    type V = ConfigView;

    open spec fn view(&self) -> ConfigView {
        ConfigView {
            username: self.username@,
            port: self.port,
            download_dir: self.download_dir,
            speed_unit_bits: self.speed_unit_bits,
            theme_idx: self.theme_idx,
        }
    }
}

impl Clone for Config {
    fn clone(&self) -> (r: Config)
        ensures
            r@ == self@,
    {
        Config {
            username: self.username.clone(),
            port: self.port,
            download_dir: self.download_dir.clone(),
            speed_unit_bits: self.speed_unit_bits,
            theme_idx: self.theme_idx,
        }
    }
}

/// The settings of a user who has chosen nothing yet.
pub open spec fn initial_config(download_dir: PathBuf) -> ConfigView {
    ConfigView {
        username: ""@,
        port: DEFAULT_PORT,
        download_dir,
        speed_unit_bits: false,
        theme_idx: 0,
    }
}

/// Settings with the name and the port replaced that were given.
pub open spec fn overridden_config(
    c: ConfigView,
    username: Option<Seq<char>>,
    port: Option<u16>,
) -> ConfigView {
    ConfigView {
        username: match username {
            Some(u) => u,
            None => c.username,
        },
        port: match port {
            Some(p) => p,
            None => c.port,
        },
        ..c
    }
}

/// Settings after their folder for downloads was looked at, and whether they are
/// to be saved.
pub open spec fn validated_config(
    c: ConfigView,
    created: bool,
    absolute: bool,
    default_dir: PathBuf,
) -> (ConfigView, bool) {
    if created && absolute {
        (c, false)
    } else {
        (ConfigView { download_dir: default_dir, ..c }, true)
    }
}

/// The name that a typed text gives, if it gives one.
pub open spec fn accepted_name(typed: Seq<char>) -> Option<Seq<char>> {
    if trimmed(typed).len() > 0 {
        Some(trimmed(typed))
    } else {
        None
    }
}

impl Config {
    /// The settings of a user who has chosen nothing yet.
    pub fn initial(download_dir: PathBuf) -> (r: Config)
        ensures
            r@ == initial_config(download_dir),
    {
        Config {
            username: "".to_owned(),
            port: DEFAULT_PORT,
            download_dir,
            speed_unit_bits: false,
            theme_idx: 0,
        }
    }

    /// The settings with the name and the port replaced that were given.
    pub fn overridden(self, username: Option<String>, port: Option<u16>) -> (r: Config)
        ensures
            r@ == overridden_config(self@, opt_view(username), port),
    {
        Config {
            username: match username {
                Some(u) => u,
                None => self.username,
            },
            port: match port {
                Some(p) => p,
                None => self.port,
            },
            download_dir: self.download_dir,
            speed_unit_bits: self.speed_unit_bits,
            theme_idx: self.theme_idx,
        }
    }

    /// Whether the user is still to be asked for a name.
    pub fn needs_username(&self) -> (r: bool)
        ensures
            r == (self@.username.len() == 0),
    {
        to_chars(self.username.as_str()).len() == 0
    }

    /// The settings after their folder for downloads was looked at: one that
    /// cannot be created or whose path is relative gives way to the default.
    /// Tells whether the settings are to be saved.
    pub fn validated(self, created: bool, absolute: bool, default_dir: PathBuf) -> (r: (
        Config,
        bool,
    ))
        ensures
            (r.0@, r.1) == validated_config(self@, created, absolute, default_dir),
            r.1 == !(created && absolute),
            r.0@ == (ConfigView {
                download_dir: if created && absolute {
                    self@.download_dir
                } else {
                    default_dir
                },
                ..self@
            }),
    {
        if created && absolute {
            (self, false)
        } else {
            (
                Config {
                    username: self.username,
                    port: self.port,
                    download_dir: default_dir,
                    speed_unit_bits: self.speed_unit_bits,
                    theme_idx: self.theme_idx,
                },
                true,
            )
        }
    }
}

/// The name that a user has typed, without white space around it. An empty
/// name is none.
pub fn accept_username(typed: &str) -> (r: Option<String>)
    ensures
        opt_view(r) == accepted_name(typed@),
        opt_view(r) == (if trimmed(typed@).len() > 0 {
            Some(trimmed(typed@))
        } else {
            None
        }),
{
    let name = trim(typed);
    if to_chars(name.as_str()).len() > 0 {
        Some(name)
    } else {
        None
    }
}

/// A line of the debug log, with the seconds since 1970.
pub fn debug_log(secs: u64, msg: &str) -> (r: String)
    ensures
        r@ == "["@ + decimal_text(secs as nat) + "] "@ + msg@,
{
    let mut out = "[".to_owned();
    out.append(decimal(secs).as_str());
    out.append("] ");
    out.append(msg);
    out
}

// ---------------------------------------------------------------------------
// Laws
// ---------------------------------------------------------------------------

/// What is given on the command line wins over what was saved, and what is not
/// given stays as it was saved.
pub proof fn law_overrides_win(c: ConfigView, username: Option<Seq<char>>, port: Option<u16>)
    ensures
        username is Some ==> overridden_config(c, username, port).username == username->0,
        port is Some ==> overridden_config(c, username, port).port == port->0,
        overridden_config(c, None, None) == c,
        overridden_config(c, username, port).download_dir == c.download_dir,
{
}

/// A user who has chosen nothing yet has no name, listens on the usual port,
/// reads speeds in bytes, and sees the first theme.
pub proof fn law_settings_begin_empty(download_dir: PathBuf)
    ensures
        ({
            let c = initial_config(download_dir);
            &&& c.username.len() == 0
            &&& c.port == 7777
            &&& c.download_dir == download_dir
            &&& !c.speed_unit_bits
            &&& c.theme_idx == 0
        }),
{
    reveal_strlit("");
}

/// Each of the two settings that can be given on the command line is replaced
/// where it is given and kept where it is not, and no other is touched.
pub proof fn law_only_what_is_given_is_replaced(
    c: ConfigView,
    username: Option<Seq<char>>,
    port: Option<u16>,
)
    ensures
        username is None ==> overridden_config(c, username, port).username == c.username,
        port is None ==> overridden_config(c, username, port).port == c.port,
        overridden_config(c, username, port).download_dir == c.download_dir,
        overridden_config(c, username, port).speed_unit_bits == c.speed_unit_bits,
        overridden_config(c, username, port).theme_idx == c.theme_idx,
{
}

/// A folder for downloads that can be created and whose path is absolute is kept;
/// any other gives way to the default, and then the settings are saved. No other
/// setting changes.
pub proof fn law_bad_folders_give_way(
    c: ConfigView,
    created: bool,
    absolute: bool,
    default_dir: PathBuf,
)
    ensures
        ({
            let (v, save) = validated_config(c, created, absolute, default_dir);
            &&& created && absolute ==> v == c && !save
            &&& !created || !absolute ==> v.download_dir == default_dir && save
            &&& v.username == c.username && v.port == c.port && v.speed_unit_bits
                == c.speed_unit_bits && v.theme_idx == c.theme_idx
        }),
{
}

/// A name is taken as it was typed, without white space around it; only white
/// space is no name.
pub proof fn law_names_are_taken_as_typed(typed: Seq<char>)
    ensures
        typed.len() > 0 && !crate::text::is_white_space(typed[0]) && !crate::text::is_white_space(
            typed.last(),
        ) ==> accepted_name(typed) == Some(typed),
        accepted_name(typed) is None <==> forall|i: int|
            0 <= i < typed.len() ==> crate::text::is_white_space(#[trigger] typed[i]),
        accepted_name(typed) is Some ==> !crate::text::is_white_space(accepted_name(typed)->0[0])
            && !crate::text::is_white_space(accepted_name(typed)->0.last()),
{
    crate::text::law_trimming_takes_both_ends(typed, None);
    let r = trimmed(typed);
    let (i, j) = choose|i: int, j: int|
        #![trigger typed.subrange(i, j)]
        0 <= i <= j <= typed.len() && crate::text::trim_both(typed, None) == typed.subrange(i, j)
            && (forall|k: int|
            0 <= k < i || j <= k < typed.len() ==> crate::text::is_trimmed(
                #[trigger] typed[k],
                None,
            ));
    if r.len() > 0 {
        assert(r[0] == typed[i]);
        assert(crate::text::is_trimmed(r[0], None) == crate::text::is_white_space(r[0]));
    } else {
        assert(i == j);
        assert forall|k: int| 0 <= k < typed.len() implies crate::text::is_white_space(
            #[trigger] typed[k],
        ) by {
            assert(crate::text::is_trimmed(typed[k], None));
        }
    }
    if typed.len() > 0 && !crate::text::is_white_space(typed[0]) && !crate::text::is_white_space(
        typed.last(),
    ) {
        assert(!crate::text::is_trimmed(typed[0], None));
        assert(!crate::text::is_trimmed(typed[typed.len() - 1], None));
        assert(i == 0 && j == typed.len());
        assert(typed.subrange(0, typed.len() as int) =~= typed);
    }
}

}
