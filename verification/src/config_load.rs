//! Which config and which theme the shell runs with.

use crate::text;
use crate::text::{copy_opt, owned, same_text};
use vstd::prelude::*;

verus! {

/// What came of reading the config file.
#[derive(Debug, PartialEq, Eq)]
pub enum ConfigRead {
    /// There is no file.
    Absent,
    /// The file was read and parsed.
    Parsed,
    /// The file is there but could not be read or parsed; the message says so
    /// to the user.
    Failed(String),
}

/// What the shell starts with.
#[derive(Debug, PartialEq, Eq)]
pub struct ConfigStart {
    /// The built-in defaults are used.
    pub defaults: bool,
    /// The message to show.
    pub error: Option<String>,
}

/// Decide what to start with: an absent file means defaults without a message,
/// a broken one defaults with a message.
pub fn load_config_from(read: ConfigRead) -> (r: ConfigStart)
    ensures
        r.defaults == !(read is Parsed),
        r.error == (match read {
            ConfigRead::Failed(m) => Some(m),
            _ => None,
        }),
{
    match read {
        ConfigRead::Absent => ConfigStart { defaults: true, error: None },
        ConfigRead::Parsed => ConfigStart { defaults: false, error: None },
        ConfigRead::Failed(m) => ConfigStart { defaults: true, error: Some(m) },
    }
}

/// Follow the system's high-contrast request on a freshly loaded config: the
/// accessible theme is chosen only where the theme is still the shipped
/// default. Tells whether it was.
pub fn apply_forced_colors_auto_theme_with(
    theme: &mut String,
    shipped_default: &str,
    accessible: &str,
    high_contrast: bool,
) -> (r: bool)
    ensures
        r == (high_contrast && old(theme)@ == shipped_default@),
        final(theme)@ == (if r {
            accessible@
        } else {
            old(theme)@
        }),
{
    if high_contrast && same_text(theme.as_str(), shipped_default) {
        *theme = owned(accessible);
        true
    } else {
        false
    }
}

/// Where a theme file is looked for: a directory (`None` is the working
/// directory), a folder in it, and the file's name.
#[derive(Debug, PartialEq, Eq)]
pub struct ThemePath {
    pub base: Option<String>,
    pub folder: String,
    pub file: String,
}

/// The text of a theme path.
pub struct ThemePathView {
    pub base: Option<Seq<char>>,
    pub folder: Seq<char>,
    pub file: Seq<char>,
}

impl View for ThemePath {
    type V = ThemePathView;

    open spec fn view(&self) -> ThemePathView {
        ThemePathView { base: text::opt_text(self.base), folder: self.folder@, file: self.file@ }
    }
}

/// The views of a list of theme paths.
pub open spec fn path_views(v: Seq<ThemePath>) -> Seq<ThemePathView> {
    v.map_values(|p: ThemePath| p@)
}

/// The file name of a theme.
pub open spec fn theme_file(name: Seq<char>) -> Seq<char> {
    name + ".toml"@
}

/// The places a theme file is looked for, the user's own first, then the
/// working directory, then beside the program.
pub open spec fn theme_places(
    name: Seq<char>,
    config_dir: Option<Seq<char>>,
    exe_dir: Option<Seq<char>>,
) -> Seq<ThemePathView> {
    let file = theme_file(name);
    (match config_dir {
        Some(d) => seq![ThemePathView { base: Some(d), folder: "themes"@, file }],
        None => seq![],
    }) + seq![ThemePathView { base: None, folder: "assets/themes"@, file }] + (match exe_dir {
        Some(d) => seq![ThemePathView { base: Some(d), folder: "assets/themes"@, file }],
        None => seq![],
    })
}

/// The places a theme file is looked for, highest priority first.
pub fn theme_candidate_paths(
    name: &str,
    config_dir: &Option<String>,
    exe_dir: &Option<String>,
) -> (r: Vec<ThemePath>)
    ensures
        path_views(r@) == theme_places(name@, text::opt_text(*config_dir), text::opt_text(*exe_dir)),
{
    let mut file = owned(name);
    file.append(".toml");
    let mut out: Vec<ThemePath> = Vec::new();
    if config_dir.is_some() {
        out.push(
            ThemePath { base: copy_opt(config_dir), folder: owned("themes"), file: file.clone() },
        );
    }
    out.push(ThemePath { base: None, folder: owned("assets/themes"), file: file.clone() });
    if exe_dir.is_some() {
        out.push(ThemePath { base: copy_opt(exe_dir), folder: owned("assets/themes"), file });
    }
    assert(path_views(out@) =~= theme_places(
        name@,
        text::opt_text(*config_dir),
        text::opt_text(*exe_dir),
    ));
    out
}

/// A user's theme comes before every other of the same name.
pub proof fn user_theme_comes_first(
    name: Seq<char>,
    config_dir: Seq<char>,
    exe_dir: Option<Seq<char>>,
)
    ensures
        theme_places(name, Some(config_dir), exe_dir)[0] == (ThemePathView {
            base: Some(config_dir),
            folder: "themes"@,
            file: theme_file(name),
        }),
{
}

/// What came of loading one theme file.
#[derive(Debug, PartialEq, Eq)]
pub enum ThemeLoad {
    /// The theme was loaded.
    Loaded,
    /// There is no such file.
    Absent,
    /// The file is there but is no theme; the message says so to the user.
    Broken(String),
}

/// Where the theme comes from.
#[derive(Clone, Copy, Debug, PartialEq, Eq, Structural)]
pub enum ThemeSource {
    /// The file tried at this position.
    File(usize),
    /// The built-in theme of that name.
    Builtin,
    /// The built-in fallback.
    Fallback,
}

/// File `i` is the first that was loaded.
pub open spec fn first_loaded(loads: Seq<ThemeLoad>, i: int) -> bool {
    &&& 0 <= i < loads.len()
    &&& loads[i] is Loaded
    &&& forall|j: int| 0 <= j < i ==> !(#[trigger] loads[j] is Loaded)
}

/// The message of the first broken file.
pub open spec fn first_broken(loads: Seq<ThemeLoad>) -> Option<Seq<char>>
    decreases loads.len(),
{
    if loads.len() == 0 {
        None
    } else {
        match first_broken(loads.drop_last()) {
            Some(m) => Some(m),
            None => match loads.last() {
                ThemeLoad::Broken(m) => Some(m@),
                _ => None,
            },
        }
    }
}

/// Resolve the theme from what came of the files: the first that loads wins
/// and the rest are not looked at; else the built-in of that name, else the
/// fallback. The message is that of the first broken file that was looked at.
pub fn load_terminal_theme(loads: &Vec<ThemeLoad>, builtin: bool) -> (r: (ThemeSource, Option<String>))
    ensures
        r.0 matches ThemeSource::File(i) ==> first_loaded(loads@, i as int) && text::opt_text(r.1)
            == first_broken(loads@.take(i as int)),
        (forall|i: int| 0 <= i < loads@.len() ==> !(#[trigger] loads@[i] is Loaded)) <==> !(r.0 is File),
        r.0 is Builtin ==> builtin,
        r.0 is Fallback ==> !builtin,
        !(r.0 is File) ==> text::opt_text(r.1) == first_broken(loads@),
{
    let mut notice: Option<String> = None;
    let mut i: usize = 0;
    while i < loads.len()
        invariant
            i <= loads@.len(),
            forall|j: int| 0 <= j < i ==> !(#[trigger] loads@[j] is Loaded),
            text::opt_text(notice) == first_broken(loads@.take(i as int)),
        decreases loads@.len() - i,
    {
        assert(loads@.take(i + 1).drop_last() =~= loads@.take(i as int));
        assert(loads@.take(i + 1).last() == loads@[i as int]);
        match &loads[i] {
            ThemeLoad::Loaded => {
                return (ThemeSource::File(i), notice);
            },
            ThemeLoad::Absent => {},
            ThemeLoad::Broken(m) => {
                if notice.is_none() {
                    notice = Some(m.clone());
                }
            },
        }
        i += 1;
    }
    assert(loads@.take(i as int) =~= loads@);
    if builtin {
        (ThemeSource::Builtin, notice)
    } else {
        (ThemeSource::Fallback, notice)
    }
}

/// The system's appearance.
#[derive(Clone, Copy, Debug, PartialEq, Eq, Structural)]
pub enum OsTheme {
    Dark,
    Light,
}

/// The theme that goes with an appearance.
pub open spec fn theme_for(os: OsTheme) -> Seq<char> {
    match os {
        OsTheme::Light => "ghost-paper"@,
        OsTheme::Dark => "itasha-corp"@,
    }
}

/// The appearance as it is followed: an unknown one counts as dark.
pub open spec fn resolved(os: Option<OsTheme>) -> OsTheme {
    match os {
        Some(t) => t,
        None => OsTheme::Dark,
    }
}

/// The appearance remembered after a tick.
pub open spec fn remembered(follow: bool, os: Option<OsTheme>) -> Option<OsTheme> {
    if follow {
        Some(resolved(os))
    } else {
        None
    }
}

/// The theme a tick switches to: only where following is on and the appearance
/// differs from the last one seen, and the theme is not already the right one.
pub open spec fn followed_theme(
    last: Option<OsTheme>,
    follow: bool,
    os: Option<OsTheme>,
    theme: Seq<char>,
) -> Option<Seq<char>> {
    if follow && last != Some(resolved(os)) && theme != theme_for(resolved(os)) {
        Some(theme_for(resolved(os)))
    } else {
        None
    }
}

/// Follow the system's appearance. The result is the theme to switch to.
pub fn follow_os_theme(
    last: &mut Option<OsTheme>,
    follow: bool,
    os: Option<OsTheme>,
    theme: &str,
) -> (r: Option<String>)
    ensures
        *final(last) == remembered(follow, os),
        text::opt_text(r) == followed_theme(*old(last), follow, os, theme@),
{
    if !follow {
        *last = None;
        return None;
    }
    let now = match os {
        Some(t) => t,
        None => OsTheme::Dark,
    };
    let seen = match *last {
        Some(t) => t == now,
        None => false,
    };
    if seen {
        return None;
    }
    *last = Some(now);
    let desired = match now {
        OsTheme::Light => "ghost-paper",
        OsTheme::Dark => "itasha-corp",
    };
    if same_text(theme, desired) {
        None
    } else {
        Some(owned(desired))
    }
}

/// A theme picked by hand stays while the appearance does, whatever was picked.
pub proof fn a_manual_pick_sticks(os: Option<OsTheme>, picked: Seq<char>)
    ensures
        followed_theme(remembered(true, os), true, os, picked) is None,
{
}

/// Switching following off and on again applies the appearance anew.
pub proof fn switching_on_again_reapplies(os: Option<OsTheme>, picked: Seq<char>)
    requires
        picked != theme_for(resolved(os)),
    ensures
        followed_theme(remembered(false, os), true, os, picked) == Some(theme_for(resolved(os))),
{
}

/// What came of reading the config file after it changed.
#[derive(Debug, PartialEq, Eq)]
pub enum ReloadRead {
    /// It vanished again before it could be read.
    Unreadable,
    /// It says what already runs.
    Same,
    /// It says something else.
    Changed { theme_changed: bool },
    /// It does not parse; the message says so to the user.
    Failed(String),
}

/// What a changed config file does to the running shell.
#[derive(Debug, PartialEq, Eq)]
pub enum Reload {
    /// Nothing.
    Keep,
    /// The new config runs, and this is shown.
    Apply { theme_changed: bool, toast: String },
    /// The running config stays, and this is shown.
    Refuse(String),
}

/// Decide what a changed config file does: one that does not parse never
/// replaces the running config.
pub fn config_hot_reload(read: ReloadRead) -> (r: Reload)
    ensures
        read is Unreadable || read is Same ==> r is Keep,
        read matches ReloadRead::Changed { theme_changed } ==> (r matches Reload::Apply {
            theme_changed: t,
            toast,
        } && t == theme_changed && toast@ == "Reloaded config.toml"@),
        read matches ReloadRead::Failed(m) ==> r == Reload::Refuse(m),
{
    match read {
        ReloadRead::Unreadable => Reload::Keep,
        ReloadRead::Same => Reload::Keep,
        ReloadRead::Changed { theme_changed } => Reload::Apply {
            theme_changed,
            toast: owned("Reloaded config.toml"),
        },
        ReloadRead::Failed(m) => Reload::Refuse(m),
    }
}

/// A theme file is looked for under its name, with the user's own themes first,
/// then those of the working directory and then those beside the program; a
/// directory that is not known is not looked in.
pub proof fn themes_are_looked_for_in_order(
    name: Seq<char>,
    config: Seq<char>,
    exe: Seq<char>,
)
    ensures
        ({
            let file = name + seq!['.', 't', 'o', 'm', 'l'];
            let own = ThemePathView { base: Some(config), folder: "themes"@, file };
            let here = ThemePathView { base: None, folder: "assets/themes"@, file };
            let beside = ThemePathView { base: Some(exe), folder: "assets/themes"@, file };
            &&& theme_places(name, Some(config), Some(exe)) == seq![own, here, beside]
            &&& theme_places(name, Some(config), None) == seq![own, here]
            &&& theme_places(name, None, Some(exe)) == seq![here, beside]
            &&& theme_places(name, None, None) == seq![here]
        }),
{
    reveal_strlit(".toml");
    let file = name + seq!['.', 't', 'o', 'm', 'l'];
    assert(".toml"@ =~= seq!['.', 't', 'o', 'm', 'l']);
    let own = ThemePathView { base: Some(config), folder: "themes"@, file };
    let here = ThemePathView { base: None, folder: "assets/themes"@, file };
    let beside = ThemePathView { base: Some(exe), folder: "assets/themes"@, file };
    assert(theme_places(name, Some(config), Some(exe)) =~= seq![own, here, beside]);
    assert(theme_places(name, Some(config), None) =~= seq![own, here]);
    assert(theme_places(name, None, Some(exe)) =~= seq![here, beside]);
    assert(theme_places(name, None, None) =~= seq![here]);
}

/// The first file that loads is used, and of the broken ones the first is told
/// of.
pub proof fn the_first_file_counts(a: Seq<ThemeLoad>, l: ThemeLoad, i: int, j: int)
    ensures
        first_loaded(a, i) && 0 <= j < a.len() && a[j] is Loaded ==> i <= j && a[i] is Loaded,
        first_broken(Seq::empty()) is None,
        first_broken(a) is Some ==> first_broken(a.push(l)) == first_broken(a),
        first_broken(a) is None ==> (l matches ThemeLoad::Broken(m) ==> first_broken(a.push(l))
            == Some(m@)),
        first_broken(a) is None && !(l is Broken) ==> first_broken(a.push(l)) is None,
{
    assert(a.push(l).drop_last() =~= a);
    assert(a.push(l).last() == l);
}

/// The shell follows the system: its light theme with a light appearance and its
/// dark one with a dark appearance or none that is known, where the appearance
/// has changed and the theme is not the right one already.
pub proof fn the_theme_follows_the_system(last: Option<OsTheme>, theme: Seq<char>)
    ensures
        remembered(true, Some(OsTheme::Light)) == Some(OsTheme::Light),
        remembered(true, Some(OsTheme::Dark)) == Some(OsTheme::Dark),
        remembered(true, None) == Some(OsTheme::Dark),
        remembered(false, Some(OsTheme::Light)) is None && remembered(
            false,
            Some(OsTheme::Dark),
        ) is None && remembered(false, None) is None,
        last != Some(OsTheme::Light) && theme != "ghost-paper"@ ==> followed_theme(
            last,
            true,
            Some(OsTheme::Light),
            theme,
        ) == Some("ghost-paper"@),
        last != Some(OsTheme::Dark) && theme != "itasha-corp"@ ==> followed_theme(
            last,
            true,
            Some(OsTheme::Dark),
            theme,
        ) == Some("itasha-corp"@) && followed_theme(last, true, None, theme) == Some(
            "itasha-corp"@,
        ),
        followed_theme(last, false, Some(OsTheme::Light), theme) is None,
        followed_theme(last, false, Some(OsTheme::Dark), theme) is None,
        followed_theme(last, false, None, theme) is None,
        followed_theme(Some(OsTheme::Light), true, Some(OsTheme::Light), theme) is None,
        followed_theme(Some(OsTheme::Dark), true, Some(OsTheme::Dark), theme) is None,
        followed_theme(last, true, Some(OsTheme::Light), "ghost-paper"@) is None,
        followed_theme(last, true, Some(OsTheme::Dark), "itasha-corp"@) is None,
{
}

/// A config file that is there and can be read is used; else the defaults are,
/// with a word to the user where the file is there.
pub proof fn a_broken_config_is_told_of(
    m: String,
    absent: ConfigStart,
    parsed: ConfigStart,
    failed: ConfigStart,
)
    requires
        call_ensures(load_config_from, (ConfigRead::Absent,), absent),
        call_ensures(load_config_from, (ConfigRead::Parsed,), parsed),
        call_ensures(load_config_from, (ConfigRead::Failed(m),), failed),
    ensures
        absent.defaults && absent.error is None,
        !parsed.defaults && parsed.error is None,
        failed.defaults && failed.error == Some(m),
{
}

/// A changed config file runs once it parses and says something new; one that
/// does not parse is told of, and the running config stays.
pub proof fn a_changed_config_runs(theme: bool, m: String, a: Reload, b: Reload, c: Reload, d: Reload)
    requires
        call_ensures(config_hot_reload, (ReloadRead::Unreadable,), a),
        call_ensures(config_hot_reload, (ReloadRead::Same,), b),
        call_ensures(config_hot_reload, (ReloadRead::Changed { theme_changed: theme },), c),
        call_ensures(config_hot_reload, (ReloadRead::Failed(m),), d),
    ensures
        a is Keep && b is Keep,
        c matches Reload::Apply { theme_changed, toast } && theme_changed == theme && toast@
            == "Reloaded config.toml"@,
        d == Reload::Refuse(m),
{
}

/// High contrast puts the accessible theme in place of the one that is shipped,
/// and of no theme that was picked.
pub proof fn high_contrast_replaces_the_shipped_theme(
    theme: &mut String,
    shipped: &str,
    accessible: &str,
    high: bool,
    r: bool,
)
    requires
        call_ensures(apply_forced_colors_auto_theme_with, (theme, shipped, accessible, high), r),
    ensures
        r <==> high && old(theme)@ == shipped@,
        high && old(theme)@ == shipped@ ==> final(theme)@ == accessible@,
        !high || old(theme)@ != shipped@ ==> final(theme)@ == old(theme)@,
{
}

} // verus!
