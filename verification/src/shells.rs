//! Which shell a new pane runs, and how a path is written for it.

use crate::text;
use crate::text::{contains, copy_opt, copy_texts, owned, replace_char};
use vstd::prelude::*;

verus! {

/// A shell the switcher offers.
#[derive(Debug, PartialEq, Eq)]
pub struct ShellProfile {
    /// What the switcher calls it.
    pub label: String,
    /// The program to run; none for the platform's default shell.
    pub program: Option<String>,
    /// The arguments of the program.
    pub args: Vec<String>,
}

/// The view of a profile.
pub struct ProfileView {
    pub label: Seq<char>,
    pub program: Option<Seq<char>>,
    pub args: Seq<Seq<char>>,
}

impl View for ShellProfile {
    type V = ProfileView;

    open spec fn view(&self) -> ProfileView {
        ProfileView {
            label: self.label@,
            program: text::opt_text(self.program),
            args: text::texts(self.args@),
        }
    }
}

/// The columns a pane starts with.
pub const SPAWN_COLS: u16 = 80;

/// The rows a pane starts with.
pub const SPAWN_ROWS: u16 = 24;

/// How the terminal of a pane is started.
#[derive(Debug, PartialEq, Eq)]
pub enum SpawnPlan {
    /// Run a named program.
    Program {
        program: String,
        args: Vec<String>,
        cols: u16,
        rows: u16,
        cwd: Option<String>,
    },
    /// Run the default shell in a directory.
    ShellIn { cols: u16, rows: u16, term: Option<String>, dir: String },
    /// Run the default shell where it likes.
    Shell { cols: u16, rows: u16, term: Option<String> },
}

/// The view of a plan.
pub enum PlanView {
    Program {
        program: Seq<char>,
        args: Seq<Seq<char>>,
        cols: u16,
        rows: u16,
        cwd: Option<Seq<char>>,
    },
    ShellIn { cols: u16, rows: u16, term: Option<Seq<char>>, dir: Seq<char> },
    Shell { cols: u16, rows: u16, term: Option<Seq<char>> },
}

impl View for SpawnPlan {
    type V = PlanView;

    open spec fn view(&self) -> PlanView {
        match *self {
            SpawnPlan::Program { program, args, cols, rows, cwd } => PlanView::Program {
                program: program@,
                args: text::texts(args@),
                cols,
                rows,
                cwd: text::opt_text(cwd),
            },
            SpawnPlan::ShellIn { cols, rows, term, dir } => PlanView::ShellIn {
                cols,
                rows,
                term: text::opt_text(term),
                dir: dir@,
            },
            SpawnPlan::Shell { cols, rows, term } => PlanView::Shell {
                cols,
                rows,
                term: text::opt_text(term),
            },
        }
    }
}

/// How a terminal is started: a named program keeps its arguments and goes to
/// the directory; else the default shell, with the terminal name it announces.
pub open spec fn planned(
    program: Option<Seq<char>>,
    args: Seq<Seq<char>>,
    cols: u16,
    rows: u16,
    term: Option<Seq<char>>,
    cwd: Option<Seq<char>>,
) -> PlanView {
    match (program, cwd) {
        (Some(program), _) => PlanView::Program { program, args, cols, rows, cwd },
        (None, Some(dir)) => PlanView::ShellIn { cols, rows, term, dir },
        (None, None) => PlanView::Shell { cols, rows, term },
    }
}

/// How a terminal is started.
pub fn spawn_pane_term(
    program: &Option<String>,
    args: &Vec<String>,
    cols: u16,
    rows: u16,
    term: &Option<String>,
    cwd: &Option<String>,
) -> (r: SpawnPlan)
    ensures
        r@ == planned(
            text::opt_text(*program),
            text::texts(args@),
            cols,
            rows,
            text::opt_text(*term),
            text::opt_text(*cwd),
        ),
{
    match program {
        Some(p) => SpawnPlan::Program {
            program: owned(p.as_str()),
            args: copy_texts(args),
            cols,
            rows,
            cwd: copy_opt(cwd),
        },
        None => match cwd {
            Some(dir) => SpawnPlan::ShellIn {
                cols,
                rows,
                term: copy_opt(term),
                dir: owned(dir.as_str()),
            },
            None => SpawnPlan::Shell { cols, rows, term: copy_opt(term) },
        },
    }
}

/// The shells on offer and the one new panes run.
#[derive(Debug, PartialEq, Eq)]
pub struct Shells {
    /// The shells on offer, the platform's default first.
    pub shell_profiles: Vec<ShellProfile>,
    /// Which of them new panes run.
    pub active_shell: usize,
}

/// The view of the shells on offer.
pub struct ShellsView {
    pub profiles: Seq<ProfileView>,
    pub active: int,
}

impl View for Shells {
    type V = ShellsView;

    open spec fn view(&self) -> ShellsView {
        ShellsView {
            profiles: self.shell_profiles@.map_values(|p: ShellProfile| p@),
            active: self.active_shell as int,
        }
    }
}

/// The name of the shell new panes run.
pub open spec fn active_label(s: ShellsView) -> Seq<char> {
    if 0 <= s.active < s.profiles.len() {
        s.profiles[s.active].label
    } else {
        "Default shell"@
    }
}

/// How a pane with the active shell is started in `cwd`.
pub open spec fn shell_plan(
    s: ShellsView,
    cols: u16,
    rows: u16,
    term: Seq<char>,
    cwd: Option<Seq<char>>,
) -> PlanView {
    if 0 <= s.active < s.profiles.len() {
        planned(
            s.profiles[s.active].program,
            s.profiles[s.active].args,
            cols,
            rows,
            Some(term),
            cwd,
        )
    } else {
        planned(None, Seq::empty(), cols, rows, Some(term), cwd)
    }
}

impl Shells {
    /// The shells on offer; new panes run the first.
    pub fn new(shell_profiles: Vec<ShellProfile>) -> (r: Shells)
        ensures
            r.shell_profiles == shell_profiles,
            r.active_shell == 0,
    {
        Shells { shell_profiles, active_shell: 0 }
    }

    /// The name of the shell new panes run.
    pub fn active_shell_label(&self) -> (r: &str)
        ensures
            r@ == active_label(self@),
    {
        if self.active_shell < self.shell_profiles.len() {
            self.shell_profiles[self.active_shell].label.as_str()
        } else {
            "Default shell"
        }
    }

    /// Make a shell the one new panes run. Tells whether there is such a shell;
    /// where there is none nothing changes.
    pub fn choose_shell(&mut self, idx: usize) -> (r: bool)
        ensures
            r == (idx < old(self).shell_profiles@.len()),
            *final(self) == (if r {
                Shells { active_shell: idx, ..*old(self) }
            } else {
                *old(self)
            }),
    {
        if idx < self.shell_profiles.len() {
            self.active_shell = idx;
            true
        } else {
            false
        }
    }

    /// How a pane with the active shell is started at a given size.
    pub fn plan_spawn(&self, cols: u16, rows: u16, term: &str, cwd: &Option<String>) -> (r:
        SpawnPlan)
        ensures
            r@ == shell_plan(self@, cols, rows, term@, text::opt_text(*cwd)),
    {
        let term = Some(owned(term));
        if self.active_shell < self.shell_profiles.len() {
            let p = &self.shell_profiles[self.active_shell];
            spawn_pane_term(&p.program, &p.args, cols, rows, &term, cwd)
        } else {
            let none: Vec<String> = Vec::new();
            assert(text::texts(none@) =~= Seq::empty());
            spawn_pane_term(&None, &none, cols, rows, &term, cwd)
        }
    }
}

/// A path quoted for a POSIX shell.
pub open spec fn posix_quoted(raw: Seq<char>) -> Seq<char> {
    "'"@ + text::replaced(raw, '\'', "'\\''"@) + "'"@
}

/// A path written as one word for the shell: the call form with escaped quotes
/// for PowerShell, double quotes on Windows, and single quotes elsewhere.
pub open spec fn quoted_path(raw: Seq<char>, label: Seq<char>, windows: bool) -> Seq<char> {
    if text::has_part(label, "PowerShell"@) {
        "& \""@ + text::replaced(raw, '"', "`\""@) + "\""@
    } else if windows {
        "\""@ + raw + "\""@
    } else {
        posix_quoted(raw)
    }
}

/// A path written as one word for the shell with this label.
pub fn quote_path_for_shell(raw: &str, shell_label: &str, windows: bool) -> (r: String)
    ensures
        r@ == quoted_path(raw@, shell_label@, windows),
{
    if contains(shell_label, "PowerShell") {
        let mut out = "& \"".to_owned();
        out.append(replace_char(raw, '"', "`\"").as_str());
        out.append("\"");
        out
    } else if windows {
        let mut out = "\"".to_owned();
        out.append(raw);
        out.append("\"");
        out
    } else {
        let mut out = "'".to_owned();
        out.append(replace_char(raw, '\'', "'\\''").as_str());
        out.append("'");
        out
    }
}

/// What dropping files types: each path as one word, with a blank after it.
pub open spec fn dropped_words(paths: Seq<Seq<char>>, label: Seq<char>, windows: bool) -> Seq<char>
    decreases paths.len(),
{
    if paths.len() == 0 {
        Seq::empty()
    } else {
        dropped_words(paths.drop_last(), label, windows) + quoted_path(
            paths.last(),
            label,
            windows,
        ) + " "@
    }
}

/// What dropping files types.
pub fn dropped_text(paths: &Vec<String>, shell_label: &str, windows: bool) -> (r: String)
    ensures
        r@ == dropped_words(text::texts(paths@), shell_label@, windows),
{
    let mut out = String::new();
    let ghost all = text::texts(paths@);
    let mut i: usize = 0;
    assert(all.take(0) =~= Seq::empty());
    while i < paths.len()
        invariant
            i <= paths.len(),
            all == text::texts(paths@),
            out@ == dropped_words(all.take(i as int), shell_label@, windows),
        decreases paths.len() - i,
    {
        assert(all.take(i + 1).drop_last() =~= all.take(i as int));
        out.append(quote_path_for_shell(paths[i].as_str(), shell_label, windows).as_str());
        out.append(" ");
        i += 1;
    }
    assert(all.take(paths@.len() as int) =~= all);
    out
}

/// How a POSIX shell reads a word: single quotes keep what is between them, a
/// backslash outside them keeps the next character. None where a quote or an
/// escape is left open.
pub open spec fn posix_word(s: Seq<char>, quoted: bool) -> Option<Seq<char>>
    decreases s.len(),
{
    if s.len() == 0 {
        if quoted {
            None
        } else {
            Some(Seq::empty())
        }
    } else if s[0] == '\'' {
        posix_word(s.skip(1), !quoted)
    } else if s[0] == '\\' && !quoted {
        if s.len() == 1 {
            None
        } else {
            match posix_word(s.skip(2), false) {
                Some(rest) => Some(seq![s[1]] + rest),
                None => None,
            }
        }
    } else {
        match posix_word(s.skip(1), quoted) {
            Some(rest) => Some(seq![s[0]] + rest),
            None => None,
        }
    }
}

/// Inside quotes, the escaped form of a text is read back as the text.
proof fn escaped_text_is_read_back(raw: Seq<char>, tail: Seq<char>)
    ensures
        posix_word(text::replaced(raw, '\'', "'\\''"@) + tail, true) == (match posix_word(
            tail,
            true,
        ) {
            Some(rest) => Some(raw + rest),
            None => None,
        }),
    decreases raw.len(),
{
    reveal_strlit("'\\''");
    let escape = "'\\''"@;
    if raw.len() == 0 {
        assert(text::replaced(raw, '\'', escape) + tail =~= tail);
        if let Some(rest) = posix_word(tail, true) {
            assert(raw + rest =~= rest);
        }
    } else {
        let head = raw.drop_last();
        let c = raw.last();
        let piece = if c == '\'' {
            escape
        } else {
            seq![c]
        };
        let all = text::replaced(raw, '\'', escape) + tail;
        assert(all =~= text::replaced(head, '\'', escape) + (piece + tail));
        escaped_text_is_read_back(head, piece + tail);
        let s = piece + tail;
        if c == '\'' {
            assert(s.skip(1)[0] == '\\' && s.skip(1)[1] == '\'');
            assert(s.skip(1).skip(2)[0] == '\'');
            assert(s.skip(1).skip(2).skip(1) =~= tail);
            reveal_with_fuel(posix_word, 4);
        } else {
            assert(s.skip(1) =~= tail);
        }
        if let Some(rest) = posix_word(tail, true) {
            assert(posix_word(s, true) == Some(seq![c] + rest));
            assert(head + (seq![c] + rest) =~= raw + rest);
        }
    }
}

/// A POSIX shell reads a quoted path back as the path, whatever it holds.
pub proof fn posix_shells_read_the_path_back(raw: Seq<char>)
    ensures
        posix_word(posix_quoted(raw), false) == Some(raw),
{
    reveal_strlit("'");
    let body = text::replaced(raw, '\'', "'\\''"@) + "'"@;
    escaped_text_is_read_back(raw, "'"@);
    assert(posix_quoted(raw).skip(1) =~= body);
    assert("'"@.skip(1) =~= Seq::empty());
    reveal_with_fuel(posix_word, 2);
    assert(posix_word("'"@, true) == Some(Seq::<char>::empty()));
    assert(raw + Seq::<char>::empty() =~= raw);
}

/// A named program is run with its arguments in the directory; the default shell
/// is run in the directory where there is one, and where it likes otherwise, with
/// the terminal name it announces. All start at the size they are given.
pub proof fn plans_run_what_is_named(
    program: Seq<char>,
    args: Seq<Seq<char>>,
    cols: u16,
    rows: u16,
    term: Option<Seq<char>>,
    cwd: Option<Seq<char>>,
    dir: Seq<char>,
)
    ensures
        planned(Some(program), args, cols, rows, term, cwd) == (PlanView::Program {
            program,
            args,
            cols,
            rows,
            cwd,
        }),
        planned(None, args, cols, rows, term, Some(dir)) == (PlanView::ShellIn {
            cols,
            rows,
            term,
            dir,
        }),
        planned(None, args, cols, rows, term, None) == (PlanView::Shell { cols, rows, term }),
{
}

/// New panes run the shell that is chosen, with its own program and arguments;
/// where none is, the default shell.
pub proof fn new_panes_run_the_chosen_shell(
    s: ShellsView,
    cols: u16,
    rows: u16,
    term: Seq<char>,
    cwd: Option<Seq<char>>,
)
    ensures
        0 <= s.active < s.profiles.len() ==> active_label(s) == s.profiles[s.active].label,
        !(0 <= s.active < s.profiles.len()) ==> active_label(s) == "Default shell"@,
        0 <= s.active < s.profiles.len() && s.profiles[s.active].program is Some ==> shell_plan(
            s,
            cols,
            rows,
            term,
            cwd,
        ) == (PlanView::Program {
            program: s.profiles[s.active].program->0,
            args: s.profiles[s.active].args,
            cols,
            rows,
            cwd,
        }),
        !(0 <= s.active < s.profiles.len()) || s.profiles[s.active].program is None ==> {
            &&& cwd matches Some(dir) ==> shell_plan(s, cols, rows, term, cwd)
                == (PlanView::ShellIn { cols, rows, term: Some(term), dir })
            &&& cwd is None ==> shell_plan(s, cols, rows, term, cwd) == (PlanView::Shell {
                cols,
                rows,
                term: Some(term),
            })
        },
{
}

/// For PowerShell a path is called in double quotes, with its own escaped; for
/// another shell on Windows it stands in double quotes as it is; elsewhere it
/// stands in single quotes.
pub proof fn each_shell_has_its_quotes(raw: Seq<char>, label: Seq<char>, windows: bool)
    ensures
        text::has_part(label, "PowerShell"@) ==> quoted_path(raw, label, windows) == seq![
            '&',
            ' ',
            '"',
        ] + text::replaced(raw, '"', seq!['`', '"']) + seq!['"'],
        !text::has_part(label, "PowerShell"@) && windows ==> quoted_path(raw, label, windows)
            == seq!['"'] + raw + seq!['"'],
        !text::has_part(label, "PowerShell"@) && !windows ==> posix_word(
            quoted_path(raw, label, windows),
            false,
        ) == Some(raw) && quoted_path(raw, label, windows)[0] == '\'' && quoted_path(
            raw,
            label,
            windows,
        ).last() == '\'',
{
    reveal_strlit("& \"");
    reveal_strlit("`\"");
    reveal_strlit("\"");
    reveal_strlit("'");
    assert("& \""@ =~= seq!['&', ' ', '"']);
    assert("`\""@ =~= seq!['`', '"']);
    assert("\""@ =~= seq!['"']);
    posix_shells_read_the_path_back(raw);
}

/// Dropped files are typed one after the other, each followed by one blank.
pub proof fn dropped_files_are_typed_in_turn(
    a: Seq<Seq<char>>,
    path: Seq<char>,
    label: Seq<char>,
    windows: bool,
)
    ensures
        dropped_words(Seq::empty(), label, windows).len() == 0,
        dropped_words(a.push(path), label, windows) == dropped_words(a, label, windows)
            + quoted_path(path, label, windows) + seq![' '],
{
    reveal_strlit(" ");
    assert(" "@ =~= seq![' ']);
    assert(a.push(path).drop_last() =~= a);
    assert(a.push(path).last() == path);
}

/// A shell that is there can be chosen; the choice changes nothing else.
pub proof fn a_shell_is_chosen_by_its_place(s: &mut Shells, idx: usize, r: bool)
    requires
        call_ensures(Shells::choose_shell, (s, idx), r),
    ensures
        r <==> idx < old(s)@.profiles.len(),
        r ==> final(s)@.active == idx,
        !r ==> final(s)@ == old(s)@,
        final(s)@.profiles == old(s)@.profiles,
{
}

} // verus!
