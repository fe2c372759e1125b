//! `--cwd <path>` (alias `-d <path>`): the directory the initial shell starts in.

use crate::text;
use crate::text::{chars_of, owned, part_at, same_text, string_of};
use vstd::prelude::*;

verus! {

/// The long form of the flag.
pub const FLAG_LONG: &'static str = "--cwd";

/// The short form of the flag.
pub const FLAG_SHORT: &'static str = "-d";

/// Why a `--cwd` / `-d` value was refused.
#[derive(Debug, PartialEq, Eq)]
pub enum CwdArgError {
    /// The flag was followed by nothing usable.
    MissingValue,
    /// The path could not be made absolute.
    Unresolvable(String),
    /// Nothing exists at that path.
    NotFound(String),
    /// Something exists there, but it is not a directory.
    NotADirectory(String),
}

/// A text as std's `Debug` writes it: in double quotes, with escapes.
pub uninterp spec fn debug_quoted(s: Seq<char>) -> Seq<char>;

/// `Debug` formatting of a `str` by std's `format!`, named as a whole.
#[verifier::external_body]
fn quote_debug(s: &str) -> (r: String)
    ensures
        r@ == debug_quoted(s@),
{
    format!("{s:?}")
}

impl CwdArgError {
    /// The sentence that names the problem and the fix.
    pub open spec fn message(self) -> Seq<char> {
        match self {
            CwdArgError::MissingValue => FLAG_LONG@ + " needs a directory, e.g. `c0pl4nd "@
                + FLAG_LONG@ + " C:\\projects`."@,
            CwdArgError::Unresolvable(raw) => "Couldn't understand the "@ + FLAG_LONG@
                + " directory "@ + debug_quoted(raw@) + ". Pass a real folder path."@,
            CwdArgError::NotFound(p) => "The "@ + FLAG_LONG@ + " directory doesn't exist: "@ + p@
                + ". Pass a folder that is already there."@,
            CwdArgError::NotADirectory(p) => "The "@ + FLAG_LONG@
                + " path is a file, not a folder: "@ + p@
                + ". Pass the folder that contains it."@,
        }
    }

    /// A short sentence for the user that names the problem and the fix.
    pub fn user_message(&self) -> (r: String)
        ensures
            r@ == self.message(),
    {
        match self {
            CwdArgError::MissingValue => {
                let mut m = owned(FLAG_LONG);
                m.append(" needs a directory, e.g. `c0pl4nd ");
                m.append(FLAG_LONG);
                m.append(" C:\\projects`.");
                m
            },
            CwdArgError::Unresolvable(raw) => {
                let mut m = owned("Couldn't understand the ");
                m.append(FLAG_LONG);
                m.append(" directory ");
                let quoted = quote_debug(raw.as_str());
                m.append(quoted.as_str());
                m.append(". Pass a real folder path.");
                m
            },
            CwdArgError::NotFound(p) => {
                let mut m = owned("The ");
                m.append(FLAG_LONG);
                m.append(" directory doesn't exist: ");
                m.append(p.as_str());
                m.append(". Pass a folder that is already there.");
                m
            },
            CwdArgError::NotADirectory(p) => {
                let mut m = owned("The ");
                m.append(FLAG_LONG);
                m.append(" path is a file, not a folder: ");
                m.append(p.as_str());
                m.append(". Pass the folder that contains it.");
                m
            },
        }
    }
}

/// The value of a joined argument (`--cwd=<path>` or `-d=<path>`).
pub open spec fn joined_value(arg: Seq<char>) -> Option<Seq<char>> {
    let long = FLAG_LONG@.push('=');
    let short = FLAG_SHORT@.push('=');
    if text::begins_with(arg, long) {
        Some(arg.skip(long.len() as int))
    } else if text::begins_with(arg, short) {
        Some(arg.skip(short.len() as int))
    } else {
        None
    }
}

/// An argument that carries the flag, in the joined or the separated form.
pub open spec fn carries_flag(arg: Seq<char>) -> bool {
    joined_value(arg) is Some || arg == FLAG_LONG@ || arg == FLAG_SHORT@
}

/// The value the flag at position `i` has, or `None` where it has none: the
/// rest of a joined argument, else the next argument. An empty value is none.
pub open spec fn value_at(args: Seq<Seq<char>>, i: int) -> Option<Seq<char>> {
    let v = match joined_value(args[i]) {
        Some(v) => v,
        None => if i + 1 < args.len() {
            args[i + 1]
        } else {
            seq![]
        },
    };
    if v.len() == 0 {
        None
    } else {
        Some(v)
    }
}

/// Position `i` is the first argument after the program's name that carries
/// the flag.
pub open spec fn first_flag(args: Seq<Seq<char>>, i: int) -> bool {
    &&& 1 <= i < args.len()
    &&& carries_flag(args[i])
    &&& forall|j: int| 1 <= j < i ==> !carries_flag(#[trigger] args[j])
}

/// The rest of `arg` behind `flag` and an equals sign, where it has that form.
fn strip_joined(arg: &Vec<char>, flag: &str) -> (r: Option<String>)
    ensures
        r is Some <==> text::begins_with(arg@, flag@.push('=')),
        r matches Some(v) ==> v@ == arg@.skip(flag@.len() as int + 1),
{
    let mut prefix = chars_of(flag);
    prefix.push('=');
    if part_at(arg, &prefix, 0) {
        assert(arg@.subrange(prefix@.len() as int, arg@.len() as int) =~= arg@.skip(
            prefix@.len() as int,
        ));
        Some(string_of(arg, prefix.len(), arg.len()))
    } else {
        None
    }
}

/// The flag's raw value in `argv`; `Ok(None)` where the flag is absent.
pub fn find_raw_value(args: &Vec<String>) -> (r: Result<Option<String>, CwdArgError>)
    ensures
        (r matches Ok(None)) <==> forall|i: int|
            1 <= i < args@.len() ==> !carries_flag(#[trigger] text::texts(args@)[i]),
        r matches Ok(Some(v)) ==> exists|i: int| #[trigger]
            first_flag(text::texts(args@), i) && value_at(text::texts(args@), i) == Some(v@),
        r matches Err(e) ==> e is MissingValue && exists|i: int| #[trigger]
            first_flag(text::texts(args@), i) && value_at(text::texts(args@), i) is None,
{
    let ghost all = text::texts(args@);
    let mut i: usize = 1;
    while i < args.len()
        invariant
            1 <= i,
            all == text::texts(args@),
            forall|j: int| 1 <= j < i && j < args@.len() ==> !carries_flag(#[trigger] all[j]),
        decreases args@.len() - i,
    {
        let arg = chars_of(args[i].as_str());
        assert(arg@ == all[i as int]);
        let joined = match strip_joined(&arg, FLAG_LONG) {
            Some(v) => Some(v),
            None => strip_joined(&arg, FLAG_SHORT),
        };
        if let Some(value) = joined {
            assert(first_flag(all, i as int));
            if value.as_str().is_empty() {
                return Err(CwdArgError::MissingValue);
            }
            return Ok(Some(value));
        }
        if same_text(args[i].as_str(), FLAG_LONG) || same_text(args[i].as_str(), FLAG_SHORT) {
            assert(first_flag(all, i as int));
            if i + 1 < args.len() {
                assert(all[i + 1] == args@[i + 1]@);
                if !args[i + 1].as_str().is_empty() {
                    return Ok(Some(args[i + 1].clone()));
                }
            }
            return Err(CwdArgError::MissingValue);
        }
        i += 1;
    }
    Ok(None)
}

/// What the file system says of a path.
#[derive(Debug, PartialEq, Eq)]
pub enum DirProbe {
    /// The path cannot be made absolute.
    Unresolvable,
    /// The absolute path, where nothing exists.
    Missing(String),
    /// The absolute path of something other than a directory.
    Other(String),
    /// The absolute path of a directory.
    Directory(String),
}

/// Turn a raw path into an absolute, existing directory, or say why not.
pub fn validate_dir(raw: &str, probe: DirProbe) -> (r: Result<String, CwdArgError>)
    ensures
        probe matches DirProbe::Directory(p) ==> r == Ok::<String, CwdArgError>(p),
        probe matches DirProbe::Missing(p) ==> r == Err::<String, _>(CwdArgError::NotFound(p)),
        probe matches DirProbe::Other(p) ==> r == Err::<String, _>(CwdArgError::NotADirectory(p)),
        probe is Unresolvable ==> (r matches Err(CwdArgError::Unresolvable(s)) && s@ == raw@),
{
    match probe {
        DirProbe::Directory(p) => Ok(p),
        DirProbe::Other(p) => Err(CwdArgError::NotADirectory(p)),
        DirProbe::Missing(p) => Err(CwdArgError::NotFound(p)),
        DirProbe::Unresolvable => Err(CwdArgError::Unresolvable(owned(raw))),
    }
}

/// Parse and validate the flag out of a full `argv`. `probe` is what the file
/// system says of the value that [`find_raw_value`] finds; it is not looked at
/// where there is no value.
pub fn parse_startup_cwd(args: &Vec<String>, probe: DirProbe) -> (r: Result<
    Option<String>,
    CwdArgError,
>)
    ensures
        (r matches Ok(None)) <==> forall|i: int|
            1 <= i < args@.len() ==> !carries_flag(#[trigger] text::texts(args@)[i]),
        (r matches Err(CwdArgError::MissingValue)) <==> exists|i: int| #[trigger]
            first_flag(text::texts(args@), i) && value_at(text::texts(args@), i) is None,
        forall|i: int| #[trigger]
            first_flag(text::texts(args@), i) && value_at(text::texts(args@), i) is Some ==> {
                &&& probe matches DirProbe::Directory(p) ==> r == Ok::<_, CwdArgError>(Some(p))
                &&& probe matches DirProbe::Missing(p) ==> r == Err::<Option<String>, _>(
                    CwdArgError::NotFound(p),
                )
                &&& probe matches DirProbe::Other(p) ==> r == Err::<Option<String>, _>(
                    CwdArgError::NotADirectory(p),
                )
                &&& probe is Unresolvable ==> (r matches Err(CwdArgError::Unresolvable(s))
                    && Some(s@) == value_at(text::texts(args@), i))
            },
{
    let ghost all = text::texts(args@);
    proof {
        first_flag_is_unique(all);
    }
    match find_raw_value(args) {
        Ok(None) => Ok(None),
        Ok(Some(raw)) => match validate_dir(raw.as_str(), probe) {
            Ok(dir) => Ok(Some(dir)),
            Err(e) => Err(e),
        },
        Err(e) => Err(e),
    }
}

proof fn first_flag_is_unique(args: Seq<Seq<char>>)
    ensures
        forall|i: int, j: int| #[trigger]
            first_flag(args, i) && #[trigger] first_flag(args, j) ==> i == j,
{
    assert forall|i: int, j: int| #[trigger]
        first_flag(args, i) && #[trigger] first_flag(args, j) implies i == j by {
        if i < j {
            assert(!carries_flag(args[i]));
        } else if j < i {
            assert(!carries_flag(args[j]));
        }
    }
}

/// The first occurrence wins: what stands behind a flag and its value does not
/// change what the flag says.
pub proof fn later_arguments_do_not_matter(
    args: Seq<Seq<char>>,
    more: Seq<Seq<char>>,
    i: int,
)
    requires
        first_flag(args, i),
        value_at(args, i) is Some,
    ensures
        first_flag(args + more, i),
        value_at(args + more, i) == value_at(args, i),
{
    assert forall|j: int| 1 <= j < i implies !carries_flag(#[trigger] (args + more)[j]) by {
        assert((args + more)[j] == args[j]);
    }
}

/// Consuming the startup directory yields it and leaves none.
pub open spec fn consumes(
    before: Option<String>,
    yielded: Option<String>,
    after: Option<String>,
) -> bool {
    yielded == before && after is None
}

/// Record the validated startup directory.
pub fn set_startup_cwd(slot: &mut Option<String>, dir: &str)
    ensures
        text::opt_text(*final(slot)) == Some(dir@),
{
    *slot = Some(owned(dir));
}

/// Consume the startup directory, if there is one.
pub fn take_startup_cwd(slot: &mut Option<String>) -> (r: Option<String>)
    ensures
        consumes(*old(slot), r, *final(slot)),
{
    slot.take()
}

/// Empty the store.
pub fn clear_startup_cwd(slot: &mut Option<String>)
    ensures
        *final(slot) is None,
{
    *slot = None;
}

/// The store is one-shot: of two takes in a row the first yields what was
/// recorded, and the second nothing.
pub proof fn startup_cwd_is_one_shot(
    dir: Seq<char>,
    recorded: Option<String>,
    first: Option<String>,
    left: Option<String>,
    second: Option<String>,
    end: Option<String>,
)
    requires
        text::opt_text(recorded) == Some(dir),
        consumes(recorded, first, left),
        consumes(left, second, end),
    ensures
        text::opt_text(first) == Some(dir),
        second is None,
        end is None,
{
}

/// The flag is told by its two names, alone or with an equals sign and a value;
/// no other argument carries it.
pub proof fn the_flag_has_two_names(value: Seq<char>, arg: Seq<char>)
    ensures
        joined_value(seq!['-', '-', 'c', 'w', 'd', '='] + value) == Some(value),
        joined_value(seq!['-', 'd', '='] + value) == Some(value),
        carries_flag(seq!['-', '-', 'c', 'w', 'd']) && joined_value(
            seq!['-', '-', 'c', 'w', 'd'],
        ) is None,
        carries_flag(seq!['-', 'd']) && joined_value(seq!['-', 'd']) is None,
        joined_value(arg) matches Some(v) ==> arg == seq!['-', '-', 'c', 'w', 'd', '='] + v || arg
            == seq!['-', 'd', '='] + v,
        carries_flag(arg) && joined_value(arg) is None ==> arg == seq!['-', '-', 'c', 'w', 'd']
            || arg == seq!['-', 'd'],
{
    reveal_strlit("--cwd");
    reveal_strlit("-d");
    let long = seq!['-', '-', 'c', 'w', 'd', '='];
    let short = seq!['-', 'd', '='];
    assert(FLAG_LONG@ =~= seq!['-', '-', 'c', 'w', 'd']);
    assert(FLAG_SHORT@ =~= seq!['-', 'd']);
    assert(FLAG_LONG@.push('=') =~= long);
    assert(FLAG_SHORT@.push('=') =~= short);
    assert((long + value).subrange(0, 6) =~= long);
    assert((long + value).skip(6) =~= value);
    assert((short + value).subrange(0, 3) =~= short);
    assert((short + value).skip(3) =~= value);
    assert(!text::begins_with(short + value, long)) by {
        if text::begins_with(short + value, long) {
            assert((short + value).subrange(0, 6)[1] == long[1]);
        }
    }
    let a = FLAG_LONG@;
    assert(!text::begins_with(a, short)) by {
        if text::begins_with(a, short) {
            assert(a.subrange(0, 3)[1] == short[1]);
        }
    }
    if text::begins_with(arg, long) {
        assert(arg.subrange(0, 6) == long);
        assert(arg =~= long + arg.skip(6));
    } else if text::begins_with(arg, short) {
        assert(arg.subrange(0, 3) == short);
        assert(arg =~= short + arg.skip(3));
    }
}

/// A flag's value is what stands behind its equals sign, or else the argument
/// that follows it; an empty one and none at all are no value.
pub proof fn a_flag_has_the_value_behind_it(args: Seq<Seq<char>>, i: int, v: Seq<char>)
    requires
        0 <= i < args.len(),
    ensures
        joined_value(args[i]) == Some(v) && v.len() > 0 ==> value_at(args, i) == Some(v),
        joined_value(args[i]) == Some(v) && v.len() == 0 ==> value_at(args, i) is None,
        joined_value(args[i]) is None && i + 1 < args.len() && args[i + 1].len() > 0 ==> value_at(
            args,
            i,
        ) == Some(args[i + 1]),
        joined_value(args[i]) is None && i + 1 < args.len() && args[i + 1].len() == 0 ==> value_at(
            args,
            i,
        ) is None,
        joined_value(args[i]) is None && i + 1 == args.len() ==> value_at(args, i) is None,
{
}

/// The first argument that carries the flag counts; the program's own name, which
/// comes before all others, does not.
pub proof fn the_first_flag_counts(args: Seq<Seq<char>>, i: int, j: int)
    requires
        first_flag(args, i),
        1 <= j < args.len(),
        carries_flag(args[j]),
    ensures
        1 <= i <= j,
        carries_flag(args[i]),
{
}

/// Each refusal says what was wrong with the directory, and names it.
pub proof fn refusals_name_the_directory(p: String)
    ensures
        CwdArgError::MissingValue.message()
            == "--cwd"@ + " needs a directory, e.g. `c0pl4nd "@ + "--cwd"@ + " C:\\projects`."@,
        CwdArgError::NotFound(p).message() == "The "@ + "--cwd"@ + " directory doesn't exist: "@ + p@
            + ". Pass a folder that is already there."@,
        CwdArgError::NotADirectory(p).message() == "The "@ + "--cwd"@
            + " path is a file, not a folder: "@ + p@ + ". Pass the folder that contains it."@,
        CwdArgError::Unresolvable(p).message() == "Couldn't understand the "@ + "--cwd"@
            + " directory "@ + debug_quoted(p@) + ". Pass a real folder path."@,
{
}

/// Taking the startup directory gives it and leaves none.
pub proof fn taking_leaves_nothing(before: Option<String>, r: Option<String>, after: Option<String>)
    requires
        consumes(before, r, after),
    ensures
        r == before,
        after is None,
{
}

/// A directory is taken at its full path; what is none is refused under its name.
pub proof fn only_a_directory_is_taken(raw: &str, p: String, a: Result<String, CwdArgError>, b: Result<
    String,
    CwdArgError,
>, c: Result<String, CwdArgError>, d: Result<String, CwdArgError>)
    requires
        call_ensures(validate_dir, (raw, DirProbe::Directory(p)), a),
        call_ensures(validate_dir, (raw, DirProbe::Missing(p)), b),
        call_ensures(validate_dir, (raw, DirProbe::Other(p)), c),
        call_ensures(validate_dir, (raw, DirProbe::Unresolvable), d),
    ensures
        a == Ok::<String, CwdArgError>(p),
        b == Err::<String, CwdArgError>(CwdArgError::NotFound(p)),
        c == Err::<String, CwdArgError>(CwdArgError::NotADirectory(p)),
        d matches Err(CwdArgError::Unresolvable(s)) && s@ == raw@,
{
}

/// The name of the program is no argument, the first argument that carries the
/// flag is found at its place, and an argument without it only moves the others up.
pub proof fn arguments_begin_behind_the_program(args: Seq<Seq<char>>, i: int)
    ensures
        !first_flag(args, 0),
        first_flag(args, i) ==> 0 < i < args.len() && carries_flag(args[i]),
        args.len() > 1 && carries_flag(args[1]) ==> first_flag(args, 1),
        args.len() > 1 && carries_flag(args[1]) && i != 1 ==> !first_flag(args, i),
        args.len() > 1 && !carries_flag(args[1]) && i > 1 ==> (first_flag(args, i) <==> first_flag(
            args.remove(1),
            i - 1,
        )),
{
    if args.len() > 1 && i > 1 {
        let rest = args.remove(1);
        assert(forall|j: int| 1 <= j < rest.len() ==> rest[j] == #[trigger] args[j + 1]);
        if first_flag(rest, i - 1) && !carries_flag(args[1]) {
            assert forall|j: int| 1 <= j < i implies !carries_flag(#[trigger] args[j]) by {
                if j > 1 {
                    assert(rest[j - 1] == args[j - 1 + 1]);
                }
            }
            assert(rest[i - 1] == args[i - 1 + 1]);
        }
        if first_flag(args, i) {
            assert forall|j: int| 1 <= j < i - 1 implies !carries_flag(#[trigger] rest[j]) by {
                assert(rest[j] == args[j + 1]);
            }
            assert(rest[i - 1] == args[i - 1 + 1]);
        }
    }
}

} // verus!
