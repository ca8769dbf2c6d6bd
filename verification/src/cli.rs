//! The command-line grammar of the scripted HAM client: options before the
//! command, nested subcommands, `--name value` and `--name=value` options,
//! boolean switches, and the errors a malformed command line produces.
use vstd::prelude::*;
use crate::text::{chars_of, eq_lit, i64_text, int_text, signed_digits_ok, signed_digits_value, find_char, index_of_from, lemma_index_of_from_bounds, parse_i64_chars, parse_i64_spec, slice_chars, string_of};

verus! {

/// How results are printed.
#[derive(Clone, Copy, Debug, PartialEq, Eq, Structural)]
pub enum OutputMode {
    Json,
    Human,
}

/// `flow` subcommands.
#[derive(Clone, Copy, Debug, PartialEq, Eq, Structural)]
pub enum FlowCommand {
    ScriptedCore,
}

/// Arguments of `category create`.
#[derive(Clone, Debug)]
pub struct CategoryCreateArgs {
    pub name: String,
    pub parent_id: Option<i64>,
}

/// Arguments of `category delete`.
#[derive(Clone, Debug)]
pub struct CategoryDeleteArgs {
    pub id: i64,
}

/// `category` subcommands.
#[derive(Clone, Debug)]
pub enum CategoryCommand {
    Create(CategoryCreateArgs),
    List,
    Delete(CategoryDeleteArgs),
}

/// Arguments of `asset create`.
#[derive(Clone, Debug)]
pub struct AssetCreateArgs {
    pub category_id: i64,
    pub asset_tag: Option<String>,
}

/// Arguments of `asset get`.
#[derive(Clone, Debug)]
pub struct AssetGetArgs {
    pub id: i64,
    pub include_deleted: bool,
}

/// Arguments of `asset list`.
#[derive(Clone, Debug)]
pub struct AssetListArgs {
    pub include_deleted: bool,
}

/// Arguments of `asset update`.
#[derive(Clone, Debug)]
pub struct AssetUpdateArgs {
    pub id: i64,
    pub display_name: Option<String>,
    pub clear_display_name: bool,
}

/// Arguments of `asset delete`.
#[derive(Clone, Debug)]
pub struct AssetDeleteArgs {
    pub id: i64,
}

/// `asset` subcommands.
#[derive(Clone, Debug)]
pub enum AssetCommand {
    Create(AssetCreateArgs),
    Get(AssetGetArgs),
    List(AssetListArgs),
    Update(AssetUpdateArgs),
    Delete(AssetDeleteArgs),
}

/// The top-level command.
#[derive(Clone, Debug)]
pub enum CliCommand {
    Flow { flow: FlowCommand },
    Category { category: CategoryCommand },
    Asset { asset: AssetCommand },
}

/// A parsed command line.
#[derive(Clone, Debug)]
pub struct CliArgs {
    pub output: OutputMode,
    pub base_url: String,
    pub db_path: Option<String>,
    pub command: CliCommand,
}

/// A node of the command tree.
#[derive(Clone, Copy, Debug, PartialEq, Eq, Structural)]
pub enum CommandLevel {
    Root,
    Flow,
    ScriptedCore,
    Category,
    CategoryCreate,
    CategoryList,
    CategoryDelete,
    Asset,
    AssetCreate,
    AssetGet,
    AssetList,
    AssetUpdate,
    AssetDelete,
}

/// A named option of some command.
#[derive(Clone, Copy, Debug, PartialEq, Eq, Structural)]
pub enum OptionId {
    Output,
    BaseUrl,
    DbPath,
    Name,
    ParentId,
    Id,
    CategoryId,
    AssetTag,
    IncludeDeleted,
    DisplayName,
    ClearDisplayName,
}

/// The category of a command-line error.
#[derive(Clone, Copy, Debug, PartialEq, Eq, Structural)]
pub enum ErrorKind {
    /// `--help`, `-h` or the `help` subcommand was given.
    DisplayHelp,
    /// A command that needs a subcommand was given nothing at all.
    DisplayHelpOnMissingArgumentOrSubcommand,
    /// A command that needs a subcommand was given options but no subcommand.
    MissingSubcommand,
    /// A word in subcommand position names no subcommand.
    InvalidSubcommand,
    /// An option or word the command does not take.
    UnknownArgument,
    /// An option value of the wrong shape.
    InvalidValue,
    /// An option that takes a value was given none.
    MissingValue,
    /// An option given more than once.
    ArgumentConflict,
    /// A switch given a value with `=`.
    TooManyValues,
    /// Required options were not given.
    MissingRequiredArgument,
}

/// A rejected command line: what went wrong, at which command, about which
/// option or word.
#[derive(Clone, Debug)]
pub struct CliParseError {
    pub kind: ErrorKind,
    pub level: CommandLevel,
    pub option: Option<OptionId>,
    pub token: String,
    pub missing: Vec<OptionId>,
}

/// The mathematical content of a [`CliParseError`].
pub struct FailureView {
    pub kind: ErrorKind,
    pub level: CommandLevel,
    pub option: Option<OptionId>,
    pub token: Seq<char>,
    pub missing: Seq<OptionId>,
}

impl View for CliParseError {
    type V = FailureView;

    open spec fn view(&self) -> FailureView {
        FailureView {
            kind: self.kind,
            level: self.level,
            option: self.option,
            token: self.token@,
            missing: self.missing@,
        }
    }
}

/// The failure `kind` at `level` about `option` and `token`.
pub open spec fn failure(kind: ErrorKind, level: CommandLevel, option: Option<OptionId>, token: Seq<char>) -> FailureView {
    FailureView { kind, level, option, token, missing: Seq::empty() }
}

/// The long name of an option, without the leading `--`.
pub open spec fn option_long(o: OptionId) -> Seq<char> {
    match o {
        OptionId::Output => "output"@,
        OptionId::BaseUrl => "base-url"@,
        OptionId::DbPath => "db-path"@,
        OptionId::Name => "name"@,
        OptionId::ParentId => "parent-id"@,
        OptionId::Id => "id"@,
        OptionId::CategoryId => "category-id"@,
        OptionId::AssetTag => "asset-tag"@,
        OptionId::IncludeDeleted => "include-deleted"@,
        OptionId::DisplayName => "display-name"@,
        OptionId::ClearDisplayName => "clear-display-name"@,
    }
}

/// Whether an option takes a value (otherwise it is a switch).
pub open spec fn takes_value(o: OptionId) -> bool {
    !(o is IncludeDeleted || o is ClearDisplayName)
}

/// The options a command accepts.
pub open spec fn accepts(l: CommandLevel, o: OptionId) -> bool {
    match l {
        CommandLevel::Root => o is Output || o is BaseUrl || o is DbPath,
        CommandLevel::CategoryCreate => o is Name || o is ParentId,
        CommandLevel::CategoryDelete => o is Id,
        CommandLevel::AssetCreate => o is CategoryId || o is AssetTag,
        CommandLevel::AssetGet => o is Id || o is IncludeDeleted,
        CommandLevel::AssetList => o is IncludeDeleted,
        CommandLevel::AssetUpdate => o is Id || o is DisplayName || o is ClearDisplayName,
        CommandLevel::AssetDelete => o is Id,
        _ => false,
    }
}

/// The option a command requires, if any (each command requires at most one).
pub open spec fn required_of(l: CommandLevel) -> Option<OptionId> {
    match l {
        CommandLevel::CategoryCreate => Some(OptionId::Name),
        CommandLevel::CategoryDelete => Some(OptionId::Id),
        CommandLevel::AssetCreate => Some(OptionId::CategoryId),
        CommandLevel::AssetGet => Some(OptionId::Id),
        CommandLevel::AssetUpdate => Some(OptionId::Id),
        CommandLevel::AssetDelete => Some(OptionId::Id),
        _ => None,
    }
}

/// The option of `l` whose long name is `name`, if any.
pub open spec fn lookup_option(l: CommandLevel, name: Seq<char>) -> Option<OptionId> {
    if accepts(l, OptionId::Output) && name == option_long(OptionId::Output) {
        Some(OptionId::Output)
    } else if accepts(l, OptionId::BaseUrl) && name == option_long(OptionId::BaseUrl) {
        Some(OptionId::BaseUrl)
    } else if accepts(l, OptionId::DbPath) && name == option_long(OptionId::DbPath) {
        Some(OptionId::DbPath)
    } else if accepts(l, OptionId::Name) && name == option_long(OptionId::Name) {
        Some(OptionId::Name)
    } else if accepts(l, OptionId::ParentId) && name == option_long(OptionId::ParentId) {
        Some(OptionId::ParentId)
    } else if accepts(l, OptionId::Id) && name == option_long(OptionId::Id) {
        Some(OptionId::Id)
    } else if accepts(l, OptionId::CategoryId) && name == option_long(OptionId::CategoryId) {
        Some(OptionId::CategoryId)
    } else if accepts(l, OptionId::AssetTag) && name == option_long(OptionId::AssetTag) {
        Some(OptionId::AssetTag)
    } else if accepts(l, OptionId::IncludeDeleted) && name == option_long(OptionId::IncludeDeleted) {
        Some(OptionId::IncludeDeleted)
    } else if accepts(l, OptionId::DisplayName) && name == option_long(OptionId::DisplayName) {
        Some(OptionId::DisplayName)
    } else if accepts(l, OptionId::ClearDisplayName) && name == option_long(OptionId::ClearDisplayName) {
        Some(OptionId::ClearDisplayName)
    } else {
        None
    }
}

/// Whether the command has subcommands (otherwise it is a leaf).
pub open spec fn has_subcommands(l: CommandLevel) -> bool {
    l is Root || l is Flow || l is Category || l is Asset
}

/// The subcommand of `l` named `name`, if any.
pub open spec fn subcommand(l: CommandLevel, name: Seq<char>) -> Option<CommandLevel> {
    match l {
        CommandLevel::Root => if name == "flow"@ {
            Some(CommandLevel::Flow)
        } else if name == "category"@ {
            Some(CommandLevel::Category)
        } else if name == "asset"@ {
            Some(CommandLevel::Asset)
        } else {
            None
        },
        CommandLevel::Flow => if name == "scripted-core"@ {
            Some(CommandLevel::ScriptedCore)
        } else {
            None
        },
        CommandLevel::Category => if name == "create"@ {
            Some(CommandLevel::CategoryCreate)
        } else if name == "list"@ {
            Some(CommandLevel::CategoryList)
        } else if name == "delete"@ {
            Some(CommandLevel::CategoryDelete)
        } else {
            None
        },
        CommandLevel::Asset => if name == "create"@ {
            Some(CommandLevel::AssetCreate)
        } else if name == "get"@ {
            Some(CommandLevel::AssetGet)
        } else if name == "list"@ {
            Some(CommandLevel::AssetList)
        } else if name == "update"@ {
            Some(CommandLevel::AssetUpdate)
        } else if name == "delete"@ {
            Some(CommandLevel::AssetDelete)
        } else {
            None
        },
        _ => None,
    }
}

/// Whether `v` is an acceptable value for option `o`: `--output` takes `json`
/// or `human`, the id options take an `i64`, the others any text.
pub open spec fn valid_value(o: OptionId, v: Seq<char>) -> bool {
    match o {
        OptionId::Output => v == "json"@ || v == "human"@,
        OptionId::ParentId | OptionId::Id | OptionId::CategoryId => parse_i64_spec(v) is Some,
        _ => true,
    }
}

/// Whether a word can stand as an option's value: it does not look like an
/// option itself (a lone `-` can).
pub open spec fn value_like(t: Seq<char>) -> bool {
    !(t.len() > 1 && t[0] == '-')
}

/// Whether a word is a long option, `--name` or `--name=value`.
pub open spec fn is_long_option(t: Seq<char>) -> bool {
    t.len() > 2 && t[0] == '-' && t[1] == '-'
}

/// The name part of a long option word.
pub open spec fn long_name(t: Seq<char>) -> Seq<char> {
    match index_of_from(t, '=', 2) {
        Some(k) => t.subrange(2, k),
        None => t.skip(2),
    }
}

/// The `=value` part of a long option word, if present.
pub open spec fn inline_value(t: Seq<char>) -> Option<Seq<char>> {
    match index_of_from(t, '=', 2) {
        Some(k) => Some(t.skip(k + 1)),
        None => None,
    }
}

/// Whether option `o` already has a value among `seen`.
pub open spec fn seen_option(seen: Seq<(OptionId, Seq<char>)>, o: OptionId) -> bool {
    exists|k: int| 0 <= k < seen.len() && (#[trigger] seen[k]).0 == o
}

/// The value given for option `o` among `seen`, if any.
pub open spec fn seen_value(seen: Seq<(OptionId, Seq<char>)>, o: OptionId) -> Option<Seq<char>>
    decreases seen.len(),
{
    if seen.len() == 0 {
        None
    } else if seen.last().0 == o {
        Some(seen.last().1)
    } else {
        seen_value(seen.drop_last(), o)
    }
}

/// The outcome of reading the words of one command.
pub enum LevelScan {
    /// The words were rejected.
    Fail(FailureView),
    /// The command's options, and the subcommand starting at a word index.
    Sub(Seq<(OptionId, Seq<char>)>, int, CommandLevel),
    /// The command's options, with no subcommand.
    End(Seq<(OptionId, Seq<char>)>),
}

/// Reads the words of command `l` from index `i`, given the options `seen`
/// so far: each word is a help request, an option of `l` (with its value),
/// or, for commands with subcommands, the subcommand's name.
pub open spec fn scan(l: CommandLevel, toks: Seq<Seq<char>>, i: int, seen: Seq<(OptionId, Seq<char>)>) -> LevelScan
    decreases toks.len() - i,
{
    if i < 0 || i >= toks.len() {
        LevelScan::End(seen)
    } else {
        let t = toks[i];
        if t == "--help"@ || t == "-h"@ {
            LevelScan::Fail(failure(ErrorKind::DisplayHelp, l, None, Seq::empty()))
        } else if is_long_option(t) {
            match lookup_option(l, long_name(t)) {
                None => LevelScan::Fail(failure(ErrorKind::UnknownArgument, l, None, t)),
                Some(o) => if seen_option(seen, o) {
                    LevelScan::Fail(failure(ErrorKind::ArgumentConflict, l, Some(o), Seq::empty()))
                } else if takes_value(o) {
                    match inline_value(t) {
                        Some(v) => if valid_value(o, v) {
                            scan(l, toks, i + 1, seen.push((o, v)))
                        } else {
                            LevelScan::Fail(failure(ErrorKind::InvalidValue, l, Some(o), v))
                        },
                        None => if i + 1 < toks.len() && value_like(toks[i + 1]) {
                            if valid_value(o, toks[i + 1]) {
                                scan(l, toks, i + 2, seen.push((o, toks[i + 1])))
                            } else {
                                LevelScan::Fail(failure(ErrorKind::InvalidValue, l, Some(o), toks[i + 1]))
                            }
                        } else {
                            LevelScan::Fail(failure(ErrorKind::MissingValue, l, Some(o), Seq::empty()))
                        },
                    }
                } else {
                    match inline_value(t) {
                        Some(v) => LevelScan::Fail(failure(ErrorKind::TooManyValues, l, Some(o), v)),
                        None => scan(l, toks, i + 1, seen.push((o, Seq::empty()))),
                    }
                },
            }
        } else if t.len() > 1 && t[0] == '-' {
            LevelScan::Fail(failure(ErrorKind::UnknownArgument, l, None, t))
        } else if has_subcommands(l) {
            match subcommand(l, t) {
                Some(s) => LevelScan::Sub(seen, i + 1, s),
                None => if t == "help"@ {
                    LevelScan::Fail(failure(ErrorKind::DisplayHelp, l, None, Seq::empty()))
                } else {
                    LevelScan::Fail(failure(ErrorKind::InvalidSubcommand, l, None, t))
                },
            }
        } else {
            LevelScan::Fail(failure(ErrorKind::UnknownArgument, l, None, t))
        }
    }
}

} // verus!

verus! {

/// The mathematical words of a command line.
pub open spec fn words(toks: Seq<Vec<char>>) -> Seq<Seq<char>> {
    toks.map_values(|t: Vec<char>| t@)
}

/// The mathematical options of a command.
pub open spec fn seen_view(seen: Seq<(OptionId, Vec<char>)>) -> Seq<(OptionId, Seq<char>)> {
    seen.map_values(|p: (OptionId, Vec<char>)| (p.0, p.1@))
}

/// The outcome of reading a whole command line.
pub enum CliOutcome {
    Failure(FailureView),
    /// The leaf command, the top-level options, and the leaf's options.
    Success(CommandLevel, Seq<(OptionId, Seq<char>)>, Seq<(OptionId, Seq<char>)>),
}

/// The options that a command requires and `seen` lacks.
pub open spec fn missing_required(l: CommandLevel, seen: Seq<(OptionId, Seq<char>)>) -> Seq<OptionId> {
    match required_of(l) {
        Some(o) => if seen_option(seen, o) {
            Seq::empty()
        } else {
            seq![o]
        },
        None => Seq::empty(),
    }
}

/// Reads the command line from word `start`, at command `l`, with the
/// top-level options `root_seen` read so far.
pub open spec fn finish(l: CommandLevel, toks: Seq<Seq<char>>, start: int, root_seen: Seq<(OptionId, Seq<char>)>) -> CliOutcome
    decreases toks.len() - start,
{
    match scan(l, toks, start, Seq::empty()) {
        LevelScan::Fail(f) => CliOutcome::Failure(f),
        LevelScan::Sub(seen, j, s) => if start < j && j <= toks.len() {
            finish(s, toks, j, if l is Root { seen } else { root_seen })
        } else {
            CliOutcome::Failure(failure(ErrorKind::UnknownArgument, l, None, Seq::empty()))
        },
        LevelScan::End(seen) => if has_subcommands(l) {
            if start >= toks.len() {
                CliOutcome::Failure(failure(ErrorKind::DisplayHelpOnMissingArgumentOrSubcommand, l, None, Seq::empty()))
            } else {
                CliOutcome::Failure(failure(ErrorKind::MissingSubcommand, l, None, Seq::empty()))
            }
        } else if missing_required(l, seen).len() > 0 {
            CliOutcome::Failure(FailureView {
                kind: ErrorKind::MissingRequiredArgument,
                level: l,
                option: None,
                token: Seq::empty(),
                missing: missing_required(l, seen),
            })
        } else {
            CliOutcome::Success(l, if l is Root { seen } else { root_seen }, seen)
        },
    }
}

/// The outcome of reading the command line `args` (the program name first).
pub open spec fn cli_outcome(args: Seq<Seq<char>>) -> CliOutcome {
    finish(CommandLevel::Root, after_program(args), 0, Seq::empty())
}

/// The words of a command line after the program name.
pub open spec fn after_program(args: Seq<Seq<char>>) -> Seq<Seq<char>> {
    if args.len() > 0 {
        args.subrange(1, args.len() as int)
    } else {
        Seq::empty()
    }
}

/// The id an option was given, parsed.
pub open spec fn seen_id(seen: Seq<(OptionId, Seq<char>)>, o: OptionId) -> Option<i64> {
    match seen_value(seen, o) {
        Some(v) => parse_i64_spec(v),
        None => None,
    }
}

/// Whether `s` holds the text an option was given, or nothing when it was not.
pub open spec fn text_matches(s: Option<String>, seen: Seq<(OptionId, Seq<char>)>, o: OptionId) -> bool {
    match (s, seen_value(seen, o)) {
        (Some(x), Some(v)) => x@ == v,
        (None, None) => true,
        _ => false,
    }
}

/// Whether `c` is the command `leaf` with the options `seen`.
pub open spec fn command_matches(c: CliCommand, leaf: CommandLevel, seen: Seq<(OptionId, Seq<char>)>) -> bool {
    match leaf {
        CommandLevel::ScriptedCore => c matches CliCommand::Flow { flow: FlowCommand::ScriptedCore },
        CommandLevel::CategoryCreate => c matches CliCommand::Category { category: CategoryCommand::Create(a) }
            && text_matches(Some(a.name), seen, OptionId::Name)
            && a.parent_id == seen_id(seen, OptionId::ParentId),
        CommandLevel::CategoryList => c matches CliCommand::Category { category: CategoryCommand::List },
        CommandLevel::CategoryDelete => c matches CliCommand::Category { category: CategoryCommand::Delete(a) }
            && Some(a.id) == seen_id(seen, OptionId::Id),
        CommandLevel::AssetCreate => c matches CliCommand::Asset { asset: AssetCommand::Create(a) }
            && Some(a.category_id) == seen_id(seen, OptionId::CategoryId)
            && text_matches(a.asset_tag, seen, OptionId::AssetTag),
        CommandLevel::AssetGet => c matches CliCommand::Asset { asset: AssetCommand::Get(a) }
            && Some(a.id) == seen_id(seen, OptionId::Id)
            && a.include_deleted == seen_option(seen, OptionId::IncludeDeleted),
        CommandLevel::AssetList => c matches CliCommand::Asset { asset: AssetCommand::List(a) }
            && a.include_deleted == seen_option(seen, OptionId::IncludeDeleted),
        CommandLevel::AssetUpdate => c matches CliCommand::Asset { asset: AssetCommand::Update(a) }
            && Some(a.id) == seen_id(seen, OptionId::Id)
            && text_matches(a.display_name, seen, OptionId::DisplayName)
            && a.clear_display_name == seen_option(seen, OptionId::ClearDisplayName),
        CommandLevel::AssetDelete => c matches CliCommand::Asset { asset: AssetCommand::Delete(a) }
            && Some(a.id) == seen_id(seen, OptionId::Id),
        _ => false,
    }
}

/// Whether `a` is the parse of leaf command `leaf` with top-level options
/// `root_seen` and leaf options `seen`: `--output` defaults to `json`,
/// `--base-url` to `http://127.0.0.1:3000`.
pub open spec fn args_match(a: CliArgs, leaf: CommandLevel, root_seen: Seq<(OptionId, Seq<char>)>, seen: Seq<(OptionId, Seq<char>)>) -> bool {
    &&& a.output == (if seen_value(root_seen, OptionId::Output) == Some("human"@) {
        OutputMode::Human
    } else {
        OutputMode::Json
    })
    &&& a.base_url@ == (match seen_value(root_seen, OptionId::BaseUrl) {
        Some(v) => v,
        None => "http://127.0.0.1:3000"@,
    })
    &&& text_matches(a.db_path, root_seen, OptionId::DbPath)
    &&& command_matches(a.command, leaf, seen)
}

} // verus!

verus! {

fn option_long_str(o: OptionId) -> (s: &'static str)
    ensures
        s@ == option_long(o),
{
    match o {
        OptionId::Output => "output",
        OptionId::BaseUrl => "base-url",
        OptionId::DbPath => "db-path",
        OptionId::Name => "name",
        OptionId::ParentId => "parent-id",
        OptionId::Id => "id",
        OptionId::CategoryId => "category-id",
        OptionId::AssetTag => "asset-tag",
        OptionId::IncludeDeleted => "include-deleted",
        OptionId::DisplayName => "display-name",
        OptionId::ClearDisplayName => "clear-display-name",
    }
}

fn accepts_exec(l: CommandLevel, o: OptionId) -> (b: bool)
    ensures
        b == accepts(l, o),
{
    match l {
        CommandLevel::Root => matches!(o, OptionId::Output | OptionId::BaseUrl | OptionId::DbPath),
        CommandLevel::CategoryCreate => matches!(o, OptionId::Name | OptionId::ParentId),
        CommandLevel::CategoryDelete => matches!(o, OptionId::Id),
        CommandLevel::AssetCreate => matches!(o, OptionId::CategoryId | OptionId::AssetTag),
        CommandLevel::AssetGet => matches!(o, OptionId::Id | OptionId::IncludeDeleted),
        CommandLevel::AssetList => matches!(o, OptionId::IncludeDeleted),
        CommandLevel::AssetUpdate => matches!(o, OptionId::Id | OptionId::DisplayName | OptionId::ClearDisplayName),
        CommandLevel::AssetDelete => matches!(o, OptionId::Id),
        _ => false,
    }
}

fn option_named(l: CommandLevel, o: OptionId, name: &Vec<char>) -> (b: bool)
    ensures
        b == (accepts(l, o) && name@ == option_long(o)),
{
    accepts_exec(l, o) && eq_lit(name, option_long_str(o))
}

fn lookup_option_exec(l: CommandLevel, name: &Vec<char>) -> (r: Option<OptionId>)
    ensures
        r == lookup_option(l, name@),
{
    if option_named(l, OptionId::Output, name) {
        Some(OptionId::Output)
    } else if option_named(l, OptionId::BaseUrl, name) {
        Some(OptionId::BaseUrl)
    } else if option_named(l, OptionId::DbPath, name) {
        Some(OptionId::DbPath)
    } else if option_named(l, OptionId::Name, name) {
        Some(OptionId::Name)
    } else if option_named(l, OptionId::ParentId, name) {
        Some(OptionId::ParentId)
    } else if option_named(l, OptionId::Id, name) {
        Some(OptionId::Id)
    } else if option_named(l, OptionId::CategoryId, name) {
        Some(OptionId::CategoryId)
    } else if option_named(l, OptionId::AssetTag, name) {
        Some(OptionId::AssetTag)
    } else if option_named(l, OptionId::IncludeDeleted, name) {
        Some(OptionId::IncludeDeleted)
    } else if option_named(l, OptionId::DisplayName, name) {
        Some(OptionId::DisplayName)
    } else if option_named(l, OptionId::ClearDisplayName, name) {
        Some(OptionId::ClearDisplayName)
    } else {
        None
    }
}

fn has_subcommands_exec(l: CommandLevel) -> (b: bool)
    ensures
        b == has_subcommands(l),
{
    matches!(l, CommandLevel::Root | CommandLevel::Flow | CommandLevel::Category | CommandLevel::Asset)
}

fn subcommand_exec(l: CommandLevel, name: &Vec<char>) -> (r: Option<CommandLevel>)
    ensures
        r == subcommand(l, name@),
{
    match l {
        CommandLevel::Root => if eq_lit(name, "flow") {
            Some(CommandLevel::Flow)
        } else if eq_lit(name, "category") {
            Some(CommandLevel::Category)
        } else if eq_lit(name, "asset") {
            Some(CommandLevel::Asset)
        } else {
            None
        },
        CommandLevel::Flow => if eq_lit(name, "scripted-core") {
            Some(CommandLevel::ScriptedCore)
        } else {
            None
        },
        CommandLevel::Category => if eq_lit(name, "create") {
            Some(CommandLevel::CategoryCreate)
        } else if eq_lit(name, "list") {
            Some(CommandLevel::CategoryList)
        } else if eq_lit(name, "delete") {
            Some(CommandLevel::CategoryDelete)
        } else {
            None
        },
        CommandLevel::Asset => if eq_lit(name, "create") {
            Some(CommandLevel::AssetCreate)
        } else if eq_lit(name, "get") {
            Some(CommandLevel::AssetGet)
        } else if eq_lit(name, "list") {
            Some(CommandLevel::AssetList)
        } else if eq_lit(name, "update") {
            Some(CommandLevel::AssetUpdate)
        } else if eq_lit(name, "delete") {
            Some(CommandLevel::AssetDelete)
        } else {
            None
        },
        _ => None,
    }
}

fn valid_value_exec(o: OptionId, v: &Vec<char>) -> (b: bool)
    ensures
        b == valid_value(o, v@),
{
    match o {
        OptionId::Output => eq_lit(v, "json") || eq_lit(v, "human"),
        OptionId::ParentId | OptionId::Id | OptionId::CategoryId => parse_i64_chars(v).is_some(),
        _ => true,
    }
}

fn seen_has(seen: &Vec<(OptionId, Vec<char>)>, o: OptionId) -> (b: bool)
    ensures
        b == seen_option(seen_view(seen@), o),
{
    let mut i: usize = 0;
    while i < seen.len()
        invariant
            i <= seen.len(),
            forall|k: int| 0 <= k < i ==> seen@[k].0 != o,
        decreases seen.len() - i,
    {
        if seen[i].0 == o {
            assert(seen_view(seen@)[i as int].0 == o);
            return true;
        }
        i = i + 1;
    }
    assert forall|k: int| 0 <= k < seen_view(seen@).len() implies (#[trigger] seen_view(seen@)[k]).0 != o by {
        assert(seen_view(seen@)[k].0 == seen@[k].0);
    }
    false
}

fn fail(kind: ErrorKind, level: CommandLevel, option: Option<OptionId>, token: &Vec<char>) -> (e: CliParseError)
    ensures
        e@ == failure(kind, level, option, token@),
{
    let e = CliParseError { kind, level, option, token: string_of(token), missing: Vec::new() };
    assert(e@.missing =~= Seq::<OptionId>::empty());
    e
}

/// Reads the words of command `l` from index `start`.
fn scan_level(l: CommandLevel, toks: &Vec<Vec<char>>, start: usize) -> (r: Result<(Vec<(OptionId, Vec<char>)>, Option<(usize, CommandLevel)>), CliParseError>)
    ensures
        match r {
            Err(e) => scan(l, words(toks@), start as int, Seq::empty()) == LevelScan::Fail(e@),
            Ok((seen, Some((j, s)))) => scan(l, words(toks@), start as int, Seq::empty())
                == LevelScan::Sub(seen_view(seen@), j as int, s),
            Ok((seen, None)) => scan(l, words(toks@), start as int, Seq::empty())
                == LevelScan::End(seen_view(seen@)),
        },
{
    let ghost w = words(toks@);
    let mut seen: Vec<(OptionId, Vec<char>)> = Vec::new();
    let mut i: usize = start;
    let empty: Vec<char> = Vec::new();
    assert(seen_view(seen@) =~= Seq::<(OptionId, Seq<char>)>::empty());
    while i < toks.len()
        invariant
            w == words(toks@),
            w.len() == toks.len(),
            start <= i,
            empty@ == Seq::<char>::empty(),
            scan(l, w, start as int, Seq::empty()) == scan(l, w, i as int, seen_view(seen@)),
        decreases toks.len() - i,
    {
        let t = &toks[i];
        assert(w[i as int] == t@);
        if eq_lit(t, "--help") || eq_lit(t, "-h") {
            return Err(fail(ErrorKind::DisplayHelp, l, None, &empty));
        }
        if t.len() > 2 && t[0] == '-' && t[1] == '-' {
            let eq = find_char(t, '=', 2);
            proof {
                lemma_index_of_from_bounds(t@, '=', 2);
            }
            let name = match eq {
                Some(k) => slice_chars(t, 2, k),
                None => slice_chars(t, 2, t.len()),
            };
            proof {
                match index_of_from(t@, '=', 2) {
                    Some(k) => {
                        assert(2 <= k < t@.len()) by {
                            lemma_index_of_from_bounds(t@, '=', 2);
                        }
                    },
                    None => {
                        assert(t@.subrange(2, t@.len() as int) == t@.skip(2));
                    },
                }
                assert(name@ == long_name(t@));
            }
            match lookup_option_exec(l, &name) {
                None => {
                    return Err(fail(ErrorKind::UnknownArgument, l, None, t));
                },
                Some(o) => {
                    if seen_has(&seen, o) {
                        return Err(fail(ErrorKind::ArgumentConflict, l, Some(o), &empty));
                    }
                    let is_value = !matches!(o, OptionId::IncludeDeleted | OptionId::ClearDisplayName);
                    match eq {
                        Some(k) => {
                            proof {
                                lemma_index_of_from_bounds(t@, '=', 2);
                            }
                            let v = slice_chars(t, k + 1, t.len());
                            assert(v@ == t@.skip(k + 1));
                            assert(inline_value(t@) == Some(v@));
                            if !is_value {
                                return Err(fail(ErrorKind::TooManyValues, l, Some(o), &v));
                            }
                            if !valid_value_exec(o, &v) {
                                return Err(fail(ErrorKind::InvalidValue, l, Some(o), &v));
                            }
                            let ghost before = seen_view(seen@);
                            seen.push((o, v));
                            assert(seen_view(seen@) =~= before.push((o, v@)));
                            i = i + 1;
                        },
                        None => {
                            assert(inline_value(t@) is None);
                            if !is_value {
                                let ghost before = seen_view(seen@);
                                seen.push((o, Vec::new()));
                                assert(seen_view(seen@) =~= before.push((o, Seq::<char>::empty())));
                                i = i + 1;
                            } else {
                                if i + 1 < toks.len() && !(toks[i + 1].len() > 1 && toks[i + 1][0] == '-') {
                                    let v = &toks[i + 1];
                                    assert(w[i + 1] == v@);
                                    if !valid_value_exec(o, v) {
                                        return Err(fail(ErrorKind::InvalidValue, l, Some(o), v));
                                    }
                                    let ghost before = seen_view(seen@);
                                    seen.push((o, v.clone()));
                                    assert(seen_view(seen@) =~= before.push((o, v@)));
                                    i = i + 2;
                                } else {
                                    return Err(fail(ErrorKind::MissingValue, l, Some(o), &empty));
                                }
                            }
                        },
                    }
                },
            }
        } else if t.len() > 1 && t[0] == '-' {
            return Err(fail(ErrorKind::UnknownArgument, l, None, t));
        } else if has_subcommands_exec(l) {
            match subcommand_exec(l, t) {
                Some(s) => {
                    return Ok((seen, Some((i + 1, s))));
                },
                None => {
                    if eq_lit(t, "help") {
                        return Err(fail(ErrorKind::DisplayHelp, l, None, &empty));
                    }
                    return Err(fail(ErrorKind::InvalidSubcommand, l, None, t));
                },
            }
        } else {
            return Err(fail(ErrorKind::UnknownArgument, l, None, t));
        }
    }
    Ok((seen, None))
}

} // verus!

verus! {

/// Every value among `seen` suits its option.
pub open spec fn all_valid(seen: Seq<(OptionId, Seq<char>)>) -> bool {
    forall|k: int| 0 <= k < seen.len() ==> valid_value((#[trigger] seen[k]).0, seen[k].1)
}

/// Reading a command moves forward, and keeps only suitable values.
pub proof fn lemma_scan_facts(l: CommandLevel, w: Seq<Seq<char>>, i: int, seen: Seq<(OptionId, Seq<char>)>)
    requires
        0 <= i,
        all_valid(seen),
    ensures
        scan(l, w, i, seen) matches LevelScan::Sub(s, j, _) ==> i < j <= w.len() && all_valid(s),
        scan(l, w, i, seen) matches LevelScan::End(s) ==> all_valid(s),
    decreases w.len() - i,
{
    if i < w.len() {
        let t = w[i];
        if is_long_option(t) {
            match lookup_option(l, long_name(t)) {
                Some(o) => {
                    if !seen_option(seen, o) {
                        if takes_value(o) {
                            match inline_value(t) {
                                Some(v) => {
                                    if valid_value(o, v) {
                                        assert(all_valid(seen.push((o, v))));
                                        lemma_scan_facts(l, w, i + 1, seen.push((o, v)));
                                    }
                                },
                                None => {
                                    if i + 1 < w.len() && value_like(w[i + 1]) && valid_value(o, w[i + 1]) {
                                        assert(all_valid(seen.push((o, w[i + 1]))));
                                        lemma_scan_facts(l, w, i + 2, seen.push((o, w[i + 1])));
                                    }
                                },
                            }
                        } else if inline_value(t) is None {
                            assert(all_valid(seen.push((o, Seq::empty()))));
                            lemma_scan_facts(l, w, i + 1, seen.push((o, Seq::empty())));
                        }
                    }
                },
                None => {},
            }
        }
    }
}

/// An option is among `seen` exactly when it has a value there, and that
/// value is one of the entries.
pub proof fn lemma_seen_value(seen: Seq<(OptionId, Seq<char>)>, o: OptionId)
    ensures
        seen_option(seen, o) <==> seen_value(seen, o) is Some,
        seen_value(seen, o) matches Some(v) ==> exists|k: int| 0 <= k < seen.len() && #[trigger] seen[k] == (o, v),
    decreases seen.len(),
{
    if seen.len() > 0 {
        lemma_seen_value(seen.drop_last(), o);
        if seen.last().0 != o {
            if seen_option(seen, o) {
                let k = choose|k: int| 0 <= k < seen.len() && (#[trigger] seen[k]).0 == o;
                assert(seen.drop_last()[k].0 == o);
            }
            if seen_option(seen.drop_last(), o) {
                let k = choose|k: int| 0 <= k < seen.drop_last().len() && (#[trigger] seen.drop_last()[k]).0 == o;
                assert(seen[k].0 == o);
            }
            if let Some(v) = seen_value(seen, o) {
                let k = choose|k: int| 0 <= k < seen.drop_last().len() && #[trigger] seen.drop_last()[k] == (o, v);
                assert(seen[k] == (o, v));
            }
        } else {
            assert(seen[seen.len() - 1].0 == o);
            assert(seen[seen.len() - 1] == (o, seen.last().1));
        }
    }
}

/// The value given for option `o`, if any.
fn seen_get(seen: &Vec<(OptionId, Vec<char>)>, o: OptionId) -> (r: Option<Vec<char>>)
    ensures
        match r {
            Some(v) => seen_value(seen_view(seen@), o) == Some(v@),
            None => seen_value(seen_view(seen@), o) is None,
        },
{
    let mut i: usize = seen.len();
    assert(seen_view(seen@).take(i as int) =~= seen_view(seen@));
    while i > 0
        invariant
            i <= seen.len(),
            seen_value(seen_view(seen@), o) == seen_value(seen_view(seen@).take(i as int), o),
        decreases i,
    {
        let ghost sv = seen_view(seen@).take(i as int);
        assert(sv.drop_last() == seen_view(seen@).take(i - 1));
        assert(sv.last() == (seen@[i - 1].0, seen@[i - 1].1@));
        if seen[i - 1].0 == o {
            return Some(seen[i - 1].1.clone());
        }
        i = i - 1;
    }
    None
}

fn seen_id_exec(seen: &Vec<(OptionId, Vec<char>)>, o: OptionId) -> (r: Option<i64>)
    ensures
        r == seen_id(seen_view(seen@), o),
{
    match seen_get(seen, o) {
        Some(v) => parse_i64_chars(&v),
        None => None,
    }
}

fn seen_text(seen: &Vec<(OptionId, Vec<char>)>, o: OptionId) -> (r: Option<String>)
    ensures
        text_matches(r, seen_view(seen@), o),
{
    match seen_get(seen, o) {
        Some(v) => Some(string_of(&v)),
        None => None,
    }
}

fn required_id(seen: &Vec<(OptionId, Vec<char>)>, o: OptionId) -> (r: i64)
    requires
        seen_id(seen_view(seen@), o) is Some,
    ensures
        Some(r) == seen_id(seen_view(seen@), o),
{
    match seen_id_exec(seen, o) {
        Some(v) => v,
        None => 0,
    }
}

/// Builds the leaf command `leaf` from its options.
fn build_command(leaf: CommandLevel, seen: &Vec<(OptionId, Vec<char>)>) -> (c: CliCommand)
    requires
        !has_subcommands(leaf),
        missing_required(leaf, seen_view(seen@)).len() == 0,
        all_valid(seen_view(seen@)),
    ensures
        command_matches(c, leaf, seen_view(seen@)),
{
    let ghost sv = seen_view(seen@);
    proof {
        if let Some(o) = required_of(leaf) {
            lemma_seen_value(sv, o);
            let v = seen_value(sv, o)->0;
            let k = choose|k: int| 0 <= k < sv.len() && #[trigger] sv[k] == (o, v);
            assert(valid_value(sv[k].0, sv[k].1));
        }
    }
    match leaf {
        CommandLevel::CategoryCreate => {
            let name = match seen_text(seen, OptionId::Name) {
                Some(n) => n,
                None => String::new(),
            };
            CliCommand::Category {
                category: CategoryCommand::Create(CategoryCreateArgs {
                    name,
                    parent_id: seen_id_exec(seen, OptionId::ParentId),
                }),
            }
        },
        CommandLevel::CategoryList => CliCommand::Category { category: CategoryCommand::List },
        CommandLevel::CategoryDelete => CliCommand::Category {
            category: CategoryCommand::Delete(CategoryDeleteArgs { id: required_id(seen, OptionId::Id) }),
        },
        CommandLevel::AssetCreate => CliCommand::Asset {
            asset: AssetCommand::Create(AssetCreateArgs {
                category_id: required_id(seen, OptionId::CategoryId),
                asset_tag: seen_text(seen, OptionId::AssetTag),
            }),
        },
        CommandLevel::AssetGet => CliCommand::Asset {
            asset: AssetCommand::Get(AssetGetArgs {
                id: required_id(seen, OptionId::Id),
                include_deleted: seen_has(seen, OptionId::IncludeDeleted),
            }),
        },
        CommandLevel::AssetList => CliCommand::Asset {
            asset: AssetCommand::List(AssetListArgs {
                include_deleted: seen_has(seen, OptionId::IncludeDeleted),
            }),
        },
        CommandLevel::AssetUpdate => CliCommand::Asset {
            asset: AssetCommand::Update(AssetUpdateArgs {
                id: required_id(seen, OptionId::Id),
                display_name: seen_text(seen, OptionId::DisplayName),
                clear_display_name: seen_has(seen, OptionId::ClearDisplayName),
            }),
        },
        CommandLevel::AssetDelete => CliCommand::Asset {
            asset: AssetCommand::Delete(AssetDeleteArgs { id: required_id(seen, OptionId::Id) }),
        },
        _ => CliCommand::Flow { flow: FlowCommand::ScriptedCore },
    }
}

/// The words of `args` after the program name.
fn words_after_program(args: &[&str]) -> (toks: Vec<Vec<char>>)
    ensures
        words(toks@) == after_program(args@.map_values(|a: &str| a@)),
{
    let mut toks: Vec<Vec<char>> = Vec::new();
    let ghost all = args@.map_values(|a: &str| a@);
    if args.len() == 0 {
        assert(words(toks@) =~= after_program(all));
        return toks;
    }
    let mut i: usize = 1;
    assert(words(toks@) =~= all.subrange(1, 1));
    while i < args.len()
        invariant
            1 <= i <= args.len(),
            all == args@.map_values(|a: &str| a@),
            words(toks@) == all.subrange(1, i as int),
        decreases args.len() - i,
    {
        let t = chars_of(args[i]);
        let ghost before = words(toks@);
        toks.push(t);
        assert(words(toks@) =~= before.push(t@));
        assert(all.subrange(1, i + 1) =~= all.subrange(1, i as int).push(all[i as int]));
        i = i + 1;
    }
    assert(all.len() == args.len());
    toks
}

impl CliArgs {
    /// Parses a command line (the program name first), as the client's
    /// argument grammar defines it.
    pub fn try_parse_from(args: &[&str]) -> (r: Result<CliArgs, CliParseError>)
        ensures
            match (r, cli_outcome(args@.map_values(|a: &str| a@))) {
                (Ok(a), CliOutcome::Success(leaf, root_seen, seen)) => args_match(a, leaf, root_seen, seen),
                (Err(e), CliOutcome::Failure(f)) => e@ == f,
                _ => false,
            },
    {
        let toks = words_after_program(args);
        let ghost w = words(toks@);
        assert(cli_outcome(args@.map_values(|a: &str| a@)) == finish(CommandLevel::Root, w, 0, Seq::empty()));
        let empty: Vec<char> = Vec::new();
        let mut level = CommandLevel::Root;
        let mut start: usize = 0;
        let mut root_seen: Vec<(OptionId, Vec<char>)> = Vec::new();
        assert(seen_view(root_seen@) =~= Seq::<(OptionId, Seq<char>)>::empty());
        loop
            invariant
                w == words(toks@),
                w.len() == toks.len(),
                start <= toks.len(),
                empty@ == Seq::<char>::empty(),
                all_valid(seen_view(root_seen@)),
                cli_outcome(args@.map_values(|a: &str| a@)) == finish(level, w, start as int, seen_view(root_seen@)),
            decreases toks.len() - start,
        {
            proof {
                lemma_scan_facts(level, w, start as int, Seq::empty());
            }
            match scan_level(level, &toks, start) {
                Err(e) => {
                    assert(finish(level, w, start as int, seen_view(root_seen@)) == CliOutcome::Failure(e@));
                    return Err(e);
                },
                Ok((seen, Some((j, s)))) => {
                    if level == CommandLevel::Root {
                        root_seen = seen;
                    }
                    level = s;
                    start = j;
                },
                Ok((seen, None)) => {
                    if has_subcommands_exec(level) {
                        if start >= toks.len() {
                            return Err(fail(ErrorKind::DisplayHelpOnMissingArgumentOrSubcommand, level, None, &empty));
                        }
                        let e = fail(ErrorKind::MissingSubcommand, level, None, &empty);
                        assert(finish(level, w, start as int, seen_view(root_seen@)) == CliOutcome::Failure(e@));
                        return Err(e);
                    }
                    let missing = missing_required_exec(level, &seen);
                    if missing.len() > 0 {
                        return Err(CliParseError {
                            kind: ErrorKind::MissingRequiredArgument,
                            level,
                            option: None,
                            token: string_of(&empty),
                            missing,
                        });
                    }
                    if level == CommandLevel::Root {
                        root_seen = seen.clone();
                    }
                    let command = build_command(level, &seen);
                    let output = match seen_get(&root_seen, OptionId::Output) {
                        Some(v) => if eq_lit(&v, "human") {
                            OutputMode::Human
                        } else {
                            OutputMode::Json
                        },
                        None => OutputMode::Json,
                    };
                    let base_url = match seen_text(&root_seen, OptionId::BaseUrl) {
                        Some(b) => b,
                        None => String::from_str("http://127.0.0.1:3000"),
                    };
                    let db_path = seen_text(&root_seen, OptionId::DbPath);
                    return Ok(CliArgs { output, base_url, db_path, command });
                },
            }
        }
    }
}

fn missing_required_exec(l: CommandLevel, seen: &Vec<(OptionId, Vec<char>)>) -> (m: Vec<OptionId>)
    ensures
        m@ == missing_required(l, seen_view(seen@)),
{
    let req: Option<OptionId> = match l {
        CommandLevel::CategoryCreate => Some(OptionId::Name),
        CommandLevel::CategoryDelete => Some(OptionId::Id),
        CommandLevel::AssetCreate => Some(OptionId::CategoryId),
        CommandLevel::AssetGet => Some(OptionId::Id),
        CommandLevel::AssetUpdate => Some(OptionId::Id),
        CommandLevel::AssetDelete => Some(OptionId::Id),
        _ => None,
    };
    let mut m: Vec<OptionId> = Vec::new();
    match req {
        Some(o) => {
            if !seen_has(seen, o) {
                m.push(o);
                assert(m@ =~= seq![o]);
            } else {
                assert(m@ =~= Seq::<OptionId>::empty());
            }
        },
        None => {
            assert(m@ =~= Seq::<OptionId>::empty());
        },
    }
    m
}

} // verus!

verus! {

/// The usage line of a command.
pub open spec fn usage(l: CommandLevel) -> Seq<char> {
    match l {
        CommandLevel::Root => "cli [OPTIONS] <COMMAND>"@,
        CommandLevel::Flow => "cli flow <COMMAND>"@,
        CommandLevel::ScriptedCore => "cli flow scripted-core"@,
        CommandLevel::Category => "cli category <COMMAND>"@,
        CommandLevel::CategoryCreate => "cli category create [OPTIONS] --name <NAME>"@,
        CommandLevel::CategoryList => "cli category list"@,
        CommandLevel::CategoryDelete => "cli category delete --id <ID>"@,
        CommandLevel::Asset => "cli asset <COMMAND>"@,
        CommandLevel::AssetCreate => "cli asset create [OPTIONS] --category-id <CATEGORY_ID>"@,
        CommandLevel::AssetGet => "cli asset get [OPTIONS] --id <ID>"@,
        CommandLevel::AssetList => "cli asset list [OPTIONS]"@,
        CommandLevel::AssetUpdate => "cli asset update [OPTIONS] --id <ID>"@,
        CommandLevel::AssetDelete => "cli asset delete --id <ID>"@,
    }
}

fn usage_str(l: CommandLevel) -> (s: &'static str)
    ensures
        s@ == usage(l),
{
    match l {
        CommandLevel::Root => "cli [OPTIONS] <COMMAND>",
        CommandLevel::Flow => "cli flow <COMMAND>",
        CommandLevel::ScriptedCore => "cli flow scripted-core",
        CommandLevel::Category => "cli category <COMMAND>",
        CommandLevel::CategoryCreate => "cli category create [OPTIONS] --name <NAME>",
        CommandLevel::CategoryList => "cli category list",
        CommandLevel::CategoryDelete => "cli category delete --id <ID>",
        CommandLevel::Asset => "cli asset <COMMAND>",
        CommandLevel::AssetCreate => "cli asset create [OPTIONS] --category-id <CATEGORY_ID>",
        CommandLevel::AssetGet => "cli asset get [OPTIONS] --id <ID>",
        CommandLevel::AssetList => "cli asset list [OPTIONS]",
        CommandLevel::AssetUpdate => "cli asset update [OPTIONS] --id <ID>",
        CommandLevel::AssetDelete => "cli asset delete --id <ID>",
    }
}

/// How an option is shown in messages.
pub open spec fn option_display(o: OptionId) -> Seq<char> {
    match o {
        OptionId::Output => "--output <OUTPUT>"@,
        OptionId::BaseUrl => "--base-url <BASE_URL>"@,
        OptionId::DbPath => "--db-path <DB_PATH>"@,
        OptionId::Name => "--name <NAME>"@,
        OptionId::ParentId => "--parent-id <PARENT_ID>"@,
        OptionId::Id => "--id <ID>"@,
        OptionId::CategoryId => "--category-id <CATEGORY_ID>"@,
        OptionId::AssetTag => "--asset-tag <ASSET_TAG>"@,
        OptionId::IncludeDeleted => "--include-deleted"@,
        OptionId::DisplayName => "--display-name <DISPLAY_NAME>"@,
        OptionId::ClearDisplayName => "--clear-display-name"@,
    }
}

fn option_display_str(o: OptionId) -> (s: &'static str)
    ensures
        s@ == option_display(o),
{
    match o {
        OptionId::Output => "--output <OUTPUT>",
        OptionId::BaseUrl => "--base-url <BASE_URL>",
        OptionId::DbPath => "--db-path <DB_PATH>",
        OptionId::Name => "--name <NAME>",
        OptionId::ParentId => "--parent-id <PARENT_ID>",
        OptionId::Id => "--id <ID>",
        OptionId::CategoryId => "--category-id <CATEGORY_ID>",
        OptionId::AssetTag => "--asset-tag <ASSET_TAG>",
        OptionId::IncludeDeleted => "--include-deleted",
        OptionId::DisplayName => "--display-name <DISPLAY_NAME>",
        OptionId::ClearDisplayName => "--clear-display-name",
    }
}

/// The help screen of a command.
pub open spec fn help_text(l: CommandLevel) -> Seq<char> {
    match l {
        CommandLevel::Root => "HAM scripted CLI client\n\nUsage: cli [OPTIONS] <COMMAND>\n\nCommands:\n  flow\n  category\n  asset\n  help      Print this message or the help of the given subcommand(s)\n\nOptions:\n      --output <OUTPUT>      [default: json] [possible values: json, human]\n      --base-url <BASE_URL>  [default: http://127.0.0.1:3000]\n  -h, --help                 Print help\n"@,
        CommandLevel::Flow => "Usage: cli flow <COMMAND>\n\nCommands:\n  scripted-core\n  help           Print this message or the help of the given subcommand(s)\n\nOptions:\n  -h, --help  Print help\n"@,
        CommandLevel::ScriptedCore => "Usage: cli flow scripted-core\n\nOptions:\n  -h, --help  Print help\n"@,
        CommandLevel::Category => "Usage: cli category <COMMAND>\n\nCommands:\n  create\n  list\n  delete\n  help    Print this message or the help of the given subcommand(s)\n\nOptions:\n  -h, --help  Print help\n"@,
        CommandLevel::CategoryCreate => "Usage: cli category create [OPTIONS] --name <NAME>\n\nOptions:\n      --name <NAME>\n      --parent-id <PARENT_ID>\n  -h, --help                   Print help\n"@,
        CommandLevel::CategoryList => "Usage: cli category list\n\nOptions:\n  -h, --help  Print help\n"@,
        CommandLevel::CategoryDelete => "Usage: cli category delete --id <ID>\n\nOptions:\n      --id <ID>\n  -h, --help     Print help\n"@,
        CommandLevel::Asset => "Usage: cli asset <COMMAND>\n\nCommands:\n  create\n  get\n  list\n  update\n  delete\n  help    Print this message or the help of the given subcommand(s)\n\nOptions:\n  -h, --help  Print help\n"@,
        CommandLevel::AssetCreate => "Usage: cli asset create [OPTIONS] --category-id <CATEGORY_ID>\n\nOptions:\n      --category-id <CATEGORY_ID>\n      --asset-tag <ASSET_TAG>\n  -h, --help                       Print help\n"@,
        CommandLevel::AssetGet => "Usage: cli asset get [OPTIONS] --id <ID>\n\nOptions:\n      --id <ID>\n      --include-deleted\n  -h, --help             Print help\n"@,
        CommandLevel::AssetList => "Usage: cli asset list [OPTIONS]\n\nOptions:\n      --include-deleted\n  -h, --help             Print help\n"@,
        CommandLevel::AssetUpdate => "Usage: cli asset update [OPTIONS] --id <ID>\n\nOptions:\n      --id <ID>\n      --display-name <DISPLAY_NAME>\n      --clear-display-name\n  -h, --help                         Print help\n"@,
        CommandLevel::AssetDelete => "Usage: cli asset delete --id <ID>\n\nOptions:\n      --id <ID>\n  -h, --help     Print help\n"@,
    }
}

fn help_str(l: CommandLevel) -> (s: &'static str)
    ensures
        s@ == help_text(l),
{
    match l {
        CommandLevel::Root => "HAM scripted CLI client\n\nUsage: cli [OPTIONS] <COMMAND>\n\nCommands:\n  flow\n  category\n  asset\n  help      Print this message or the help of the given subcommand(s)\n\nOptions:\n      --output <OUTPUT>      [default: json] [possible values: json, human]\n      --base-url <BASE_URL>  [default: http://127.0.0.1:3000]\n  -h, --help                 Print help\n",
        CommandLevel::Flow => "Usage: cli flow <COMMAND>\n\nCommands:\n  scripted-core\n  help           Print this message or the help of the given subcommand(s)\n\nOptions:\n  -h, --help  Print help\n",
        CommandLevel::ScriptedCore => "Usage: cli flow scripted-core\n\nOptions:\n  -h, --help  Print help\n",
        CommandLevel::Category => "Usage: cli category <COMMAND>\n\nCommands:\n  create\n  list\n  delete\n  help    Print this message or the help of the given subcommand(s)\n\nOptions:\n  -h, --help  Print help\n",
        CommandLevel::CategoryCreate => "Usage: cli category create [OPTIONS] --name <NAME>\n\nOptions:\n      --name <NAME>\n      --parent-id <PARENT_ID>\n  -h, --help                   Print help\n",
        CommandLevel::CategoryList => "Usage: cli category list\n\nOptions:\n  -h, --help  Print help\n",
        CommandLevel::CategoryDelete => "Usage: cli category delete --id <ID>\n\nOptions:\n      --id <ID>\n  -h, --help     Print help\n",
        CommandLevel::Asset => "Usage: cli asset <COMMAND>\n\nCommands:\n  create\n  get\n  list\n  update\n  delete\n  help    Print this message or the help of the given subcommand(s)\n\nOptions:\n  -h, --help  Print help\n",
        CommandLevel::AssetCreate => "Usage: cli asset create [OPTIONS] --category-id <CATEGORY_ID>\n\nOptions:\n      --category-id <CATEGORY_ID>\n      --asset-tag <ASSET_TAG>\n  -h, --help                       Print help\n",
        CommandLevel::AssetGet => "Usage: cli asset get [OPTIONS] --id <ID>\n\nOptions:\n      --id <ID>\n      --include-deleted\n  -h, --help             Print help\n",
        CommandLevel::AssetList => "Usage: cli asset list [OPTIONS]\n\nOptions:\n      --include-deleted\n  -h, --help             Print help\n",
        CommandLevel::AssetUpdate => "Usage: cli asset update [OPTIONS] --id <ID>\n\nOptions:\n      --id <ID>\n      --display-name <DISPLAY_NAME>\n      --clear-display-name\n  -h, --help                         Print help\n",
        CommandLevel::AssetDelete => "Usage: cli asset delete --id <ID>\n\nOptions:\n      --id <ID>\n  -h, --help     Print help\n",
    }
}

/// The name a command goes by in messages.
pub open spec fn command_path(l: CommandLevel) -> Seq<char> {
    match l {
        CommandLevel::Root => "cli"@,
        CommandLevel::Flow => "cli flow"@,
        CommandLevel::Category => "cli category"@,
        CommandLevel::Asset => "cli asset"@,
        _ => "cli"@,
    }
}

fn command_path_str(l: CommandLevel) -> (s: &'static str)
    ensures
        s@ == command_path(l),
{
    match l {
        CommandLevel::Root => "cli",
        CommandLevel::Flow => "cli flow",
        CommandLevel::Category => "cli category",
        CommandLevel::Asset => "cli asset",
        _ => "cli",
    }
}

/// Why a value is not a valid integer, in the standard library's words.
pub open spec fn integer_reason(v: Seq<char>) -> Seq<char> {
    if v.len() == 0 {
        "cannot parse integer from empty string"@
    } else {
        if signed_digits_value(v) is None {
            "invalid digit found in string"@
        } else if v[0] == '-' {
            "number too small to fit in target type"@
        } else {
            "number too large to fit in target type"@
        }
    }
}

/// Why `v` is not a valid value for option `o`.
pub open spec fn value_reason(o: OptionId, v: Seq<char>) -> Seq<char> {
    if o is Output {
        "\n  [possible values: json, human]"@
    } else {
        ": "@ + integer_reason(v)
    }
}

/// The closing lines of an error message.
pub open spec fn message_tail() -> Seq<char> {
    "\n\nFor more information, try '--help'.\n"@
}

/// The text shown for a rejected command line.
pub open spec fn error_text(f: FailureView) -> Seq<char> {
    let usage_line = "\n\nUsage: "@ + usage(f.level);
    let opt = match f.option {
        Some(o) => option_display(o),
        None => Seq::empty(),
    };
    match f.kind {
        ErrorKind::DisplayHelp => help_text(f.level),
        ErrorKind::DisplayHelpOnMissingArgumentOrSubcommand => help_text(f.level),
        ErrorKind::MissingSubcommand => "error: '"@ + command_path(f.level)
            + "' requires a subcommand but one was not provided"@ + usage_line + message_tail(),
        ErrorKind::InvalidSubcommand => "error: unrecognized subcommand '"@ + f.token + "'"@ + usage_line
            + message_tail(),
        ErrorKind::UnknownArgument => "error: unexpected argument '"@ + f.token + "' found"@ + usage_line
            + message_tail(),
        ErrorKind::InvalidValue => "error: invalid value '"@ + f.token + "' for '"@ + opt + "'"@
            + (match f.option {
                Some(o) => value_reason(o, f.token),
                None => Seq::empty(),
            }) + message_tail(),
        ErrorKind::MissingValue => "error: a value is required for '"@ + opt + "' but none was supplied"@
            + message_tail(),
        ErrorKind::ArgumentConflict => "error: the argument '"@ + opt + "' cannot be used multiple times"@
            + usage_line + message_tail(),
        ErrorKind::TooManyValues => "error: unexpected value '"@ + f.token + "' for '"@ + opt
            + "' found; no more were expected"@ + usage_line + message_tail(),
        ErrorKind::MissingRequiredArgument => "error: the following required arguments were not provided:"@
            + (if f.missing.len() > 0 {
                "\n  "@ + option_display(f.missing[0])
            } else {
                Seq::empty()
            }) + usage_line + message_tail(),
    }
}

impl CliParseError {
    /// The category of the error.
    pub fn kind(&self) -> (k: ErrorKind)
        ensures
            k == self.kind,
    {
        self.kind
    }

    /// The message shown for the error (for help requests, the help screen).
    pub fn to_string(&self) -> (s: String)
        ensures
            s@ == error_text(self@),
    {
        let mut s = String::new();
        let ghost usage_line = "\n\nUsage: "@ + usage(self.level);
        let ghost opt = match self.option {
            Some(o) => option_display(o),
            None => Seq::<char>::empty(),
        };
        let opt_text: &str = match self.option {
            Some(o) => option_display_str(o),
            None => "",
        };
        proof {
            reveal_strlit("");
        }
        assert(opt_text@ == opt);
        match self.kind {
            ErrorKind::DisplayHelp | ErrorKind::DisplayHelpOnMissingArgumentOrSubcommand => {
                s.append(help_str(self.level));
                return s;
            },
            ErrorKind::MissingSubcommand => {
                s.append("error: '");
                s.append(command_path_str(self.level));
                s.append("' requires a subcommand but one was not provided");
            },
            ErrorKind::InvalidSubcommand => {
                s.append("error: unrecognized subcommand '");
                s.append(self.token.as_str());
                s.append("'");
            },
            ErrorKind::UnknownArgument => {
                s.append("error: unexpected argument '");
                s.append(self.token.as_str());
                s.append("' found");
            },
            ErrorKind::InvalidValue => {
                s.append("error: invalid value '");
                s.append(self.token.as_str());
                s.append("' for '");
                s.append(opt_text);
                s.append("'");
                match self.option {
                    Some(o) => {
                        let reason = value_reason_string(o, &self.token);
                        s.append(reason.as_str());
                    },
                    None => {},
                }
                s.append("\n\nFor more information, try '--help'.\n");
                return s;
            },
            ErrorKind::MissingValue => {
                s.append("error: a value is required for '");
                s.append(opt_text);
                s.append("' but none was supplied");
                s.append("\n\nFor more information, try '--help'.\n");
                return s;
            },
            ErrorKind::ArgumentConflict => {
                s.append("error: the argument '");
                s.append(opt_text);
                s.append("' cannot be used multiple times");
            },
            ErrorKind::TooManyValues => {
                s.append("error: unexpected value '");
                s.append(self.token.as_str());
                s.append("' for '");
                s.append(opt_text);
                s.append("' found; no more were expected");
            },
            ErrorKind::MissingRequiredArgument => {
                s.append("error: the following required arguments were not provided:");
                if self.missing.len() > 0 {
                    s.append("\n  ");
                    s.append(option_display_str(self.missing[0]));
                }
            },
        }
        s.append("\n\nUsage: ");
        s.append(usage_str(self.level));
        s.append("\n\nFor more information, try '--help'.\n");
        s
    }
}

fn value_reason_string(o: OptionId, v: &String) -> (r: String)
    ensures
        r@ == value_reason(o, v@),
{
    if o == OptionId::Output {
        return String::from_str("\n  [possible values: json, human]");
    }
    let mut r = String::from_str(": ");
    let chars = chars_of(v.as_str());
    if chars.len() == 0 {
        r.append("cannot parse integer from empty string");
    } else {
        if !signed_digits_ok(&chars) {
            r.append("invalid digit found in string");
        } else if chars[0] == '-' {
            r.append("number too small to fit in target type");
        } else {
            r.append("number too large to fit in target type");
        }
    }
    r
}

} // verus!

verus! {

/// A failure of a command run, as the client reports it.
#[derive(Clone, Debug)]
pub enum CliError {
    Http { step: &'static str, status_code: Option<u16>, message: String },
    Validation { step: &'static str, message: String },
    MissingField { step: &'static str, field: &'static str },
    UnsupportedCommand { command: &'static str },
}

/// The error block of a failure report.
#[derive(Clone, Debug)]
pub struct ErrorOutput {
    pub code: &'static str,
    pub step: &'static str,
    pub status_code: Option<u16>,
    pub message: String,
}

/// The error block of the report for a command that is not implemented.
#[derive(Clone, Debug)]
pub struct UnsupportedCommandErrorOutput {
    pub code: &'static str,
    pub command: &'static str,
    pub message: &'static str,
}

/// The report for a command that is not implemented.
#[derive(Clone, Debug)]
pub struct UnsupportedCommandOutput {
    pub ok: bool,
    pub error: UnsupportedCommandErrorOutput,
}

/// The sentence that explains that a command is not implemented.
pub open spec fn not_implemented_message() -> Seq<char> {
    "command is parsed but not implemented yet; use `flow scripted-core`"@
}

/// The report for a command that is parsed but not implemented.
pub fn unsupported_command_output(command: &'static str) -> (o: UnsupportedCommandOutput)
    ensures
        !o.ok,
        o.error.code@ == "NOT_IMPLEMENTED"@,
        o.error.command == command,
        o.error.message@ == not_implemented_message(),
{
    UnsupportedCommandOutput {
        ok: false,
        error: UnsupportedCommandErrorOutput {
            code: "NOT_IMPLEMENTED",
            command,
            message: "command is parsed but not implemented yet; use `flow scripted-core`",
        },
    }
}

/// The one-line human report for a command that is not implemented.
pub fn format_unsupported_command_human(command: &'static str) -> (s: String)
    ensures
        s@ == "ERROR code="@ + "NOT_IMPLEMENTED"@ + " command="@ + command@ + " message="@ + not_implemented_message(),
{
    let payload = unsupported_command_output(command);
    let mut s = String::from_str("ERROR code=");
    s.append(payload.error.code);
    s.append(" command=");
    s.append(payload.error.command);
    s.append(" message=");
    s.append(payload.error.message);
    s
}

/// The dotted label of an asset command.
pub fn asset_command_label(command: &AssetCommand) -> (s: &'static str)
    ensures
        s@ == match command {
            AssetCommand::Create(_) => "asset.create"@,
            AssetCommand::Get(_) => "asset.get"@,
            AssetCommand::List(_) => "asset.list"@,
            AssetCommand::Update(_) => "asset.update"@,
            AssetCommand::Delete(_) => "asset.delete"@,
        },
{
    match command {
        AssetCommand::Create(_) => "asset.create",
        AssetCommand::Get(_) => "asset.get",
        AssetCommand::List(_) => "asset.list",
        AssetCommand::Update(_) => "asset.update",
        AssetCommand::Delete(_) => "asset.delete",
    }
}

/// The error block reported for `err`; none for an unimplemented command,
/// which has a report of its own.
pub open spec fn error_output_spec(err: CliError) -> Option<(Seq<char>, Seq<char>, Option<u16>, Seq<char>)> {
    match err {
        CliError::Http { step, status_code, message } => Some(("HTTP_ERROR"@, step@, status_code, message@)),
        CliError::Validation { step, message } => Some(("VALIDATION_ERROR"@, step@, None, message@)),
        CliError::MissingField { step, field } => Some(("INVALID_RESPONSE"@, step@, None,
            "missing required field `"@ + field@ + "`"@)),
        CliError::UnsupportedCommand { .. } => None,
    }
}

/// The error block reported for `err`.
pub fn error_output(err: &CliError) -> (r: Option<ErrorOutput>)
    ensures
        match (r, error_output_spec(*err)) {
            (Some(o), Some((code, step, status, message))) => o.code@ == code && o.step@ == step
                && o.status_code == status && o.message@ == message,
            (None, None) => true,
            _ => false,
        },
{
    match err {
        CliError::Http { step, status_code, message } => Some(ErrorOutput {
            code: "HTTP_ERROR",
            step,
            status_code: *status_code,
            message: message.clone(),
        }),
        CliError::Validation { step, message } => Some(ErrorOutput {
            code: "VALIDATION_ERROR",
            step,
            status_code: None,
            message: message.clone(),
        }),
        CliError::MissingField { step, field } => {
            let mut message = String::from_str("missing required field `");
            message.append(field);
            message.append("`");
            Some(ErrorOutput { code: "INVALID_RESPONSE", step, status_code: None, message })
        },
        CliError::UnsupportedCommand { .. } => None,
    }
}

/// How an optional status code is written in human reports.
pub open spec fn status_debug(status: Option<u16>) -> Seq<char> {
    match status {
        Some(c) => "Some("@ + int_text(c as int) + ")"@,
        None => "None"@,
    }
}

fn status_debug_string(status: Option<u16>) -> (s: String)
    ensures
        s@ == status_debug(status),
{
    match status {
        Some(c) => {
            let mut s = String::from_str("Some(");
            let digits = i64_text(c as i64);
            s.append(digits.as_str());
            s.append(")");
            s
        },
        None => String::from_str("None"),
    }
}

/// The human report line of a failed scripted flow.
pub fn human_flow_error_line(e: &ErrorOutput) -> (s: String)
    ensures
        s@ == "ERROR code="@ + e.code@ + " step="@ + e.step@ + " status="@ + status_debug(e.status_code)
            + " message="@ + e.message@,
{
    let mut s = String::from_str("ERROR code=");
    s.append(e.code);
    s.append(" step=");
    s.append(e.step);
    s.append(" status=");
    let status = status_debug_string(e.status_code);
    s.append(status.as_str());
    s.append(" message=");
    s.append(e.message.as_str());
    s
}

/// The human report line of a failed command.
pub fn human_command_error_line(command: &str, e: &ErrorOutput) -> (s: String)
    ensures
        s@ == "ERROR command="@ + command@ + " code="@ + e.code@ + " step="@ + e.step@ + " status="@
            + status_debug(e.status_code) + " message="@ + e.message@,
{
    let mut s = String::from_str("ERROR command=");
    s.append(command);
    s.append(" code=");
    s.append(e.code);
    s.append(" step=");
    s.append(e.step);
    s.append(" status=");
    let status = status_debug_string(e.status_code);
    s.append(status.as_str());
    s.append(" message=");
    s.append(e.message.as_str());
    s
}

/// Whether any argument asks for help (`--help` or `-h`).
pub fn should_print_help(args: &[String]) -> (b: bool)
    ensures
        b == exists|k: int| 0 <= k < args@.len() && (args@[k]@ == "--help"@ || args@[k]@ == "-h"@),
{
    let mut i: usize = 0;
    while i < args.len()
        invariant
            i <= args.len(),
            forall|k: int| 0 <= k < i ==> !(args@[k]@ == "--help"@ || args@[k]@ == "-h"@),
        decreases args.len() - i,
    {
        let a = chars_of(args[i].as_str());
        if eq_lit(&a, "--help") || eq_lit(&a, "-h") {
            return true;
        }
        i = i + 1;
    }
    false
}

} // verus!

verus! {

/// A rejected command line of a program that takes no arguments.
#[derive(Clone, Debug)]
pub struct ProgramArgsError {
    pub kind: ErrorKind,
    pub token: String,
}

impl ProgramArgsError {
    /// The category of the error.
    pub fn kind(&self) -> (k: ErrorKind)
        ensures
            k == self.kind,
    {
        self.kind
    }
}

/// What a program that takes no arguments makes of its command line: nothing
/// to complain about, or a help request or an unexpected first argument.
pub open spec fn no_argument_outcome(args: Seq<Seq<char>>) -> Option<(ErrorKind, Seq<char>)> {
    let toks = after_program(args);
    if toks.len() == 0 {
        None
    } else if toks[0] == "--help"@ || toks[0] == "-h"@ {
        Some((ErrorKind::DisplayHelp, Seq::empty()))
    } else {
        Some((ErrorKind::UnknownArgument, toks[0]))
    }
}

fn parse_no_arguments(args: &[&str]) -> (r: Result<(), ProgramArgsError>)
    ensures
        match (r, no_argument_outcome(args@.map_values(|a: &str| a@))) {
            (Ok(()), None) => true,
            (Err(e), Some((kind, token))) => e.kind == kind && e.token@ == token,
            _ => false,
        },
{
    if args.len() <= 1 {
        return Ok(());
    }
    let ghost all = args@.map_values(|a: &str| a@);
    assert(after_program(all)[0] == args@[1]@);
    let first = chars_of(args[1]);
    if eq_lit(&first, "--help") || eq_lit(&first, "-h") {
        return Err(ProgramArgsError { kind: ErrorKind::DisplayHelp, token: String::new() });
    }
    Err(ProgramArgsError { kind: ErrorKind::UnknownArgument, token: string_of(&first) })
}

/// The command line of the HAM HTTP server, which takes no arguments.
#[derive(Clone, Copy, Debug)]
pub struct ServerCli;

impl ServerCli {
    /// Accepts a command line with nothing after the program name.
    pub fn try_parse_from(args: &[&str]) -> (r: Result<ServerCli, ProgramArgsError>)
        ensures
            match (r, no_argument_outcome(args@.map_values(|a: &str| a@))) {
                (Ok(_), None) => true,
                (Err(e), Some((kind, token))) => e.kind == kind && e.token@ == token,
                _ => false,
            },
    {
        match parse_no_arguments(args) {
            Ok(()) => Ok(ServerCli),
            Err(e) => Err(e),
        }
    }
}

/// The command line of the HAM desktop client, which takes no arguments.
#[derive(Clone, Copy, Debug)]
pub struct GuiCli;

impl GuiCli {
    /// Accepts a command line with nothing after the program name.
    pub fn try_parse_from(args: &[&str]) -> (r: Result<GuiCli, ProgramArgsError>)
        ensures
            match (r, no_argument_outcome(args@.map_values(|a: &str| a@))) {
                (Ok(_), None) => true,
                (Err(e), Some((kind, token))) => e.kind == kind && e.token@ == token,
                _ => false,
            },
    {
        match parse_no_arguments(args) {
            Ok(()) => Ok(GuiCli),
            Err(e) => Err(e),
        }
    }
}

} // verus!
