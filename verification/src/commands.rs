//! The command vocabulary: the typed form of every operation the tool can
//! ask of a running target, its textual form for batch re-entry, and the
//! name and category tables behind lookup and listing. Formatting and
//! parsing are two verified functions over one model; every variant except
//! the raw passthrough round-trips through its textual form.
use vstd::prelude::*;

use crate::text::{
    chars_extend, lemma_join_sp_cons, lemma_join_sp_two, chars_have_prefix, chars_have_suffix, chars_to_string, chars_sub, chars_eq_str, dec_digits, join_sp, join_strings,
    parse_u64_chars, spec_parse_u64, split_ws, split_ws_chars, str_to_chars, strings_model,
    toks_model, u64_to_chars,
};

verus! {

/// A command addressed to the running target.
#[derive(Debug, Clone, PartialEq)]
pub enum Commands {
    Destroy { entity: u64 },
    Get { entity: u64, component: String },
    GetResource { resource: String },
    GetWatch { entity: u64, components: Vec<String> },
    Insert { entity: u64, components: String },
    InsertResource { data: String },
    List,
    ListResources,
    ListEntities,
    ListEntity { entity: u64 },
    ListWatch { entity: u64 },
    Methods,
    MutateComponent { entity: u64, component: String, patch: String },
    MutateResource { resource: String, patch: String },
    Query { components: Vec<String> },
    Ready,
    Remove { entity: u64, component: String },
    RemoveResource { resource: String },
    Reparent { child: u64, parent: String },
    Screenshot { path: String },
    Shutdown,
    Spawn { components: String },
    Schema {
        with_crates: Option<Vec<String>>,
        without_crates: Option<Vec<String>>,
        with_types: Option<Vec<String>>,
        without_types: Option<Vec<String>>,
    },
    Raw { args: Vec<String> },
}

/// The specification-level form of a command: strings as character
/// sequences.
pub enum CmdModel {
    Destroy { entity: u64 },
    Get { entity: u64, component: Seq<char> },
    GetResource { resource: Seq<char> },
    GetWatch { entity: u64, components: Seq<Seq<char>> },
    Insert { entity: u64, components: Seq<char> },
    InsertResource { data: Seq<char> },
    List,
    ListResources,
    ListEntities,
    ListEntity { entity: u64 },
    ListWatch { entity: u64 },
    Methods,
    MutateComponent { entity: u64, component: Seq<char>, patch: Seq<char> },
    MutateResource { resource: Seq<char>, patch: Seq<char> },
    Query { components: Seq<Seq<char>> },
    Ready,
    Remove { entity: u64, component: Seq<char> },
    RemoveResource { resource: Seq<char> },
    Reparent { child: u64, parent: Seq<char> },
    Screenshot { path: Seq<char> },
    Shutdown,
    Spawn { components: Seq<char> },
    Schema {
        with_crates: Option<Seq<Seq<char>>>,
        without_crates: Option<Seq<Seq<char>>>,
        with_types: Option<Seq<Seq<char>>>,
        without_types: Option<Seq<Seq<char>>>,
    },
    Raw { args: Seq<Seq<char>> },
}

/// The view of an optional list of strings.
pub open spec fn opt_strings_model(o: Option<Vec<String>>) -> Option<Seq<Seq<char>>> {
    match o {
        Some(v) => Some(strings_model(v@)),
        None => None,
    }
}

impl View for Commands {
    type V = CmdModel;

    open spec fn view(&self) -> CmdModel {
        match self {
            Commands::Destroy { entity } => CmdModel::Destroy { entity: *entity },
            Commands::Get { entity, component } => CmdModel::Get {
                entity: *entity,
                component: component@,
            },
            Commands::GetResource { resource } => CmdModel::GetResource { resource: resource@ },
            Commands::GetWatch { entity, components } => CmdModel::GetWatch {
                entity: *entity,
                components: strings_model(components@),
            },
            Commands::Insert { entity, components } => CmdModel::Insert {
                entity: *entity,
                components: components@,
            },
            Commands::InsertResource { data } => CmdModel::InsertResource { data: data@ },
            Commands::List => CmdModel::List,
            Commands::ListResources => CmdModel::ListResources,
            Commands::ListEntities => CmdModel::ListEntities,
            Commands::ListEntity { entity } => CmdModel::ListEntity { entity: *entity },
            Commands::ListWatch { entity } => CmdModel::ListWatch { entity: *entity },
            Commands::Methods => CmdModel::Methods,
            Commands::MutateComponent { entity, component, patch } => CmdModel::MutateComponent {
                entity: *entity,
                component: component@,
                patch: patch@,
            },
            Commands::MutateResource { resource, patch } => CmdModel::MutateResource {
                resource: resource@,
                patch: patch@,
            },
            Commands::Query { components } => CmdModel::Query {
                components: strings_model(components@),
            },
            Commands::Ready => CmdModel::Ready,
            Commands::Remove { entity, component } => CmdModel::Remove {
                entity: *entity,
                component: component@,
            },
            Commands::RemoveResource { resource } => CmdModel::RemoveResource {
                resource: resource@,
            },
            Commands::Reparent { child, parent } => CmdModel::Reparent {
                child: *child,
                parent: parent@,
            },
            Commands::Screenshot { path } => CmdModel::Screenshot { path: path@ },
            Commands::Shutdown => CmdModel::Shutdown,
            Commands::Spawn { components } => CmdModel::Spawn { components: components@ },
            Commands::Schema { with_crates, without_crates, with_types, without_types } => CmdModel::Schema {
                with_crates: opt_strings_model(*with_crates),
                without_crates: opt_strings_model(*without_crates),
                with_types: opt_strings_model(*with_types),
                without_types: opt_strings_model(*without_types),
            },
            Commands::Raw { args } => CmdModel::Raw { args: strings_model(args@) },
        }
    }
}

/// The parts a schema command's textual form is joined from: the word
/// itself, then one part per present filter flag.
pub open spec fn schema_parts(
    with_crates: Option<Seq<Seq<char>>>,
    without_crates: Option<Seq<Seq<char>>>,
    with_types: Option<Seq<Seq<char>>>,
    without_types: Option<Seq<Seq<char>>>,
) -> Seq<Seq<char>> {
    seq!["schema"@] + (match with_crates {
        Some(xs) => seq!["--with-crates "@ + join_sp(xs)],
        None => Seq::empty(),
    }) + (match without_crates {
        Some(xs) => seq!["--without-crates "@ + join_sp(xs)],
        None => Seq::empty(),
    }) + (match with_types {
        Some(xs) => seq!["--with-types "@ + join_sp(xs)],
        None => Seq::empty(),
    }) + (match without_types {
        Some(xs) => seq!["--without-types "@ + join_sp(xs)],
        None => Seq::empty(),
    })
}

/// The textual form of a command, as managed-mode batch re-entry expects
/// it.
pub open spec fn spec_format_command(c: CmdModel) -> Seq<char> {
    match c {
        CmdModel::Destroy { entity } => "destroy "@ + dec_digits(entity as int),
        CmdModel::Get { entity, component } => "get "@ + dec_digits(entity as int) + " "@
            + component,
        CmdModel::GetResource { resource } => "get_resource "@ + resource,
        CmdModel::GetWatch { entity, components } => "get+watch "@ + dec_digits(entity as int)
            + " "@ + join_sp(components),
        CmdModel::Insert { entity, components } => "insert "@ + dec_digits(entity as int) + " "@
            + components,
        CmdModel::InsertResource { data } => "insert_resource "@ + data,
        CmdModel::List => "list"@,
        CmdModel::ListResources => "list_resources"@,
        CmdModel::ListEntities => "list_entities"@,
        CmdModel::ListEntity { entity } => "list_entity "@ + dec_digits(entity as int),
        CmdModel::ListWatch { entity } => "list+watch "@ + dec_digits(entity as int),
        CmdModel::Methods => "methods"@,
        CmdModel::MutateComponent { entity, component, patch } => "mutate_component "@
            + dec_digits(entity as int) + " "@ + component + " "@ + patch,
        CmdModel::MutateResource { resource, patch } => "mutate_resource "@ + resource + " "@
            + patch,
        CmdModel::Query { components } => "query "@ + join_sp(components),
        CmdModel::Ready => "ready"@,
        CmdModel::Remove { entity, component } => "remove "@ + dec_digits(entity as int) + " "@
            + component,
        CmdModel::RemoveResource { resource } => "remove_resource "@ + resource,
        CmdModel::Reparent { child, parent } => "reparent "@ + dec_digits(child as int) + " "@
            + parent,
        CmdModel::Screenshot { path } => "screenshot "@ + path,
        CmdModel::Shutdown => "shutdown"@,
        CmdModel::Spawn { components } => "spawn "@ + components,
        CmdModel::Schema { with_crates, without_crates, with_types, without_types } => join_sp(
            schema_parts(with_crates, without_crates, with_types, without_types),
        ),
        CmdModel::Raw { args } => join_sp(args),
    }
}

/// Appends an integer, then a space-separated continuation.
fn push_u64(out: &mut Vec<char>, n: u64)
    ensures
        final(out)@ == old(out)@ + dec_digits(n as int),
{
    let digits = u64_to_chars(n);
    chars_extend(out, &digits);
}

fn push_str(out: &mut Vec<char>, s: &str)
    ensures
        final(out)@ == old(out)@ + s@,
{
    let chars = str_to_chars(s);
    chars_extend(out, &chars);
}

impl Commands {
    /// Renders this command into its textual form. Every variant except the
    /// raw passthrough parses back to the same command.
    pub fn to_text(&self) -> (r: String)
        ensures
            r@ == spec_format_command(self@),
    {
        format_command_inner(self)
    }
}

/// Renders a command back into its textual form. Every variant except the
/// raw passthrough parses back to the same command.
pub fn format_command(cmd: Commands) -> (r: String)
    ensures
        r@ == spec_format_command(cmd@),
{
    format_command_inner(&cmd)
}

fn format_command_inner(cmd: &Commands) -> (r: String)
    ensures
        r@ == spec_format_command(cmd@),
{
    let mut out: Vec<char> = Vec::new();
    match cmd {
        Commands::Destroy { entity } => {
            push_str(&mut out, "destroy ");
            push_u64(&mut out, *entity);
        },
        Commands::Get { entity, component } => {
            push_str(&mut out, "get ");
            push_u64(&mut out, *entity);
            push_str(&mut out, " ");
            push_str(&mut out, component.as_str());
        },
        Commands::GetResource { resource } => {
            push_str(&mut out, "get_resource ");
            push_str(&mut out, resource.as_str());
        },
        Commands::GetWatch { entity, components } => {
            push_str(&mut out, "get+watch ");
            push_u64(&mut out, *entity);
            push_str(&mut out, " ");
            let joined = join_strings(components);
            chars_extend(&mut out, &joined);
        },
        Commands::Insert { entity, components } => {
            push_str(&mut out, "insert ");
            push_u64(&mut out, *entity);
            push_str(&mut out, " ");
            push_str(&mut out, components.as_str());
        },
        Commands::InsertResource { data } => {
            push_str(&mut out, "insert_resource ");
            push_str(&mut out, data.as_str());
        },
        Commands::List => {
            push_str(&mut out, "list");
        },
        Commands::ListResources => {
            push_str(&mut out, "list_resources");
        },
        Commands::ListEntities => {
            push_str(&mut out, "list_entities");
        },
        Commands::ListEntity { entity } => {
            push_str(&mut out, "list_entity ");
            push_u64(&mut out, *entity);
        },
        Commands::ListWatch { entity } => {
            push_str(&mut out, "list+watch ");
            push_u64(&mut out, *entity);
        },
        Commands::Methods => {
            push_str(&mut out, "methods");
        },
        Commands::MutateComponent { entity, component, patch } => {
            push_str(&mut out, "mutate_component ");
            push_u64(&mut out, *entity);
            push_str(&mut out, " ");
            push_str(&mut out, component.as_str());
            push_str(&mut out, " ");
            push_str(&mut out, patch.as_str());
        },
        Commands::MutateResource { resource, patch } => {
            push_str(&mut out, "mutate_resource ");
            push_str(&mut out, resource.as_str());
            push_str(&mut out, " ");
            push_str(&mut out, patch.as_str());
        },
        Commands::Query { components } => {
            push_str(&mut out, "query ");
            let joined = join_strings(components);
            chars_extend(&mut out, &joined);
        },
        Commands::Ready => {
            push_str(&mut out, "ready");
        },
        Commands::Remove { entity, component } => {
            push_str(&mut out, "remove ");
            push_u64(&mut out, *entity);
            push_str(&mut out, " ");
            push_str(&mut out, component.as_str());
        },
        Commands::RemoveResource { resource } => {
            push_str(&mut out, "remove_resource ");
            push_str(&mut out, resource.as_str());
        },
        Commands::Reparent { child, parent } => {
            push_str(&mut out, "reparent ");
            push_u64(&mut out, *child);
            push_str(&mut out, " ");
            push_str(&mut out, parent.as_str());
        },
        Commands::Screenshot { path } => {
            push_str(&mut out, "screenshot ");
            push_str(&mut out, path.as_str());
        },
        Commands::Shutdown => {
            push_str(&mut out, "shutdown");
        },
        Commands::Spawn { components } => {
            push_str(&mut out, "spawn ");
            push_str(&mut out, components.as_str());
        },
        Commands::Schema { with_crates, without_crates, with_types, without_types } => {
            let mut parts: Vec<Vec<char>> = Vec::new();
            parts.push(str_to_chars("schema"));
            match with_crates {
                Some(xs) => {
                    let mut part = str_to_chars("--with-crates ");
                    let joined = join_strings(xs);
                    chars_extend(&mut part, &joined);
                    parts.push(part);
                },
                None => {},
            }
            match without_crates {
                Some(xs) => {
                    let mut part = str_to_chars("--without-crates ");
                    let joined = join_strings(xs);
                    chars_extend(&mut part, &joined);
                    parts.push(part);
                },
                None => {},
            }
            match with_types {
                Some(xs) => {
                    let mut part = str_to_chars("--with-types ");
                    let joined = join_strings(xs);
                    chars_extend(&mut part, &joined);
                    parts.push(part);
                },
                None => {},
            }
            match without_types {
                Some(xs) => {
                    let mut part = str_to_chars("--without-types ");
                    let joined = join_strings(xs);
                    chars_extend(&mut part, &joined);
                    parts.push(part);
                },
                None => {},
            }
            proof {
                assert(toks_model(parts@) =~= schema_parts(
                    opt_strings_model(*with_crates),
                    opt_strings_model(*without_crates),
                    opt_strings_model(*with_types),
                    opt_strings_model(*without_types),
                ));
            }
            let joined = crate::text::join_tokens_from(&parts, 0);
            proof {
                assert(toks_model(parts@).skip(0) =~= toks_model(parts@));
            }
            chars_extend(&mut out, &joined);
        },
        Commands::Raw { args } => {
            let joined = join_strings(args);
            chars_extend(&mut out, &joined);
        },
    }
    proof {
        assert(out@ =~= spec_format_command(cmd@));
    }
    chars_to_string(&out)
}

} // verus!

verus! {

/// Why a command string was rejected.
#[derive(Debug, PartialEq, Eq, Clone, Copy, Structural)]
pub enum CommandParseError {
    /// The string holds no tokens at all.
    Empty,
    /// The command name is known but a required argument is missing.
    MissingArgs,
    /// The entity identifier is not a decimal integer.
    InvalidEntityId,
    /// The first token names no known command.
    UnknownCommand,
}

impl CommandParseError {
    /// A human-readable account of the rejection.
    pub fn message(&self) -> (r: &'static str)
        ensures
            *self is Empty ==> r@ == "Empty command"@,
            *self is MissingArgs ==> r@ == "missing required arguments"@,
            *self is InvalidEntityId ==> r@ == "invalid entity ID: expected a u64 integer"@,
            *self is UnknownCommand ==> r@
                == "Unknown command. Use 'raw <method>' for direct method calls"@,
    {
        match self {
            CommandParseError::Empty => "Empty command",
            CommandParseError::MissingArgs => "missing required arguments",
            CommandParseError::InvalidEntityId => "invalid entity ID: expected a u64 integer",
            CommandParseError::UnknownCommand => {
                "Unknown command. Use 'raw <method>' for direct method calls"
            },
        }
    }
}

/// The schema command's filter flags.
pub struct SchemaFlags {
    pub with_crates: Option<Seq<Seq<char>>>,
    pub without_crates: Option<Seq<Seq<char>>>,
    pub with_types: Option<Seq<Seq<char>>>,
    pub without_types: Option<Seq<Seq<char>>>,
}

/// The run of argument tokens from `j` on that do not start another flag.
pub open spec fn nondash_prefix(args: Seq<Seq<char>>, j: int) -> Seq<Seq<char>>
    decreases args.len() - j,
{
    if j < 0 || j >= args.len() {
        Seq::empty()
    } else if crate::text::has_prefix(args[j], "--"@) {
        Seq::empty()
    } else {
        seq![args[j]] + nondash_prefix(args, j + 1)
    }
}

proof fn lemma_nondash_len(args: Seq<Seq<char>>, j: int)
    ensures
        nondash_prefix(args, j).len() <= (if 0 <= j <= args.len() {
            args.len() - j
        } else {
            0
        }),
    decreases args.len() - j,
{
    if 0 <= j < args.len() && !crate::text::has_prefix(args[j], "--"@) {
        lemma_nondash_len(args, j + 1);
    }
}

/// The value run from `j` ends exactly at the first flag token or the end.
proof fn lemma_nondash_at(args: Seq<Seq<char>>, j: int, k: int)
    requires
        0 <= j <= k <= args.len(),
        forall|m: int| j <= m < k ==> !crate::text::has_prefix(#[trigger] args[m], "--"@),
        k == args.len() || crate::text::has_prefix(args[k], "--"@),
    ensures
        nondash_prefix(args, j) == args.subrange(j, k),
    decreases k - j,
{
    if j == k {
        assert(args.subrange(j, k) =~= Seq::<Seq<char>>::empty());
    } else {
        lemma_nondash_at(args, j + 1, k);
        assert(seq![args[j]] + args.subrange(j + 1, k) =~= args.subrange(j, k));
    }
}

/// The flag scan of the schema command: each flag keyword takes the run of
/// following non-flag tokens as its values, when that run is non-empty.
pub open spec fn schema_scan(args: Seq<Seq<char>>, i: int, f: SchemaFlags) -> SchemaFlags
    decreases args.len() - i,
    via schema_scan_dec
{
    if i < 0 || i >= args.len() {
        f
    } else if args[i] == "--with-crates"@ {
        let vals = nondash_prefix(args, i + 1);
        if i + 1 < args.len() && vals.len() > 0 {
            schema_scan(args, i + vals.len() + 1, SchemaFlags { with_crates: Some(vals), ..f })
        } else {
            schema_scan(args, i + 1, f)
        }
    } else if args[i] == "--without-crates"@ {
        let vals = nondash_prefix(args, i + 1);
        if i + 1 < args.len() && vals.len() > 0 {
            schema_scan(args, i + vals.len() + 1, SchemaFlags { without_crates: Some(vals), ..f })
        } else {
            schema_scan(args, i + 1, f)
        }
    } else if args[i] == "--with-types"@ {
        let vals = nondash_prefix(args, i + 1);
        if i + 1 < args.len() && vals.len() > 0 {
            schema_scan(args, i + vals.len() + 1, SchemaFlags { with_types: Some(vals), ..f })
        } else {
            schema_scan(args, i + 1, f)
        }
    } else if args[i] == "--without-types"@ {
        let vals = nondash_prefix(args, i + 1);
        if i + 1 < args.len() && vals.len() > 0 {
            schema_scan(args, i + vals.len() + 1, SchemaFlags { without_types: Some(vals), ..f })
        } else {
            schema_scan(args, i + 1, f)
        }
    } else {
        schema_scan(args, i + 1, f)
    }
}

#[via_fn]
proof fn schema_scan_dec(args: Seq<Seq<char>>, i: int, f: SchemaFlags) {
    lemma_nondash_len(args, i + 1);
}

/// The empty flag set.
pub open spec fn schema_flags_none() -> SchemaFlags {
    SchemaFlags { with_crates: None, without_crates: None, with_types: None, without_types: None }
}

/// What parsing a command string yields: the tokens decide the command; a
/// known name with too few arguments, a malformed entity identifier, an
/// unknown name and an empty string are each rejected with their own error.
pub open spec fn spec_parse_command(s: Seq<char>) -> Result<CmdModel, CommandParseError> {
    let toks = split_ws(s);
    if toks.len() == 0 {
        Err(CommandParseError::Empty)
    } else {
        let name = toks[0];
        let args = toks.drop_first();
        if name == "destroy"@ {
            if args.len() < 1 {
                Err(CommandParseError::MissingArgs)
            } else {
                match spec_parse_u64(args[0]) {
                    Some(e) => Ok(CmdModel::Destroy { entity: e }),
                    None => Err(CommandParseError::InvalidEntityId),
                }
            }
        } else if name == "get"@ {
            if args.len() < 2 {
                Err(CommandParseError::MissingArgs)
            } else {
                match spec_parse_u64(args[0]) {
                    Some(e) => Ok(CmdModel::Get { entity: e, component: args[1] }),
                    None => Err(CommandParseError::InvalidEntityId),
                }
            }
        } else if name == "get_resource"@ {
            if args.len() < 1 {
                Err(CommandParseError::MissingArgs)
            } else {
                Ok(CmdModel::GetResource { resource: join_sp(args) })
            }
        } else if name == "get+watch"@ {
            if args.len() < 2 {
                Err(CommandParseError::MissingArgs)
            } else {
                match spec_parse_u64(args[0]) {
                    Some(e) => Ok(CmdModel::GetWatch { entity: e, components: args.drop_first() }),
                    None => Err(CommandParseError::InvalidEntityId),
                }
            }
        } else if name == "insert"@ {
            if args.len() < 2 {
                Err(CommandParseError::MissingArgs)
            } else {
                match spec_parse_u64(args[0]) {
                    Some(e) => Ok(
                        CmdModel::Insert { entity: e, components: join_sp(args.drop_first()) },
                    ),
                    None => Err(CommandParseError::InvalidEntityId),
                }
            }
        } else if name == "insert_resource"@ {
            if args.len() < 1 {
                Err(CommandParseError::MissingArgs)
            } else {
                Ok(CmdModel::InsertResource { data: join_sp(args) })
            }
        } else if name == "list"@ {
            Ok(CmdModel::List)
        } else if name == "list_resources"@ {
            Ok(CmdModel::ListResources)
        } else if name == "list_entities"@ {
            Ok(CmdModel::ListEntities)
        } else if name == "list_entity"@ {
            if args.len() < 1 {
                Err(CommandParseError::MissingArgs)
            } else {
                match spec_parse_u64(args[0]) {
                    Some(e) => Ok(CmdModel::ListEntity { entity: e }),
                    None => Err(CommandParseError::InvalidEntityId),
                }
            }
        } else if name == "list+watch"@ {
            if args.len() < 1 {
                Err(CommandParseError::MissingArgs)
            } else {
                match spec_parse_u64(args[0]) {
                    Some(e) => Ok(CmdModel::ListWatch { entity: e }),
                    None => Err(CommandParseError::InvalidEntityId),
                }
            }
        } else if name == "methods"@ {
            Ok(CmdModel::Methods)
        } else if name == "mutate_component"@ {
            if args.len() < 3 {
                Err(CommandParseError::MissingArgs)
            } else {
                match spec_parse_u64(args[0]) {
                    Some(e) => Ok(
                        CmdModel::MutateComponent {
                            entity: e,
                            component: args[1],
                            patch: join_sp(args.skip(2)),
                        },
                    ),
                    None => Err(CommandParseError::InvalidEntityId),
                }
            }
        } else if name == "mutate_resource"@ {
            if args.len() < 2 {
                Err(CommandParseError::MissingArgs)
            } else {
                Ok(
                    CmdModel::MutateResource {
                        resource: args[0],
                        patch: join_sp(args.drop_first()),
                    },
                )
            }
        } else if name == "query"@ {
            if args.len() < 1 {
                Err(CommandParseError::MissingArgs)
            } else {
                Ok(CmdModel::Query { components: args })
            }
        } else if name == "ready"@ {
            Ok(CmdModel::Ready)
        } else if name == "remove"@ {
            if args.len() < 2 {
                Err(CommandParseError::MissingArgs)
            } else {
                match spec_parse_u64(args[0]) {
                    Some(e) => Ok(CmdModel::Remove { entity: e, component: args[1] }),
                    None => Err(CommandParseError::InvalidEntityId),
                }
            }
        } else if name == "remove_resource"@ {
            if args.len() < 1 {
                Err(CommandParseError::MissingArgs)
            } else {
                Ok(CmdModel::RemoveResource { resource: join_sp(args) })
            }
        } else if name == "reparent"@ {
            if args.len() < 2 {
                Err(CommandParseError::MissingArgs)
            } else {
                match spec_parse_u64(args[0]) {
                    Some(c) => Ok(CmdModel::Reparent { child: c, parent: args[1] }),
                    None => Err(CommandParseError::InvalidEntityId),
                }
            }
        } else if name == "screenshot"@ {
            if args.len() < 1 {
                Err(CommandParseError::MissingArgs)
            } else {
                Ok(CmdModel::Screenshot { path: join_sp(args) })
            }
        } else if name == "shutdown"@ {
            Ok(CmdModel::Shutdown)
        } else if name == "spawn"@ {
            if args.len() < 1 {
                Err(CommandParseError::MissingArgs)
            } else {
                Ok(CmdModel::Spawn { components: join_sp(args) })
            }
        } else if name == "schema"@ {
            let f = schema_scan(args, 0, schema_flags_none());
            Ok(
                CmdModel::Schema {
                    with_crates: f.with_crates,
                    without_crates: f.without_crates,
                    with_types: f.with_types,
                    without_types: f.without_types,
                },
            )
        } else if name == "raw"@ {
            if args.len() < 1 {
                Err(CommandParseError::MissingArgs)
            } else {
                Ok(CmdModel::Raw { args: args })
            }
        } else {
            Err(CommandParseError::UnknownCommand)
        }
    }
}

/// Copies the tokens from `from` to `to` into owned strings.
fn toks_to_strings(toks: &Vec<Vec<char>>, from: usize, to: usize) -> (r: Vec<String>)
    requires
        from <= to <= toks@.len(),
    ensures
        strings_model(r@) == toks_model(toks@).subrange(from as int, to as int),
{
    let mut r: Vec<String> = Vec::new();
    let mut i = from;
    proof {
        assert(strings_model(r@) =~= toks_model(toks@).subrange(from as int, from as int));
    }
    while i < to
        invariant
            from <= i <= to <= toks@.len(),
            strings_model(r@) =~= toks_model(toks@).subrange(from as int, i as int),
        decreases to - i,
    {
        let s = chars_to_string(&toks[i]);
        proof {
            assert(strings_model(r@.push(s)) =~= strings_model(r@).push(s@));
            assert(toks_model(toks@).subrange(from as int, i + 1) =~= toks_model(toks@).subrange(
                from as int,
                i as int,
            ).push(toks_model(toks@)[i as int]));
        }
        r.push(s);
        i = i + 1;
    }
    r
}

} // verus!

verus! {

/// Parses one command string into its typed form; errors exactly as
/// [`spec_parse_command`] lays down.
pub fn parse_command_string(command: &str) -> (r: Result<Commands, CommandParseError>)
    ensures
        match r {
            Ok(c) => spec_parse_command(command@) == Ok::<CmdModel, CommandParseError>(c@),
            Err(e) => spec_parse_command(command@) == Err::<CmdModel, CommandParseError>(e),
        },
{
    let chars = str_to_chars(command);
    let toks = split_ws_chars(&chars);
    let ghost model = toks_model(toks@);
    proof {
        assert(model == split_ws(command@));
        assert(forall|k: int| 0 <= k < toks@.len() ==> #[trigger] model[k] == toks@[k]@);
    }
    if toks.len() == 0 {
        return Err(CommandParseError::Empty);
    }
    let ghost args = model.drop_first();
    proof {
        assert(forall|k: int| 0 <= k < args.len() ==> #[trigger] args[k] == model[k + 1]);
        assert(args =~= model.skip(1));
    }
    let name = &toks[0];
    if chars_eq_str(name, "destroy") {
        if toks.len() < 2 {
            return Err(CommandParseError::MissingArgs);
        }
        match parse_u64_chars(&toks[1]) {
            Some(e) => Ok(Commands::Destroy { entity: e }),
            None => Err(CommandParseError::InvalidEntityId),
        }
    } else if chars_eq_str(name, "get") {
        if toks.len() < 3 {
            return Err(CommandParseError::MissingArgs);
        }
        match parse_u64_chars(&toks[1]) {
            Some(e) => Ok(Commands::Get { entity: e, component: chars_to_string(&toks[2]) }),
            None => Err(CommandParseError::InvalidEntityId),
        }
    } else if chars_eq_str(name, "get_resource") {
        if toks.len() < 2 {
            return Err(CommandParseError::MissingArgs);
        }
        let joined = crate::text::join_tokens_from(&toks, 1);
        proof {
            assert(model.skip(1) == args);
        }
        Ok(Commands::GetResource { resource: chars_to_string(&joined) })
    } else if chars_eq_str(name, "get+watch") {
        if toks.len() < 3 {
            return Err(CommandParseError::MissingArgs);
        }
        match parse_u64_chars(&toks[1]) {
            Some(e) => {
                let components = toks_to_strings(&toks, 2, toks.len());
                proof {
                    assert(model.subrange(2, model.len() as int) =~= args.drop_first());
                }
                Ok(Commands::GetWatch { entity: e, components })
            },
            None => Err(CommandParseError::InvalidEntityId),
        }
    } else if chars_eq_str(name, "insert") {
        if toks.len() < 3 {
            return Err(CommandParseError::MissingArgs);
        }
        match parse_u64_chars(&toks[1]) {
            Some(e) => {
                let joined = crate::text::join_tokens_from(&toks, 2);
                proof {
                    assert(model.skip(2) =~= args.drop_first());
                }
                Ok(Commands::Insert { entity: e, components: chars_to_string(&joined) })
            },
            None => Err(CommandParseError::InvalidEntityId),
        }
    } else if chars_eq_str(name, "insert_resource") {
        if toks.len() < 2 {
            return Err(CommandParseError::MissingArgs);
        }
        let joined = crate::text::join_tokens_from(&toks, 1);
        proof {
            assert(model.skip(1) == args);
        }
        Ok(Commands::InsertResource { data: chars_to_string(&joined) })
    } else if chars_eq_str(name, "list") {
        Ok(Commands::List)
    } else if chars_eq_str(name, "list_resources") {
        Ok(Commands::ListResources)
    } else if chars_eq_str(name, "list_entities") {
        Ok(Commands::ListEntities)
    } else if chars_eq_str(name, "list_entity") {
        if toks.len() < 2 {
            return Err(CommandParseError::MissingArgs);
        }
        match parse_u64_chars(&toks[1]) {
            Some(e) => Ok(Commands::ListEntity { entity: e }),
            None => Err(CommandParseError::InvalidEntityId),
        }
    } else if chars_eq_str(name, "list+watch") {
        if toks.len() < 2 {
            return Err(CommandParseError::MissingArgs);
        }
        match parse_u64_chars(&toks[1]) {
            Some(e) => Ok(Commands::ListWatch { entity: e }),
            None => Err(CommandParseError::InvalidEntityId),
        }
    } else if chars_eq_str(name, "methods") {
        Ok(Commands::Methods)
    } else if chars_eq_str(name, "mutate_component") {
        if toks.len() < 4 {
            return Err(CommandParseError::MissingArgs);
        }
        match parse_u64_chars(&toks[1]) {
            Some(e) => {
                let joined = crate::text::join_tokens_from(&toks, 3);
                proof {
                    assert(model.skip(3) =~= args.skip(2));
                }
                Ok(
                    Commands::MutateComponent {
                        entity: e,
                        component: chars_to_string(&toks[2]),
                        patch: chars_to_string(&joined),
                    },
                )
            },
            None => Err(CommandParseError::InvalidEntityId),
        }
    } else if chars_eq_str(name, "mutate_resource") {
        if toks.len() < 3 {
            return Err(CommandParseError::MissingArgs);
        }
        let joined = crate::text::join_tokens_from(&toks, 2);
        proof {
            assert(model.skip(2) =~= args.drop_first());
        }
        Ok(
            Commands::MutateResource {
                resource: chars_to_string(&toks[1]),
                patch: chars_to_string(&joined),
            },
        )
    } else if chars_eq_str(name, "query") {
        if toks.len() < 2 {
            return Err(CommandParseError::MissingArgs);
        }
        let components = toks_to_strings(&toks, 1, toks.len());
        proof {
            assert(model.subrange(1, model.len() as int) =~= args);
        }
        Ok(Commands::Query { components })
    } else if chars_eq_str(name, "ready") {
        Ok(Commands::Ready)
    } else if chars_eq_str(name, "remove") {
        if toks.len() < 3 {
            return Err(CommandParseError::MissingArgs);
        }
        match parse_u64_chars(&toks[1]) {
            Some(e) => Ok(Commands::Remove { entity: e, component: chars_to_string(&toks[2]) }),
            None => Err(CommandParseError::InvalidEntityId),
        }
    } else if chars_eq_str(name, "remove_resource") {
        if toks.len() < 2 {
            return Err(CommandParseError::MissingArgs);
        }
        let joined = crate::text::join_tokens_from(&toks, 1);
        proof {
            assert(model.skip(1) == args);
        }
        Ok(Commands::RemoveResource { resource: chars_to_string(&joined) })
    } else if chars_eq_str(name, "reparent") {
        if toks.len() < 3 {
            return Err(CommandParseError::MissingArgs);
        }
        match parse_u64_chars(&toks[1]) {
            Some(c) => Ok(Commands::Reparent { child: c, parent: chars_to_string(&toks[2]) }),
            None => Err(CommandParseError::InvalidEntityId),
        }
    } else if chars_eq_str(name, "screenshot") {
        if toks.len() < 2 {
            return Err(CommandParseError::MissingArgs);
        }
        let joined = crate::text::join_tokens_from(&toks, 1);
        proof {
            assert(model.skip(1) == args);
        }
        Ok(Commands::Screenshot { path: chars_to_string(&joined) })
    } else if chars_eq_str(name, "shutdown") {
        Ok(Commands::Shutdown)
    } else if chars_eq_str(name, "spawn") {
        if toks.len() < 2 {
            return Err(CommandParseError::MissingArgs);
        }
        let joined = crate::text::join_tokens_from(&toks, 1);
        proof {
            assert(model.skip(1) == args);
        }
        Ok(Commands::Spawn { components: chars_to_string(&joined) })
    } else if chars_eq_str(name, "schema") {
        let n = toks.len();
        let mut wc: Option<Vec<String>> = None;
        let mut woc: Option<Vec<String>> = None;
        let mut wt: Option<Vec<String>> = None;
        let mut wot: Option<Vec<String>> = None;
        let mut j: usize = 1;
        while j < n
            invariant
                1 <= j <= n,
                n == toks@.len(),
                model == toks_model(toks@),
                args == model.drop_first(),
                forall|k: int| 0 <= k < toks@.len() ==> #[trigger] model[k] == toks@[k]@,
                forall|k: int| 0 <= k < args.len() ==> #[trigger] args[k] == model[k + 1],
                schema_scan(args, 0, schema_flags_none()) == schema_scan(
                    args,
                    j - 1,
                    SchemaFlags {
                        with_crates: opt_strings_model(wc),
                        without_crates: opt_strings_model(woc),
                        with_types: opt_strings_model(wt),
                        without_types: opt_strings_model(wot),
                    },
                ),
            decreases n - j,
        {
            let ghost cur = SchemaFlags {
                with_crates: opt_strings_model(wc),
                without_crates: opt_strings_model(woc),
                with_types: opt_strings_model(wt),
                without_types: opt_strings_model(wot),
            };
            let ghost ai = j - 1;
            let is_wc = chars_eq_str(&toks[j], "--with-crates");
            let is_woc = chars_eq_str(&toks[j], "--without-crates");
            let is_wt = chars_eq_str(&toks[j], "--with-types");
            let is_wot = chars_eq_str(&toks[j], "--without-types");
            proof {
                assert(args[ai as int] == toks@[j as int]@);
            }
            if is_wc || is_woc || is_wt || is_wot {
                let dashdash = str_to_chars("--");
                let mut k = j + 1;
                loop
                    invariant_except_break
                        j + 1 <= k <= n,
                        n == toks@.len(),
                        model == toks_model(toks@),
                        args == model.drop_first(),
                        forall|m: int| 0 <= m < toks@.len() ==> #[trigger] model[m] == toks@[m]@,
                        forall|m: int| 0 <= m < args.len() ==> #[trigger] args[m] == model[m + 1],
                        dashdash@ == "--"@,
                        forall|m: int|
                            j + 1 <= m < k ==> !crate::text::has_prefix(
                                #[trigger] model[m],
                                "--"@,
                            ),
                    ensures
                        j + 1 <= k <= n,
                        forall|m: int|
                            j + 1 <= m < k ==> !crate::text::has_prefix(
                                #[trigger] model[m],
                                "--"@,
                            ),
                        k == n || crate::text::has_prefix(model[k as int], "--"@),
                    decreases n - k,
                {
                    if k == n {
                        break;
                    }
                    if chars_have_prefix(&toks[k], &dashdash) {
                        proof {
                            assert(model[k as int] == toks@[k as int]@);
                        }
                        break;
                    }
                    proof {
                        assert(model[k as int] == toks@[k as int]@);
                    }
                    k = k + 1;
                }
                proof {
                    assert(forall|m: int|
                        ai + 1 <= m < k - 1 ==> !crate::text::has_prefix(
                            #[trigger] args[m],
                            "--"@,
                        ));
                    if k < n {
                        assert(crate::text::has_prefix(args[k - 1], "--"@));
                    }
                    lemma_nondash_at(args, ai + 1, k - 1);
                }
                if k > j + 1 {
                    let vals = toks_to_strings(&toks, j + 1, k);
                    proof {
                        assert(model.subrange(j + 1, k as int) =~= args.subrange(ai + 1, k - 1));
                        assert(strings_model(vals@) == nondash_prefix(args, ai + 1));
                    }
                    if is_wc {
                        wc = Some(vals);
                    } else if is_woc {
                        woc = Some(vals);
                    } else if is_wt {
                        wt = Some(vals);
                    } else {
                        wot = Some(vals);
                    }
                    proof {
                        let vlen = nondash_prefix(args, ai + 1).len();
                        assert(vlen == k - 1 - (ai + 1) + 0);
                        assert(ai + vlen + 1 == k - 1);
                    }
                    j = k;
                } else {
                    proof {
                        assert(nondash_prefix(args, ai + 1).len() == 0);
                    }
                    j = j + 1;
                }
            } else {
                j = j + 1;
            }
        }
        Ok(Commands::Schema { with_crates: wc, without_crates: woc, with_types: wt, without_types: wot })
    } else if chars_eq_str(name, "raw") {
        if toks.len() < 2 {
            return Err(CommandParseError::MissingArgs);
        }
        let raw_args = toks_to_strings(&toks, 1, toks.len());
        proof {
            assert(model.subrange(1, model.len() as int) =~= args);
        }
        Ok(Commands::Raw { args: raw_args })
    } else {
        Err(CommandParseError::UnknownCommand)
    }
}

impl core::str::FromStr for Commands {
    type Err = CommandParseError;

    fn from_str(command: &str) -> Result<Commands, CommandParseError> {
        parse_command_string(command)
    }
}

} // verus!

verus! {

/// The views of a list of static names.
pub open spec fn names_model(items: Seq<&'static str>) -> Seq<Seq<char>> {
    items.map_values(|s: &'static str| s@)
}

/// Descriptive metadata of one command: all of its names, the protocol
/// form first, and a one-line description.
pub struct CommandMetadata {
    pub names: Vec<&'static str>,
    pub brief: &'static str,
}

/// Every name of a command, the full protocol name first, then the short
/// form where one exists.
pub open spec fn spec_names(c: CmdModel) -> Seq<Seq<char>> {
    match c {
        CmdModel::List => seq!["bevy/list"@, "list"@],
        CmdModel::Query { .. } => seq!["bevy/query"@, "query"@],
        CmdModel::Get { .. } => seq!["bevy/get"@, "get"@],
        CmdModel::Spawn { .. } => seq!["bevy/spawn"@, "spawn"@],
        CmdModel::Destroy { .. } => seq!["bevy/destroy"@, "destroy"@],
        CmdModel::Insert { .. } => seq!["bevy/insert"@, "insert"@],
        CmdModel::Remove { .. } => seq!["bevy/remove"@, "remove"@],
        CmdModel::Reparent { .. } => seq!["bevy/reparent"@, "reparent"@],
        CmdModel::MutateComponent { .. } => seq!["bevy/mutate_component"@, "mutate_component"@],
        CmdModel::ListResources => seq!["bevy/list_resources"@, "list_resources"@],
        CmdModel::GetResource { .. } => seq!["bevy/get_resource"@, "get_resource"@],
        CmdModel::InsertResource { .. } => seq!["bevy/insert_resource"@, "insert_resource"@],
        CmdModel::RemoveResource { .. } => seq!["bevy/remove_resource"@, "remove_resource"@],
        CmdModel::MutateResource { .. } => seq!["bevy/mutate_resource"@, "mutate_resource"@],
        CmdModel::ListWatch { .. } => seq!["bevy/list+watch"@, "list+watch"@],
        CmdModel::GetWatch { .. } => seq!["bevy/get+watch"@, "get+watch"@],
        CmdModel::Schema { .. } => seq!["bevy/registry/schema"@, "schema"@],
        CmdModel::Screenshot { .. } => seq!["brp_tool/screenshot"@, "screenshot"@],
        CmdModel::Ready => seq!["ready"@],
        CmdModel::Shutdown => seq!["brp_tool/shutdown"@, "shutdown"@],
        CmdModel::Methods => seq!["methods"@],
        CmdModel::ListEntities => seq!["list_entities"@],
        CmdModel::ListEntity { .. } => seq!["list_entity"@],
        CmdModel::Raw { .. } => seq!["raw"@],
    }
}

/// The one-line description of a command.
pub open spec fn spec_brief(c: CmdModel) -> Seq<char> {
    match c {
        CmdModel::List => "List all component types in the world"@,
        CmdModel::Query { .. } => "Query entities with specific components"@,
        CmdModel::Get { .. } => "Get component data from a specific entity"@,
        CmdModel::Spawn { .. } => "Spawn new entities with components"@,
        CmdModel::Destroy { .. } => "Destroy entities"@,
        CmdModel::Insert { .. } => "Insert components on existing entities"@,
        CmdModel::Remove { .. } => "Remove components from entities"@,
        CmdModel::Reparent { .. } => "Change entity parent-child relationships"@,
        CmdModel::MutateComponent { .. } => "Modify specific fields of a component"@,
        CmdModel::ListResources => "List all resources in the world"@,
        CmdModel::GetResource { .. } => "Get current value of a resource"@,
        CmdModel::InsertResource { .. } => "Insert or update a resource"@,
        CmdModel::RemoveResource { .. } => "Remove a resource from the world"@,
        CmdModel::MutateResource { .. } => "Modify specific fields of a resource"@,
        CmdModel::ListWatch { .. } => "Watch component changes on an entity"@,
        CmdModel::GetWatch { .. } => "Watch component data changes on an entity"@,
        CmdModel::Schema { .. } => "Get JSON schemas for registered types"@,
        CmdModel::Screenshot { .. } => "Take a screenshot and save to file"@,
        CmdModel::Ready => "Check if app is ready for commands"@,
        CmdModel::Shutdown => "Gracefully shutdown the application"@,
        CmdModel::Methods => "List commands available from running app"@,
        CmdModel::ListEntities => "List all entities with their components"@,
        CmdModel::ListEntity { .. } => "Get all component data for a single entity"@,
        CmdModel::Raw { .. } => "Execute any command directly (bypass CLI parsing)"@,
    }
}

/// The primary name of a command: the first of its names.
pub open spec fn spec_primary(c: CmdModel) -> Seq<char> {
    spec_names(c)[0]
}

fn one_name(a: &'static str) -> (r: Vec<&'static str>)
    ensures
        names_model(r@) == seq![a@],
{
    let mut v: Vec<&'static str> = Vec::new();
    v.push(a);
    proof {
        assert(names_model(v@) =~= seq![a@]);
    }
    v
}

fn two_names(a: &'static str, b: &'static str) -> (r: Vec<&'static str>)
    ensures
        names_model(r@) == seq![a@, b@],
{
    let mut v: Vec<&'static str> = Vec::new();
    v.push(a);
    v.push(b);
    proof {
        assert(names_model(v@) =~= seq![a@, b@]);
    }
    v
}

/// The coarse grouping the listings use.
#[derive(Debug, Clone, Copy, PartialEq, Eq, Structural)]
pub enum CommandCategory {
    BevyEntity,
    BevyResource,
    BevyWatch,
    BrpTool,
    Special,
}

impl CommandCategory {
    /// The heading a listing prints for this category.
    pub fn label(&self) -> (r: &'static str)
        ensures
            *self is BevyEntity ==> r@ == "ENTITY/COMPONENT COMMANDS"@,
            *self is BevyResource ==> r@ == "RESOURCE COMMANDS"@,
            *self is BevyWatch ==> r@ == "WATCH COMMANDS (streaming - press Ctrl+C to stop)"@,
            *self is BrpTool ==> r@ == "BRP TOOL COMMANDS (requires BrpToolPlugin)"@,
            *self is Special ==> r@ == "SPECIAL COMMANDS"@,
    {
        match self {
            CommandCategory::BevyEntity => "ENTITY/COMPONENT COMMANDS",
            CommandCategory::BevyResource => "RESOURCE COMMANDS",
            CommandCategory::BevyWatch => "WATCH COMMANDS (streaming - press Ctrl+C to stop)",
            CommandCategory::BrpTool => "BRP TOOL COMMANDS (requires BrpToolPlugin)",
            CommandCategory::Special => "SPECIAL COMMANDS",
        }
    }
}

/// The category of a command.
pub open spec fn spec_category(c: CmdModel) -> CommandCategory {
    match c {
        CmdModel::List
        | CmdModel::Query { .. }
        | CmdModel::Get { .. }
        | CmdModel::Spawn { .. }
        | CmdModel::Destroy { .. }
        | CmdModel::Insert { .. }
        | CmdModel::Remove { .. }
        | CmdModel::Reparent { .. }
        | CmdModel::MutateComponent { .. }
        | CmdModel::Schema { .. }
        | CmdModel::ListEntities
        | CmdModel::ListEntity { .. } => CommandCategory::BevyEntity,
        CmdModel::ListResources
        | CmdModel::GetResource { .. }
        | CmdModel::InsertResource { .. }
        | CmdModel::RemoveResource { .. }
        | CmdModel::MutateResource { .. } => CommandCategory::BevyResource,
        CmdModel::ListWatch { .. } | CmdModel::GetWatch { .. } => CommandCategory::BevyWatch,
        CmdModel::Screenshot { .. } | CmdModel::Shutdown => CommandCategory::BrpTool,
        CmdModel::Methods | CmdModel::Ready => CommandCategory::Special,
        CmdModel::Raw { .. } => CommandCategory::Special,
    }
}

impl Commands {
    /// This command's metadata: its names, protocol form first, and its
    /// one-line description.
    pub fn metadata(&self) -> (r: CommandMetadata)
        ensures
            names_model(r.names@) == spec_names(self@),
            r.brief@ == spec_brief(self@),
    {
        match self {
            Commands::List => CommandMetadata {
                names: two_names("bevy/list", "list"),
                brief: "List all component types in the world",
            },
            Commands::Query { .. } => CommandMetadata {
                names: two_names("bevy/query", "query"),
                brief: "Query entities with specific components",
            },
            Commands::Get { .. } => CommandMetadata {
                names: two_names("bevy/get", "get"),
                brief: "Get component data from a specific entity",
            },
            Commands::Spawn { .. } => CommandMetadata {
                names: two_names("bevy/spawn", "spawn"),
                brief: "Spawn new entities with components",
            },
            Commands::Destroy { .. } => CommandMetadata {
                names: two_names("bevy/destroy", "destroy"),
                brief: "Destroy entities",
            },
            Commands::Insert { .. } => CommandMetadata {
                names: two_names("bevy/insert", "insert"),
                brief: "Insert components on existing entities",
            },
            Commands::Remove { .. } => CommandMetadata {
                names: two_names("bevy/remove", "remove"),
                brief: "Remove components from entities",
            },
            Commands::Reparent { .. } => CommandMetadata {
                names: two_names("bevy/reparent", "reparent"),
                brief: "Change entity parent-child relationships",
            },
            Commands::MutateComponent { .. } => CommandMetadata {
                names: two_names("bevy/mutate_component", "mutate_component"),
                brief: "Modify specific fields of a component",
            },
            Commands::ListResources => CommandMetadata {
                names: two_names("bevy/list_resources", "list_resources"),
                brief: "List all resources in the world",
            },
            Commands::GetResource { .. } => CommandMetadata {
                names: two_names("bevy/get_resource", "get_resource"),
                brief: "Get current value of a resource",
            },
            Commands::InsertResource { .. } => CommandMetadata {
                names: two_names("bevy/insert_resource", "insert_resource"),
                brief: "Insert or update a resource",
            },
            Commands::RemoveResource { .. } => CommandMetadata {
                names: two_names("bevy/remove_resource", "remove_resource"),
                brief: "Remove a resource from the world",
            },
            Commands::MutateResource { .. } => CommandMetadata {
                names: two_names("bevy/mutate_resource", "mutate_resource"),
                brief: "Modify specific fields of a resource",
            },
            Commands::ListWatch { .. } => CommandMetadata {
                names: two_names("bevy/list+watch", "list+watch"),
                brief: "Watch component changes on an entity",
            },
            Commands::GetWatch { .. } => CommandMetadata {
                names: two_names("bevy/get+watch", "get+watch"),
                brief: "Watch component data changes on an entity",
            },
            Commands::Schema { .. } => CommandMetadata {
                names: two_names("bevy/registry/schema", "schema"),
                brief: "Get JSON schemas for registered types",
            },
            Commands::Screenshot { .. } => CommandMetadata {
                names: two_names("brp_tool/screenshot", "screenshot"),
                brief: "Take a screenshot and save to file",
            },
            Commands::Ready => CommandMetadata {
                names: one_name("ready"),
                brief: "Check if app is ready for commands",
            },
            Commands::Shutdown => CommandMetadata {
                names: two_names("brp_tool/shutdown", "shutdown"),
                brief: "Gracefully shutdown the application",
            },
            Commands::Methods => CommandMetadata {
                names: one_name("methods"),
                brief: "List commands available from running app",
            },
            Commands::ListEntities => CommandMetadata {
                names: one_name("list_entities"),
                brief: "List all entities with their components",
            },
            Commands::ListEntity { .. } => CommandMetadata {
                names: one_name("list_entity"),
                brief: "Get all component data for a single entity",
            },
            Commands::Raw { .. } => CommandMetadata {
                names: one_name("raw"),
                brief: "Execute any command directly (bypass CLI parsing)",
            },
        }
    }

    /// All names this command answers to.
    pub fn names(&self) -> (r: Vec<&'static str>)
        ensures
            names_model(r@) == spec_names(self@),
    {
        self.metadata().names
    }

    /// The one-line description of this command.
    pub fn brief_description(&self) -> (r: &'static str)
        ensures
            r@ == spec_brief(self@),
    {
        self.metadata().brief
    }

    /// The primary, fully qualified name of this command.
    pub fn primary_name(&self) -> (r: &'static str)
        ensures
            r@ == spec_primary(self@),
    {
        let names = self.names();
        proof {
            assert(spec_names(self@).len() >= 1);
        }
        names[0]
    }

    /// A help line for this command: its protocol name and what it does.
    pub fn detailed_help(&self) -> (r: String)
        ensures
            r@ == spec_primary(self@) + " - "@ + spec_brief(self@),
    {
        let mut out = str_to_chars(self.primary_name());
        let sep = str_to_chars(" - ");
        chars_extend(&mut out, &sep);
        let brief = str_to_chars(self.brief_description());
        chars_extend(&mut out, &brief);
        chars_to_string(&out)
    }

    /// The category this command is listed under.
    pub fn category(&self) -> (r: CommandCategory)
        ensures
            r == spec_category(self@),
    {
        match self {
            Commands::List
            | Commands::Query { .. }
            | Commands::Get { .. }
            | Commands::Spawn { .. }
            | Commands::Destroy { .. }
            | Commands::Insert { .. }
            | Commands::Remove { .. }
            | Commands::Reparent { .. }
            | Commands::MutateComponent { .. }
            | Commands::Schema { .. }
            | Commands::ListEntities
            | Commands::ListEntity { .. } => CommandCategory::BevyEntity,
            Commands::ListResources
            | Commands::GetResource { .. }
            | Commands::InsertResource { .. }
            | Commands::RemoveResource { .. }
            | Commands::MutateResource { .. } => CommandCategory::BevyResource,
            Commands::ListWatch { .. } | Commands::GetWatch { .. } => CommandCategory::BevyWatch,
            Commands::Screenshot { .. } | Commands::Shutdown => CommandCategory::BrpTool,
            Commands::Methods | Commands::Ready => CommandCategory::Special,
            Commands::Raw { .. } => CommandCategory::Special,
        }
    }
}

} // verus!

verus! {

/// A command shape without its arguments, for iterating the vocabulary.
#[derive(Debug, Clone, Copy, PartialEq, Eq, Structural)]
pub enum CommandTemplate {
    Destroy,
    Get,
    GetResource,
    GetWatch,
    Insert,
    InsertResource,
    List,
    ListResources,
    ListEntities,
    ListEntity,
    ListWatch,
    Methods,
    MutateComponent,
    MutateResource,
    Query,
    Ready,
    Remove,
    RemoveResource,
    Reparent,
    Screenshot,
    Shutdown,
    Spawn,
    Schema,
    Raw,
}

/// The command a template stands for, with placeholder arguments.
pub open spec fn spec_template_default(t: CommandTemplate) -> CmdModel {
    match t {
        CommandTemplate::Destroy => CmdModel::Destroy { entity: 0 },
        CommandTemplate::Get => CmdModel::Get { entity: 0, component: Seq::empty() },
        CommandTemplate::GetResource => CmdModel::GetResource { resource: Seq::empty() },
        CommandTemplate::GetWatch => CmdModel::GetWatch { entity: 0, components: Seq::empty() },
        CommandTemplate::Insert => CmdModel::Insert { entity: 0, components: Seq::empty() },
        CommandTemplate::InsertResource => CmdModel::InsertResource { data: Seq::empty() },
        CommandTemplate::List => CmdModel::List,
        CommandTemplate::ListResources => CmdModel::ListResources,
        CommandTemplate::ListEntities => CmdModel::ListEntities,
        CommandTemplate::ListEntity => CmdModel::ListEntity { entity: 0 },
        CommandTemplate::ListWatch => CmdModel::ListWatch { entity: 0 },
        CommandTemplate::Methods => CmdModel::Methods,
        CommandTemplate::MutateComponent => CmdModel::MutateComponent {
            entity: 0,
            component: Seq::empty(),
            patch: Seq::empty(),
        },
        CommandTemplate::MutateResource => CmdModel::MutateResource {
            resource: Seq::empty(),
            patch: Seq::empty(),
        },
        CommandTemplate::Query => CmdModel::Query { components: Seq::empty() },
        CommandTemplate::Ready => CmdModel::Ready,
        CommandTemplate::Remove => CmdModel::Remove { entity: 0, component: Seq::empty() },
        CommandTemplate::RemoveResource => CmdModel::RemoveResource { resource: Seq::empty() },
        CommandTemplate::Reparent => CmdModel::Reparent { child: 0, parent: Seq::empty() },
        CommandTemplate::Screenshot => CmdModel::Screenshot { path: Seq::empty() },
        CommandTemplate::Shutdown => CmdModel::Shutdown,
        CommandTemplate::Spawn => CmdModel::Spawn { components: Seq::empty() },
        CommandTemplate::Schema => CmdModel::Schema {
            with_crates: None,
            without_crates: None,
            with_types: None,
            without_types: None,
        },
        CommandTemplate::Raw => CmdModel::Raw { args: Seq::empty() },
    }
}

impl CommandTemplate {
    /// The command this template stands for, with placeholder arguments.
    pub fn to_command(self) -> (r: Option<Commands>)
        ensures
            r matches Some(c) && c@ == spec_template_default(self),
    {
        let c = match self {
            CommandTemplate::Destroy => Commands::Destroy { entity: 0 },
            CommandTemplate::Get => Commands::Get { entity: 0, component: String::new() },
            CommandTemplate::GetResource => Commands::GetResource { resource: String::new() },
            CommandTemplate::GetWatch => Commands::GetWatch { entity: 0, components: Vec::new() },
            CommandTemplate::Insert => Commands::Insert { entity: 0, components: String::new() },
            CommandTemplate::InsertResource => Commands::InsertResource { data: String::new() },
            CommandTemplate::List => Commands::List,
            CommandTemplate::ListResources => Commands::ListResources,
            CommandTemplate::ListEntities => Commands::ListEntities,
            CommandTemplate::ListEntity => Commands::ListEntity { entity: 0 },
            CommandTemplate::ListWatch => Commands::ListWatch { entity: 0 },
            CommandTemplate::Methods => Commands::Methods,
            CommandTemplate::MutateComponent => Commands::MutateComponent {
                entity: 0,
                component: String::new(),
                patch: String::new(),
            },
            CommandTemplate::MutateResource => Commands::MutateResource {
                resource: String::new(),
                patch: String::new(),
            },
            CommandTemplate::Query => Commands::Query { components: Vec::new() },
            CommandTemplate::Ready => Commands::Ready,
            CommandTemplate::Remove => Commands::Remove { entity: 0, component: String::new() },
            CommandTemplate::RemoveResource => Commands::RemoveResource {
                resource: String::new(),
            },
            CommandTemplate::Reparent => Commands::Reparent { child: 0, parent: String::new() },
            CommandTemplate::Screenshot => Commands::Screenshot { path: String::new() },
            CommandTemplate::Shutdown => Commands::Shutdown,
            CommandTemplate::Spawn => Commands::Spawn { components: String::new() },
            CommandTemplate::Schema => Commands::Schema {
                with_crates: None,
                without_crates: None,
                with_types: None,
                without_types: None,
            },
            CommandTemplate::Raw => Commands::Raw { args: Vec::new() },
        };
        proof {
            assert(strings_model(Seq::<String>::empty()) =~= Seq::<Seq<char>>::empty());
        }
        Some(c)
    }
}

/// Every template, in declaration order.
pub open spec fn spec_all_templates() -> Seq<CommandTemplate> {
    seq![
        CommandTemplate::Destroy,
        CommandTemplate::Get,
        CommandTemplate::GetResource,
        CommandTemplate::GetWatch,
        CommandTemplate::Insert,
        CommandTemplate::InsertResource,
        CommandTemplate::List,
        CommandTemplate::ListResources,
        CommandTemplate::ListEntities,
        CommandTemplate::ListEntity,
        CommandTemplate::ListWatch,
        CommandTemplate::Methods,
        CommandTemplate::MutateComponent,
        CommandTemplate::MutateResource,
        CommandTemplate::Query,
        CommandTemplate::Ready,
        CommandTemplate::Remove,
        CommandTemplate::RemoveResource,
        CommandTemplate::Reparent,
        CommandTemplate::Screenshot,
        CommandTemplate::Shutdown,
        CommandTemplate::Spawn,
        CommandTemplate::Schema,
        CommandTemplate::Raw,
    ]
}

/// Every template, in declaration order.
pub fn all_templates() -> (r: Vec<CommandTemplate>)
    ensures
        r@ == spec_all_templates(),
{
    let mut v: Vec<CommandTemplate> = Vec::new();
    v.push(CommandTemplate::Destroy);
    v.push(CommandTemplate::Get);
    v.push(CommandTemplate::GetResource);
    v.push(CommandTemplate::GetWatch);
    v.push(CommandTemplate::Insert);
    v.push(CommandTemplate::InsertResource);
    v.push(CommandTemplate::List);
    v.push(CommandTemplate::ListResources);
    v.push(CommandTemplate::ListEntities);
    v.push(CommandTemplate::ListEntity);
    v.push(CommandTemplate::ListWatch);
    v.push(CommandTemplate::Methods);
    v.push(CommandTemplate::MutateComponent);
    v.push(CommandTemplate::MutateResource);
    v.push(CommandTemplate::Query);
    v.push(CommandTemplate::Ready);
    v.push(CommandTemplate::Remove);
    v.push(CommandTemplate::RemoveResource);
    v.push(CommandTemplate::Reparent);
    v.push(CommandTemplate::Screenshot);
    v.push(CommandTemplate::Shutdown);
    v.push(CommandTemplate::Spawn);
    v.push(CommandTemplate::Schema);
    v.push(CommandTemplate::Raw);
    proof {
        assert(v@ =~= spec_all_templates());
    }
    v
}

/// Every command name the tool knows, templates in declaration order, each
/// command's protocol name before its short form.
pub open spec fn spec_all_names() -> Seq<Seq<char>> {
    seq![
        "bevy/destroy"@,
        "destroy"@,
        "bevy/get"@,
        "get"@,
        "bevy/get_resource"@,
        "get_resource"@,
        "bevy/get+watch"@,
        "get+watch"@,
        "bevy/insert"@,
        "insert"@,
        "bevy/insert_resource"@,
        "insert_resource"@,
        "bevy/list"@,
        "list"@,
        "bevy/list_resources"@,
        "list_resources"@,
        "list_entities"@,
        "list_entity"@,
        "bevy/list+watch"@,
        "list+watch"@,
        "methods"@,
        "bevy/mutate_component"@,
        "mutate_component"@,
        "bevy/mutate_resource"@,
        "mutate_resource"@,
        "bevy/query"@,
        "query"@,
        "ready"@,
        "bevy/remove"@,
        "remove"@,
        "bevy/remove_resource"@,
        "remove_resource"@,
        "bevy/reparent"@,
        "reparent"@,
        "brp_tool/screenshot"@,
        "screenshot"@,
        "brp_tool/shutdown"@,
        "shutdown"@,
        "bevy/spawn"@,
        "spawn"@,
        "bevy/registry/schema"@,
        "schema"@,
        "raw"@,
    ]
}

fn all_known_names() -> (r: Vec<&'static str>)
    ensures
        names_model(r@) == spec_all_names(),
{
    let mut v: Vec<&'static str> = Vec::new();
    v.push("bevy/destroy");
    v.push("destroy");
    v.push("bevy/get");
    v.push("get");
    v.push("bevy/get_resource");
    v.push("get_resource");
    v.push("bevy/get+watch");
    v.push("get+watch");
    v.push("bevy/insert");
    v.push("insert");
    v.push("bevy/insert_resource");
    v.push("insert_resource");
    v.push("bevy/list");
    v.push("list");
    v.push("bevy/list_resources");
    v.push("list_resources");
    v.push("list_entities");
    v.push("list_entity");
    v.push("bevy/list+watch");
    v.push("list+watch");
    v.push("methods");
    v.push("bevy/mutate_component");
    v.push("mutate_component");
    v.push("bevy/mutate_resource");
    v.push("mutate_resource");
    v.push("bevy/query");
    v.push("query");
    v.push("ready");
    v.push("bevy/remove");
    v.push("remove");
    v.push("bevy/remove_resource");
    v.push("remove_resource");
    v.push("bevy/reparent");
    v.push("reparent");
    v.push("brp_tool/screenshot");
    v.push("screenshot");
    v.push("brp_tool/shutdown");
    v.push("shutdown");
    v.push("bevy/spawn");
    v.push("spawn");
    v.push("bevy/registry/schema");
    v.push("schema");
    v.push("raw");
    proof {
        assert(names_model(v@) =~= spec_all_names());
    }
    v
}

/// Whether a known full name answers to `input`: it ends in `/` plus the
/// input, or is the input itself.
pub open spec fn name_matches(name: Seq<char>, input: Seq<char>) -> bool {
    crate::text::has_suffix(name, "/"@ + input) || name == input
}

/// The first known name from index `k` on that answers to `input`.
pub open spec fn find_name_from(names: Seq<Seq<char>>, k: int, input: Seq<char>) -> Option<
    Seq<char>,
>
    decreases names.len() - k,
{
    if k < 0 || k >= names.len() {
        None
    } else if name_matches(names[k], input) {
        Some(names[k])
    } else {
        find_name_from(names, k + 1, input)
    }
}

/// Whether `input` holds a namespace separator.
pub open spec fn has_slash(input: Seq<char>) -> bool {
    exists|i: int| 0 <= i < input.len() && input[i] == '/'
}

/// The full form of a command name: an input without a namespace is looked
/// up among all known names and widened to the first that answers to it;
/// anything else passes through unchanged.
pub open spec fn spec_normalize(input: Seq<char>) -> Seq<char> {
    if has_slash(input) {
        input
    } else {
        match find_name_from(spec_all_names(), 0, input) {
            Some(n) => n,
            None => input,
        }
    }
}

/// Widens a short command name to its full form where one exists.
pub fn normalize_command_name(input: &str) -> (r: String)
    ensures
        r@ == spec_normalize(input@),
{
    let chars = str_to_chars(input);
    match crate::text::chars_index_of(&chars, '/') {
        Some(_) => {
            return <String as vstd::string::StringExecFns>::from_str(input);
        },
        None => {},
    }
    let names = all_known_names();
    let mut needle = str_to_chars("/");
    chars_extend(&mut needle, &chars);
    let ghost all = spec_all_names();
    let mut i: usize = 0;
    while i < names.len()
        invariant
            i <= names@.len(),
            names_model(names@) == all,
            all == spec_all_names(),
            needle@ == "/"@ + input@,
            chars@ == input@,
            !has_slash(input@),
            find_name_from(all, 0, input@) == find_name_from(all, i as int, input@),
        decreases names@.len() - i,
    {
        proof {
            assert(all[i as int] == names@[i as int]@);
        }
        let name_chars = str_to_chars(names[i]);
        if chars_have_suffix(&name_chars, &needle) || chars_eq_str(&name_chars, input) {
            proof {
                assert(name_matches(all[i as int], input@));
            }
            return <String as vstd::string::StringExecFns>::from_str(names[i]);
        }
        proof {
            assert(!name_matches(all[i as int], input@));
        }
        i = i + 1;
    }
    <String as vstd::string::StringExecFns>::from_str(input)
}

/// Whether some name in the list reads as `target`.
pub open spec fn name_list_has(names: Seq<Seq<char>>, target: Seq<char>) -> bool {
    exists|i: int| 0 <= i < names.len() && names[i] == target
}

/// The first template from `k` on whose command answers to `target`
/// exactly.
pub open spec fn find_cmd_from(ts: Seq<CommandTemplate>, k: int, target: Seq<char>) -> Option<
    CmdModel,
>
    decreases ts.len() - k,
{
    if k < 0 || k >= ts.len() {
        None
    } else if name_list_has(spec_names(spec_template_default(ts[k])), target) {
        Some(spec_template_default(ts[k]))
    } else {
        find_cmd_from(ts, k + 1, target)
    }
}

/// The command a name denotes: the first template carrying the normalized
/// name, or, failing that, the name exactly as given.
pub open spec fn spec_find_command(name: Seq<char>) -> Option<CmdModel> {
    match find_cmd_from(spec_all_templates(), 0, spec_normalize(name)) {
        Some(c) => Some(c),
        None => find_cmd_from(spec_all_templates(), 0, name),
    }
}

fn find_by_exact(target: &str) -> (r: Option<Commands>)
    ensures
        match r {
            Some(c) => find_cmd_from(spec_all_templates(), 0, target@) == Some(c@),
            None => find_cmd_from(spec_all_templates(), 0, target@) is None,
        },
{
    let templates = all_templates();
    let ghost ts = spec_all_templates();
    let mut i: usize = 0;
    while i < templates.len()
        invariant
            i <= templates@.len(),
            templates@ == ts,
            ts == spec_all_templates(),
            find_cmd_from(ts, 0, target@) == find_cmd_from(ts, i as int, target@),
        decreases templates@.len() - i,
    {
        match templates[i].to_command() {
            Some(c) => {
                let names = c.names();
                let ghost nm = spec_names(c@);
                let mut m: usize = 0;
                let mut found = false;
                while m < names.len()
                    invariant_except_break
                        !found,
                        m <= names@.len(),
                        names_model(names@) == nm,
                        forall|q: int| 0 <= q < m ==> nm[q] != target@,
                    ensures
                        found ==> name_list_has(nm, target@),
                        !found ==> !name_list_has(nm, target@),
                    decreases names@.len() - m,
                {
                    proof {
                        assert(nm[m as int] == names@[m as int]@);
                    }
                    if crate::text::str_eq(names[m], target) {
                        found = true;
                        proof {
                            assert(name_list_has(nm, target@));
                        }
                        break;
                    }
                    m = m + 1;
                }
                if found {
                    proof {
                        assert(find_cmd_from(ts, i as int, target@) == Some(c@));
                    }
                    return Some(c);
                }
            },
            None => {},
        }
        i = i + 1;
    }
    None
}

/// Finds the command a name denotes, under any of its name variants.
pub fn find_command_by_name(name: &str) -> (r: Option<Commands>)
    ensures
        match r {
            Some(c) => spec_find_command(name@) == Some(c@),
            None => spec_find_command(name@) is None,
        },
{
    let normalized = normalize_command_name(name);
    match find_by_exact(normalized.as_str()) {
        Some(c) => Some(c),
        None => find_by_exact(name),
    }
}

} // verus!

verus! {

/// The views of a list of commands.
pub open spec fn cmds_view(s: Seq<Commands>) -> Seq<CmdModel> {
    s.map_values(|c: Commands| c@)
}

/// What the category listing holds: the five categories in display order,
/// each with its commands ordered alphabetically by short name.
pub open spec fn spec_commands_by_category() -> Seq<(CommandCategory, Seq<CmdModel>)> {
    seq![
        (
            CommandCategory::BevyEntity,
            seq![
                spec_template_default(CommandTemplate::Destroy),
                spec_template_default(CommandTemplate::Get),
                spec_template_default(CommandTemplate::Insert),
                spec_template_default(CommandTemplate::List),
                spec_template_default(CommandTemplate::ListEntities),
                spec_template_default(CommandTemplate::ListEntity),
                spec_template_default(CommandTemplate::MutateComponent),
                spec_template_default(CommandTemplate::Query),
                spec_template_default(CommandTemplate::Remove),
                spec_template_default(CommandTemplate::Reparent),
                spec_template_default(CommandTemplate::Schema),
                spec_template_default(CommandTemplate::Spawn),
            ],
        ),
        (
            CommandCategory::BevyResource,
            seq![
                spec_template_default(CommandTemplate::GetResource),
                spec_template_default(CommandTemplate::InsertResource),
                spec_template_default(CommandTemplate::ListResources),
                spec_template_default(CommandTemplate::MutateResource),
                spec_template_default(CommandTemplate::RemoveResource),
            ],
        ),
        (
            CommandCategory::BevyWatch,
            seq![
                spec_template_default(CommandTemplate::GetWatch),
                spec_template_default(CommandTemplate::ListWatch),
            ],
        ),
        (
            CommandCategory::BrpTool,
            seq![
                spec_template_default(CommandTemplate::Screenshot),
                spec_template_default(CommandTemplate::Shutdown),
            ],
        ),
        (
            CommandCategory::Special,
            seq![
                spec_template_default(CommandTemplate::Methods),
                spec_template_default(CommandTemplate::Raw),
                spec_template_default(CommandTemplate::Ready),
            ],
        ),
    ]
}

fn template_command(t: CommandTemplate) -> (c: Commands)
    ensures
        c@ == spec_template_default(t),
{
    match t.to_command() {
        Some(c) => c,
        None => Commands::List,
    }
}

/// Lists every command, grouped by category, each group ordered
/// alphabetically by short name.
pub fn commands_by_category() -> (r: Vec<(CommandCategory, Vec<Commands>)>)
    ensures
        r@.len() == spec_commands_by_category().len(),
        forall|k: int|
            0 <= k < r@.len() ==> (#[trigger] r@[k]).0 == spec_commands_by_category()[k].0
                && cmds_view(r@[k].1@) == spec_commands_by_category()[k].1,
{
    let mut entity: Vec<Commands> = Vec::new();
    entity.push(template_command(CommandTemplate::Destroy));
    entity.push(template_command(CommandTemplate::Get));
    entity.push(template_command(CommandTemplate::Insert));
    entity.push(template_command(CommandTemplate::List));
    entity.push(template_command(CommandTemplate::ListEntities));
    entity.push(template_command(CommandTemplate::ListEntity));
    entity.push(template_command(CommandTemplate::MutateComponent));
    entity.push(template_command(CommandTemplate::Query));
    entity.push(template_command(CommandTemplate::Remove));
    entity.push(template_command(CommandTemplate::Reparent));
    entity.push(template_command(CommandTemplate::Schema));
    entity.push(template_command(CommandTemplate::Spawn));
    let mut resource: Vec<Commands> = Vec::new();
    resource.push(template_command(CommandTemplate::GetResource));
    resource.push(template_command(CommandTemplate::InsertResource));
    resource.push(template_command(CommandTemplate::ListResources));
    resource.push(template_command(CommandTemplate::MutateResource));
    resource.push(template_command(CommandTemplate::RemoveResource));
    let mut watch: Vec<Commands> = Vec::new();
    watch.push(template_command(CommandTemplate::GetWatch));
    watch.push(template_command(CommandTemplate::ListWatch));
    let mut tool: Vec<Commands> = Vec::new();
    tool.push(template_command(CommandTemplate::Screenshot));
    tool.push(template_command(CommandTemplate::Shutdown));
    let mut special: Vec<Commands> = Vec::new();
    special.push(template_command(CommandTemplate::Methods));
    special.push(template_command(CommandTemplate::Raw));
    special.push(template_command(CommandTemplate::Ready));
    proof {
        assert(cmds_view(entity@) =~= spec_commands_by_category()[0].1);
        assert(cmds_view(resource@) =~= spec_commands_by_category()[1].1);
        assert(cmds_view(watch@) =~= spec_commands_by_category()[2].1);
        assert(cmds_view(tool@) =~= spec_commands_by_category()[3].1);
        assert(cmds_view(special@) =~= spec_commands_by_category()[4].1);
    }
    let mut r: Vec<(CommandCategory, Vec<Commands>)> = Vec::new();
    r.push((CommandCategory::BevyEntity, entity));
    r.push((CommandCategory::BevyResource, resource));
    r.push((CommandCategory::BevyWatch, watch));
    r.push((CommandCategory::BrpTool, tool));
    r.push((CommandCategory::Special, special));
    r
}

/// Parses the entity identifier that stands first among a command's
/// arguments.
pub fn parse_entity_arg(args: &[&str]) -> (r: Result<u64, CommandParseError>)
    requires
        args@.len() >= 1,
    ensures
        match spec_parse_u64(args@[0]@) {
            Some(e) => r == Ok::<u64, CommandParseError>(e),
            None => r == Err::<u64, CommandParseError>(CommandParseError::InvalidEntityId),
        },
{
    let first: &str = args[0];
    let chars = str_to_chars(first);
    match parse_u64_chars(&chars) {
        Some(e) => Ok(e),
        None => Err(CommandParseError::InvalidEntityId),
    }
}

/// The position of the first occurrence of `needle` in `hay`.
pub open spec fn first_sub_at(hay: Seq<char>, needle: Seq<char>) -> Option<int>
    decreases hay.len(),
{
    if needle.len() > hay.len() {
        None
    } else if hay.take(needle.len() as int) == needle {
        Some(0)
    } else if hay.len() == 0 {
        None
    } else {
        match first_sub_at(hay.drop_first(), needle) {
            Some(i) => Some(i + 1),
            None => None,
        }
    }
}

proof fn lemma_matches_shift(hay: Seq<char>, needle: Seq<char>, k: int)
    requires
        hay.len() > 0,
        k >= 0,
    ensures
        crate::text::matches_at(hay, needle, k + 1) == crate::text::matches_at(
            hay.drop_first(),
            needle,
            k,
        ),
{
    let d = hay.drop_first();
    if k + 1 + needle.len() <= hay.len() {
        assert(d.subrange(k, k + needle.len()) =~= hay.subrange(k + 1, k + 1 + needle.len()));
    }
}

proof fn lemma_first_sub_at(hay: Seq<char>, needle: Seq<char>, i: int)
    requires
        crate::text::matches_at(hay, needle, i),
        forall|k: int| 0 <= k < i ==> !crate::text::matches_at(hay, needle, k),
    ensures
        first_sub_at(hay, needle) == Some(i),
    decreases i,
{
    assert(hay.take(needle.len() as int) =~= hay.subrange(0, needle.len() as int));
    if i == 0 {
        assert(hay.take(needle.len() as int) == needle);
    } else {
        assert(!crate::text::matches_at(hay, needle, 0));
        assert(hay.take(needle.len() as int) != needle);
        let d = hay.drop_first();
        lemma_matches_shift(hay, needle, i - 1);
        assert forall|k: int| 0 <= k < i - 1 implies !crate::text::matches_at(d, needle, k) by {
            lemma_matches_shift(hay, needle, k);
        }
        lemma_first_sub_at(d, needle, i - 1);
    }
}

proof fn lemma_first_sub_none(hay: Seq<char>, needle: Seq<char>)
    requires
        !crate::text::contains_sub(hay, needle),
    ensures
        first_sub_at(hay, needle) is None,
    decreases hay.len(),
{
    assert(hay.take(needle.len() as int) =~= hay.subrange(0, needle.len() as int));
    if needle.len() <= hay.len() {
        assert(!crate::text::matches_at(hay, needle, 0));
        assert(hay.take(needle.len() as int) != needle);
        if hay.len() > 0 {
            let d = hay.drop_first();
            assert forall|k: int| 0 <= k implies !crate::text::matches_at(d, needle, k) by {
                lemma_matches_shift(hay, needle, k);
            }
            assert(forall|k: int| !crate::text::matches_at(d, needle, k));
            lemma_first_sub_none(d, needle);
        }
    }
}

/// The position of the first occurrence of character `c` in `s`.
pub open spec fn first_char_at(s: Seq<char>, c: char) -> Option<int>
    decreases s.len(),
{
    if s.len() == 0 {
        None
    } else if s[0] == c {
        Some(0)
    } else {
        match first_char_at(s.drop_first(), c) {
            Some(i) => Some(i + 1),
            None => None,
        }
    }
}

proof fn lemma_first_char_at(s: Seq<char>, c: char, i: int)
    requires
        0 <= i < s.len(),
        s[i] == c,
        forall|k: int| 0 <= k < i ==> s[k] != c,
    ensures
        first_char_at(s, c) == Some(i),
    decreases i,
{
    if i > 0 {
        let d = s.drop_first();
        assert(forall|k: int| 0 <= k < d.len() ==> #[trigger] d[k] == s[k + 1]);
        lemma_first_char_at(d, c, i - 1);
    }
}

proof fn lemma_first_char_none(s: Seq<char>, c: char)
    requires
        forall|k: int| 0 <= k < s.len() ==> s[k] != c,
    ensures
        first_char_at(s, c) is None,
    decreases s.len(),
{
    if s.len() > 0 {
        let d = s.drop_first();
        assert(forall|k: int| 0 <= k < d.len() ==> #[trigger] d[k] == s[k + 1]);
        lemma_first_char_none(d, c);
    }
}

/// The command name a usage line names: after the first `Usage: brp `, the
/// run up to the next space, or failing that up to the next line break.
pub open spec fn spec_extract_command_from_error(s: Seq<char>) -> Option<Seq<char>> {
    let pat = "Usage: brp "@;
    match first_sub_at(s, pat) {
        None => None,
        Some(i) => {
            let rest = s.skip(i + pat.len());
            match first_char_at(rest, ' ') {
                Some(j) => Some(rest.take(j)),
                None => match first_char_at(rest, '\n') {
                    Some(k) => Some(rest.take(k)),
                    None => None,
                },
            }
        },
    }
}

/// Picks the command name out of an argument-error message's usage line.
pub fn extract_command_from_error(error_msg: &str) -> (r: Option<String>)
    ensures
        match r {
            Some(cmd) => spec_extract_command_from_error(error_msg@) == Some(cmd@),
            None => spec_extract_command_from_error(error_msg@) is None,
        },
{
    let chars = str_to_chars(error_msg);
    let n = chars.len();
    let pat = str_to_chars("Usage: brp ");
    match crate::text::chars_find_sub(&chars, &pat) {
        None => {
            proof {
                lemma_first_sub_none(error_msg@, "Usage: brp "@);
            }
            None
        },
        Some(i) => {
            proof {
                lemma_first_sub_at(error_msg@, "Usage: brp "@, i as int);
                assert(i + pat@.len() <= chars@.len());
            }
            let start = i + pat.len();
            let rest = chars_sub(&chars, start, n);
            proof {
                assert(rest@ =~= error_msg@.skip(i + "Usage: brp "@.len()));
            }
            match crate::text::chars_index_of(&rest, ' ') {
                Some(j) => {
                    proof {
                        lemma_first_char_at(rest@, ' ', j as int);
                    }
                    let cmd = chars_sub(&rest, 0, j);
                    proof {
                        assert(cmd@ =~= rest@.take(j as int));
                    }
                    Some(chars_to_string(&cmd))
                },
                None => {
                    proof {
                        lemma_first_char_none(rest@, ' ');
                    }
                    match crate::text::chars_index_of(&rest, '\n') {
                        Some(k) => {
                            proof {
                                lemma_first_char_at(rest@, '\n', k as int);
                            }
                            let cmd = chars_sub(&rest, 0, k);
                            proof {
                                assert(cmd@ =~= rest@.take(k as int));
                            }
                            Some(chars_to_string(&cmd))
                        },
                        None => {
                            proof {
                                lemma_first_char_none(rest@, '\n');
                            }
                            None
                        },
                    }
                },
            }
        },
    }
}

} // verus!

verus! {

/// The views of an argument-descriptor list.
pub open spec fn args_model(items: Seq<(String, String, String)>) -> Seq<
    (Seq<char>, Seq<char>, Seq<char>),
> {
    items.map_values(|t: (String, String, String)| (t.0@, t.1@, t.2@))
}

/// The positional arguments a command requires, each with its display
/// name, its type, and an example; a command without positional arguments
/// has none.
pub open spec fn spec_command_args(name: Seq<char>) -> Seq<(Seq<char>, Seq<char>, Seq<char>)> {
    if name == "destroy"@ || name == "list_entity"@ || name == "list+watch"@ {
        seq![("<ENTITY_ID>"@, "u64"@, "12345"@)]
    } else if name == "get"@ {
        seq![
            ("<ENTITY_ID>"@, "u64"@, "12345"@),
            (
                "<COMPONENT_TYPE>"@,
                "string"@,
                "bevy_transform::components::transform::Transform"@,
            ),
        ]
    } else if name == "get_resource"@ {
        seq![("<RESOURCE_TYPE>"@, "string"@, "bevy_time::time::Time"@)]
    } else if name == "get+watch"@ {
        seq![
            ("<ENTITY_ID>"@, "u64"@, "12345"@),
            (
                "<COMPONENT_TYPE>"@,
                "string[]"@,
                "bevy_transform::components::transform::Transform bevy_core::name::Name"@,
            ),
        ]
    } else if name == "insert"@ {
        seq![
            ("<ENTITY_ID>"@, "u64"@, "12345"@),
            ("<JSON>"@, "JSON"@, "{\"bevy_core::name::Name\": \"MyEntity\"}"@),
        ]
    } else if name == "insert_resource"@ {
        seq![("<JSON>"@, "JSON"@, "{\"my_game::GameSettings\": {\"difficulty\": \"hard\"}}"@)]
    } else if name == "mutate_component"@ {
        seq![
            ("<ENTITY_ID>"@, "u64"@, "12345"@),
            (
                "<COMPONENT_TYPE>"@,
                "string"@,
                "bevy_transform::components::transform::Transform"@,
            ),
            ("<JSON_PATCH>"@, "JSON"@, "{\"translation\": [10.0, 0.0, 0.0]}"@),
        ]
    } else if name == "mutate_resource"@ {
        seq![
            ("<RESOURCE_TYPE>"@, "string"@, "my_game::GameSettings"@),
            ("<JSON_PATCH>"@, "JSON"@, "{\"difficulty\": \"easy\"}"@),
        ]
    } else if name == "query"@ {
        seq![
            (
                "<COMPONENT_TYPES>..."@,
                "string[]"@,
                "bevy_transform::components::transform::Transform bevy_core::name::Name"@,
            ),
        ]
    } else if name == "remove"@ {
        seq![
            ("<ENTITY_ID>"@, "u64"@, "12345"@),
            ("<COMPONENT_TYPE>"@, "string"@, "bevy_core::name::Name"@),
        ]
    } else if name == "remove_resource"@ {
        seq![("<RESOURCE_TYPE>"@, "string"@, "my_game::GameSettings"@)]
    } else if name == "reparent"@ {
        seq![
            ("<CHILD_ID>"@, "u64"@, "12345"@),
            ("<PARENT_ID>"@, "u64|null"@, "67890 or null"@),
        ]
    } else if name == "screenshot"@ {
        seq![("<FILE_PATH>"@, "path"@, "./screenshot.png"@)]
    } else if name == "spawn"@ {
        seq![
            (
                "<JSON>"@,
                "JSON"@,
                "{\"bevy_transform::components::transform::Transform\": {\"translation\": [0, 0, 0]}}"@,
            ),
        ]
    } else if name == "raw"@ {
        seq![("<ARGS>"@, "string"@, ""@)]
    } else {
        Seq::empty()
    }
}

fn arg3(a: &'static str, b: &'static str, c: &'static str) -> (r: (String, String, String))
    ensures
        r.0@ == a@ && r.1@ == b@ && r.2@ == c@,
{
    (
        <String as vstd::string::StringExecFns>::from_str(a),
        <String as vstd::string::StringExecFns>::from_str(b),
        <String as vstd::string::StringExecFns>::from_str(c),
    )
}

/// The positional-argument table the missing-arguments message prints for a
/// command.
pub fn get_command_args(command: &str) -> (r: Vec<(String, String, String)>)
    ensures
        args_model(r@) == spec_command_args(command@),
{
    let mut r: Vec<(String, String, String)> = Vec::new();
    let c = command;
    if crate::text::str_eq(c, "destroy") || crate::text::str_eq(c, "list_entity")
        || crate::text::str_eq(c, "list+watch") {
        r.push(arg3("<ENTITY_ID>", "u64", "12345"));
    } else if crate::text::str_eq(c, "get") {
        r.push(arg3("<ENTITY_ID>", "u64", "12345"));
        r.push(
            arg3(
                "<COMPONENT_TYPE>",
                "string",
                "bevy_transform::components::transform::Transform",
            ),
        );
    } else if crate::text::str_eq(c, "get_resource") {
        r.push(arg3("<RESOURCE_TYPE>", "string", "bevy_time::time::Time"));
    } else if crate::text::str_eq(c, "get+watch") {
        r.push(arg3("<ENTITY_ID>", "u64", "12345"));
        r.push(
            arg3(
                "<COMPONENT_TYPE>",
                "string[]",
                "bevy_transform::components::transform::Transform bevy_core::name::Name",
            ),
        );
    } else if crate::text::str_eq(c, "insert") {
        r.push(arg3("<ENTITY_ID>", "u64", "12345"));
        r.push(arg3("<JSON>", "JSON", "{\"bevy_core::name::Name\": \"MyEntity\"}"));
    } else if crate::text::str_eq(c, "insert_resource") {
        r.push(
            arg3("<JSON>", "JSON", "{\"my_game::GameSettings\": {\"difficulty\": \"hard\"}}"),
        );
    } else if crate::text::str_eq(c, "mutate_component") {
        r.push(arg3("<ENTITY_ID>", "u64", "12345"));
        r.push(
            arg3(
                "<COMPONENT_TYPE>",
                "string",
                "bevy_transform::components::transform::Transform",
            ),
        );
        r.push(arg3("<JSON_PATCH>", "JSON", "{\"translation\": [10.0, 0.0, 0.0]}"));
    } else if crate::text::str_eq(c, "mutate_resource") {
        r.push(arg3("<RESOURCE_TYPE>", "string", "my_game::GameSettings"));
        r.push(arg3("<JSON_PATCH>", "JSON", "{\"difficulty\": \"easy\"}"));
    } else if crate::text::str_eq(c, "query") {
        r.push(
            arg3(
                "<COMPONENT_TYPES>...",
                "string[]",
                "bevy_transform::components::transform::Transform bevy_core::name::Name",
            ),
        );
    } else if crate::text::str_eq(c, "remove") {
        r.push(arg3("<ENTITY_ID>", "u64", "12345"));
        r.push(arg3("<COMPONENT_TYPE>", "string", "bevy_core::name::Name"));
    } else if crate::text::str_eq(c, "remove_resource") {
        r.push(arg3("<RESOURCE_TYPE>", "string", "my_game::GameSettings"));
    } else if crate::text::str_eq(c, "reparent") {
        r.push(arg3("<CHILD_ID>", "u64", "12345"));
        r.push(arg3("<PARENT_ID>", "u64|null", "67890 or null"));
    } else if crate::text::str_eq(c, "screenshot") {
        r.push(arg3("<FILE_PATH>", "path", "./screenshot.png"));
    } else if crate::text::str_eq(c, "spawn") {
        r.push(
            arg3(
                "<JSON>",
                "JSON",
                "{\"bevy_transform::components::transform::Transform\": {\"translation\": [0, 0, 0]}}",
            ),
        );
    } else if crate::text::str_eq(c, "raw") {
        r.push(arg3("<ARGS>", "string", ""));
    }
    proof {
        assert(args_model(r@) =~= spec_command_args(command@));
    }
    r
}

} // verus!

verus! {

/// The side conditions under which a command's textual form is faithful:
/// each free-form string argument is a single non-empty token without
/// whitespace, each component list is non-empty and made of such tokens,
/// and each schema filter carries such tokens that do not begin another
/// flag. Only the raw passthrough is excluded, deliberately: its textual
/// form is not guaranteed to re-parse identically.
pub open spec fn round_trips(c: CmdModel) -> bool {
    match c {
        CmdModel::Schema { with_crates, without_crates, with_types, without_types } => {
            schema_values_ok(with_crates) && schema_values_ok(without_crates) && schema_values_ok(
                with_types,
            ) && schema_values_ok(without_types)
        },
        CmdModel::Raw { .. } => false,
        CmdModel::Get { component, .. } => crate::text::single_token(component),
        CmdModel::GetResource { resource } => crate::text::single_token(resource),
        CmdModel::GetWatch { components, .. } => components.len() >= 1
            && crate::text::single_tokens(components),
        CmdModel::Insert { components, .. } => crate::text::single_token(components),
        CmdModel::InsertResource { data } => crate::text::single_token(data),
        CmdModel::MutateComponent { component, patch, .. } => crate::text::single_token(component)
            && crate::text::single_token(patch),
        CmdModel::MutateResource { resource, patch } => crate::text::single_token(resource)
            && crate::text::single_token(patch),
        CmdModel::Query { components } => components.len() >= 1 && crate::text::single_tokens(
            components,
        ),
        CmdModel::RemoveResource { resource } => crate::text::single_token(resource),
        CmdModel::Remove { component, .. } => crate::text::single_token(component),
        CmdModel::Reparent { parent, .. } => crate::text::single_token(parent),
        CmdModel::Screenshot { path } => crate::text::single_token(path),
        CmdModel::Spawn { components } => crate::text::single_token(components),
        _ => true,
    }
}

/// The lengths and leading characters of the command-name literals, so
/// that the parser's name comparisons are all decided.
proof fn lemma_command_literal_facts()
    ensures
        "destroy"@.len() == 7 && "destroy"@[0] == 'd',
        "get"@.len() == 3 && "get"@[0] == 'g',
        "get_resource"@.len() == 12 && "get_resource"@[0] == 'g',
        "get+watch"@.len() == 9 && "get+watch"@[0] == 'g',
        "insert"@.len() == 6 && "insert"@[0] == 'i',
        "insert_resource"@.len() == 15 && "insert_resource"@[0] == 'i',
        "list"@.len() == 4 && "list"@[0] == 'l',
        "list_resources"@.len() == 14 && "list_resources"@[0] == 'l',
        "list_entities"@.len() == 13 && "list_entities"@[0] == 'l',
        "list_entity"@.len() == 11 && "list_entity"@[0] == 'l',
        "list+watch"@.len() == 10 && "list+watch"@[0] == 'l',
        "methods"@.len() == 7 && "methods"@[0] == 'm',
        "mutate_component"@.len() == 16 && "mutate_component"@[0] == 'm',
        "mutate_resource"@.len() == 15 && "mutate_resource"@[0] == 'm',
        "query"@.len() == 5 && "query"@[0] == 'q',
        "ready"@.len() == 5 && "ready"@[0] == 'r',
        "remove"@.len() == 6 && "remove"@[0] == 'r',
        "remove_resource"@.len() == 15 && "remove_resource"@[0] == 'r',
        "reparent"@.len() == 8 && "reparent"@[0] == 'r',
        "screenshot"@.len() == 10 && "screenshot"@[0] == 's',
        "shutdown"@.len() == 8 && "shutdown"@[0] == 's',
        "spawn"@.len() == 5 && "spawn"@[0] == 's',
        "schema"@.len() == 6 && "schema"@[0] == 's',
        "raw"@.len() == 3 && "raw"@[0] == 'r',
{
    reveal_strlit("destroy");
    reveal_strlit("get");
    reveal_strlit("get_resource");
    reveal_strlit("get+watch");
    reveal_strlit("insert");
    reveal_strlit("insert_resource");
    reveal_strlit("list");
    reveal_strlit("list_resources");
    reveal_strlit("list_entities");
    reveal_strlit("list_entity");
    reveal_strlit("list+watch");
    reveal_strlit("methods");
    reveal_strlit("mutate_component");
    reveal_strlit("mutate_resource");
    reveal_strlit("query");
    reveal_strlit("ready");
    reveal_strlit("remove");
    reveal_strlit("remove_resource");
    reveal_strlit("reparent");
    reveal_strlit("screenshot");
    reveal_strlit("shutdown");
    reveal_strlit("spawn");
    reveal_strlit("schema");
    reveal_strlit("raw");
}

/// Every command except the raw passthrough round-trips through its
/// textual form, as long as its free-form arguments are single
/// whitespace-free tokens: parsing what formatting produced yields the
/// command back.
pub proof fn lemma_format_parse_round_trip(c: CmdModel)
    requires
        round_trips(c),
    ensures
        spec_parse_command(spec_format_command(c)) == Ok::<CmdModel, CommandParseError>(c),
{
    match c {
        CmdModel::Destroy { entity } => rt_destroy(entity),
        CmdModel::ListEntity { entity } => rt_list_entity(entity),
        CmdModel::ListWatch { entity } => rt_list_watch(entity),
        CmdModel::List => rt_list(),
        CmdModel::ListResources => rt_list_resources(),
        CmdModel::ListEntities => rt_list_entities(),
        CmdModel::Methods => rt_methods(),
        CmdModel::Ready => rt_ready(),
        CmdModel::Shutdown => rt_shutdown(),
        CmdModel::Get { entity, component } => rt_get(entity, component),
        CmdModel::Remove { entity, component } => rt_remove(entity, component),
        CmdModel::Reparent { child, parent } => rt_reparent(child, parent),
        CmdModel::Insert { entity, components } => rt_insert(entity, components),
        CmdModel::GetResource { resource } => rt_get_resource(resource),
        CmdModel::InsertResource { data } => rt_insert_resource(data),
        CmdModel::RemoveResource { resource } => rt_remove_resource(resource),
        CmdModel::Screenshot { path } => rt_screenshot(path),
        CmdModel::Spawn { components } => rt_spawn(components),
        CmdModel::MutateResource { resource, patch } => rt_mutate_resource(resource, patch),
        CmdModel::MutateComponent { entity, component, patch } => rt_mutate_component(
            entity,
            component,
            patch,
        ),
        CmdModel::Query { components } => rt_query(components),
        CmdModel::GetWatch { entity, components } => rt_get_watch(entity, components),
        CmdModel::Schema { with_crates, without_crates, with_types, without_types } => rt_schema(
            with_crates,
            without_crates,
            with_types,
            without_types,
        ),
        _ => {},
    }
}

proof fn rt_list()
    ensures
        spec_parse_command(spec_format_command(CmdModel::List)) == Ok::<
            CmdModel,
            CommandParseError,
        >(CmdModel::List),
{
    reveal_strlit("list");
    reveal_strlit(" ");
    lemma_command_literal_facts();
    lemma_name_alone("list"@);
}

proof fn rt_list_resources()
    ensures
        spec_parse_command(spec_format_command(CmdModel::ListResources)) == Ok::<
            CmdModel,
            CommandParseError,
        >(CmdModel::ListResources),
{
    reveal_strlit("list_resources");
    reveal_strlit(" ");
    lemma_command_literal_facts();
    lemma_name_alone("list_resources"@);
}

proof fn rt_list_entities()
    ensures
        spec_parse_command(spec_format_command(CmdModel::ListEntities)) == Ok::<
            CmdModel,
            CommandParseError,
        >(CmdModel::ListEntities),
{
    reveal_strlit("list_entities");
    reveal_strlit(" ");
    lemma_command_literal_facts();
    lemma_name_alone("list_entities"@);
}

proof fn rt_methods()
    ensures
        spec_parse_command(spec_format_command(CmdModel::Methods)) == Ok::<
            CmdModel,
            CommandParseError,
        >(CmdModel::Methods),
{
    reveal_strlit("methods");
    reveal_strlit(" ");
    lemma_command_literal_facts();
    lemma_name_alone("methods"@);
}

proof fn rt_ready()
    ensures
        spec_parse_command(spec_format_command(CmdModel::Ready)) == Ok::<
            CmdModel,
            CommandParseError,
        >(CmdModel::Ready),
{
    reveal_strlit("ready");
    reveal_strlit(" ");
    lemma_command_literal_facts();
    lemma_name_alone("ready"@);
}

proof fn rt_shutdown()
    ensures
        spec_parse_command(spec_format_command(CmdModel::Shutdown)) == Ok::<
            CmdModel,
            CommandParseError,
        >(CmdModel::Shutdown),
{
    reveal_strlit("shutdown");
    reveal_strlit(" ");
    lemma_command_literal_facts();
    lemma_name_alone("shutdown"@);
}

proof fn rt_destroy(entity: u64)
    ensures
        spec_parse_command(spec_format_command(CmdModel::Destroy { entity })) == Ok::<
            CmdModel,
            CommandParseError,
        >(CmdModel::Destroy { entity }),
{
    reveal_strlit("destroy");
    reveal_strlit("destroy ");
    reveal_strlit(" ");
    lemma_command_literal_facts();
    lemma_name_entity("destroy "@, "destroy"@, entity);
    let digits = dec_digits(entity as int);
    let toks = split_ws(spec_format_command(CmdModel::Destroy { entity }));
    assert(toks == seq!["destroy"@, digits]);
    assert(toks.len() == 2 && toks[0] == "destroy"@);
    let args = toks.drop_first();
    assert(args =~= seq![digits]);
    assert(args.len() == 1 && args[0] == digits);
}

proof fn rt_list_entity(entity: u64)
    ensures
        spec_parse_command(spec_format_command(CmdModel::ListEntity { entity })) == Ok::<
            CmdModel,
            CommandParseError,
        >(CmdModel::ListEntity { entity }),
{
    reveal_strlit("list_entity");
    reveal_strlit("list_entity ");
    reveal_strlit(" ");
    lemma_command_literal_facts();
    lemma_name_entity("list_entity "@, "list_entity"@, entity);
    let digits = dec_digits(entity as int);
    let formatted = spec_format_command(CmdModel::ListEntity { entity });
    let toks = split_ws(formatted);
    assert(toks == seq!["list_entity"@, digits]);
    assert(toks.len() == 2 && toks[0] == "list_entity"@);
    let args = toks.drop_first();
    assert(args =~= seq![digits]);
    assert(args.len() == 1 && args[0] == digits);
}

proof fn rt_list_watch(entity: u64)
    ensures
        spec_parse_command(spec_format_command(CmdModel::ListWatch { entity })) == Ok::<
            CmdModel,
            CommandParseError,
        >(CmdModel::ListWatch { entity }),
{
    reveal_strlit("list+watch");
    reveal_strlit("list+watch ");
    reveal_strlit(" ");
    lemma_command_literal_facts();
    lemma_name_entity("list+watch "@, "list+watch"@, entity);
    let digits = dec_digits(entity as int);
    let toks = split_ws(spec_format_command(CmdModel::ListWatch { entity }));
    assert(toks == seq!["list+watch"@, digits]);
    assert(toks.len() == 2 && toks[0] == "list+watch"@);
    let args = toks.drop_first();
    assert(args =~= seq![digits]);
    assert(args.len() == 1 && args[0] == digits);
}

proof fn rt_get(entity: u64, component: Seq<char>)
    requires
        crate::text::single_token(component),
    ensures
        spec_parse_command(spec_format_command(CmdModel::Get { entity, component })) == Ok::<
            CmdModel,
            CommandParseError,
        >(CmdModel::Get { entity, component }),
{
    reveal_strlit("get");
    reveal_strlit("get ");
    reveal_strlit(" ");
    lemma_command_literal_facts();
    lemma_name_entity_token("get "@, "get"@, entity, component);
    let digits = dec_digits(entity as int);
    let toks = split_ws(spec_format_command(CmdModel::Get { entity, component }));
    assert(toks == seq!["get"@, digits, component]);
    assert(toks.len() == 3 && toks[0] == "get"@);
    let args = toks.drop_first();
    assert(args =~= seq![digits, component]);
    assert(args.len() == 2 && args[0] == digits && args[1] == component);
}

proof fn rt_remove(entity: u64, component: Seq<char>)
    requires
        crate::text::single_token(component),
    ensures
        spec_parse_command(spec_format_command(CmdModel::Remove { entity, component })) == Ok::<
            CmdModel,
            CommandParseError,
        >(CmdModel::Remove { entity, component }),
{
    reveal_strlit("remove");
    reveal_strlit("remove ");
    reveal_strlit(" ");
    lemma_command_literal_facts();
    lemma_name_entity_token("remove "@, "remove"@, entity, component);
    let digits = dec_digits(entity as int);
    let toks = split_ws(spec_format_command(CmdModel::Remove { entity, component }));
    assert(toks == seq!["remove"@, digits, component]);
    assert(toks.len() == 3 && toks[0] == "remove"@);
    let args = toks.drop_first();
    assert(args =~= seq![digits, component]);
    assert(args.len() == 2 && args[0] == digits && args[1] == component);
}

proof fn rt_reparent(child: u64, parent: Seq<char>)
    requires
        crate::text::single_token(parent),
    ensures
        spec_parse_command(spec_format_command(CmdModel::Reparent { child, parent })) == Ok::<
            CmdModel,
            CommandParseError,
        >(CmdModel::Reparent { child, parent }),
{
    reveal_strlit("reparent");
    reveal_strlit("reparent ");
    reveal_strlit(" ");
    lemma_command_literal_facts();
    lemma_name_entity_token("reparent "@, "reparent"@, child, parent);
    let digits = dec_digits(child as int);
    let toks = split_ws(spec_format_command(CmdModel::Reparent { child, parent }));
    assert(toks == seq!["reparent"@, digits, parent]);
    assert(toks.len() == 3 && toks[0] == "reparent"@);
    let args = toks.drop_first();
    assert(args =~= seq![digits, parent]);
    assert(args.len() == 2 && args[0] == digits && args[1] == parent);
}

proof fn rt_insert(entity: u64, components: Seq<char>)
    requires
        crate::text::single_token(components),
    ensures
        spec_parse_command(spec_format_command(CmdModel::Insert { entity, components })) == Ok::<
            CmdModel,
            CommandParseError,
        >(CmdModel::Insert { entity, components }),
{
    reveal_strlit("insert");
    reveal_strlit("insert ");
    reveal_strlit(" ");
    lemma_command_literal_facts();
    lemma_name_entity_token("insert "@, "insert"@, entity, components);
    let digits = dec_digits(entity as int);
    let toks = split_ws(spec_format_command(CmdModel::Insert { entity, components }));
    assert(toks == seq!["insert"@, digits, components]);
    assert(toks.len() == 3 && toks[0] == "insert"@);
    let args = toks.drop_first();
    assert(args =~= seq![digits, components]);
    assert(args.len() == 2 && args[0] == digits);
    assert(args.drop_first() =~= seq![components]);
    lemma_join_singleton(components);
    assert(join_sp(args.drop_first()) == components);
}

proof fn rt_get_resource(resource: Seq<char>)
    requires
        crate::text::single_token(resource),
    ensures
        spec_parse_command(spec_format_command(CmdModel::GetResource { resource })) == Ok::<
            CmdModel,
            CommandParseError,
        >(CmdModel::GetResource { resource }),
{
    reveal_strlit("get_resource");
    reveal_strlit("get_resource ");
    reveal_strlit(" ");
    lemma_command_literal_facts();
    lemma_name_token("get_resource "@, "get_resource"@, resource);
    let toks = split_ws(spec_format_command(CmdModel::GetResource { resource }));
    assert(toks == seq!["get_resource"@, resource]);
    assert(toks.len() == 2 && toks[0] == "get_resource"@);
    let args = toks.drop_first();
    assert(args =~= seq![resource]);
    assert(args.len() == 1 && args[0] == resource);
    lemma_join_singleton(resource);
    assert(join_sp(args) == resource);
}

proof fn rt_insert_resource(data: Seq<char>)
    requires
        crate::text::single_token(data),
    ensures
        spec_parse_command(spec_format_command(CmdModel::InsertResource { data })) == Ok::<
            CmdModel,
            CommandParseError,
        >(CmdModel::InsertResource { data }),
{
    reveal_strlit("insert_resource");
    reveal_strlit("insert_resource ");
    reveal_strlit(" ");
    lemma_command_literal_facts();
    lemma_name_token("insert_resource "@, "insert_resource"@, data);
    let toks = split_ws(spec_format_command(CmdModel::InsertResource { data }));
    assert(toks == seq!["insert_resource"@, data]);
    assert(toks.len() == 2 && toks[0] == "insert_resource"@);
    let args = toks.drop_first();
    assert(args =~= seq![data]);
    assert(args.len() == 1 && args[0] == data);
    lemma_join_singleton(data);
    assert(join_sp(args) == data);
}

proof fn rt_remove_resource(resource: Seq<char>)
    requires
        crate::text::single_token(resource),
    ensures
        spec_parse_command(spec_format_command(CmdModel::RemoveResource { resource })) == Ok::<
            CmdModel,
            CommandParseError,
        >(CmdModel::RemoveResource { resource }),
{
    reveal_strlit("remove_resource");
    reveal_strlit("remove_resource ");
    reveal_strlit(" ");
    lemma_command_literal_facts();
    lemma_name_token("remove_resource "@, "remove_resource"@, resource);
    let toks = split_ws(spec_format_command(CmdModel::RemoveResource { resource }));
    assert(toks == seq!["remove_resource"@, resource]);
    assert(toks.len() == 2 && toks[0] == "remove_resource"@);
    let args = toks.drop_first();
    assert(args =~= seq![resource]);
    assert(args.len() == 1 && args[0] == resource);
    lemma_join_singleton(resource);
    assert(join_sp(args) == resource);
}

proof fn rt_screenshot(path: Seq<char>)
    requires
        crate::text::single_token(path),
    ensures
        spec_parse_command(spec_format_command(CmdModel::Screenshot { path })) == Ok::<
            CmdModel,
            CommandParseError,
        >(CmdModel::Screenshot { path }),
{
    reveal_strlit("screenshot");
    reveal_strlit("screenshot ");
    reveal_strlit(" ");
    lemma_command_literal_facts();
    lemma_name_token("screenshot "@, "screenshot"@, path);
    let toks = split_ws(spec_format_command(CmdModel::Screenshot { path }));
    assert(toks == seq!["screenshot"@, path]);
    assert(toks.len() == 2 && toks[0] == "screenshot"@);
    let args = toks.drop_first();
    assert(args =~= seq![path]);
    assert(args.len() == 1 && args[0] == path);
    lemma_join_singleton(path);
    assert(join_sp(args) == path);
}

proof fn rt_spawn(components: Seq<char>)
    requires
        crate::text::single_token(components),
    ensures
        spec_parse_command(spec_format_command(CmdModel::Spawn { components })) == Ok::<
            CmdModel,
            CommandParseError,
        >(CmdModel::Spawn { components }),
{
    reveal_strlit("spawn");
    reveal_strlit("spawn ");
    reveal_strlit(" ");
    lemma_command_literal_facts();
    lemma_name_token("spawn "@, "spawn"@, components);
    let toks = split_ws(spec_format_command(CmdModel::Spawn { components }));
    assert(toks == seq!["spawn"@, components]);
    assert(toks.len() == 2 && toks[0] == "spawn"@);
    let args = toks.drop_first();
    assert(args =~= seq![components]);
    assert(args.len() == 1 && args[0] == components);
    lemma_join_singleton(components);
    assert(join_sp(args) == components);
}

proof fn rt_mutate_resource(resource: Seq<char>, patch: Seq<char>)
    requires
        crate::text::single_token(resource),
        crate::text::single_token(patch),
    ensures
        spec_parse_command(spec_format_command(CmdModel::MutateResource { resource, patch }))
            == Ok::<CmdModel, CommandParseError>(CmdModel::MutateResource { resource, patch }),
{
    reveal_strlit("mutate_resource");
    reveal_strlit("mutate_resource ");
    reveal_strlit(" ");
    lemma_command_literal_facts();
    let name = "mutate_resource"@;
    let parts = seq![name, resource, patch];
    assert("mutate_resource "@ =~= name + seq![' ']);
    assert(" "@ =~= seq![' ']);
    assert(parts =~= seq![name] + seq![resource, patch]);
    lemma_join_sp_cons(name, seq![resource, patch]);
    lemma_join_sp_two(resource, patch);
    let formatted = spec_format_command(CmdModel::MutateResource { resource, patch });
    assert(formatted =~= join_sp(parts));
    assert(crate::text::single_tokens(parts)) by {
        lemma_three_tokens(name, resource, patch);
    }
    crate::text::lemma_split_ws_join(parts);
    let toks = split_ws(formatted);
    assert(toks == parts);
    assert(toks.len() == 3 && toks[0] == name);
    let args = toks.drop_first();
    assert(args =~= seq![resource, patch]);
    assert(args.len() == 2 && args[0] == resource && args[1] == patch);
    assert(args.drop_first() =~= seq![patch]);
    lemma_join_singleton(patch);
    assert(join_sp(args.drop_first()) == patch);
}

proof fn rt_mutate_component(entity: u64, component: Seq<char>, patch: Seq<char>)
    requires
        crate::text::single_token(component),
        crate::text::single_token(patch),
    ensures
        spec_parse_command(
            spec_format_command(CmdModel::MutateComponent { entity, component, patch }),
        ) == Ok::<CmdModel, CommandParseError>(
            CmdModel::MutateComponent { entity, component, patch },
        ),
{
    reveal_strlit("mutate_component");
    reveal_strlit("mutate_component ");
    reveal_strlit(" ");
    lemma_command_literal_facts();
    let name = "mutate_component"@;
    let digits = dec_digits(entity as int);
    crate::text::lemma_dec_digits_val(entity as int);
    crate::text::lemma_digits_not_ws(digits);
    let parts = seq![name, digits, component, patch];
    assert("mutate_component "@ =~= name + seq![' ']);
    assert(" "@ =~= seq![' ']);
    assert(parts =~= seq![name] + (seq![digits] + seq![component, patch]));
    lemma_join_sp_cons(name, seq![digits] + seq![component, patch]);
    lemma_join_sp_cons(digits, seq![component, patch]);
    lemma_join_sp_two(component, patch);
    let formatted = spec_format_command(CmdModel::MutateComponent { entity, component, patch });
    assert(formatted =~= join_sp(parts));
    assert(crate::text::single_tokens(parts)) by {
        assert(single_token(name));
        assert(single_token(digits));
        assert(forall|j: int|
            0 <= j < parts.len() ==> crate::text::single_token(#[trigger] parts[j]));
    }
    crate::text::lemma_split_ws_join(parts);
    let toks = split_ws(formatted);
    assert(toks == parts);
    assert(toks.len() == 4 && toks[0] == name);
    let args = toks.drop_first();
    assert(args =~= seq![digits, component, patch]);
    assert(args.len() == 3 && args[0] == digits && args[1] == component && args[2] == patch);
    lemma_digits_parse(entity);
    assert(args.skip(2) =~= seq![patch]);
    lemma_join_singleton(patch);
    assert(join_sp(args.skip(2)) == patch);
}

proof fn rt_query(components: Seq<Seq<char>>)
    requires
        components.len() >= 1,
        crate::text::single_tokens(components),
    ensures
        spec_parse_command(spec_format_command(CmdModel::Query { components })) == Ok::<
            CmdModel,
            CommandParseError,
        >(CmdModel::Query { components }),
{
    reveal_strlit("query");
    reveal_strlit("query ");
    reveal_strlit(" ");
    lemma_command_literal_facts();
    let name = "query"@;
    let parts = seq![name] + components;
    assert("query "@ =~= name + seq![' ']);
    lemma_join_sp_cons(name, components);
    let formatted = spec_format_command(CmdModel::Query { components });
    assert(formatted =~= join_sp(parts));
    assert(crate::text::single_tokens(parts)) by {
        assert(single_token(name));
        assert(forall|j: int| 1 <= j < parts.len() ==> #[trigger] parts[j] == components[j - 1]);
    }
    crate::text::lemma_split_ws_join(parts);
    let toks = split_ws(formatted);
    assert(toks == parts);
    assert(toks.len() == components.len() + 1 && toks[0] == name);
    let args = toks.drop_first();
    assert(args =~= components);
    assert(args.len() >= 1);
}

proof fn rt_get_watch(entity: u64, components: Seq<Seq<char>>)
    requires
        components.len() >= 1,
        crate::text::single_tokens(components),
    ensures
        spec_parse_command(spec_format_command(CmdModel::GetWatch { entity, components }))
            == Ok::<CmdModel, CommandParseError>(CmdModel::GetWatch { entity, components }),
{
    reveal_strlit("get+watch");
    reveal_strlit("get+watch ");
    reveal_strlit(" ");
    lemma_command_literal_facts();
    let name = "get+watch"@;
    let digits = dec_digits(entity as int);
    crate::text::lemma_dec_digits_val(entity as int);
    crate::text::lemma_digits_not_ws(digits);
    let parts = seq![name] + (seq![digits] + components);
    assert("get+watch "@ =~= name + seq![' ']);
    assert(" "@ =~= seq![' ']);
    lemma_join_sp_cons(name, seq![digits] + components);
    lemma_join_sp_cons(digits, components);
    let formatted = spec_format_command(CmdModel::GetWatch { entity, components });
    assert(formatted =~= join_sp(parts));
    assert(crate::text::single_tokens(parts)) by {
        assert(single_token(name));
        assert(single_token(digits));
        assert(forall|j: int| 2 <= j < parts.len() ==> #[trigger] parts[j] == components[j - 2]);
    }
    crate::text::lemma_split_ws_join(parts);
    let toks = split_ws(formatted);
    assert(toks == parts);
    assert(toks.len() == components.len() + 2 && toks[0] == name);
    let args = toks.drop_first();
    assert(args =~= seq![digits] + components);
    assert(args.len() >= 2 && args[0] == digits);
    assert(args.drop_first() =~= components);
    lemma_digits_parse(entity);
}

/// The digits of an entity identifier parse back to it.
proof fn lemma_digits_parse(entity: u64)
    ensures
        spec_parse_u64(dec_digits(entity as int)) == Some(entity),
{
    let digits = dec_digits(entity as int);
    crate::text::lemma_dec_digits_val(entity as int);
    assert(!crate::text::is_digit('+'));
    assert(crate::text::is_digit(digits[0]));
    assert(digits[0] != '+');
}

spec fn single_token(s: Seq<char>) -> bool {
    crate::text::single_token(s)
}

proof fn lemma_three_tokens(a: Seq<char>, b: Seq<char>, c: Seq<char>)
    requires
        single_token(a),
        single_token(b),
        single_token(c),
    ensures
        crate::text::single_tokens(seq![a, b, c]),
{
    let parts = seq![a, b, c];
    assert(forall|j: int|
        0 <= j < parts.len() ==> crate::text::single_token(#[trigger] parts[j]));
}

proof fn lemma_join_singleton(t: Seq<char>)
    ensures
        join_sp(seq![t]) == t,
{
    assert(seq![t].len() == 1);
    assert(seq![t][0] == t);
}

/// A command of one name token and the entity's digits splits and parses
/// back.
proof fn lemma_name_entity(prefix: Seq<char>, name: Seq<char>, entity: u64)
    requires
        prefix =~= name + seq![' '],
        crate::text::single_token(name),
    ensures
        split_ws(prefix + dec_digits(entity as int)) == seq![name, dec_digits(entity as int)],
        spec_parse_u64(dec_digits(entity as int)) == Some(entity),
{
    let digits = dec_digits(entity as int);
    crate::text::lemma_dec_digits_val(entity as int);
    crate::text::lemma_digits_not_ws(digits);
    assert(prefix + digits =~= name + seq![' '] + digits);
    crate::text::lemma_split_ws_sep(name, digits);
    crate::text::lemma_split_ws_single(digits);
    assert(seq![name] + seq![digits] =~= seq![name, digits]);
    lemma_digits_parse(entity);
}

/// A bare command is its single token.
proof fn lemma_name_alone(name: Seq<char>)
    requires
        crate::text::single_token(name),
    ensures
        split_ws(name) == seq![name],
{
    crate::text::lemma_split_ws_single(name);
}

/// A command of a name, the entity's digits and one further token splits
/// and parses back.
proof fn lemma_name_entity_token(prefix: Seq<char>, name: Seq<char>, entity: u64, t: Seq<char>)
    requires
        prefix =~= name + seq![' '],
        crate::text::single_token(name),
        crate::text::single_token(t),
        " "@ =~= seq![' '],
    ensures
        split_ws(prefix + dec_digits(entity as int) + " "@ + t) == seq![
            name,
            dec_digits(entity as int),
            t,
        ],
        spec_parse_u64(dec_digits(entity as int)) == Some(entity),
{
    let digits = dec_digits(entity as int);
    crate::text::lemma_dec_digits_val(entity as int);
    crate::text::lemma_digits_not_ws(digits);
    let parts = seq![name, digits, t];
    assert(parts =~= seq![name] + seq![digits, t]);
    lemma_join_sp_cons(name, seq![digits, t]);
    lemma_join_sp_two(digits, t);
    assert(prefix + digits + " "@ + t =~= join_sp(parts));
    assert(crate::text::single_tokens(parts)) by {
        assert(single_token(digits));
        assert(forall|j: int|
            0 <= j < parts.len() ==> crate::text::single_token(#[trigger] parts[j]));
    }
    crate::text::lemma_split_ws_join(parts);
    lemma_digits_parse(entity);
}

/// A command of a name and one further token splits and parses back; the
/// lone argument re-joins to itself.
proof fn lemma_name_token(prefix: Seq<char>, name: Seq<char>, t: Seq<char>)
    requires
        prefix =~= name + seq![' '],
        crate::text::single_token(name),
        crate::text::single_token(t),
    ensures
        split_ws(prefix + t) == seq![name, t],
        join_sp(seq![name, t].drop_first()) == t,
{
    assert(prefix + t =~= name + seq![' '] + t);
    crate::text::lemma_split_ws_sep(name, t);
    crate::text::lemma_split_ws_single(t);
    assert(seq![name] + seq![t] =~= seq![name, t]);
    assert(seq![name, t].drop_first() =~= seq![t]);
    lemma_join_singleton(t);
}

} // verus!

verus! {

/// The condition under which a schema flag's values survive the textual
/// round trip: the flag is absent, or carries at least one value, each a
/// single whitespace-free token that does not begin another flag.
pub open spec fn schema_values_ok(o: Option<Seq<Seq<char>>>) -> bool {
    match o {
        None => true,
        Some(xs) => xs.len() >= 1 && crate::text::single_tokens(xs) && (forall|j: int|
            0 <= j < xs.len() ==> !crate::text::has_prefix(#[trigger] xs[j], "--"@)),
    }
}

/// The one part a flag contributes to the formatted schema command.
pub open spec fn opt_part(kw_sp: Seq<char>, o: Option<Seq<Seq<char>>>) -> Seq<Seq<char>> {
    match o {
        Some(xs) => seq![kw_sp + join_sp(xs)],
        None => Seq::empty(),
    }
}

/// The tokens a flag contributes once the formatted command is split: the
/// keyword, then its values.
pub open spec fn flag_toks(kw: Seq<char>, o: Option<Seq<Seq<char>>>) -> Seq<Seq<char>> {
    match o {
        Some(xs) => seq![kw] + xs,
        None => Seq::empty(),
    }
}

/// A token run that is empty or begins with a flag keyword.
pub open spec fn starts_with_flag(t: Seq<Seq<char>>) -> bool {
    t.len() == 0 || crate::text::has_prefix(t[0], "--"@)
}

/// The lengths, flag prefixes and tokenhood of the four flag keywords.
proof fn lemma_flag_literal_facts()
    ensures
        "--with-crates"@.len() == 13,
        "--without-crates"@.len() == 16,
        "--with-types"@.len() == 12,
        "--without-types"@.len() == 15,
        crate::text::has_prefix("--with-crates"@, "--"@),
        crate::text::has_prefix("--without-crates"@, "--"@),
        crate::text::has_prefix("--with-types"@, "--"@),
        crate::text::has_prefix("--without-types"@, "--"@),
        crate::text::single_token("--with-crates"@),
        crate::text::single_token("--without-crates"@),
        crate::text::single_token("--with-types"@),
        crate::text::single_token("--without-types"@),
{
    reveal_strlit("--with-crates");
    reveal_strlit("--without-crates");
    reveal_strlit("--with-types");
    reveal_strlit("--without-types");
    reveal_strlit("--");
    assert("--with-crates"@.take(2) =~= "--"@);
    assert("--without-crates"@.take(2) =~= "--"@);
    assert("--with-types"@.take(2) =~= "--"@);
    assert("--without-types"@.take(2) =~= "--"@);
}

/// A flag's token run, in front of a run that is empty or starts with a
/// keyword, still is.
proof fn lemma_swf_cons(kw: Seq<char>, o: Option<Seq<Seq<char>>>, rest: Seq<Seq<char>>)
    requires
        crate::text::has_prefix(kw, "--"@),
        starts_with_flag(rest),
    ensures
        starts_with_flag(flag_toks(kw, o) + rest),
{
    match o {
        Some(xs) => {
            assert((flag_toks(kw, o) + rest)[0] == kw);
        },
        None => {
            assert(flag_toks(kw, o) + rest =~= rest);
        },
    }
}

/// Tokens of two lists in sequence are tokens.
proof fn lemma_single_tokens_concat(a: Seq<Seq<char>>, b: Seq<Seq<char>>)
    requires
        crate::text::single_tokens(a),
        crate::text::single_tokens(b),
    ensures
        crate::text::single_tokens(a + b),
{
    assert forall|j: int|
        0 <= j < (a + b).len() implies crate::text::single_token(#[trigger] (a + b)[j]) by {
        if j < a.len() {
            assert((a + b)[j] == a[j]);
        } else {
            assert((a + b)[j] == b[j - a.len()]);
        }
    }
}

/// A flag's token run is made of tokens.
proof fn lemma_single_tokens_flag(kw: Seq<char>, o: Option<Seq<Seq<char>>>)
    requires
        crate::text::single_token(kw),
        schema_values_ok(o),
    ensures
        crate::text::single_tokens(flag_toks(kw, o)),
{
    match o {
        Some(xs) => {
            assert forall|j: int|
                0 <= j < flag_toks(kw, o).len() implies crate::text::single_token(
                #[trigger] flag_toks(kw, o)[j]) by {
                if j == 0 {
                    assert(flag_toks(kw, o)[0] == kw);
                } else {
                    assert(flag_toks(kw, o)[j] == xs[j - 1]);
                }
            }
        },
        None => {},
    }
}

/// One flag's contribution joins the same way in the formatted parts and in
/// the flat token list.
proof fn lemma_schema_flatten_step(
    acc_parts: Seq<Seq<char>>,
    acc_flat: Seq<Seq<char>>,
    kw_sp: Seq<char>,
    kw: Seq<char>,
    o: Option<Seq<Seq<char>>>,
)
    requires
        acc_parts.len() >= 1,
        acc_flat.len() >= 1,
        join_sp(acc_parts) == join_sp(acc_flat),
        kw_sp == kw + seq![' '],
        schema_values_ok(o),
    ensures
        (acc_parts + opt_part(kw_sp, o)).len() >= 1,
        (acc_flat + flag_toks(kw, o)).len() >= 1,
        join_sp(acc_parts + opt_part(kw_sp, o)) == join_sp(acc_flat + flag_toks(kw, o)),
{
    match o {
        None => {
            assert(acc_parts + opt_part(kw_sp, o) =~= acc_parts);
            assert(acc_flat + flag_toks(kw, o) =~= acc_flat);
        },
        Some(xs) => {
            let part = kw_sp + join_sp(xs);
            crate::text::lemma_join_sp_concat(acc_parts, seq![part]);
            assert(join_sp(seq![part]) == part) by {
                assert(seq![part].len() == 1);
                assert(seq![part][0] == part);
            }
            crate::text::lemma_join_sp_concat(acc_flat, seq![kw] + xs);
            lemma_join_sp_cons(kw, xs);
            assert(part == kw + seq![' '] + join_sp(xs));
            assert(join_sp(acc_parts + opt_part(kw_sp, o)) =~= join_sp(
                acc_flat + flag_toks(kw, o),
            ));
        },
    }
}

} // verus!

verus! {

/// The value run after a flag keyword is exactly the flag's values.
proof fn lemma_scan_values_run(args: Seq<Seq<char>>, i: int, xs: Seq<Seq<char>>)
    requires
        0 <= i,
        i + 1 + xs.len() <= args.len(),
        forall|m: int| 0 <= m < xs.len() ==> #[trigger] args[i + 1 + m] == xs[m],
        forall|m: int| 0 <= m < xs.len() ==> !crate::text::has_prefix(#[trigger] xs[m], "--"@),
        i + 1 + xs.len() == args.len() || crate::text::has_prefix(args[i + 1 + xs.len()], "--"@),
    ensures
        nondash_prefix(args, i + 1) == xs,
{
    assert forall|m: int|
        i + 1 <= m < i + 1 + xs.len() implies !crate::text::has_prefix(
        #[trigger] args[m],
        "--"@,
    ) by {
        let q = m - i - 1;
        assert(args[i + 1 + q] == xs[q]);
        assert(!crate::text::has_prefix(xs[q], "--"@));
    }
    lemma_nondash_at(args, i + 1, i + 1 + xs.len());
    assert forall|m: int|
        0 <= m < xs.len() implies args.subrange(i + 1, i + 1 + xs.len())[m] == xs[m] by {
        assert(args.subrange(i + 1, i + 1 + xs.len())[m] == args[i + 1 + m]);
    }
    assert(args.subrange(i + 1, i + 1 + xs.len()) =~= xs);
}

/// Consuming a with-crates flag: the scan takes the keyword and its value
/// run, binds the values, and continues just past them.
proof fn lemma_scan_with_crates(args: Seq<Seq<char>>, i: int, f: SchemaFlags, xs: Seq<Seq<char>>)
    requires
        0 <= i,
        i + 1 + xs.len() <= args.len(),
        args[i] == "--with-crates"@,
        xs.len() >= 1,
        forall|m: int| 0 <= m < xs.len() ==> #[trigger] args[i + 1 + m] == xs[m],
        forall|m: int| 0 <= m < xs.len() ==> !crate::text::has_prefix(#[trigger] xs[m], "--"@),
        i + 1 + xs.len() == args.len() || crate::text::has_prefix(args[i + 1 + xs.len()], "--"@),
    ensures
        schema_scan(args, i, f) == schema_scan(
            args,
            i + xs.len() + 1,
            SchemaFlags { with_crates: Some(xs), ..f },
        ),
{
    lemma_scan_values_run(args, i, xs);
}

/// Consuming a without-crates flag, the same way.
proof fn lemma_scan_without_crates(
    args: Seq<Seq<char>>,
    i: int,
    f: SchemaFlags,
    xs: Seq<Seq<char>>,
)
    requires
        0 <= i,
        i + 1 + xs.len() <= args.len(),
        args[i] == "--without-crates"@,
        xs.len() >= 1,
        forall|m: int| 0 <= m < xs.len() ==> #[trigger] args[i + 1 + m] == xs[m],
        forall|m: int| 0 <= m < xs.len() ==> !crate::text::has_prefix(#[trigger] xs[m], "--"@),
        i + 1 + xs.len() == args.len() || crate::text::has_prefix(args[i + 1 + xs.len()], "--"@),
    ensures
        schema_scan(args, i, f) == schema_scan(
            args,
            i + xs.len() + 1,
            SchemaFlags { without_crates: Some(xs), ..f },
        ),
{
    lemma_flag_literal_facts();
    assert(args[i] != "--with-crates"@);
    lemma_scan_values_run(args, i, xs);
}

/// Consuming a with-types flag, the same way.
proof fn lemma_scan_with_types(args: Seq<Seq<char>>, i: int, f: SchemaFlags, xs: Seq<Seq<char>>)
    requires
        0 <= i,
        i + 1 + xs.len() <= args.len(),
        args[i] == "--with-types"@,
        xs.len() >= 1,
        forall|m: int| 0 <= m < xs.len() ==> #[trigger] args[i + 1 + m] == xs[m],
        forall|m: int| 0 <= m < xs.len() ==> !crate::text::has_prefix(#[trigger] xs[m], "--"@),
        i + 1 + xs.len() == args.len() || crate::text::has_prefix(args[i + 1 + xs.len()], "--"@),
    ensures
        schema_scan(args, i, f) == schema_scan(
            args,
            i + xs.len() + 1,
            SchemaFlags { with_types: Some(xs), ..f },
        ),
{
    lemma_flag_literal_facts();
    assert(args[i] != "--with-crates"@);
    assert(args[i] != "--without-crates"@);
    lemma_scan_values_run(args, i, xs);
}

/// Consuming a without-types flag, the same way.
proof fn lemma_scan_without_types(
    args: Seq<Seq<char>>,
    i: int,
    f: SchemaFlags,
    xs: Seq<Seq<char>>,
)
    requires
        0 <= i,
        i + 1 + xs.len() <= args.len(),
        args[i] == "--without-types"@,
        xs.len() >= 1,
        forall|m: int| 0 <= m < xs.len() ==> #[trigger] args[i + 1 + m] == xs[m],
        forall|m: int| 0 <= m < xs.len() ==> !crate::text::has_prefix(#[trigger] xs[m], "--"@),
        i + 1 + xs.len() == args.len() || crate::text::has_prefix(args[i + 1 + xs.len()], "--"@),
    ensures
        schema_scan(args, i, f) == schema_scan(
            args,
            i + xs.len() + 1,
            SchemaFlags { without_types: Some(xs), ..f },
        ),
{
    lemma_flag_literal_facts();
    assert(args[i] != "--with-crates"@);
    assert(args[i] != "--without-crates"@);
    assert(args[i] != "--with-types"@);
    lemma_scan_values_run(args, i, xs);
}

} // verus!

verus! {

/// The split tokens of a formatted schema command: the word, then each
/// present flag's keyword and values, in order.
proof fn rt_schema_tokens(
    wc: Option<Seq<Seq<char>>>,
    woc: Option<Seq<Seq<char>>>,
    wt: Option<Seq<Seq<char>>>,
    wot: Option<Seq<Seq<char>>>,
)
    requires
        schema_values_ok(wc),
        schema_values_ok(woc),
        schema_values_ok(wt),
        schema_values_ok(wot),
    ensures
        split_ws(
            spec_format_command(
                CmdModel::Schema {
                    with_crates: wc,
                    without_crates: woc,
                    with_types: wt,
                    without_types: wot,
                },
            ),
        ) == seq!["schema"@] + flag_toks("--with-crates"@, wc) + flag_toks(
            "--without-crates"@,
            woc,
        ) + flag_toks("--with-types"@, wt) + flag_toks("--without-types"@, wot),
{
    reveal_strlit("schema");
    reveal_strlit(" ");
    reveal_strlit("--with-crates");
    reveal_strlit("--with-crates ");
    reveal_strlit("--without-crates");
    reveal_strlit("--without-crates ");
    reveal_strlit("--with-types");
    reveal_strlit("--with-types ");
    reveal_strlit("--without-types");
    reveal_strlit("--without-types ");
    lemma_flag_literal_facts();
    let c = CmdModel::Schema {
        with_crates: wc,
        without_crates: woc,
        with_types: wt,
        without_types: wot,
    };
    let kw1 = "--with-crates"@;
    let kw2 = "--without-crates"@;
    let kw3 = "--with-types"@;
    let kw4 = "--without-types"@;
    assert("--with-crates "@ == kw1 + seq![' ']) by {
        assert("--with-crates "@ =~= kw1 + seq![' ']);
    }
    assert("--without-crates "@ == kw2 + seq![' ']) by {
        assert("--without-crates "@ =~= kw2 + seq![' ']);
    }
    assert("--with-types "@ == kw3 + seq![' ']) by {
        assert("--with-types "@ =~= kw3 + seq![' ']);
    }
    assert("--without-types "@ == kw4 + seq![' ']) by {
        assert("--without-types "@ =~= kw4 + seq![' ']);
    }
    let a0 = seq!["schema"@];
    lemma_schema_flatten_step(a0, a0, "--with-crates "@, kw1, wc);
    let p1 = a0 + opt_part("--with-crates "@, wc);
    let f1 = a0 + flag_toks(kw1, wc);
    lemma_schema_flatten_step(p1, f1, "--without-crates "@, kw2, woc);
    let p2 = p1 + opt_part("--without-crates "@, woc);
    let f2 = f1 + flag_toks(kw2, woc);
    lemma_schema_flatten_step(p2, f2, "--with-types "@, kw3, wt);
    let p3 = p2 + opt_part("--with-types "@, wt);
    let f3 = f2 + flag_toks(kw3, wt);
    lemma_schema_flatten_step(p3, f3, "--without-types "@, kw4, wot);
    let p4 = p3 + opt_part("--without-types "@, wot);
    let flat = f3 + flag_toks(kw4, wot);
    assert(schema_parts(wc, woc, wt, wot) =~= p4);
    assert(spec_format_command(c) == join_sp(flat));
    assert(crate::text::single_token("schema"@));
    assert(crate::text::single_tokens(a0)) by {
        assert(forall|j: int| 0 <= j < a0.len() ==> crate::text::single_token(#[trigger] a0[j]));
    }
    lemma_single_tokens_flag(kw1, wc);
    lemma_single_tokens_concat(a0, flag_toks(kw1, wc));
    lemma_single_tokens_flag(kw2, woc);
    lemma_single_tokens_concat(f1, flag_toks(kw2, woc));
    lemma_single_tokens_flag(kw3, wt);
    lemma_single_tokens_concat(f2, flag_toks(kw3, wt));
    lemma_single_tokens_flag(kw4, wot);
    lemma_single_tokens_concat(f3, flag_toks(kw4, wot));
    crate::text::lemma_split_ws_join(flat);
    assert(split_ws(spec_format_command(c)) == flat);
    assert(flat =~= seq!["schema"@] + flag_toks(kw1, wc) + flag_toks(kw2, woc) + flag_toks(
        kw3,
        wt,
    ) + flag_toks(kw4, wot));
}

/// Consuming the with-crates segment of the argument run.
proof fn rt_schema_seg1(
    args: Seq<Seq<char>>,
    wc: Option<Seq<Seq<char>>>,
    woc: Option<Seq<Seq<char>>>,
    wt: Option<Seq<Seq<char>>>,
    wot: Option<Seq<Seq<char>>>,
)
    requires
        schema_values_ok(wc),
        schema_values_ok(woc),
        schema_values_ok(wt),
        schema_values_ok(wot),
        args == flag_toks("--with-crates"@, wc) + flag_toks("--without-crates"@, woc)
            + flag_toks("--with-types"@, wt) + flag_toks("--without-types"@, wot),
    ensures
        schema_scan(args, 0, schema_flags_none()) == schema_scan(
            args,
            flag_toks("--with-crates"@, wc).len() as int,
            SchemaFlags {
                with_crates: wc,
                without_crates: None,
                with_types: None,
                without_types: None,
            },
        ),
{
    lemma_flag_literal_facts();
    let kw1 = "--with-crates"@;
    let ft1 = flag_toks(kw1, wc);
    let t2 = flag_toks("--without-crates"@, woc) + (flag_toks("--with-types"@, wt) + flag_toks(
        "--without-types"@,
        wot,
    ));
    assert(args =~= ft1 + t2);
    assert(starts_with_flag(Seq::<Seq<char>>::empty()));
    lemma_swf_cons("--without-types"@, wot, Seq::<Seq<char>>::empty());
    assert(flag_toks("--without-types"@, wot) + Seq::<Seq<char>>::empty() =~= flag_toks(
        "--without-types"@,
        wot,
    ));
    lemma_swf_cons("--with-types"@, wt, flag_toks("--without-types"@, wot));
    lemma_swf_cons("--without-crates"@, woc, flag_toks("--with-types"@, wt) + flag_toks(
        "--without-types"@,
        wot,
    ));
    assert(starts_with_flag(t2));
    let f_0 = schema_flags_none();
    let fl1 = SchemaFlags {
        with_crates: wc,
        without_crates: None,
        with_types: None,
        without_types: None,
    };
    match wc {
        Some(xs) => {
            assert(ft1 == seq![kw1] + xs);
            assert(args[0] == kw1) by {
                assert((ft1 + t2)[0] == ft1[0]);
            }
            assert forall|m: int| 0 <= m < xs.len() implies #[trigger] args[0 + 1 + m]
                == xs[m] by {
                assert((ft1 + t2)[1 + m] == ft1[1 + m]);
                assert(ft1[1 + m] == xs[m]);
            }
            if t2.len() == 0 {
                assert(0 + 1 + xs.len() == args.len());
            } else {
                assert(args[ft1.len() as int] == t2[0]) by {
                    assert((ft1 + t2)[ft1.len() as int] == t2[0]);
                }
                assert(crate::text::has_prefix(args[1 + xs.len() as int], "--"@));
            }
            lemma_scan_with_crates(args, 0, f_0, xs);
            assert(SchemaFlags { with_crates: Some(xs), ..f_0 } == fl1);
        },
        None => {
            assert(ft1.len() == 0);
            assert(f_0 == fl1);
        },
    }
}

/// Consuming the without-crates segment of the argument run.
proof fn rt_schema_seg2(
    args: Seq<Seq<char>>,
    wc: Option<Seq<Seq<char>>>,
    woc: Option<Seq<Seq<char>>>,
    wt: Option<Seq<Seq<char>>>,
    wot: Option<Seq<Seq<char>>>,
)
    requires
        schema_values_ok(wc),
        schema_values_ok(woc),
        schema_values_ok(wt),
        schema_values_ok(wot),
        args == flag_toks("--with-crates"@, wc) + flag_toks("--without-crates"@, woc)
            + flag_toks("--with-types"@, wt) + flag_toks("--without-types"@, wot),
    ensures
        schema_scan(
            args,
            flag_toks("--with-crates"@, wc).len() as int,
            SchemaFlags {
                with_crates: wc,
                without_crates: None,
                with_types: None,
                without_types: None,
            },
        ) == schema_scan(
            args,
            (flag_toks("--with-crates"@, wc).len() + flag_toks(
                "--without-crates"@,
                woc,
            ).len()) as int,
            SchemaFlags {
                with_crates: wc,
                without_crates: woc,
                with_types: None,
                without_types: None,
            },
        ),
{
    lemma_flag_literal_facts();
    let kw2 = "--without-crates"@;
    let ft1 = flag_toks("--with-crates"@, wc);
    let ft2 = flag_toks(kw2, woc);
    let t3 = flag_toks("--with-types"@, wt) + flag_toks("--without-types"@, wot);
    let t2 = ft2 + t3;
    assert(args =~= ft1 + t2);
    let off2 = ft1.len() as int;
    assert forall|m: int| 0 <= m < t2.len() implies #[trigger] args[off2 + m] == t2[m] by {
        assert((ft1 + t2)[off2 + m] == t2[m]);
    }
    assert(starts_with_flag(Seq::<Seq<char>>::empty()));
    lemma_swf_cons("--without-types"@, wot, Seq::<Seq<char>>::empty());
    assert(flag_toks("--without-types"@, wot) + Seq::<Seq<char>>::empty() =~= flag_toks(
        "--without-types"@,
        wot,
    ));
    lemma_swf_cons("--with-types"@, wt, flag_toks("--without-types"@, wot));
    assert(starts_with_flag(t3));
    let fl1 = SchemaFlags {
        with_crates: wc,
        without_crates: None,
        with_types: None,
        without_types: None,
    };
    let fl2 = SchemaFlags {
        with_crates: wc,
        without_crates: woc,
        with_types: None,
        without_types: None,
    };
    match woc {
        Some(xs) => {
            assert(ft2 == seq![kw2] + xs);
            assert(args[off2] == kw2) by {
                assert(args[off2 + 0] == t2[0]);
                assert(t2[0] == ft2[0]);
            }
            assert forall|m: int| 0 <= m < xs.len() implies #[trigger] args[off2 + 1 + m]
                == xs[m] by {
                assert(args[off2 + (1 + m)] == t2[1 + m]);
                assert(t2[1 + m] == ft2[1 + m]);
                assert(ft2[1 + m] == xs[m]);
            }
            if t3.len() == 0 {
                assert(off2 + 1 + xs.len() == args.len());
            } else {
                assert(args[off2 + ft2.len()] == t2[ft2.len() as int]);
                assert(t2[ft2.len() as int] == t3[0]);
                assert(crate::text::has_prefix(args[off2 + 1 + xs.len() as int], "--"@));
            }
            lemma_scan_without_crates(args, off2, fl1, xs);
            assert(SchemaFlags { without_crates: Some(xs), ..fl1 } == fl2);
        },
        None => {
            assert(ft2.len() == 0);
            assert(fl1 == fl2);
        },
    }
}

/// Consuming the with-types segment of the argument run.
proof fn rt_schema_seg3(
    args: Seq<Seq<char>>,
    wc: Option<Seq<Seq<char>>>,
    woc: Option<Seq<Seq<char>>>,
    wt: Option<Seq<Seq<char>>>,
    wot: Option<Seq<Seq<char>>>,
)
    requires
        schema_values_ok(wc),
        schema_values_ok(woc),
        schema_values_ok(wt),
        schema_values_ok(wot),
        args == flag_toks("--with-crates"@, wc) + flag_toks("--without-crates"@, woc)
            + flag_toks("--with-types"@, wt) + flag_toks("--without-types"@, wot),
    ensures
        schema_scan(
            args,
            (flag_toks("--with-crates"@, wc).len() + flag_toks(
                "--without-crates"@,
                woc,
            ).len()) as int,
            SchemaFlags {
                with_crates: wc,
                without_crates: woc,
                with_types: None,
                without_types: None,
            },
        ) == schema_scan(
            args,
            (flag_toks("--with-crates"@, wc).len() + flag_toks("--without-crates"@, woc).len()
                + flag_toks("--with-types"@, wt).len()) as int,
            SchemaFlags {
                with_crates: wc,
                without_crates: woc,
                with_types: wt,
                without_types: None,
            },
        ),
{
    lemma_flag_literal_facts();
    let kw3 = "--with-types"@;
    let ft1 = flag_toks("--with-crates"@, wc);
    let ft2 = flag_toks("--without-crates"@, woc);
    let ft3 = flag_toks(kw3, wt);
    let t4 = flag_toks("--without-types"@, wot);
    let t3 = ft3 + t4;
    assert(args =~= (ft1 + ft2) + t3);
    let off3 = (ft1.len() + ft2.len()) as int;
    assert forall|m: int| 0 <= m < t3.len() implies #[trigger] args[off3 + m] == t3[m] by {
        assert(((ft1 + ft2) + t3)[off3 + m] == t3[m]);
    }
    assert(starts_with_flag(Seq::<Seq<char>>::empty()));
    lemma_swf_cons("--without-types"@, wot, Seq::<Seq<char>>::empty());
    assert(t4 + Seq::<Seq<char>>::empty() =~= t4);
    assert(starts_with_flag(t4));
    let fl2 = SchemaFlags {
        with_crates: wc,
        without_crates: woc,
        with_types: None,
        without_types: None,
    };
    let fl3 = SchemaFlags {
        with_crates: wc,
        without_crates: woc,
        with_types: wt,
        without_types: None,
    };
    match wt {
        Some(xs) => {
            assert(ft3 == seq![kw3] + xs);
            assert(args[off3 as int] == kw3) by {
                assert(args[off3 + 0] == t3[0]);
                assert(t3[0] == ft3[0]);
            }
            assert forall|m: int| 0 <= m < xs.len() implies #[trigger] args[off3 + 1 + m]
                == xs[m] by {
                assert(args[off3 + (1 + m)] == t3[1 + m]);
                assert(t3[1 + m] == ft3[1 + m]);
                assert(ft3[1 + m] == xs[m]);
            }
            if t4.len() == 0 {
                assert(off3 + 1 + xs.len() == args.len());
            } else {
                assert(args[off3 + ft3.len()] == t3[ft3.len() as int]);
                assert(t3[ft3.len() as int] == t4[0]);
                assert(crate::text::has_prefix(args[off3 + 1 + xs.len() as int], "--"@));
            }
            lemma_scan_with_types(args, off3 as int, fl2, xs);
            assert(SchemaFlags { with_types: Some(xs), ..fl2 } == fl3);
        },
        None => {
            assert(ft3.len() == 0);
            assert(fl2 == fl3);
        },
    }
}

/// Consuming the without-types segment of the argument run, which ends it.
proof fn rt_schema_seg4(
    args: Seq<Seq<char>>,
    wc: Option<Seq<Seq<char>>>,
    woc: Option<Seq<Seq<char>>>,
    wt: Option<Seq<Seq<char>>>,
    wot: Option<Seq<Seq<char>>>,
)
    requires
        schema_values_ok(wc),
        schema_values_ok(woc),
        schema_values_ok(wt),
        schema_values_ok(wot),
        args == flag_toks("--with-crates"@, wc) + flag_toks("--without-crates"@, woc)
            + flag_toks("--with-types"@, wt) + flag_toks("--without-types"@, wot),
    ensures
        schema_scan(
            args,
            (flag_toks("--with-crates"@, wc).len() + flag_toks("--without-crates"@, woc).len()
                + flag_toks("--with-types"@, wt).len()) as int,
            SchemaFlags {
                with_crates: wc,
                without_crates: woc,
                with_types: wt,
                without_types: None,
            },
        ) == (SchemaFlags {
            with_crates: wc,
            without_crates: woc,
            with_types: wt,
            without_types: wot,
        }),
{
    lemma_flag_literal_facts();
    let kw4 = "--without-types"@;
    let ft1 = flag_toks("--with-crates"@, wc);
    let ft2 = flag_toks("--without-crates"@, woc);
    let ft3 = flag_toks("--with-types"@, wt);
    let t4 = flag_toks(kw4, wot);
    assert(args =~= ((ft1 + ft2) + ft3) + t4);
    let off4 = (ft1.len() + ft2.len() + ft3.len()) as int;
    assert forall|m: int| 0 <= m < t4.len() implies #[trigger] args[off4 + m] == t4[m] by {
        assert((((ft1 + ft2) + ft3) + t4)[off4 + m] == t4[m]);
    }
    let fl3 = SchemaFlags {
        with_crates: wc,
        without_crates: woc,
        with_types: wt,
        without_types: None,
    };
    let fl4 = SchemaFlags {
        with_crates: wc,
        without_crates: woc,
        with_types: wt,
        without_types: wot,
    };
    match wot {
        Some(xs) => {
            assert(t4 == seq![kw4] + xs);
            assert(args[off4 as int] == kw4) by {
                assert(args[off4 + 0] == t4[0]);
            }
            assert forall|m: int| 0 <= m < xs.len() implies #[trigger] args[off4 + 1 + m]
                == xs[m] by {
                assert(args[off4 + (1 + m)] == t4[1 + m]);
                assert(t4[1 + m] == xs[m]);
            }
            assert(off4 + 1 + xs.len() == args.len());
            lemma_scan_without_types(args, off4 as int, fl3, xs);
            assert(SchemaFlags { without_types: Some(xs), ..fl3 } == fl4);
            assert(schema_scan(args, args.len() as int, fl4) == fl4);
        },
        None => {
            assert(t4.len() == 0);
            assert(off4 == args.len());
            assert(schema_scan(args, off4 as int, fl3) == fl3);
            assert(fl3 == fl4);
        },
    }
}

/// The schema command round-trips: under [`schema_values_ok`] its textual
/// form splits back into the word and its flag runs, and the flag scan
/// rebuilds exactly the original filters.
proof fn rt_schema(
    wc: Option<Seq<Seq<char>>>,
    woc: Option<Seq<Seq<char>>>,
    wt: Option<Seq<Seq<char>>>,
    wot: Option<Seq<Seq<char>>>,
)
    requires
        schema_values_ok(wc),
        schema_values_ok(woc),
        schema_values_ok(wt),
        schema_values_ok(wot),
    ensures
        spec_parse_command(
            spec_format_command(
                CmdModel::Schema {
                    with_crates: wc,
                    without_crates: woc,
                    with_types: wt,
                    without_types: wot,
                },
            ),
        ) == Ok::<CmdModel, CommandParseError>(
            CmdModel::Schema {
                with_crates: wc,
                without_crates: woc,
                with_types: wt,
                without_types: wot,
            },
        ),
{
    reveal_strlit("schema");
    reveal_strlit(" ");
    lemma_command_literal_facts();
    let c = CmdModel::Schema {
        with_crates: wc,
        without_crates: woc,
        with_types: wt,
        without_types: wot,
    };
    rt_schema_tokens(wc, woc, wt, wot);
    let toks = split_ws(spec_format_command(c));
    let flags_run = flag_toks("--with-crates"@, wc) + flag_toks("--without-crates"@, woc)
        + flag_toks("--with-types"@, wt) + flag_toks("--without-types"@, wot);
    assert(toks == seq!["schema"@] + flags_run);
    assert(toks[0] == "schema"@) by {
        assert((seq!["schema"@] + flags_run)[0] == "schema"@);
    }
    let args = toks.drop_first();
    assert(args =~= flags_run);
    rt_schema_seg1(args, wc, woc, wt, wot);
    rt_schema_seg2(args, wc, woc, wt, wot);
    rt_schema_seg3(args, wc, woc, wt, wot);
    rt_schema_seg4(args, wc, woc, wt, wot);
    assert(schema_scan(args, 0, schema_flags_none()) == SchemaFlags {
        with_crates: wc,
        without_crates: woc,
        with_types: wt,
        without_types: wot,
    });
}

} // verus!
