//! The tools an agent can call: what they are, what a call asks for, where it
//! may write, and what is reported back.

use vstd::prelude::*;
use vstd::string::*;

use crate::text::{
    chars_of, concat2, concat3, decimal, decimal_of, from_utf8_lossy, lines, lines_of, lossy_utf8,
    opt_view, same, same_chars, string_of, string_views, views,
};
use crate::ui::{
    field_views, parse_json, parsed_json, text_field, text_of, unsigned_field, unsigned_of,
    JsonField, JsonFieldView,
};

verus! {

broadcast use vstd::seq_lib::group_to_multiset_ensures;

/// One parameter of a tool.
#[derive(Debug, Clone)]
pub struct ToolParameter {
    pub name: &'static str,
    pub kind: &'static str,
    pub description: &'static str,
    /// The values it may have; empty where any will do.
    pub choices: Vec<&'static str>,
}

/// A tool as it is offered to the model.
#[derive(Debug, Clone)]
pub struct ToolDefinition {
    pub name: &'static str,
    pub description: &'static str,
    pub parameters: Vec<ToolParameter>,
    pub required: Vec<&'static str>,
}

#[verifier::ext_equal]
pub struct ParameterView {
    pub name: Seq<char>,
    pub kind: Seq<char>,
    pub description: Seq<char>,
    pub choices: Seq<Seq<char>>,
}

#[verifier::ext_equal]
pub struct DefinitionView {
    pub name: Seq<char>,
    pub description: Seq<char>,
    pub parameters: Seq<ParameterView>,
    pub required: Seq<Seq<char>>,
}

pub open spec fn literal_views(s: Seq<&'static str>) -> Seq<Seq<char>> {
    s.map_values(|x: &'static str| x@)
}

impl View for ToolParameter {
    type V = ParameterView;

    open spec fn view(&self) -> ParameterView {
        ParameterView {
            name: self.name@,
            kind: self.kind@,
            description: self.description@,
            choices: literal_views(self.choices@),
        }
    }
}

impl View for ToolDefinition {
    type V = DefinitionView;

    open spec fn view(&self) -> DefinitionView {
        DefinitionView {
            name: self.name@,
            description: self.description@,
            parameters: self.parameters@.map_values(|p: ToolParameter| p@),
            required: literal_views(self.required@),
        }
    }
}

pub open spec fn definition_views(s: Seq<ToolDefinition>) -> Seq<DefinitionView> {
    s.map_values(|d: ToolDefinition| d@)
}

pub open spec fn parameter(
    name: Seq<char>,
    kind: Seq<char>,
    description: Seq<char>,
) -> ParameterView {
    ParameterView { name, kind, description, choices: Seq::empty() }
}

/// The tools that are offered, in their order.
pub open spec fn catalogue() -> Seq<DefinitionView> {
    seq![
        DefinitionView {
            name: "write_file"@,
            description: "Write or update a local file with code or text content"@,
            parameters: seq![
                parameter(
                    "filepath"@,
                    "string"@,
                    "Relative or absolute path to the file to write"@,
                ),
                parameter("content"@, "string"@, "The file content to write"@),
                ParameterView {
                    name: "mode"@,
                    kind: "string"@,
                    description: "write: overwrite the file, append: add to the end"@,
                    choices: seq!["write"@, "append"@],
                },
            ],
            required: seq!["filepath"@, "content"@],
        },
        DefinitionView {
            name: "read_file"@,
            description: "Read the contents of a local file"@,
            parameters: seq![
                parameter("filepath"@, "string"@, "Relative or absolute path to the file to read"@),
            ],
            required: seq!["filepath"@],
        },
        DefinitionView {
            name: "list_files"@,
            description: "List files in a directory"@,
            parameters: seq![
                parameter("dirpath"@, "string"@, "Directory path (default: current directory)"@),
            ],
            required: Seq::empty(),
        },
        DefinitionView {
            name: "replace_in_file"@,
            description: "Replace text content in a file"@,
            parameters: seq![
                parameter("filepath"@, "string"@, "Path to the file to update"@),
                parameter("search"@, "string"@, "Text to search for"@),
                parameter("replace"@, "string"@, "Text to replace with"@),
            ],
            required: seq!["filepath"@, "search"@, "replace"@],
        },
        DefinitionView {
            name: "run_terminal_command"@,
            description: "Execute a shell command in the terminal and return the output"@,
            parameters: seq![
                parameter("command"@, "string"@, "The shell command to execute"@),
                parameter(
                    "working_dir"@,
                    "string"@,
                    "Working directory for the command (default: current directory)"@,
                ),
                parameter("timeout_secs"@, "integer"@, "Timeout in seconds (default: 30)"@),
            ],
            required: seq!["command"@],
        },
    ]
}

fn plain_parameter(
    name: &'static str,
    kind: &'static str,
    description: &'static str,
) -> (r: ToolParameter)
    ensures
        r@ == parameter(name@, kind@, description@),
{
    let p: ToolParameter = ToolParameter { name, kind, description, choices: Vec::new() };
    assert(p@ =~~= parameter(name@, kind@, description@));
    p
}

/// The tools that are offered to the model.
pub fn get_tool_definitions() -> (r: Vec<ToolDefinition>)
    ensures
        definition_views(r@) == catalogue(),
{
    let write: ToolDefinition = ToolDefinition {
        name: "write_file",
        description: "Write or update a local file with code or text content",
        parameters: vec![
            plain_parameter("filepath", "string", "Relative or absolute path to the file to write"),
            plain_parameter("content", "string", "The file content to write"),
            ToolParameter {
                name: "mode",
                kind: "string",
                description: "write: overwrite the file, append: add to the end",
                choices: vec!["write", "append"],
            },
        ],
        required: vec!["filepath", "content"],
    };
    assert(write@ =~~= catalogue()[0]);
    let read: ToolDefinition = ToolDefinition {
        name: "read_file",
        description: "Read the contents of a local file",
        parameters: vec![
            plain_parameter("filepath", "string", "Relative or absolute path to the file to read"),
        ],
        required: vec!["filepath"],
    };
    assert(read@ =~~= catalogue()[1]);
    let list: ToolDefinition = ToolDefinition {
        name: "list_files",
        description: "List files in a directory",
        parameters: vec![
            plain_parameter("dirpath", "string", "Directory path (default: current directory)"),
        ],
        required: Vec::new(),
    };
    assert(list@ =~~= catalogue()[2]);
    let replace: ToolDefinition = ToolDefinition {
        name: "replace_in_file",
        description: "Replace text content in a file",
        parameters: vec![
            plain_parameter("filepath", "string", "Path to the file to update"),
            plain_parameter("search", "string", "Text to search for"),
            plain_parameter("replace", "string", "Text to replace with"),
        ],
        required: vec!["filepath", "search", "replace"],
    };
    assert(replace@ =~~= catalogue()[3]);
    let command: ToolDefinition = ToolDefinition {
        name: "run_terminal_command",
        description: "Execute a shell command in the terminal and return the output",
        parameters: vec![
            plain_parameter("command", "string", "The shell command to execute"),
            plain_parameter(
                "working_dir",
                "string",
                "Working directory for the command (default: current directory)",
            ),
            plain_parameter("timeout_secs", "integer", "Timeout in seconds (default: 30)"),
        ],
        required: vec!["command"],
    };
    assert(command@ =~~= catalogue()[4]);
    let tools: Vec<ToolDefinition> = vec![write, read, list, replace, command];
    assert(definition_views(tools@) =~= catalogue());
    tools
}

/// What a tool call asks for.
#[derive(Debug, Clone, PartialEq, Eq)]
pub enum ToolAction {
    WriteFile { filepath: String, content: String, append: bool },
    ReadFile { filepath: String },
    ListFiles { dirpath: String },
    ReplaceInFile { filepath: String, search: String, replace: String },
    RunCommand { command: String, working_dir: Option<String>, timeout_secs: u64 },
}

pub enum ToolActionView {
    WriteFile { filepath: Seq<char>, content: Seq<char>, append: bool },
    ReadFile { filepath: Seq<char> },
    ListFiles { dirpath: Seq<char> },
    ReplaceInFile { filepath: Seq<char>, search: Seq<char>, replace: Seq<char> },
    RunCommand { command: Seq<char>, working_dir: Option<Seq<char>>, timeout_secs: u64 },
}

impl View for ToolAction {
    type V = ToolActionView;

    open spec fn view(&self) -> ToolActionView {
        match self {
            ToolAction::WriteFile { filepath, content, append } => ToolActionView::WriteFile {
                filepath: filepath@,
                content: content@,
                append: *append,
            },
            ToolAction::ReadFile { filepath } => ToolActionView::ReadFile { filepath: filepath@ },
            ToolAction::ListFiles { dirpath } => ToolActionView::ListFiles { dirpath: dirpath@ },
            ToolAction::ReplaceInFile { filepath, search, replace } =>
                ToolActionView::ReplaceInFile {
                filepath: filepath@,
                search: search@,
                replace: replace@,
            },
            ToolAction::RunCommand { command, working_dir, timeout_secs } =>
                ToolActionView::RunCommand {
                command: command@,
                working_dir: opt_view(*working_dir),
                timeout_secs: *timeout_secs,
            },
        }
    }
}

/// The characters of a result or of its error.
pub open spec fn action_view(r: Result<ToolAction, String>) -> Result<ToolActionView, Seq<char>> {
    match r {
        Ok(a) => Ok(a@),
        Err(e) => Err(e@),
    }
}

/// What a call asks for, by the tool's name and the fields of its arguments;
/// or what is missing.
pub open spec fn planned(name: Seq<char>, fields: Seq<(Seq<char>, JsonFieldView)>) -> Result<
    ToolActionView,
    Seq<char>,
> {
    if name == "write_file"@ {
        match (text_field(fields, "filepath"@), text_field(fields, "content"@)) {
            (None, _) => Err("Missing filepath"@),
            (Some(_), None) => Err("Missing content"@),
            (Some(filepath), Some(content)) => Ok(
                ToolActionView::WriteFile {
                    filepath,
                    content,
                    append: text_field(fields, "mode"@) == Some("append"@),
                },
            ),
        }
    } else if name == "read_file"@ {
        match text_field(fields, "filepath"@) {
            None => Err("Missing filepath"@),
            Some(filepath) => Ok(ToolActionView::ReadFile { filepath }),
        }
    } else if name == "list_files"@ {
        Ok(
            ToolActionView::ListFiles {
                dirpath: match text_field(fields, "dirpath"@) {
                    Some(d) => d,
                    None => "."@,
                },
            },
        )
    } else if name == "replace_in_file"@ {
        match (
            text_field(fields, "filepath"@),
            text_field(fields, "search"@),
            text_field(fields, "replace"@),
        ) {
            (None, _, _) => Err("Missing filepath"@),
            (Some(_), None, _) => Err("Missing search"@),
            (Some(_), Some(_), None) => Err("Missing replace"@),
            (Some(filepath), Some(search), Some(replace)) => Ok(
                ToolActionView::ReplaceInFile { filepath, search, replace },
            ),
        }
    } else if name == "run_terminal_command"@ {
        match text_field(fields, "command"@) {
            None => Err("Missing command"@),
            Some(command) => Ok(
                ToolActionView::RunCommand {
                    command,
                    working_dir: text_field(fields, "working_dir"@),
                    timeout_secs: match unsigned_field(fields, "timeout_secs"@) {
                        Some(n) => n,
                        None => 30,
                    },
                },
            ),
        }
    } else {
        Err("Unknown tool: "@ + name)
    }
}

/// What a call asks for, by the tool's name and the fields of its arguments.
pub fn plan_tool(name: &str, fields: &Vec<(String, JsonField)>) -> (r: Result<ToolAction, String>)
    ensures
        action_view(r) == planned(name@, field_views(fields@)),
{
    if same(name, "write_file") {
        let filepath: String = match text_of(fields, "filepath") {
            Some(s) => s,
            None => {
                return Err(String::from_str("Missing filepath"));
            },
        };
        let content: String = match text_of(fields, "content") {
            Some(s) => s,
            None => {
                return Err(String::from_str("Missing content"));
            },
        };
        let append: bool = match text_of(fields, "mode") {
            Some(mode) => same(&mode, "append"),
            None => false,
        };
        Ok(ToolAction::WriteFile { filepath, content, append })
    } else if same(name, "read_file") {
        match text_of(fields, "filepath") {
            Some(filepath) => Ok(ToolAction::ReadFile { filepath }),
            None => Err(String::from_str("Missing filepath")),
        }
    } else if same(name, "list_files") {
        match text_of(fields, "dirpath") {
            Some(dirpath) => Ok(ToolAction::ListFiles { dirpath }),
            None => Ok(ToolAction::ListFiles { dirpath: String::from_str(".") }),
        }
    } else if same(name, "replace_in_file") {
        let filepath: String = match text_of(fields, "filepath") {
            Some(s) => s,
            None => {
                return Err(String::from_str("Missing filepath"));
            },
        };
        let search: String = match text_of(fields, "search") {
            Some(s) => s,
            None => {
                return Err(String::from_str("Missing search"));
            },
        };
        match text_of(fields, "replace") {
            Some(replace) => Ok(ToolAction::ReplaceInFile { filepath, search, replace }),
            None => Err(String::from_str("Missing replace")),
        }
    } else if same(name, "run_terminal_command") {
        match text_of(fields, "command") {
            Some(command) => {
                let timeout_secs: u64 = match unsigned_of(fields, "timeout_secs") {
                    Some(n) => n,
                    None => 30,
                };
                Ok(
                    ToolAction::RunCommand {
                        command,
                        working_dir: text_of(fields, "working_dir"),
                        timeout_secs,
                    },
                )
            },
            None => Err(String::from_str("Missing command")),
        }
    } else {
        Err(concat2("Unknown tool: ", name))
    }
}

/// What a call asks for, by the JSON text of its arguments.
pub open spec fn planned_call(name: Seq<char>, arguments: Seq<char>) -> Result<
    ToolActionView,
    Seq<char>,
> {
    match parsed_json(arguments) {
        Ok(fields) => planned(name, fields),
        Err(e) => Err(e),
    }
}

/// What a call asks for, or why it cannot be carried out. The performing is
/// the caller's.
pub fn execute_tool(name: &str, arguments: &str) -> (r: Result<ToolAction, String>)
    ensures
        action_view(r) == planned_call(name@, arguments@),
{
    match parse_json(arguments) {
        Ok(fields) => plan_tool(name, &fields),
        Err(e) => Err(e),
    }
}

/// Whether every named field is there as a string.
pub open spec fn all_given(required: Seq<Seq<char>>, fields: Seq<(Seq<char>, JsonFieldView)>) -> bool {
    forall|k: int|
        0 <= k < required.len() ==> text_field(fields, #[trigger] required[k]) is Some
}

/// A tool that is offered can be carried out exactly when the arguments that
/// its definition requires are given.
pub proof fn a_call_succeeds_when_its_required_arguments_are_given(
    i: int,
    fields: Seq<(Seq<char>, JsonFieldView)>,
)
    requires
        0 <= i < catalogue().len(),
    ensures
        planned(catalogue()[i].name, fields) is Ok <==> all_given(
            catalogue()[i].required,
            fields,
        ),
{
    lemma_tool_names_differ();
    let required = catalogue()[i].required;
    if all_given(required, fields) {
        if required.len() > 0 {
            assert(text_field(fields, required[0]) is Some);
        }
        if required.len() > 1 {
            assert(text_field(fields, required[1]) is Some);
        }
        if required.len() > 2 {
            assert(text_field(fields, required[2]) is Some);
        }
    }
}

proof fn lemma_tool_names_differ()
    ensures
        "write_file"@ != "read_file"@,
        "write_file"@ != "list_files"@,
        "write_file"@ != "replace_in_file"@,
        "write_file"@ != "run_terminal_command"@,
        "read_file"@ != "list_files"@,
        "read_file"@ != "replace_in_file"@,
        "read_file"@ != "run_terminal_command"@,
        "list_files"@ != "replace_in_file"@,
        "list_files"@ != "run_terminal_command"@,
        "replace_in_file"@ != "run_terminal_command"@,
{
    reveal_strlit("write_file");
    reveal_strlit("read_file");
    reveal_strlit("list_files");
    reveal_strlit("replace_in_file");
    reveal_strlit("run_terminal_command");
    assert("write_file"@[0] == 'w' && "list_files"@[0] == 'l');
    assert("write_file"@.len() == 10 && "read_file"@.len() == 9 && "list_files"@.len() == 10
        && "replace_in_file"@.len() == 15 && "run_terminal_command"@.len() == 20);
}

/// A tool that is not offered is never carried out.
pub proof fn only_offered_tools_are_carried_out(
    name: Seq<char>,
    fields: Seq<(Seq<char>, JsonFieldView)>,
)
    ensures
        planned(name, fields) is Ok ==> exists|i: int|
            0 <= i < catalogue().len() && (#[trigger] catalogue()[i]).name == name,
{
    assert(catalogue()[0].name == "write_file"@);
    assert(catalogue()[1].name == "read_file"@);
    assert(catalogue()[2].name == "list_files"@);
    assert(catalogue()[3].name == "replace_in_file"@);
    assert(catalogue()[4].name == "run_terminal_command"@);
}

// ---------------------------------------------------------------------------
// The sandbox
// ---------------------------------------------------------------------------

/// Whether a path lies in or below a directory, component by component.
pub open spec fn is_within(path: Seq<Seq<char>>, bound: Seq<Seq<char>>) -> bool {
    bound.len() <= path.len() && path.take(bound.len() as int) == bound
}

/// Whether a path lies in or below a directory. Both are given by their
/// components.
pub fn within(path: &Vec<String>, bound: &Vec<String>) -> (r: bool)
    ensures
        r == is_within(string_views(path@), string_views(bound@)),
{
    if bound.len() > path.len() {
        return false;
    }
    let ghost p = string_views(path@);
    let ghost b = string_views(bound@);
    let mut i: usize = 0;
    while i < bound.len()
        invariant
            i <= bound.len() <= path.len(),
            p == string_views(path@),
            b == string_views(bound@),
            forall|k: int| 0 <= k < i ==> #[trigger] p[k] == b[k],
        decreases bound.len() - i,
    {
        assert(p[i as int] == path@[i as int]@ && b[i as int] == bound@[i as int]@);
        if !same(&path[i], &bound[i]) {
            assert(p.take(b.len() as int)[i as int] != b[i as int]);
            return false;
        }
        i = i + 1;
    }
    assert(p.take(b.len() as int) =~= b);
    true
}

/// The views of several paths.
pub open spec fn path_views(paths: Seq<Vec<String>>) -> Seq<Seq<Seq<char>>> {
    paths.map_values(|p: Vec<String>| string_views(p@))
}

/// Whether a path lies in or below one of the directories.
pub open spec fn is_allowed(path: Seq<Seq<char>>, bounds: Seq<Seq<Seq<char>>>) -> bool {
    exists|i: int| 0 <= i < bounds.len() && is_within(path, #[trigger] bounds[i])
}

pub open spec fn refusal_text(shown: Seq<char>) -> Seq<char> {
    "Sandbox: "@ + shown
        + " is outside the working directory and home directory. Allow writes anywhere with /sandbox off (or comms sandbox off)."@
}

/// Where one more component leads: `.` nowhere, `..` one directory up, but
/// never above the root, and a name below.
pub open spec fn step(path: Seq<Seq<char>>, part: Seq<char>) -> Seq<Seq<char>> {
    if part == "."@ {
        path
    } else if part == ".."@ {
        if path.len() > 0 && path.last() != "/"@ {
            path.drop_last()
        } else {
            path
        }
    } else {
        path.push(part)
    }
}

/// The path with every `.` and `..` in it walked.
pub open spec fn without_dots(path: Seq<Seq<char>>) -> Seq<Seq<char>>
    decreases path.len(),
{
    if path.len() == 0 {
        path
    } else {
        step(without_dots(path.drop_last()), path.last())
    }
}

/// Whether a component is a name, not one of the two that walk.
pub open spec fn is_name(part: Seq<char>) -> bool {
    part != "."@ && part != ".."@
}

/// Whether nothing in a path walks.
pub open spec fn is_plain(path: Seq<Seq<char>>) -> bool {
    forall|i: int| 0 <= i < path.len() ==> is_name(#[trigger] path[i])
}

/// Takes one more component of a path.
fn walk(path: &mut Vec<String>, part: &String)
    ensures
        string_views(final(path)@) == step(string_views(old(path)@), part@),
{
    let ghost before = string_views(path@);
    if same(part, ".") {
        return;
    }
    if same(part, "..") {
        let n: usize = path.len();
        if n > 0 {
            assert(before.last() == path@[n - 1]@);
            if !same(&path[n - 1], "/") {
                path.pop();
                assert(string_views(path@) =~= before.drop_last());
            }
        }
        return;
    }
    path.push(part.clone());
    assert(string_views(path@) =~= before.push(part@));
}

/// Takes the components of a path from one on.
fn walk_from(path: &mut Vec<String>, parts: &Vec<String>, start: usize)
    requires
        start <= parts@.len(),
    ensures
        forall|head: Seq<Seq<char>>|
            #![trigger without_dots(head)]
            string_views(old(path)@) == without_dots(head) ==> string_views(final(path)@)
                == without_dots(head + string_views(parts@).skip(start as int)),
{
    let ghost before = string_views(path@);
    let ghost all = string_views(parts@);
    let mut i: usize = start;
    assert forall|head: Seq<Seq<char>>|
        #![trigger without_dots(head)]
        before == without_dots(head) implies string_views(path@) == without_dots(
        head + all.subrange(start as int, start as int),
    ) by {
        assert(head + all.subrange(start as int, start as int) =~= head);
    }
    while i < parts.len()
        invariant
            start <= i <= parts@.len(),
            all == string_views(parts@),
            forall|head: Seq<Seq<char>>|
                #![trigger without_dots(head)]
                before == without_dots(head) ==> string_views(path@) == without_dots(
                    head + all.subrange(start as int, i as int),
                ),
        decreases parts@.len() - i,
    {
        let ghost so_far = string_views(path@);
        walk(path, &parts[i]);
        assert forall|head: Seq<Seq<char>>|
            #![trigger without_dots(head)]
            before == without_dots(head) implies string_views(path@) == without_dots(
            head + all.subrange(start as int, i + 1),
        ) by {
            let longer = head + all.subrange(start as int, i + 1);
            assert(longer.drop_last() =~= head + all.subrange(start as int, i as int));
            assert(longer.last() == parts@[i as int]@);
        }
        i = i + 1;
    }
    assert(all.subrange(start as int, i as int) =~= all.skip(start as int));
}

/// Walks every `.` and `..` in a path.
fn walked(parts: &Vec<String>) -> (r: Vec<String>)
    ensures
        string_views(r@) == without_dots(string_views(parts@)),
{
    let mut out: Vec<String> = Vec::new();
    let ghost none = Seq::<Seq<char>>::empty();
    assert(string_views(out@) =~= without_dots(none));
    walk_from(&mut out, parts, 0);
    assert(none + string_views(parts@).skip(0) =~= string_views(parts@));
    out
}

/// Why a write is refused: with the sandbox on, one that lands outside every
/// bound is, once every `.` and `..` in its path is walked. `shown` is the path
/// as it is displayed.
pub fn sandbox_refusal(
    path: &Vec<String>,
    shown: &str,
    bounds: &Vec<Vec<String>>,
    sandbox: bool,
) -> (r: Option<String>)
    ensures
        r is Some <==> sandbox && !is_allowed(
            without_dots(string_views(path@)),
            path_views(bounds@),
        ),
        r matches Some(message) ==> message@ == refusal_text(shown@),
{
    if !sandbox {
        return None;
    }
    let place: Vec<String> = walked(path);
    let mut i: usize = 0;
    while i < bounds.len()
        invariant
            i <= bounds.len(),
            string_views(place@) == without_dots(string_views(path@)),
            forall|k: int|
                0 <= k < i ==> !is_within(string_views(place@), #[trigger] path_views(bounds@)[k]),
        decreases bounds.len() - i,
    {
        assert(path_views(bounds@)[i as int] == string_views(bounds@[i as int]@));
        if within(&place, &bounds[i]) {
            return None;
        }
        i = i + 1;
    }
    Some(
        concat3(
            "Sandbox: ",
            shown,
            " is outside the working directory and home directory. Allow writes anywhere with /sandbox off (or comms sandbox off).",
        ),
    )
}

/// The deepest ancestor of a path that exists. `exists[k]` says whether the
/// one with `k` components does.
pub fn nearest_existing(exists: &Vec<bool>) -> (r: Option<usize>)
    ensures
        r is None <==> forall|k: int| 0 <= k < exists@.len() ==> !#[trigger] exists@[k],
        r matches Some(k) ==> k < exists@.len() && exists@[k as int] && forall|j: int|
            k < j < exists@.len() ==> !#[trigger] exists@[j],
{
    let mut n: usize = exists.len();
    while n > 0
        invariant
            n <= exists@.len(),
            forall|j: int| n <= j < exists@.len() ==> !#[trigger] exists@[j],
        decreases n,
    {
        n = n - 1;
        if exists[n] {
            return Some(n);
        }
    }
    None
}

/// Where a path lands: its deepest existing ancestor in canonical form, and
/// behind it what does not exist yet, with every `.` and `..` there walked.
/// `found` is how many components that ancestor has, and its canonical form;
/// without one the path is walked as it is spelled.
pub open spec fn landing(
    absolute: Seq<Seq<char>>,
    found: Option<(int, Seq<Seq<char>>)>,
) -> Seq<Seq<char>> {
    match found {
        Some((kept, canonical)) => without_dots(canonical + absolute.skip(kept)),
        None => without_dots(absolute),
    }
}

pub open spec fn found_view(found: Option<(usize, Vec<String>)>) -> Option<(int, Seq<Seq<char>>)> {
    match found {
        Some((kept, canonical)) => Some((kept as int, string_views(canonical@))),
        None => None,
    }
}

/// Where a path lands.
pub fn resolve_for_sandbox(absolute: &Vec<String>, found: Option<(usize, Vec<String>)>) -> (r: Vec<
    String,
>)
    requires
        found matches Some((kept, _)) ==> kept <= absolute@.len(),
    ensures
        string_views(r@) == landing(string_views(absolute@), found_view(found)),
{
    match found {
        Some((kept, canonical)) => {
            let mut out: Vec<String> = walked(&canonical);
            walk_from(&mut out, absolute, kept);
            out
        },
        None => walked(absolute),
    }
}

/// Walking a path leaves nothing in it that walks, and a path without such a
/// component as it is.
pub proof fn no_dots_are_left(path: Seq<Seq<char>>)
    ensures
        is_plain(without_dots(path)),
        is_plain(path) ==> without_dots(path) == path,
        without_dots(without_dots(path)) == without_dots(path),
{
    walking_leaves_names(path);
    a_plain_path_stays(path);
    a_plain_path_stays(without_dots(path));
}

proof fn walking_leaves_names(path: Seq<Seq<char>>)
    ensures
        is_plain(without_dots(path)),
    decreases path.len(),
{
    if path.len() > 0 {
        walking_leaves_names(path.drop_last());
    }
}

proof fn a_plain_path_stays(path: Seq<Seq<char>>)
    ensures
        is_plain(path) ==> without_dots(path) == path,
    decreases path.len(),
{
    if path.len() > 0 && is_plain(path) {
        let rest = path.drop_last();
        assert forall|i: int| 0 <= i < rest.len() implies is_name(#[trigger] rest[i]) by {
            assert(rest[i] == path[i]);
        }
        a_plain_path_stays(rest);
        assert(is_name(path[path.len() - 1]));
        assert(rest.push(path.last()) =~= path);
    }
}

/// A step into a directory and one back up lead nowhere, and `..` alone leads
/// to the directory above, which is outside a bound that the path was the
/// whole of.
pub proof fn two_dots_lead_up(path: Seq<Seq<char>>, name: Seq<char>)
    requires
        is_name(name),
        name != "/"@,
    ensures
        without_dots(path.push(name).push(".."@)) == without_dots(path),
        without_dots(path.push("."@)) == without_dots(path),
        without_dots(path).len() > 0 && without_dots(path).last() != "/"@ ==> ({
            let above = without_dots(path.push(".."@));
            &&& above == without_dots(path).drop_last()
            &&& !is_within(above, without_dots(path))
        }),
{
    reveal_strlit(".");
    reveal_strlit("..");
    assert("."@.len() == 1 && ".."@.len() == 2);
    assert(path.push(name).drop_last() =~= path);
    assert(path.push(name).push(".."@).drop_last() =~= path.push(name));
    assert(path.push("."@).drop_last() =~= path);
    assert(path.push(".."@).drop_last() =~= path);
    let inside = without_dots(path).push(name);
    assert(inside.drop_last() =~= without_dots(path));
    assert(inside.last() == name);
    assert(without_dots(path.push(name)) == step(without_dots(path), name));
    assert(without_dots(path.push(name).push(".."@)) == step(inside, ".."@));
}

/// However a path was spelled, a write is allowed where the place it lands in
/// lies in or below a bound: what exists of it does, and what does not exist
/// yet only goes down from there.
pub proof fn the_bound_is_where_a_path_lands(
    absolute: Seq<Seq<char>>,
    kept: int,
    canonical: Seq<Seq<char>>,
    bounds: Seq<Seq<Seq<char>>>,
    bound: int,
)
    requires
        0 <= kept <= absolute.len(),
        0 <= bound < bounds.len(),
        is_plain(canonical),
        is_plain(absolute.skip(kept)),
    ensures
        landing(absolute, Some((kept, canonical))) == canonical + absolute.skip(kept),
        is_within(canonical, bounds[bound]) ==> is_allowed(
            landing(absolute, Some((kept, canonical))),
            bounds,
        ),
{
    let rest = absolute.skip(kept);
    let path = canonical + rest;
    assert forall|i: int| 0 <= i < path.len() implies is_name(#[trigger] path[i]) by {
        if i < canonical.len() {
            assert(path[i] == canonical[i]);
        } else {
            assert(path[i] == rest[i - canonical.len()]);
        }
    }
    a_plain_path_stays(path);
    let b = bounds[bound];
    if is_within(canonical, b) {
        assert(path.take(b.len() as int) =~= canonical.take(b.len() as int));
        assert(is_within(path, bounds[bound]));
    }
}

/// A write that starts in a bound and climbs out of it, through directories
/// that do not exist yet or through others, is refused: what is allowed lies in
/// or below a bound with nothing left in it that leads elsewhere.
pub proof fn nothing_climbs_out_of_the_bounds(
    absolute: Seq<Seq<char>>,
    found: Option<(int, Seq<Seq<char>>)>,
    bounds: Seq<Seq<Seq<char>>>,
)
    ensures
        is_plain(landing(absolute, found)),
        without_dots(landing(absolute, found)) == landing(absolute, found),
        is_allowed(without_dots(landing(absolute, found)), bounds) <==> exists|i: int|
            0 <= i < bounds.len() && is_within(landing(absolute, found), #[trigger] bounds[i]),
{
    match found {
        Some((kept, canonical)) => no_dots_are_left(canonical + absolute.skip(kept)),
        None => no_dots_are_left(absolute),
    }
}

/// Adding a bound never forbids what was allowed.
pub proof fn another_bound_forbids_nothing(
    path: Seq<Seq<char>>,
    bounds: Seq<Seq<Seq<char>>>,
    another: Seq<Seq<char>>,
)
    requires
        is_allowed(path, bounds),
    ensures
        is_allowed(path, bounds.push(another)),
{
    let i = choose|i: int| 0 <= i < bounds.len() && is_within(path, #[trigger] bounds[i]);
    assert(bounds.push(another)[i] == bounds[i]);
}

// ---------------------------------------------------------------------------
// What is reported back
// ---------------------------------------------------------------------------

/// What a tool call came to.
#[derive(Debug, Clone, PartialEq, Eq)]
pub enum ToolReport {
    Failed { error: String },
    Written { message: String, filepath: String },
    Contents { content: String, lines: usize },
    Listing { files: Vec<String>, count: usize },
    Updated { message: String },
    Finished { success: bool, exit_code: i32, stdout: String, stderr: String },
    TimedOut { error: String },
}

fn failed(prefix: &str, name: &str) -> (r: ToolReport)
    ensures
        r matches ToolReport::Failed { error } && error@ == prefix@ + name@,
{
    ToolReport::Failed { error: concat2(prefix, name) }
}

/// The report on a file that was written to `path`.
pub fn write_report(filepath: &str, path: String) -> (r: ToolReport)
    ensures
        r matches ToolReport::Written { message, filepath: p } && message@ == "File written: "@
            + filepath@ && p == path,
{
    ToolReport::Written { message: concat2("File written: ", filepath), filepath: path }
}

/// The report on a file that was read, or that does not exist.
pub fn read_report(filepath: &str, content: Option<String>) -> (r: ToolReport)
    ensures
        match content {
            Some(text) => r matches ToolReport::Contents { content: c, lines: n } && c == text && n
                == lines(text@).len(),
            None => r matches ToolReport::Failed { error } && error@ == "File not found: "@
                + filepath@,
        },
{
    match content {
        Some(text) => {
            let chars: Vec<char> = chars_of(&text);
            let all: Vec<Vec<char>> = lines_of(&chars);
            assert(views(all@).len() == all@.len());
            ToolReport::Contents { content: text, lines: all.len() }
        },
        None => failed("File not found: ", filepath),
    }
}

/// Whether one text comes before another or is it, by its characters' codes.
pub open spec fn text_le(a: Seq<char>, b: Seq<char>) -> bool
    decreases a.len(),
{
    if a.len() == 0 {
        true
    } else if b.len() == 0 {
        false
    } else if a[0] == b[0] {
        text_le(a.drop_first(), b.drop_first())
    } else {
        (a[0] as u32) < (b[0] as u32)
    }
}

proof fn lemma_text_le_total(a: Seq<char>, b: Seq<char>)
    ensures
        text_le(a, b) || text_le(b, a),
    decreases a.len(),
{
    if a.len() > 0 && b.len() > 0 {
        if a[0] == b[0] {
            lemma_text_le_total(a.drop_first(), b.drop_first());
        } else {
            vstd::utf8::char_u32_cast(a[0], a[0] as u32);
            vstd::utf8::char_u32_cast(b[0], b[0] as u32);
            assert(a[0] as u32 != b[0] as u32);
        }
    }
}

proof fn lemma_text_le_transitive(a: Seq<char>, b: Seq<char>, c: Seq<char>)
    requires
        text_le(a, b),
        text_le(b, c),
    ensures
        text_le(a, c),
    decreases a.len(),
{
    if a.len() > 0 && b.len() > 0 && c.len() > 0 && a[0] == b[0] && b[0] == c[0] {
        lemma_text_le_transitive(a.drop_first(), b.drop_first(), c.drop_first());
    }
}

fn before_or_same(a: &str, b: &str) -> (r: bool)
    ensures
        r == text_le(a@, b@),
{
    let x: Vec<char> = chars_of(a);
    let y: Vec<char> = chars_of(b);
    let mut i: usize = 0;
    assert(x@.skip(0) == a@ && y@.skip(0) == b@);
    while i < x.len() && i < y.len()
        invariant
            i <= x@.len(),
            i <= y@.len(),
            text_le(a@, b@) == text_le(x@.skip(i as int), y@.skip(i as int)),
        decreases x@.len() - i,
    {
        assert(x@.skip(i as int).drop_first() == x@.skip(i + 1));
        assert(y@.skip(i as int).drop_first() == y@.skip(i + 1));
        if x[i] != y[i] {
            return (x[i] as u32) < (y[i] as u32);
        }
        i = i + 1;
    }
    i == x.len()
}

/// No text comes before an earlier one.
pub open spec fn is_sorted(names: Seq<String>) -> bool {
    forall|i: int, j: int|
        0 <= i < j < names.len() ==> text_le((#[trigger] names[i])@, (#[trigger] names[j])@)
}

/// The same texts in order.
pub fn sort_names(names: Vec<String>) -> (r: Vec<String>)
    ensures
        is_sorted(r@),
        r@.to_multiset() == names@.to_multiset(),
        r@.len() == names@.len(),
{
    let mut rest: Vec<String> = names;
    let mut out: Vec<String> = Vec::new();
    let ghost all = rest@;
    assert(out@.to_multiset().add(rest@.to_multiset()) =~= all.to_multiset());
    while rest.len() > 0
        invariant
            is_sorted(out@),
            out@.len() + rest@.len() == all.len(),
            out@.to_multiset().add(rest@.to_multiset()) == all.to_multiset(),
        decreases rest@.len(),
    {
        let ghost rest_before = rest@;
        let ghost out_before = out@;
        let name: String = match rest.pop() {
            Some(n) => n,
            None => {
                return out;
            },
        };
        let mut at: usize = 0;
        while at < out.len() && before_or_same(&out[at], &name)
            invariant
                at <= out@.len(),
                forall|k: int| 0 <= k < at ==> text_le((#[trigger] out@[k])@, name@),
            decreases out@.len() - at,
        {
            at = at + 1;
        }
        proof {
            assert forall|k: int| at <= k < out@.len() implies text_le(
                name@,
                (#[trigger] out@[k])@,
            ) by {
                lemma_text_le_total(out@[at as int]@, name@);
                if k > at {
                    assert(text_le(out@[at as int]@, out@[k]@));
                    lemma_text_le_transitive(name@, out@[at as int]@, out@[k]@);
                }
            }
        }
        out.insert(at, name);
        proof {
            assert forall|i: int, j: int| 0 <= i < j < out@.len() implies text_le(
                (#[trigger] out@[i])@,
                (#[trigger] out@[j])@,
            ) by {
                let bi = if i < at { i } else { i - 1 };
                let bj = if j < at { j } else { j - 1 };
                if i != at {
                    assert(out@[i] == out_before[bi]);
                }
                if j != at {
                    assert(out@[j] == out_before[bj]);
                }
            }
            assert(out@.remove(at as int) =~= out_before);
            vstd::seq_lib::to_multiset_remove(out@, at as int);
            assert(out@.contains(out@[at as int]));
            assert(rest_before == rest@.push(name));
            vstd::seq_lib::to_multiset_build(rest@, name);
            assert(out@.to_multiset().add(rest@.to_multiset()) =~= out_before.to_multiset().add(
                rest_before.to_multiset(),
            ));
        }
    }
    assert(rest@ == Seq::<String>::empty());
    assert(out@.to_multiset().add(rest@.to_multiset()) =~= out@.to_multiset());
    out
}

/// How an entry of a directory is listed: a directory with a slash behind it.
pub open spec fn entry_text(name: Seq<char>, is_dir: bool) -> Seq<char> {
    if is_dir {
        name + "/"@
    } else {
        name
    }
}

/// The texts that the entries of a directory are listed as.
pub open spec fn entry_texts(entries: Seq<(String, bool)>) -> Seq<Seq<char>> {
    entries.map_values(|e: (String, bool)| entry_text(e.0@, e.1))
}

/// The report on a directory, or on one that does not exist: its entries in
/// order.
pub fn list_report(dirpath: &str, entries: Option<Vec<(String, bool)>>) -> (r: ToolReport)
    ensures
        match entries {
            Some(found) => r matches ToolReport::Listing { files, count } && is_sorted(files@)
                && count == files@.len() && string_views(files@).to_multiset() == entry_texts(
                found@,
            ).to_multiset(),
            None => r matches ToolReport::Failed { error } && error@ == "Directory not found: "@
                + dirpath@,
        },
{
    match entries {
        Some(found) => {
            let mut names: Vec<String> = Vec::new();
            let mut i: usize = 0;
            while i < found.len()
                invariant
                    i <= found@.len(),
                    string_views(names@) == entry_texts(found@).take(i as int),
                decreases found@.len() - i,
            {
                let ghost before = string_views(names@);
                let name: String = if found[i].1 {
                    concat2(&found[i].0, "/")
                } else {
                    found[i].0.clone()
                };
                names.push(name);
                assert(string_views(names@) == before.push(name@));
                assert(entry_texts(found@).take(i + 1) == before.push(entry_texts(found@)[i as int]));
                i = i + 1;
            }
            assert(entry_texts(found@).take(i as int) == entry_texts(found@));
            let files: Vec<String> = sort_names(names);
            proof {
                lemma_views_keep_the_multiset(files@, names@);
            }
            let count: usize = files.len();
            ToolReport::Listing { files, count }
        },
        None => failed("Directory not found: ", dirpath),
    }
}

proof fn lemma_views_keep_the_multiset(a: Seq<String>, b: Seq<String>)
    requires
        a.to_multiset() == b.to_multiset(),
    ensures
        string_views(a).to_multiset() == string_views(b).to_multiset(),
    decreases a.len(),
{
    vstd::seq_lib::to_multiset_len(a);
    vstd::seq_lib::to_multiset_len(b);
    if a.len() == 0 {
        assert(string_views(a) =~= string_views(b));
    } else {
        let x = a.last();
        assert(a == a.drop_last().push(x));
        assert(a.to_multiset().count(x) > 0) by {
            vstd::seq_lib::to_multiset_build(a.drop_last(), x);
        }
        assert(b.contains(x)) by {
            b.to_multiset_ensures();
        }
        let i = b.index_of(x);
        vstd::seq_lib::to_multiset_remove(b, i);
        vstd::seq_lib::to_multiset_build(a.drop_last(), x);
        assert(a.drop_last().to_multiset() =~= b.remove(i).to_multiset());
        lemma_views_keep_the_multiset(a.drop_last(), b.remove(i));
        assert(string_views(a) == string_views(a.drop_last()).push(x@));
        vstd::seq_lib::to_multiset_build(string_views(a.drop_last()), x@);
        assert(string_views(b).remove(i) =~= string_views(b.remove(i)));
        assert(string_views(b)[i] == x@);
        vstd::seq_lib::to_multiset_remove(string_views(b), i);
        assert(string_views(b).to_multiset().count(x@) > 0) by {
            string_views(b).to_multiset_ensures();
            assert(string_views(b).contains(x@));
        }
        assert(string_views(a).to_multiset() =~= string_views(b).to_multiset());
    }
}

/// Whether a text occurs in another.
pub open spec fn occurs(text: Seq<char>, search: Seq<char>) -> bool {
    exists|i: int|
        0 <= i <= text.len() - search.len() && #[trigger] text.subrange(
            i,
            i + search.len(),
        ) == search
}

/// A text with every occurrence of `search`, from the left and without
/// overlaps, replaced. The empty text occurs in front of every character and
/// at the end.
pub open spec fn replaced(text: Seq<char>, search: Seq<char>, by: Seq<char>) -> Seq<char>
    decreases text.len(),
{
    if search.len() == 0 {
        if text.len() == 0 {
            by
        } else {
            by + seq![text[0]] + replaced(text.drop_first(), search, by)
        }
    } else if text.len() < search.len() {
        text
    } else if text.take(search.len() as int) == search {
        by + replaced(text.skip(search.len() as int), search, by)
    } else {
        seq![text[0]] + replaced(text.drop_first(), search, by)
    }
}

fn starts_at(text: &Vec<char>, i: usize, search: &Vec<char>) -> (r: bool)
    requires
        i + search@.len() <= text@.len(),
    ensures
        r == (text@.subrange(i as int, i + search@.len()) == search@),
{
    let n: usize = text.len();
    assert(i + search@.len() <= n);
    let part: &[char] = vstd::slice::slice_subrange(text, i, i + search.len());
    same_chars(part, search)
}

/// Whether a text occurs in another.
pub fn contains_text(text: &Vec<char>, search: &Vec<char>) -> (r: bool)
    ensures
        r == occurs(text@, search@),
{
    if search.len() > text.len() {
        return false;
    }
    let last: usize = text.len() - search.len();
    let mut i: usize = 0;
    loop
        invariant
            i <= last,
            last == text@.len() - search@.len(),
            forall|k: int|
                0 <= k < i ==> #[trigger] text@.subrange(k, k + search@.len()) != search@,
        decreases last - i,
    {
        if starts_at(text, i, search) {
            assert(text@.subrange(i as int, i + search@.len()) == search@);
            return true;
        }
        if i == last {
            return false;
        }
        i = i + 1;
    }
}

/// A text with every occurrence of another replaced.
pub fn replace_text(text: &Vec<char>, search: &Vec<char>, by: &Vec<char>) -> (r: Vec<char>)
    ensures
        r@ == replaced(text@, search@, by@),
{
    let mut out: Vec<char> = Vec::new();
    let mut i: usize = 0;
    assert(text@.skip(0) == text@);
    while i < text.len()
        invariant
            i <= text@.len(),
            out@ + replaced(text@.skip(i as int), search@, by@) == replaced(text@, search@, by@),
        decreases text@.len() - i,
    {
        let ghost rest = text@.skip(i as int);
        let ghost before = out@;
        assert(rest.drop_first() == text@.skip(i + 1));
        if search.len() == 0 {
            push_all(&mut out, by);
            out.push(text[i]);
            assert(out@ + replaced(rest.drop_first(), search@, by@) =~= before + (by@ + seq![rest[0]]
                + replaced(rest.drop_first(), search@, by@)));
            i = i + 1;
        } else if text.len() - i < search.len() {
            out.push(text[i]);
            assert(replaced(rest.drop_first(), search@, by@) == rest.drop_first());
            assert(out@ + rest.drop_first() =~= before + rest);
            i = i + 1;
        } else if starts_at(text, i, search) {
            assert(rest.take(search@.len() as int) == text@.subrange(
                i as int,
                i + search@.len(),
            ));
            assert(rest.skip(search@.len() as int) == text@.skip(i + search@.len()));
            push_all(&mut out, by);
            assert(out@ + replaced(rest.skip(search@.len() as int), search@, by@) =~= before + (by@
                + replaced(rest.skip(search@.len() as int), search@, by@)));
            i = i + search.len();
        } else {
            assert(rest.take(search@.len() as int) == text@.subrange(
                i as int,
                i + search@.len(),
            ));
            out.push(text[i]);
            assert(out@ + replaced(rest.drop_first(), search@, by@) =~= before + (seq![rest[0]]
                + replaced(rest.drop_first(), search@, by@)));
            i = i + 1;
        }
    }
    assert(text@.skip(i as int) == Seq::<char>::empty());
    if search.len() == 0 {
        push_all(&mut out, by);
    } else {
        assert(out@ + Seq::<char>::empty() == out@);
    }
    out
}

fn push_all(out: &mut Vec<char>, more: &Vec<char>)
    ensures
        final(out)@ == old(out)@ + more@,
{
    let mut i: usize = 0;
    while i < more.len()
        invariant
            i <= more@.len(),
            out@ == old(out)@ + more@.take(i as int),
        decreases more@.len() - i,
    {
        out.push(more[i]);
        assert(out@ =~= old(out)@ + more@.take(i + 1));
        i = i + 1;
    }
    assert(more@.take(i as int) == more@);
}

/// A text in which `search` does not occur stays as it is.
pub proof fn replacing_nothing_changes_nothing(
    text: Seq<char>,
    search: Seq<char>,
    by: Seq<char>,
)
    requires
        !occurs(text, search),
    ensures
        replaced(text, search, by) == text,
    decreases text.len(),
{
    let start: int = 0;
    if search.len() == 0 {
        assert(text.subrange(start, start + search.len()) =~= search);
    } else if text.len() >= search.len() {
        assert(text.subrange(start, start + search.len()) =~= text.take(search.len() as int));
        assert(!occurs(text.drop_first(), search)) by {
            if occurs(text.drop_first(), search) {
                let i = choose|i: int|
                    0 <= i <= text.drop_first().len() - search.len()
                        && #[trigger] text.drop_first().subrange(i, i + search.len()) == search;
                assert(text.subrange(i + 1, i + 1 + search.len()) =~= text.drop_first().subrange(
                    i,
                    i + search.len(),
                ));
            }
        }
        replacing_nothing_changes_nothing(text.drop_first(), search, by);
        assert(seq![text[0]] + text.drop_first() =~= text);
    }
}

/// Replacing a text by itself changes nothing.
pub proof fn replacing_a_text_by_itself_changes_nothing(text: Seq<char>, search: Seq<char>)
    ensures
        replaced(text, search, search) == text,
    decreases text.len(),
{
    if search.len() == 0 {
        if text.len() > 0 {
            replacing_a_text_by_itself_changes_nothing(text.drop_first(), search);
            assert(search + seq![text[0]] + text.drop_first() =~= text);
        } else {
            assert(search =~= text);
        }
    } else if text.len() >= search.len() {
        if text.take(search.len() as int) == search {
            replacing_a_text_by_itself_changes_nothing(text.skip(search.len() as int), search);
            assert(search + text.skip(search.len() as int) =~= text);
        } else {
            replacing_a_text_by_itself_changes_nothing(text.drop_first(), search);
            assert(seq![text[0]] + text.drop_first() =~= text);
        }
    }
}

/// The report on a replacement, and the text to write back where there is
/// one: the file has to exist and to hold what is searched for.
pub fn replace_report(
    filepath: &str,
    content: Option<String>,
    search: &str,
    replace: &str,
) -> (r: (ToolReport, Option<String>))
    ensures
        match content {
            None => r.1 is None && (r.0 matches ToolReport::Failed { error } && error@
                == "File not found: "@ + filepath@),
            Some(text) => if occurs(text@, search@) {
                &&& r.0 matches ToolReport::Updated { message }
                &&& message@ == "File updated"@
                &&& opt_view(r.1) == Some(replaced(text@, search@, replace@))
            } else {
                &&& r.1 is None
                &&& r.0 matches ToolReport::Failed { error }
                &&& error@ == "Search string not found in file"@
            },
        },
{
    match content {
        None => (failed("File not found: ", filepath), None),
        Some(text) => {
            let chars: Vec<char> = chars_of(&text);
            let wanted: Vec<char> = chars_of(search);
            if !contains_text(&chars, &wanted) {
                return (
                    ToolReport::Failed {
                        error: String::from_str("Search string not found in file"),
                    },
                    None,
                );
            }
            let by: Vec<char> = chars_of(replace);
            let updated: String = string_of(&replace_text(&chars, &wanted, &by));
            (ToolReport::Updated { message: String::from_str("File updated") }, Some(updated))
        },
    }
}

/// How long a command may run, in seconds: what was asked for, at least one.
pub fn command_timeout(timeout_secs: u64) -> (r: u64)
    ensures
        r == if timeout_secs == 0 {
            1
        } else {
            timeout_secs
        },
{
    if timeout_secs == 0 {
        1
    } else {
        timeout_secs
    }
}

/// How a command ended.
#[derive(Debug)]
pub enum CommandOutcome {
    MissingDir(String),
    Failed(String),
    TimedOut { timeout_secs: u64 },
    Exited { success: bool, code: Option<i32>, stdout: Vec<u8>, stderr: Vec<u8> },
}

/// The report on a command. One that a signal ended has the exit code -1.
pub fn command_report(outcome: CommandOutcome) -> (r: ToolReport)
    ensures
        match outcome {
            CommandOutcome::MissingDir(dir) => r matches ToolReport::Failed { error } && error@
                == "Working directory not found: "@ + dir@,
            CommandOutcome::Failed(e) => r matches ToolReport::Failed { error } && error@
                == "Failed to execute command: "@ + e@,
            CommandOutcome::TimedOut { timeout_secs } => r matches ToolReport::TimedOut { error }
                && error@ == "Command timed out after "@ + decimal(timeout_secs as nat)
                + " seconds and was killed"@,
            CommandOutcome::Exited { success, code, stdout, stderr } => {
                &&& r matches ToolReport::Finished {
                    success: s,
                    exit_code,
                    stdout: o,
                    stderr: e,
                }
                &&& s == success
                &&& exit_code == match code {
                    Some(c) => c,
                    None => -1i32,
                }
                &&& o@ == lossy_utf8(stdout@)
                &&& e@ == lossy_utf8(stderr@)
            },
        },
{
    match outcome {
        CommandOutcome::MissingDir(dir) => failed("Working directory not found: ", &dir),
        CommandOutcome::Failed(e) => failed("Failed to execute command: ", &e),
        CommandOutcome::TimedOut { timeout_secs } => ToolReport::TimedOut {
            error: concat3(
                "Command timed out after ",
                &decimal_of(timeout_secs),
                " seconds and was killed",
            ),
        },
        CommandOutcome::Exited { success, code, stdout, stderr } => ToolReport::Finished {
            success,
            exit_code: match code {
                Some(c) => c,
                None => -1,
            },
            stdout: from_utf8_lossy(&stdout),
            stderr: from_utf8_lossy(&stderr),
        },
    }
}

// ---------------------------------------------------------------------------
// Laws of the tools
// ---------------------------------------------------------------------------

/// Each field of an action is the argument of its own name, and each argument
/// reaches the field that it describes.
pub proof fn an_argument_reaches_the_field_of_its_name(
    name: Seq<char>,
    fields: Seq<(Seq<char>, JsonFieldView)>,
    action: ToolAction,
)
    requires
        planned(name, fields) == action_view(Ok(action)),
    ensures
        match action {
            ToolAction::WriteFile { filepath, content, append } => {
                &&& name == "write_file"@
                &&& text_field(fields, "filepath"@) == Some(filepath@)
                &&& text_field(fields, "content"@) == Some(content@)
                &&& append <==> text_field(fields, "mode"@) == Some("append"@)
            },
            ToolAction::ReadFile { filepath } => {
                &&& name == "read_file"@
                &&& text_field(fields, "filepath"@) == Some(filepath@)
            },
            ToolAction::ListFiles { dirpath } => {
                &&& name == "list_files"@
                &&& text_field(fields, "dirpath"@) is Some ==> text_field(fields, "dirpath"@)
                    == Some(dirpath@)
                &&& text_field(fields, "dirpath"@) is None ==> dirpath@ == "."@
            },
            ToolAction::ReplaceInFile { filepath, search, replace } => {
                &&& name == "replace_in_file"@
                &&& text_field(fields, "filepath"@) == Some(filepath@)
                &&& text_field(fields, "search"@) == Some(search@)
                &&& text_field(fields, "replace"@) == Some(replace@)
            },
            ToolAction::RunCommand { command, working_dir, timeout_secs } => {
                &&& name == "run_terminal_command"@
                &&& text_field(fields, "command"@) == Some(command@)
                &&& text_field(fields, "working_dir"@) == opt_view(working_dir)
                &&& unsigned_field(fields, "timeout_secs"@) is Some ==> unsigned_field(
                    fields,
                    "timeout_secs"@,
                ) == Some(timeout_secs)
                &&& unsigned_field(fields, "timeout_secs"@) is None ==> timeout_secs == 30
            },
        },
{
}

/// A call that cannot be carried out says which argument is missing: the first
/// one, in the order of the definition, that is not given as a string.
pub proof fn a_refused_call_names_the_first_missing_argument(
    i: int,
    k: int,
    fields: Seq<(Seq<char>, JsonFieldView)>,
)
    requires
        0 <= i < catalogue().len(),
        0 <= k < catalogue()[i].required.len(),
        text_field(fields, catalogue()[i].required[k]) is None,
        forall|j: int|
            0 <= j < k ==> text_field(fields, #[trigger] catalogue()[i].required[j]) is Some,
    ensures
        planned(catalogue()[i].name, fields) == Err::<ToolActionView, Seq<char>>(
            "Missing "@ + catalogue()[i].required[k],
        ),
{
    lemma_tool_names_differ();
    reveal_strlit("Missing ");
    reveal_strlit("Missing filepath");
    reveal_strlit("Missing content");
    reveal_strlit("Missing search");
    reveal_strlit("Missing replace");
    reveal_strlit("Missing command");
    reveal_strlit("filepath");
    reveal_strlit("content");
    reveal_strlit("search");
    reveal_strlit("replace");
    reveal_strlit("command");
    assert("Missing "@ + "filepath"@ =~= "Missing filepath"@);
    assert("Missing "@ + "content"@ =~= "Missing content"@);
    assert("Missing "@ + "search"@ =~= "Missing search"@);
    assert("Missing "@ + "replace"@ =~= "Missing replace"@);
    assert("Missing "@ + "command"@ =~= "Missing command"@);
    if k > 0 {
        assert(text_field(fields, catalogue()[i].required[0]) is Some);
    }
    if k > 1 {
        assert(text_field(fields, catalogue()[i].required[1]) is Some);
    }
}

/// Whether an occurrence of `search` starts at a place in a text.
pub open spec fn starts_here(text: Seq<char>, search: Seq<char>, at: int) -> bool {
    at + search.len() <= text.len() && text.subrange(at, at + search.len()) == search
}

/// Every occurrence is replaced, from the left: what stands in front of the
/// first one is kept, the replacement stands for it, and replacing goes on with
/// all that is behind it.
pub proof fn every_occurrence_is_replaced(
    front: Seq<char>,
    search: Seq<char>,
    rest: Seq<char>,
    by: Seq<char>,
)
    requires
        search.len() > 0,
        forall|i: int|
            0 <= i < front.len() ==> !#[trigger] starts_here(front + search + rest, search, i),
    ensures
        replaced(front + search + rest, search, by) == front + by + replaced(rest, search, by),
    decreases front.len(),
{
    let text = front + search + rest;
    let n = search.len() as int;
    if front.len() == 0 {
        assert(text.take(n) =~= search);
        assert(text.skip(n) =~= rest);
        assert(front + by + replaced(rest, search, by) =~= by + replaced(rest, search, by));
    } else {
        assert(!starts_here(text, search, 0));
        assert(text.subrange(0, n) =~= text.take(n));
        let shorter = front.drop_first();
        assert(text.drop_first() =~= shorter + search + rest);
        assert forall|i: int| 0 <= i < shorter.len() implies !#[trigger] starts_here(
            shorter + search + rest,
            search,
            i,
        ) by {
            assert(!starts_here(text, search, i + 1));
            if i + n <= shorter.len() + n + rest.len() {
                assert(text.subrange(i + 1, i + 1 + n) =~= (shorter + search + rest).subrange(
                    i,
                    i + n,
                ));
            }
        }
        every_occurrence_is_replaced(shorter, search, rest, by);
        assert(seq![text[0]] + (shorter + by + replaced(rest, search, by)) =~= front + by
            + replaced(rest, search, by));
    }
}

/// The empty text occurs in front of every character and at the end: the
/// replacement stands there, and the characters stay in their order.
pub proof fn nothing_is_replaced_everywhere(c: char, rest: Seq<char>, by: Seq<char>)
    ensures
        replaced(Seq::empty(), Seq::empty(), by) == by,
        replaced(seq![c] + rest, Seq::empty(), by) == by + seq![c] + replaced(
            rest,
            Seq::empty(),
            by,
        ),
{
    assert((seq![c] + rest).drop_first() =~= rest);
}

/// What an edit writes back does not hold the searched text where neither the
/// replacement nor a seam brings it back: with one occurrence and a text on
/// either side that holds none, exactly that one place changes.
pub proof fn one_occurrence_is_one_change(
    front: Seq<char>,
    search: Seq<char>,
    rest: Seq<char>,
    by: Seq<char>,
)
    requires
        search.len() > 0,
        forall|i: int|
            0 <= i < front.len() ==> !#[trigger] starts_here(front + search + rest, search, i),
        !occurs(rest, search),
    ensures
        occurs(front + search + rest, search),
        replaced(front + search + rest, search, by) == front + by + rest,
{
    every_occurrence_is_replaced(front, search, rest, by);
    replacing_nothing_changes_nothing(rest, search, by);
    let text = front + search + rest;
    let at = front.len() as int;
    assert(text.subrange(at, at + search.len()) =~= search);
}

/// A path lies in a directory exactly where it is the directory's path with
/// some, or no, components behind it.
pub proof fn what_lies_within_goes_on_from_the_bound(path: Seq<Seq<char>>, bound: Seq<Seq<char>>)
    ensures
        is_within(path, bound) <==> exists|rest: Seq<Seq<char>>| path == #[trigger] (bound + rest),
{
    if is_within(path, bound) {
        assert(path =~= bound + path.skip(bound.len() as int));
    }
    if exists|rest: Seq<Seq<char>>| path == #[trigger] (bound + rest) {
        let rest = choose|rest: Seq<Seq<char>>| path == #[trigger] (bound + rest);
        assert(path.take(bound.len() as int) =~= bound);
    }
}

/// Names are ordered by the first character in which they differ, and one that
/// goes on comes behind the one it goes on from; two that come before each
/// other are the same.
pub proof fn the_first_difference_decides(
    common: Seq<char>,
    a: char,
    b: char,
    rest: Seq<char>,
    other: Seq<char>,
)
    requires
        (a as u32) < (b as u32),
    ensures
        text_le(common + seq![a] + rest, common + seq![b] + other),
        !text_le(common + seq![b] + other, common + seq![a] + rest),
        text_le(common, common + rest),
        rest.len() > 0 ==> !text_le(common + rest, common),
    decreases common.len(),
{
    let x = common + seq![a] + rest;
    let y = common + seq![b] + other;
    if common.len() > 0 {
        the_first_difference_decides(common.drop_first(), a, b, rest, other);
        assert(x.drop_first() =~= common.drop_first() + seq![a] + rest);
        assert(y.drop_first() =~= common.drop_first() + seq![b] + other);
        assert((common + rest).drop_first() =~= common.drop_first() + rest);
    } else {
        assert(x[0] == a && y[0] == b);
        assert(common + rest =~= rest);
    }
}

/// A directory is listed with a slash behind its name, anything else by its
/// name alone, and every entry is.
pub proof fn every_entry_is_listed_by_its_name(entries: Seq<(String, bool)>, i: int)
    requires
        0 <= i < entries.len(),
    ensures
        entry_texts(entries).len() == entries.len(),
        entries[i].1 ==> entry_texts(entries)[i] == entries[i].0@.push('/'),
        !entries[i].1 ==> entry_texts(entries)[i] == entries[i].0@,
{
    reveal_strlit("/");
    assert(entries[i].0@ + "/"@ =~= entries[i].0@.push('/'));
}

/// A refusal names the place, and says how writes are allowed there.
pub proof fn a_refusal_names_the_place(shown: Seq<char>)
    ensures
        refusal_text(shown).len() > 9 + shown.len(),
        refusal_text(shown).subrange(0, 9) == "Sandbox: "@,
        refusal_text(shown).subrange(9, 9int + shown.len()) == shown,
{
    reveal_strlit("Sandbox: ");
    reveal_strlit(
        " is outside the working directory and home directory. Allow writes anywhere with /sandbox off (or comms sandbox off).",
    );
    assert(refusal_text(shown).subrange(0, 9) =~= "Sandbox: "@);
    assert(refusal_text(shown).subrange(9, 9int + shown.len()) =~= shown);
}

/// What a tool requires is among what it is described to take, and every
/// argument that a call is read by is described.
pub proof fn every_argument_is_described(i: int, k: int)
    requires
        0 <= i < catalogue().len(),
        0 <= k < catalogue()[i].required.len(),
    ensures
        catalogue().len() == 5,
        catalogue()[i].parameters[k].name == catalogue()[i].required[k],
        takes(catalogue()[0], "mode"@),
        takes(catalogue()[2], "dirpath"@),
        takes(catalogue()[4], "working_dir"@),
        takes(catalogue()[4], "timeout_secs"@),
        catalogue()[0].parameters[2].choices == seq!["write"@, "append"@],
{
    assert(catalogue()[0].parameters[2].name == "mode"@);
    assert(catalogue()[2].parameters[0].name == "dirpath"@);
    assert(catalogue()[4].parameters[1].name == "working_dir"@);
    assert(catalogue()[4].parameters[2].name == "timeout_secs"@);
}

/// Whether a tool is described to take an argument of a name.
pub open spec fn takes(tool: DefinitionView, name: Seq<char>) -> bool {
    exists|k: int| 0 <= k < tool.parameters.len() && (#[trigger] tool.parameters[k]).name == name
}

/// A call whose arguments are no JSON is refused with what is wrong with them,
/// and any other is read by its fields.
pub proof fn a_call_is_read_by_its_fields(
    name: Seq<char>,
    arguments: Seq<char>,
    fields: Seq<(Seq<char>, JsonFieldView)>,
    error: Seq<char>,
)
    ensures
        parsed_json(arguments) == Ok::<Seq<(Seq<char>, JsonFieldView)>, Seq<char>>(fields)
            ==> planned_call(name, arguments) == planned(name, fields),
        parsed_json(arguments) == Err::<Seq<(Seq<char>, JsonFieldView)>, Seq<char>>(error)
            ==> planned_call(name, arguments) == Err::<ToolActionView, Seq<char>>(error),
{
}

} // verus!
