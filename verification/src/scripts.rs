//! The scripts and targets that a project's configuration files expose.

use vstd::prelude::*;
use vstd::string::StringExecFns;
use vstd::utf8::encode_utf8;
use crate::detectors::{DetectedRunner, Ecosystem};
use crate::document::{
    field, fields_view, json_document, lemma_fields_view, lookup, parse_json, parse_toml,
    text_or_empty, toml_document, well_formed, Node, NodeSpec,
};
use crate::project::{
    file_text, has_file, lemma_entry_index, lemma_same_index, same_names, Directory, FileSpec,
};
use crate::makefile::{makefile_scripts, makefile_targets};
use crate::text::same_text;

verus! {

/// A script or target that a project offers.
#[derive(Debug)]
pub struct ProjectScript {
    /// The name by which the script is called.
    pub name: String,
    /// The command that it stands for.
    pub command: String,
}

/// What a `ProjectScript` stands for.
pub struct ScriptSpec {
    pub name: Seq<char>,
    pub command: Seq<char>,
}

impl View for ProjectScript {
    type V = ScriptSpec;

    open spec fn view(&self) -> ScriptSpec {
        ScriptSpec { name: self.name@, command: self.command@ }
    }
}

impl Clone for ProjectScript {
    /// A copy that stands for the same script.
    fn clone(&self) -> (copy: ProjectScript)
        ensures
            copy@ == self@,
    {
        ProjectScript { name: self.name.clone(), command: self.command.clone() }
    }
}

/// The scripts found in one configuration file, in the order of their discovery.
#[derive(Debug)]
pub struct ScriptList {
    pub scripts: Vec<ProjectScript>,
    /// The name of the file that the scripts were read from.
    pub source_file: String,
}

/// What a `ScriptList` stands for.
pub struct ScriptListSpec {
    pub scripts: Seq<ScriptSpec>,
    pub source_file: Seq<char>,
}

/// The scripts that `scripts` stand for.
pub open spec fn scripts_view(scripts: Seq<ProjectScript>) -> Seq<ScriptSpec> {
    scripts.map_values(|script: ProjectScript| script@)
}

impl View for ScriptList {
    type V = ScriptListSpec;

    open spec fn view(&self) -> ScriptListSpec {
        ScriptListSpec { scripts: scripts_view(self.scripts@), source_file: self.source_file@ }
    }
}

/// What an optional script list stands for.
pub open spec fn list_view(list: Option<ScriptList>) -> Option<ScriptListSpec> {
    match list {
        Some(list) => Some(list@),
        None => None,
    }
}

/// The script that a field of a table of scripts defines: the key is its
/// name, and the value its command where it is a text.
pub open spec fn field_script(field: (Seq<char>, NodeSpec)) -> ScriptSpec {
    ScriptSpec { name: field.0, command: text_or_empty(field.1) }
}

/// The scripts that the fields of a table define, in the table's order.
pub open spec fn table_scripts(fields: Seq<(Seq<char>, NodeSpec)>) -> Seq<ScriptSpec> {
    fields.map_values(|field: (Seq<char>, NodeSpec)| field_script(field))
}

/// The scripts that `node` defines where it is a table, and none where it is
/// missing or something else.
pub open spec fn scripts_under(node: Option<NodeSpec>) -> Seq<ScriptSpec> {
    match node {
        Some(NodeSpec::Table(fields)) => table_scripts(fields),
        _ => seq![],
    }
}

/// The scripts of a `package.json`: the fields of its `scripts` object.
/// There are none to report where the document has no such object; an empty
/// object gives an empty list.
pub open spec fn package_scripts(document: NodeSpec) -> Option<ScriptListSpec> {
    match field(document, "scripts"@) {
        Some(NodeSpec::Table(fields)) => Some(
            ScriptListSpec { scripts: table_scripts(fields), source_file: "package.json"@ },
        ),
        _ => None,
    }
}

/// The value under `second` in the table under `first`.
pub open spec fn field2(document: NodeSpec, first: Seq<char>, second: Seq<char>) -> Option<
    NodeSpec,
> {
    match field(document, first) {
        Some(node) => field(node, second),
        None => None,
    }
}

/// The value under `third` in the table under `second` in the table under `first`.
pub open spec fn field3(
    document: NodeSpec,
    first: Seq<char>,
    second: Seq<char>,
    third: Seq<char>,
) -> Option<NodeSpec> {
    match field2(document, first, second) {
        Some(node) => field(node, third),
        None => None,
    }
}

/// The scripts that a `pyproject.toml` defines: those of `tool.poetry.scripts`,
/// then those of `project.scripts`. A name that both tables hold comes twice.
pub open spec fn pyproject_entries(document: NodeSpec) -> Seq<ScriptSpec> {
    scripts_under(field3(document, "tool"@, "poetry"@, "scripts"@)) + scripts_under(
        field2(document, "project"@, "scripts"@),
    )
}

/// The script list of a `pyproject.toml`; none where it defines no script.
pub open spec fn pyproject_scripts(document: NodeSpec) -> Option<ScriptListSpec> {
    if pyproject_entries(document).len() == 0 {
        None
    } else {
        Some(
            ScriptListSpec {
                scripts: pyproject_entries(document),
                source_file: "pyproject.toml"@,
            },
        )
    }
}

/// Whether no two of `scripts` have the same name.
pub open spec fn names_distinct(scripts: Seq<ScriptSpec>) -> bool {
    forall|i: int, j: int| 0 <= i < j < scripts.len() ==> scripts[i].name != scripts[j].name
}

/// A `package.json` in which no object has a key twice gives no script twice.
pub proof fn lemma_package_scripts_distinct(document: NodeSpec)
    requires
        well_formed(document),
    ensures
        package_scripts(document) matches Some(list) ==> names_distinct(list.scripts),
{
    if let NodeSpec::Table(fields) = document {
        lemma_lookup_well_formed(fields, "scripts"@);
    }
}

/// What a table holds under a key is well formed where the table's values are.
pub proof fn lemma_lookup_well_formed(fields: Seq<(Seq<char>, NodeSpec)>, key: Seq<char>)
    requires
        forall|i: int| 0 <= i < fields.len() ==> well_formed(#[trigger] fields[i].1),
    ensures
        lookup(fields, key) matches Some(node) ==> well_formed(node),
    decreases fields.len(),
{
    if fields.len() > 0 && fields.last().0 != key {
        lemma_lookup_well_formed(fields.drop_last(), key);
    }
}

/// Adds the scripts that `fields` define to `scripts`.
fn push_table_scripts(scripts: &mut Vec<ProjectScript>, fields: &Vec<(String, Node)>)
    ensures
        scripts_view(final(scripts)@) == scripts_view(old(scripts)@) + table_scripts(
            fields_view(fields@, fields@.len()),
        ),
{
    let ghost all = fields_view(fields@, fields@.len());
    let ghost before = scripts_view(scripts@);
    proof {
        lemma_fields_view(fields@, fields@.len());
    }
    let mut i: usize = 0;
    while i < fields.len()
        invariant
            i <= fields@.len(),
            all == fields_view(fields@, fields@.len()),
            all.len() == fields@.len(),
            forall|k: int| 0 <= k < fields@.len() ==> all[k] == (fields@[k].0@, fields@[k].1@),
            scripts_view(scripts@) == before + table_scripts(all.take(i as int)),
        decreases fields@.len() - i,
    {
        let ghost so_far = scripts_view(scripts@);
        let name = fields[i].0.clone();
        let command = match fields[i].1.as_text() {
            Some(text) => text.clone(),
            None => String::new(),
        };
        scripts.push(ProjectScript { name, command });
        assert(scripts_view(scripts@) =~= so_far.push(field_script(all[i as int])));
        i += 1;
    }
}

/// The scripts of the `package.json` document `document`.
pub fn package_json_scripts(document: &Node) -> (list: Option<ScriptList>)
    ensures
        list_view(list) == package_scripts(document@),
{
    match document.get("scripts") {
        Some(node) => match node.as_table() {
            Some(fields) => {
                let mut scripts: Vec<ProjectScript> = Vec::new();
                push_table_scripts(&mut scripts, fields);
                Some(ScriptList { scripts, source_file: String::from_str("package.json") })
            },
            None => None,
        },
        None => None,
    }
}

/// The scripts of the `pyproject.toml` document `document`.
pub fn pyproject_toml_scripts(document: &Node) -> (list: Option<ScriptList>)
    ensures
        list_view(list) == pyproject_scripts(document@),
{
    let mut scripts: Vec<ProjectScript> = Vec::new();
    let poetry = match document.get("tool") {
        Some(tool) => match tool.get("poetry") {
            Some(poetry) => poetry.get("scripts"),
            None => None,
        },
        None => None,
    };
    if let Some(node) = poetry {
        if let Some(fields) = node.as_table() {
            push_table_scripts(&mut scripts, fields);
        }
    }
    let project = match document.get("project") {
        Some(project) => project.get("scripts"),
        None => None,
    };
    if let Some(node) = project {
        if let Some(fields) = node.as_table() {
            push_table_scripts(&mut scripts, fields);
        }
    }
    if scripts.len() == 0 {
        None
    } else {
        Some(ScriptList { scripts, source_file: String::from_str("pyproject.toml") })
    }
}

/// What `package.json` in a directory gives: the scripts of its text as
/// `serde_json` reads it; nothing where the file is missing, cannot be read or
/// is no JSON document.
pub open spec fn package_json_in(entries: Seq<FileSpec>) -> Option<ScriptListSpec> {
    match file_text(entries, "package.json"@) {
        Some(text) => match json_document(text) {
            Some(document) => package_scripts(document),
            None => None,
        },
        None => None,
    }
}

/// What `pyproject.toml` in a directory gives: the scripts of its text as
/// `toml` reads it; nothing where the file is missing, cannot be read or is no
/// TOML document.
pub open spec fn pyproject_in(entries: Seq<FileSpec>) -> Option<ScriptListSpec> {
    match file_text(entries, "pyproject.toml"@) {
        Some(text) => match toml_document(text) {
            Some(document) => pyproject_scripts(document),
            None => None,
        },
        None => None,
    }
}

/// The name of the Makefile that a directory is read by: `Makefile` where it
/// is there, else `makefile`.
pub open spec fn makefile_name(entries: Seq<FileSpec>) -> Option<Seq<char>> {
    if has_file(entries, "Makefile"@) {
        Some("Makefile"@)
    } else if has_file(entries, "makefile"@) {
        Some("makefile"@)
    } else {
        None
    }
}

/// What the Makefile in a directory gives: its targets; nothing where there
/// is no Makefile, it cannot be read or it defines no target.
pub open spec fn makefile_in(entries: Seq<FileSpec>) -> Option<ScriptListSpec> {
    match makefile_name(entries) {
        Some(name) => match file_text(entries, name) {
            Some(text) => if makefile_scripts(text).len() == 0 {
                None
            } else {
                Some(ScriptListSpec { scripts: makefile_scripts(text), source_file: name })
            },
            None => None,
        },
        None => None,
    }
}

/// The script that runs the cargo command `name`.
pub open spec fn cargo_script(name: Seq<char>) -> ScriptSpec {
    ScriptSpec { name, command: "cargo "@ + name }
}

/// The commands that every Cargo project has.
pub open spec fn cargo_scripts() -> Seq<ScriptSpec> {
    seq![
        cargo_script("build"@),
        cargo_script("test"@),
        cargo_script("run"@),
        cargo_script("check"@),
        cargo_script("clippy"@),
        cargo_script("fmt"@),
        cargo_script("doc"@),
        cargo_script("bench"@),
    ]
}

/// What `Cargo.toml` in a directory gives: the commands of every Cargo
/// project, whatever the file holds.
pub open spec fn cargo_in(entries: Seq<FileSpec>) -> Option<ScriptListSpec> {
    if has_file(entries, "Cargo.toml"@) {
        Some(ScriptListSpec { scripts: cargo_scripts(), source_file: "Cargo.toml"@ })
    } else {
        None
    }
}

/// Reads the scripts of `package.json`.
pub fn parse_package_json_scripts(dir: &Directory) -> (list: Option<ScriptList>)
    ensures
        list_view(list) == package_json_in(dir@),
        list matches Some(found) ==> names_distinct(found@.scripts),
{
    match dir.read("package.json") {
        Some(text) => match parse_json(text.as_str()) {
            Some(document) => {
                proof {
                    lemma_package_scripts_distinct(document@);
                }
                package_json_scripts(&document)
            },
            None => None,
        },
        None => None,
    }
}

/// Reads the targets of `Makefile`, or of `makefile` where there is no `Makefile`.
pub fn parse_makefile_targets(dir: &Directory) -> (list: Option<ScriptList>)
    ensures
        list_view(list) == makefile_in(dir@),
{
    let name = if dir.contains("Makefile") {
        "Makefile"
    } else if dir.contains("makefile") {
        "makefile"
    } else {
        return None;
    };
    match dir.read(name) {
        Some(text) => {
            let scripts = makefile_targets(text.as_str());
            if scripts.len() == 0 {
                None
            } else {
                Some(ScriptList { scripts, source_file: String::from_str(name) })
            }
        },
        None => None,
    }
}

/// The cargo command `name` as a script.
fn cargo_command(name: &str) -> (script: ProjectScript)
    ensures
        script@ == cargo_script(name@),
{
    let mut command = String::from_str("cargo ");
    command.append(name);
    ProjectScript { name: String::from_str(name), command }
}

/// Lists the commands of a Cargo project where `Cargo.toml` is there.
pub fn parse_cargo_targets(dir: &Directory) -> (list: Option<ScriptList>)
    ensures
        list_view(list) == cargo_in(dir@),
{
    if !dir.contains("Cargo.toml") {
        return None;
    }
    let mut scripts: Vec<ProjectScript> = Vec::new();
    scripts.push(cargo_command("build"));
    scripts.push(cargo_command("test"));
    scripts.push(cargo_command("run"));
    scripts.push(cargo_command("check"));
    scripts.push(cargo_command("clippy"));
    scripts.push(cargo_command("fmt"));
    scripts.push(cargo_command("doc"));
    scripts.push(cargo_command("bench"));
    assert(scripts_view(scripts@) =~= cargo_scripts());
    Some(ScriptList { scripts, source_file: String::from_str("Cargo.toml") })
}

/// Reads the scripts of `pyproject.toml`.
pub fn parse_pyproject_scripts(dir: &Directory) -> (list: Option<ScriptList>)
    ensures
        list_view(list) == pyproject_in(dir@),
{
    match dir.read("pyproject.toml") {
        Some(text) => match parse_toml(text.as_str()) {
            Some(document) => pyproject_toml_scripts(&document),
            None => None,
        },
        None => None,
    }
}

/// What the configuration file of an ecosystem gives in a directory; nothing
/// for an ecosystem whose scripts are not read.
pub open spec fn scripts_in(ecosystem: Ecosystem, entries: Seq<FileSpec>) -> Option<
    ScriptListSpec,
> {
    match ecosystem {
        Ecosystem::NodeJs => package_json_in(entries),
        Ecosystem::Rust => cargo_in(entries),
        Ecosystem::Python => pyproject_in(entries),
        Ecosystem::Generic => makefile_in(entries),
        _ => None,
    }
}

/// The scripts that `runner` can run in `dir`.
pub fn get_scripts_for_runner(runner: &DetectedRunner, dir: &Directory) -> (list: Option<
    ScriptList,
>)
    ensures
        list_view(list) == scripts_in(runner.ecosystem, dir@),
{
    match runner.ecosystem {
        Ecosystem::NodeJs => parse_package_json_scripts(dir),
        Ecosystem::Rust => parse_cargo_targets(dir),
        Ecosystem::Python => parse_pyproject_scripts(dir),
        Ecosystem::Generic => parse_makefile_targets(dir),
        _ => None,
    }
}

/// `lists` with `list` at its end where there is one that holds a script.
pub open spec fn with_list(lists: Seq<ScriptListSpec>, list: Option<ScriptListSpec>) -> Seq<
    ScriptListSpec,
> {
    match list {
        Some(list) => if list.scripts.len() > 0 {
            lists.push(list)
        } else {
            lists
        },
        None => lists,
    }
}

/// The script lists of the configuration files in a directory that define a
/// script: of `package.json`, `Cargo.toml`, `pyproject.toml` and the
/// Makefile, in this order.
pub open spec fn all_scripts_in(entries: Seq<FileSpec>) -> Seq<ScriptListSpec> {
    with_list(
        with_list(
            with_list(with_list(seq![], package_json_in(entries)), cargo_in(entries)),
            pyproject_in(entries),
        ),
        makefile_in(entries),
    )
}

/// The script lists that `lists` stand for.
pub open spec fn lists_view(lists: Seq<ScriptList>) -> Seq<ScriptListSpec> {
    lists.map_values(|list: ScriptList| list@)
}

/// Adds `list` to `lists` where there is one that holds a script.
fn push_list(lists: &mut Vec<ScriptList>, list: Option<ScriptList>)
    ensures
        lists_view(final(lists)@) == with_list(lists_view(old(lists)@), list_view(list)),
{
    if let Some(found) = list {
        if found.scripts.len() > 0 {
            lists.push(found);
        }
    }
}

/// The scripts of every configuration file in `dir` that defines one,
/// whatever runner was detected.
pub fn discover_all_scripts(dir: &Directory) -> (lists: Vec<ScriptList>)
    ensures
        lists_view(lists@) == all_scripts_in(dir@),
{
    let mut lists: Vec<ScriptList> = Vec::new();
    push_list(&mut lists, parse_package_json_scripts(dir));
    push_list(&mut lists, parse_cargo_targets(dir));
    push_list(&mut lists, parse_pyproject_scripts(dir));
    push_list(&mut lists, parse_makefile_targets(dir));
    lists
}

/// The length of the longest name among `scripts`, in the bytes of UTF-8;
/// zero where there is no script.
pub open spec fn widest_name(scripts: Seq<ScriptSpec>) -> nat
    decreases scripts.len(),
{
    if scripts.len() == 0 {
        0
    } else {
        let front = widest_name(scripts.drop_last());
        let last = encode_utf8(scripts.last().name).len();
        if last > front {
            last
        } else {
            front
        }
    }
}

impl ScriptList {
    /// The width of the column that holds every script's name.
    pub fn name_width(&self) -> (width: usize)
        ensures
            width == widest_name(self@.scripts),
    {
        let ghost all = self@.scripts;
        let mut width: usize = 0;
        let mut i: usize = 0;
        while i < self.scripts.len()
            invariant
                i <= self.scripts@.len(),
                all == self@.scripts,
                width == widest_name(all.take(i as int)),
            decreases self.scripts@.len() - i,
        {
            assert(all.take(i + 1).drop_last() =~= all.take(i as int));
            let length = self.scripts[i].name.as_str().as_bytes().len();
            if length > width {
                width = length;
            }
            i += 1;
        }
        assert(all.take(self.scripts@.len() as int) =~= all);
        width
    }
}

/// Whether script discovery reads the text of a file of this name: of
/// `package.json`, `pyproject.toml` and the Makefile in its two spellings.
/// Of every other entry of a directory the name is all that counts.
pub open spec fn is_script_source(name: Seq<char>) -> bool {
    name == "package.json"@ || name == "pyproject.toml"@ || name == "Makefile"@ || name
        == "makefile"@
}

/// Whether script discovery reads the text of a file named `name`.
pub fn reads_text_of(name: &str) -> (reads: bool)
    ensures
        reads == is_script_source(name@),
{
    same_text(name, "package.json") || same_text(name, "pyproject.toml") || same_text(
        name,
        "Makefile",
    ) || same_text(name, "makefile")
}

/// Whether two listings of a directory name the same entries in the same
/// order and hold the same text of each file that script discovery reads.
pub open spec fn same_sources(a: Seq<FileSpec>, b: Seq<FileSpec>) -> bool {
    &&& same_names(a, b)
    &&& forall|i: int|
        0 <= i < a.len() && is_script_source((#[trigger] a[i]).name) ==> a[i].text == b[i].text
}

/// Script discovery reads the text of no other file than those that
/// `is_script_source` names.
pub proof fn lemma_scripts_need_sources_only(
    a: Seq<FileSpec>,
    b: Seq<FileSpec>,
    ecosystem: Ecosystem,
)
    requires
        same_sources(a, b),
    ensures
        scripts_in(ecosystem, a) == scripts_in(ecosystem, b),
        all_scripts_in(a) == all_scripts_in(b),
{
    lemma_same_index(a, b, "package.json"@);
    lemma_same_index(a, b, "pyproject.toml"@);
    lemma_same_index(a, b, "Cargo.toml"@);
    lemma_same_index(a, b, "Makefile"@);
    lemma_same_index(a, b, "makefile"@);
    lemma_entry_index(a, "package.json"@);
    lemma_entry_index(a, "pyproject.toml"@);
    lemma_entry_index(a, "Makefile"@);
    lemma_entry_index(a, "makefile"@);
}

} // verus!
