//! The targets of a Makefile, read line by line.

use vstd::prelude::*;
use vstd::string::StringExecFns;
use crate::scripts::{scripts_view, ProjectScript, ScriptSpec};
use crate::text::{chars_of, find_char, index_of, lemma_index_of, string_of, trim_bounds, trimmed};

verus! {

/// Whether a line of a Makefile belongs to a recipe or is a comment: it begins
/// with a tab, a space or `#`.
pub open spec fn is_recipe_or_comment(line: Seq<char>) -> bool {
    line.len() > 0 && (line[0] == '\t' || line[0] == ' ' || line[0] == '#')
}

/// Whether `name` may name a target: it is not empty, does not begin with a
/// dot as the special targets do, and holds neither `=` nor `$` as assignments
/// and references to variables do.
pub open spec fn is_target_name(name: Seq<char>) -> bool {
    name.len() > 0 && name[0] != '.' && !name.contains('=') && !name.contains('$')
}

/// The target that a line of a Makefile defines: what stands before its first
/// colon, without the white space around it.
pub open spec fn target_of_line(line: Seq<char>) -> Option<Seq<char>> {
    let colon = index_of(line, ':');
    let name = trimmed(line.take(colon as int));
    if !is_recipe_or_comment(line) && colon < line.len() && is_target_name(name) {
        Some(name)
    } else {
        None
    }
}

/// The script that runs the target `name`.
pub open spec fn make_script(name: Seq<char>) -> ScriptSpec {
    ScriptSpec { name, command: "make "@ + name }
}

/// The scripts that the targets of a Makefile give, line by line. A line ends
/// at a line feed; a carriage return before it is white space at the line's end.
pub open spec fn makefile_scripts(text: Seq<char>) -> Seq<ScriptSpec>
    decreases text.len(),
{
    let end = index_of(text, '\n');
    let first = match target_of_line(text.take(end as int)) {
        Some(name) => seq![make_script(name)],
        None => seq![],
    };
    if end < text.len() {
        first + makefile_scripts(text.skip(end as int + 1))
    } else {
        first
    }
}

/// Where the target of the line `chars[from..to]` stands in `chars`.
fn line_target(chars: &Vec<char>, from: usize, to: usize) -> (bounds: Option<(usize, usize)>)
    requires
        from <= to <= chars@.len(),
    ensures
        match bounds {
            Some((lo, hi)) => from <= lo <= hi <= to && target_of_line(
                chars@.subrange(from as int, to as int),
            ) == Some(chars@.subrange(lo as int, hi as int)),
            None => target_of_line(chars@.subrange(from as int, to as int)) is None,
        },
{
    let ghost line = chars@.subrange(from as int, to as int);
    if from < to && (chars[from] == '\t' || chars[from] == ' ' || chars[from] == '#') {
        return None;
    }
    let colon = find_char(chars, from, to, ':');
    if colon == to {
        return None;
    }
    let (lo, hi) = trim_bounds(chars, from, colon);
    assert(line.take(colon - from) =~= chars@.subrange(from as int, colon as int));
    let ghost name = chars@.subrange(lo as int, hi as int);
    if lo == hi || chars[lo] == '.' {
        return None;
    }
    let equals = find_char(chars, lo, hi, '=');
    let dollar = find_char(chars, lo, hi, '$');
    proof {
        lemma_index_of(name, '=');
        lemma_index_of(name, '$');
    }
    if equals < hi || dollar < hi {
        return None;
    }
    Some((lo, hi))
}

/// The scripts that the targets of the Makefile `text` give.
pub fn makefile_targets(text: &str) -> (scripts: Vec<ProjectScript>)
    ensures
        scripts_view(scripts@) == makefile_scripts(text@),
{
    let chars = chars_of(text);
    let mut scripts: Vec<ProjectScript> = Vec::new();
    let mut start: usize = 0;
    let mut more: bool = true;
    proof {
        assert(chars@.skip(0) =~= chars@);
    }
    while more
        invariant
            start <= chars@.len(),
            more ==> makefile_scripts(chars@) == scripts_view(scripts@) + makefile_scripts(
                chars@.skip(start as int),
            ),
            !more ==> makefile_scripts(chars@) == scripts_view(scripts@),
        decreases chars@.len() - start + if more { 1nat } else { 0nat },
    {
        let ghost rest = chars@.skip(start as int);
        let end = find_char(&chars, start, chars.len(), '\n');
        proof {
            assert(rest.take(end - start) =~= chars@.subrange(start as int, end as int));
        }
        if let Some((lo, hi)) = line_target(&chars, start, end) {
            let name = string_of(&chars, lo, hi);
            let mut command = String::from_str("make ");
            command.append(name.as_str());
            scripts.push(ProjectScript { name, command });
        }
        if end < chars.len() {
            assert(rest.skip(end - start + 1) =~= chars@.skip(end + 1));
            start = end + 1;
        } else {
            more = false;
        }
    }
    scripts
}

/// Every script of a Makefile runs `make` with a target whose name may name one.
pub proof fn lemma_makefile_scripts(text: Seq<char>)
    ensures
        forall|i: int|
            0 <= i < makefile_scripts(text).len() ==> is_target_name(
                (#[trigger] makefile_scripts(text)[i]).name,
            ) && makefile_scripts(text)[i] == make_script(makefile_scripts(text)[i].name),
    decreases text.len(),
{
    let end = index_of(text, '\n');
    if end < text.len() {
        let rest = makefile_scripts(text.skip(end as int + 1));
        lemma_makefile_scripts(text.skip(end as int + 1));
    }
}

} // verus!
