use devrunner::detectors::{DetectedRunner, Ecosystem};
use devrunner::document::{parse_json, parse_toml, Node};
use devrunner::project::Directory;
use devrunner::makefile::makefile_targets;
use devrunner::scripts::{
    discover_all_scripts, get_scripts_for_runner, package_json_scripts,
    parse_cargo_targets, parse_makefile_targets, parse_package_json_scripts,
    parse_pyproject_scripts, pyproject_toml_scripts,
};

fn dir_with_file(name: &str, text: &str) -> Directory {
    let mut dir = Directory::new();
    dir.add_file(name, text);
    dir
}

fn text(value: &str) -> Node {
    Node::Text(value.to_string())
}

fn table(fields: Vec<(&str, Node)>) -> Node {
    Node::Table(fields.into_iter().map(|(key, value)| (key.to_string(), value)).collect())
}

#[test]
fn test_parse_package_json_scripts() {
    let dir = dir_with_file(
        "package.json",
        r#"{
            "name": "test-project",
            "scripts": {
                "dev": "vite",
                "build": "vite build",
                "test": "vitest"
            }
        }"#,
    );

    let result = parse_package_json_scripts(&dir).unwrap();
    assert_eq!(result.scripts.len(), 3);
    assert_eq!(result.source_file, "package.json");

    let names: Vec<&str> = result.scripts.iter().map(|s| s.name.as_str()).collect();
    assert!(names.contains(&"dev"));
    assert!(names.contains(&"build"));
    assert!(names.contains(&"test"));
}

#[test]
fn test_parse_makefile_targets() {
    let dir = dir_with_file(
        "Makefile",
        r#"
.PHONY: all clean

build:
	cargo build

test:
	cargo test

clean:
	rm -rf target
"#,
    );

    let result = parse_makefile_targets(&dir).unwrap();
    assert!(result.scripts.len() >= 3);

    let names: Vec<&str> = result.scripts.iter().map(|s| s.name.as_str()).collect();
    assert!(names.contains(&"build"));
    assert!(names.contains(&"test"));
    assert!(names.contains(&"clean"));
}

#[test]
fn test_parse_cargo_targets() {
    let dir = dir_with_file("Cargo.toml", "");

    let result = parse_cargo_targets(&dir).unwrap();
    assert!(!result.scripts.is_empty());

    let names: Vec<&str> = result.scripts.iter().map(|s| s.name.as_str()).collect();
    assert!(names.contains(&"build"));
    assert!(names.contains(&"test"));
    assert!(names.contains(&"run"));
}

#[test]
fn test_no_scripts_found() {
    let dir = Directory::new();

    // Empty directory should return None
    assert!(parse_package_json_scripts(&dir).is_none());
    assert!(parse_makefile_targets(&dir).is_none());
    assert!(parse_cargo_targets(&dir).is_none());
}

#[test]
fn package_json_with_two_scripts() {
    let dir = dir_with_file("package.json", r#"{"scripts": {"dev":"vite","build":"vite build"}}"#);

    let list = parse_package_json_scripts(&dir).unwrap();
    assert_eq!(list.scripts.len(), 2);
    assert_eq!(list.source_file, "package.json");
    let mut pairs: Vec<(&str, &str)> =
        list.scripts.iter().map(|s| (s.name.as_str(), s.command.as_str())).collect();
    pairs.sort();
    assert_eq!(pairs, vec![("build", "vite build"), ("dev", "vite")]);
}

#[test]
fn package_json_with_empty_scripts_gives_an_empty_list() {
    let dir = dir_with_file("package.json", r#"{"name": "x", "scripts": {}}"#);
    let list = parse_package_json_scripts(&dir).unwrap();
    assert!(list.scripts.is_empty());
    assert_eq!(list.source_file, "package.json");
}

#[test]
fn package_json_without_scripts_object_gives_nothing() {
    assert!(parse_package_json_scripts(&dir_with_file("package.json", r#"{"name": "x"}"#)).is_none());
    assert!(parse_package_json_scripts(&dir_with_file("package.json", r#"{"scripts": "vite"}"#)).is_none());
    assert!(parse_package_json_scripts(&dir_with_file("package.json", r#"{"scripts": ["vite"]}"#)).is_none());
    assert!(parse_package_json_scripts(&dir_with_file("package.json", r#"["scripts"]"#)).is_none());
    assert!(parse_package_json_scripts(&dir_with_file("package.json", r#""scripts""#)).is_none());
}

#[test]
fn package_json_that_is_no_json_gives_nothing() {
    assert!(parse_package_json_scripts(&dir_with_file("package.json", "{\"scripts\": {")).is_none());
    assert!(parse_package_json_scripts(&dir_with_file("package.json", "")).is_none());
    assert!(parse_package_json_scripts(&dir_with_file("package.json", "scripts")).is_none());
}

#[test]
fn package_json_that_cannot_be_read_gives_nothing() {
    let mut dir = Directory::new();
    dir.add_entry("package.json");
    assert!(parse_package_json_scripts(&dir).is_none());
}

#[test]
fn package_json_command_that_is_no_string_is_empty() {
    let dir = dir_with_file(
        "package.json",
        r#"{"scripts": {"a": 1, "b": null, "c": ["x"], "d": {"e": "f"}, "g": true, "h": "run"}}"#,
    );
    let list = parse_package_json_scripts(&dir).unwrap();
    assert_eq!(list.scripts.len(), 6);
    for script in &list.scripts {
        if script.name == "h" {
            assert_eq!(script.command, "run");
        } else {
            assert_eq!(script.command, "");
        }
    }
}

#[test]
fn package_json_last_definition_of_a_script_wins() {
    let dir = dir_with_file("package.json", r#"{"scripts": {"dev": "first", "dev": "second"}}"#);
    let list = parse_package_json_scripts(&dir).unwrap();
    assert_eq!(list.scripts.len(), 1);
    assert_eq!(list.scripts[0].name, "dev");
    assert_eq!(list.scripts[0].command, "second");
}

#[test]
fn package_json_last_scripts_object_wins() {
    let dir = dir_with_file("package.json", r#"{"scripts": {"a": "1"}, "scripts": {"b": "2"}}"#);
    let list = parse_package_json_scripts(&dir).unwrap();
    assert_eq!(list.scripts.len(), 1);
    assert_eq!(list.scripts[0].name, "b");
}

#[test]
fn package_json_keeps_escapes_and_unicode() {
    let dir = dir_with_file("package.json", r#"{"scripts": {"gr\u00fc\u00df": "echo \"hi\"\n"}}"#);
    let list = parse_package_json_scripts(&dir).unwrap();
    assert_eq!(list.scripts[0].name, "grüß");
    assert_eq!(list.scripts[0].command, "echo \"hi\"\n");
}

#[test]
fn package_scripts_of_a_tree() {
    let document = table(vec![
        ("name", text("x")),
        ("scripts", table(vec![("dev", text("vite")), ("n", Node::Other), ("build", text("vite build"))])),
    ]);
    let list = package_json_scripts(&document).unwrap();
    let pairs: Vec<(&str, &str)> =
        list.scripts.iter().map(|s| (s.name.as_str(), s.command.as_str())).collect();
    assert_eq!(pairs, vec![("dev", "vite"), ("n", ""), ("build", "vite build")]);
    assert_eq!(list.source_file, "package.json");
}

#[test]
fn package_scripts_of_a_tree_without_scripts() {
    assert!(package_json_scripts(&table(vec![])).is_none());
    assert!(package_json_scripts(&table(vec![("scripts", text("x"))])).is_none());
    assert!(package_json_scripts(&table(vec![("scripts", Node::Other)])).is_none());
    assert!(package_json_scripts(&text("scripts")).is_none());
    assert!(package_json_scripts(&Node::Other).is_none());
    assert!(package_json_scripts(&table(vec![("scripts", table(vec![]))])).unwrap().scripts.is_empty());
}

#[test]
fn tree_lookup_takes_the_last_field_of_a_name() {
    let document = table(vec![
        ("scripts", table(vec![("a", text("1"))])),
        ("scripts", table(vec![("b", text("2"))])),
    ]);
    let list = package_json_scripts(&document).unwrap();
    assert_eq!(list.scripts.len(), 1);
    assert_eq!(list.scripts[0].name, "b");
    assert_eq!(document.get("scripts").unwrap().get("b").unwrap().as_text().unwrap(), "2");
    assert!(document.get("Scripts").is_none());
    assert!(text("x").get("x").is_none());
    assert!(Node::Other.as_table().is_none());
    assert!(Node::Other.as_text().is_none());
    assert_eq!(document.as_table().unwrap().len(), 2);
}

#[test]
fn makefile_targets_leave_out_phony_and_recipes() {
    let scripts = makefile_targets(
        ".PHONY: build test clean\n\nbuild:\n\tcargo build\n\ntest: build\n\tcargo test\n\nclean:\n\trm -rf target\n",
    );
    let pairs: Vec<(&str, &str)> =
        scripts.iter().map(|s| (s.name.as_str(), s.command.as_str())).collect();
    assert_eq!(
        pairs,
        vec![("build", "make build"), ("test", "make test"), ("clean", "make clean")]
    );
}

#[test]
fn makefile_targets_skip_comments_assignments_and_references() {
    let text = "# build: not a target\nCC = gcc\nFLAGS := -O2\n$(OUT): main.c\nout/$(NAME).o: x\n name: indented with a space\n\trecipe: with a colon\nreal: dep\n\n:\n   :\nlast";
    let scripts = makefile_targets(text);
    let names: Vec<&str> = scripts.iter().map(|s| s.name.as_str()).collect();
    // `FLAGS := -O2` has no `=` before its first colon, so it counts as a target
    assert_eq!(names, vec!["FLAGS", "real"]);
}

#[test]
fn makefile_target_is_what_stands_before_the_first_colon_trimmed() {
    let scripts = makefile_targets("all  : a b\nurl: http://x\na b: c\nx.o\u{a0}: y\r\nwin:\r\ndouble:: z");
    let names: Vec<&str> = scripts.iter().map(|s| s.name.as_str()).collect();
    assert_eq!(names, vec!["all", "url", "a b", "x.o", "win", "double"]);
    assert_eq!(scripts[2].command, "make a b");
}

#[test]
fn makefile_keeps_a_target_that_is_defined_twice() {
    let scripts = makefile_targets("a: x\na: y\n");
    let names: Vec<&str> = scripts.iter().map(|s| s.name.as_str()).collect();
    assert_eq!(names, vec!["a", "a"]);
}

#[test]
fn makefile_without_targets_gives_nothing() {
    assert!(makefile_targets("").is_empty());
    assert!(makefile_targets("\n\n").is_empty());
    assert!(makefile_targets("# only a comment\n.PHONY: x\nA=1\n").is_empty());
    assert!(parse_makefile_targets(&dir_with_file("Makefile", "# nothing\n")).is_none());
}

#[test]
fn makefile_is_read_before_lowercase_makefile() {
    let mut dir = Directory::new();
    dir.add_file("makefile", "lower:\n");
    dir.add_file("Makefile", "upper:\n");
    let list = parse_makefile_targets(&dir).unwrap();
    assert_eq!(list.scripts.len(), 1);
    assert_eq!(list.scripts[0].name, "upper");
    assert_eq!(list.source_file, "Makefile");
}

#[test]
fn lowercase_makefile_is_read_where_there_is_no_other() {
    let list = parse_makefile_targets(&dir_with_file("makefile", "lower:\n")).unwrap();
    assert_eq!(list.scripts[0].name, "lower");
    assert_eq!(list.scripts[0].command, "make lower");
    assert_eq!(list.source_file, "makefile");
}

#[test]
fn unreadable_makefile_is_not_replaced_by_the_lowercase_one() {
    let mut dir = Directory::new();
    dir.add_entry("Makefile");
    dir.add_file("makefile", "lower:\n");
    assert!(parse_makefile_targets(&dir).is_none());
}

#[test]
fn cargo_targets_are_the_eight_fixed_commands() {
    let list = parse_cargo_targets(&dir_with_file("Cargo.toml", "[package]\nname = \"x\"\n")).unwrap();
    let pairs: Vec<(&str, &str)> =
        list.scripts.iter().map(|s| (s.name.as_str(), s.command.as_str())).collect();
    assert_eq!(
        pairs,
        vec![
            ("build", "cargo build"),
            ("test", "cargo test"),
            ("run", "cargo run"),
            ("check", "cargo check"),
            ("clippy", "cargo clippy"),
            ("fmt", "cargo fmt"),
            ("doc", "cargo doc"),
            ("bench", "cargo bench"),
        ]
    );
    assert_eq!(list.source_file, "Cargo.toml");
}

#[test]
fn cargo_targets_need_no_readable_file() {
    let mut dir = Directory::new();
    dir.add_entry("Cargo.toml");
    assert_eq!(parse_cargo_targets(&dir).unwrap().scripts.len(), 8);
}

#[test]
fn pyproject_project_scripts() {
    let dir = dir_with_file("pyproject.toml", "[project.scripts]\nfoo = \"pkg:main\"\n");
    let list = parse_pyproject_scripts(&dir).unwrap();
    assert_eq!(list.scripts.len(), 1);
    assert_eq!(list.scripts[0].name, "foo");
    assert_eq!(list.scripts[0].command, "pkg:main");
    assert_eq!(list.source_file, "pyproject.toml");
}

#[test]
fn pyproject_poetry_scripts_come_before_project_scripts() {
    let dir = dir_with_file(
        "pyproject.toml",
        "[project]\nname = \"x\"\n\n[project.scripts]\nserve = \"app:serve\"\ncli = \"app:main\"\n\n[tool.poetry.scripts]\ncli = \"app.poetry:main\"\nlint = \"app:lint\"\n",
    );
    let list = parse_pyproject_scripts(&dir).unwrap();
    let pairs: Vec<(&str, &str)> =
        list.scripts.iter().map(|s| (s.name.as_str(), s.command.as_str())).collect();
    assert_eq!(pairs.len(), 4);
    let mut poetry = pairs[..2].to_vec();
    poetry.sort();
    assert_eq!(poetry, vec![("cli", "app.poetry:main"), ("lint", "app:lint")]);
    let mut project = pairs[2..].to_vec();
    project.sort();
    assert_eq!(project, vec![("cli", "app:main"), ("serve", "app:serve")]);
}

#[test]
fn pyproject_command_that_is_no_string_is_empty() {
    let dir = dir_with_file(
        "pyproject.toml",
        "[tool.poetry.scripts]\ncli = { callable = \"app:main\", extras = [\"x\"] }\nn = 3\n",
    );
    let list = parse_pyproject_scripts(&dir).unwrap();
    assert_eq!(list.scripts.len(), 2);
    assert!(list.scripts.iter().all(|s| s.command.is_empty()));
}

#[test]
fn pyproject_without_scripts_gives_nothing() {
    assert!(parse_pyproject_scripts(&dir_with_file("pyproject.toml", "")).is_none());
    assert!(parse_pyproject_scripts(&dir_with_file("pyproject.toml", "[project]\nname = \"x\"\n")).is_none());
    assert!(parse_pyproject_scripts(&dir_with_file("pyproject.toml", "[project.scripts]\n")).is_none());
    assert!(parse_pyproject_scripts(&dir_with_file("pyproject.toml", "[project]\nscripts = \"x\"\n")).is_none());
    assert!(parse_pyproject_scripts(&dir_with_file("pyproject.toml", "tool = 1\nproject = [1]\n")).is_none());
}

#[test]
fn pyproject_that_is_no_toml_gives_nothing() {
    assert!(parse_pyproject_scripts(&dir_with_file("pyproject.toml", "[project.scripts\nfoo = 1")).is_none());
    assert!(parse_pyproject_scripts(&dir_with_file("pyproject.toml", "a = 1\na = 2\n")).is_none());
    assert!(parse_pyproject_scripts(&Directory::new()).is_none());
    let mut dir = Directory::new();
    dir.add_entry("pyproject.toml");
    assert!(parse_pyproject_scripts(&dir).is_none());
}

#[test]
fn pyproject_scripts_of_a_tree() {
    let document = table(vec![
        ("project", table(vec![("scripts", table(vec![("b", text("2")), ("a", text("3"))]))])),
        (
            "tool",
            table(vec![("poetry", table(vec![("scripts", table(vec![("a", text("1"))]))]))]),
        ),
    ]);
    let list = pyproject_toml_scripts(&document).unwrap();
    let pairs: Vec<(&str, &str)> =
        list.scripts.iter().map(|s| (s.name.as_str(), s.command.as_str())).collect();
    assert_eq!(pairs, vec![("a", "1"), ("b", "2"), ("a", "3")]);
    assert_eq!(list.source_file, "pyproject.toml");
    assert!(pyproject_toml_scripts(&table(vec![("tool", table(vec![("poetry", text("x"))]))])).is_none());
    assert!(pyproject_toml_scripts(&Node::Other).is_none());
}

#[test]
fn scripts_for_a_runner_go_by_its_ecosystem() {
    let mut dir = Directory::new();
    dir.add_file("package.json", r#"{"scripts": {"dev": "vite"}}"#);
    dir.add_file("Cargo.toml", "");
    dir.add_file("pyproject.toml", "[project.scripts]\nfoo = \"pkg:main\"\n");
    dir.add_file("Makefile", "all:\n");
    dir.add_file("Package.swift", "");
    dir.add_file("build.zig", "");

    let source = |name: &str, ecosystem: Ecosystem| {
        get_scripts_for_runner(&DetectedRunner::new(name, "x", ecosystem, 1), &dir)
            .map(|list| list.source_file)
    };
    assert_eq!(source("npm", Ecosystem::NodeJs), Some("package.json".to_string()));
    assert_eq!(source("cargo", Ecosystem::Rust), Some("Cargo.toml".to_string()));
    assert_eq!(source("python", Ecosystem::Python), Some("pyproject.toml".to_string()));
    assert_eq!(source("make", Ecosystem::Generic), Some("Makefile".to_string()));
    assert_eq!(source("swift", Ecosystem::Swift), None);
    assert_eq!(source("zig", Ecosystem::Zig), None);
    // the ecosystem decides, not the name
    assert_eq!(source("make", Ecosystem::NodeJs), Some("package.json".to_string()));
}

#[test]
fn discover_all_runs_every_strategy() {
    let mut dir = Directory::new();
    dir.add_file("Makefile", "all:\n");
    dir.add_file("pyproject.toml", "[project.scripts]\nfoo = \"pkg:main\"\n");
    dir.add_file("Cargo.toml", "");
    dir.add_file("package.json", r#"{"scripts": {}}"#);

    let lists = discover_all_scripts(&dir);
    let sources: Vec<&str> = lists.iter().map(|l| l.source_file.as_str()).collect();
    // the empty list of `package.json` is left out
    assert_eq!(sources, vec!["Cargo.toml", "pyproject.toml", "Makefile"]);
    assert_eq!(lists[0].scripts.len(), 8);
    assert_eq!(lists[1].scripts.len(), 1);
    assert_eq!(lists[2].scripts.len(), 1);

    let mut dir = Directory::new();
    dir.add_file("package.json", r#"{"scripts": {"dev": "vite"}}"#);
    dir.add_file("makefile", "all:\n");
    let lists = discover_all_scripts(&dir);
    let sources: Vec<&str> = lists.iter().map(|l| l.source_file.as_str()).collect();
    assert_eq!(sources, vec!["package.json", "makefile"]);
    assert_eq!(lists[0].scripts[0].command, "vite");
}

#[test]
fn discover_all_leaves_out_what_gives_nothing() {
    assert!(discover_all_scripts(&Directory::new()).is_empty());
    let mut dir = Directory::new();
    dir.add_file("package.json", "not json");
    dir.add_file("makefile", "x:\n");
    let lists = discover_all_scripts(&dir);
    assert_eq!(lists.len(), 1);
    assert_eq!(lists[0].source_file, "makefile");
}

fn targets_read_line_by_line(text: &str) -> Vec<(String, String)> {
    text.lines()
        .filter(|line| !line.starts_with('\t') && !line.starts_with(' ') && !line.starts_with('#'))
        .filter_map(|line| {
            let target = line[..line.find(':')?].trim();
            if !target.is_empty() && !target.starts_with('.') && !target.contains('=') && !target.contains('$') {
                Some((target.to_string(), format!("make {}", target)))
            } else {
                None
            }
        })
        .collect()
}

#[test]
fn makefile_targets_agree_with_reading_line_by_line() {
    for text in [
        "",
        "\n",
        "a:",
        "a:\n",
        "a:\r\n",
        "a:\r",
        "a\r:\n",
        "\ra:\n",
        "a\r\n:b\n",
        "\r\n\r\n",
        "a:\n\nb:\n\n",
        "a:\rb:\r",
        " a:\nb :\n\tc:\n#d:\n.e:\nf=g:\n$h:\n i \n: j\nk:l:m\n",
        "\u{a0}x\u{2003}: y\n\u{3000}: z\n",
        "x\u{b}:\n\u{c}y:\n",
        "über: straße\nnaïve target : dep\n",
        "a :: b\nc ::= d\ne ?= f\ng != h\ni += j\n",
        "all: $(OBJS)\n\t$(CC) -o $@ $^\n%.o: %.c\n\t$(CC) -c $<\n.PHONY: all\n",
    ] {
        let found: Vec<(String, String)> =
            makefile_targets(text).into_iter().map(|s| (s.name, s.command)).collect();
        assert_eq!(found, targets_read_line_by_line(text), "{:?}", text);
    }
}

#[test]
fn name_width_is_the_longest_name_in_bytes() {
    let list = parse_cargo_targets(&dir_with_file("Cargo.toml", "")).unwrap();
    assert_eq!(list.name_width(), 6);
    let list = parse_package_json_scripts(&dir_with_file("package.json", r#"{"scripts": {}}"#)).unwrap();
    assert_eq!(list.name_width(), 0);
    let list = parse_makefile_targets(&dir_with_file("Makefile", "é:\nab:\n")).unwrap();
    assert_eq!(list.name_width(), 2);
}

fn shape(node: &Node) -> String {
    match node {
        Node::Text(text) => format!("{:?}", text),
        Node::Table(fields) => {
            let mut parts: Vec<String> =
                fields.iter().map(|(key, value)| format!("{}={}", key, shape(value))).collect();
            parts.sort();
            format!("{{{}}}", parts.join(","))
        }
        Node::Other => "_".to_string(),
    }
}

#[test]
fn json_documents_as_trees() {
    assert_eq!(shape(&parse_json("{}").unwrap()), "{}");
    assert_eq!(shape(&parse_json("\"x\"").unwrap()), "\"x\"");
    assert_eq!(shape(&parse_json("[1, \"a\"]").unwrap()), "_");
    assert_eq!(shape(&parse_json("null").unwrap()), "_");
    assert_eq!(shape(&parse_json("true").unwrap()), "_");
    assert_eq!(shape(&parse_json(" 1.5e3 ").unwrap()), "_");
    assert_eq!(
        shape(&parse_json(r#"{"b": {"c": "d", "e": [], "f": {}}, "a": "x", "b2": 7}"#).unwrap()),
        r#"{a="x",b2=_,b={c="d",e=_,f={}}}"#
    );
    assert_eq!(shape(&parse_json(r#"{"a": "1", "a": {"b": "2"}}"#).unwrap()), r#"{a={b="2"}}"#);
    assert!(parse_json("").is_none());
    assert!(parse_json("{").is_none());
    assert!(parse_json("{} x").is_none());
    assert!(parse_json("{'a': 1}").is_none());
    assert!(parse_json("{\"a\": 1,}").is_none());
}

#[test]
fn toml_documents_as_trees() {
    assert_eq!(shape(&parse_toml("").unwrap()), "{}");
    assert_eq!(
        shape(&parse_toml("a = \"x\"\nn = 1\nf = 1.5\nt = true\nd = 1979-05-27\nl = [\"y\"]\n[b.c]\ne = 'z'\n").unwrap()),
        r#"{a="x",b={c={e="z"}},d=_,f=_,l=_,n=_,t=_}"#
    );
    assert_eq!(shape(&parse_toml("a.b = \"1\"\na.c = { d = \"2\" }\n").unwrap()), r#"{a={b="1",c={d="2"}}}"#);
    assert!(parse_toml("a = ").is_none());
    assert!(parse_toml("a = 1\na = 2").is_none());
    assert!(parse_toml("[a]\n[a]").is_none());
    assert!(parse_toml("\"just a string\"").is_none());
}

#[test]
fn parsed_tables_have_no_key_twice() {
    fn check(node: &Node) {
        if let Node::Table(fields) = node {
            for (i, (key, value)) in fields.iter().enumerate() {
                assert!(fields[..i].iter().all(|(other, _)| other != key));
                check(value);
            }
        }
    }
    check(&parse_json(r#"{"a": 1, "b": {"x": 1, "x": 2, "y": {"z": 1, "z": 2}}, "a": {"c": 1, "c": 2}}"#).unwrap());
    check(&parse_toml("[a]\nb = 1\nc = 2\n[d]\nb = 1\n").unwrap());
}
