use devrunner::tools::{extract_version, version_flag};

#[test]
fn version_flag_by_tool() {
    for tool in ["npm", "pnpm", "yarn", "bun", "node"] {
        assert_eq!(version_flag(tool), "-v");
    }
    assert_eq!(version_flag("go"), "version");
    for tool in ["cargo", "rustc", "python", "python3", "make", "zig", "swift", "", "NPM", "npm "] {
        assert_eq!(version_flag(tool), "--version");
    }
}

#[test]
fn version_is_the_first_word_that_begins_with_a_digit() {
    assert_eq!(extract_version("cargo 1.75.0 (1d8b05cdd 2023-11-20)\n"), "1.75.0");
    assert_eq!(extract_version("Python 3.12.1"), "3.12.1");
    assert_eq!(extract_version("GNU Make 4.3\nBuilt for x86_64-pc-linux-gnu\n"), "4.3");
    assert_eq!(extract_version("10.2.4\n"), "10.2.4");
    assert_eq!(extract_version("  \t 9.1 8.2  "), "9.1");
    assert_eq!(extract_version("a1 b2 3c"), "3c");
    assert_eq!(extract_version("zig\u{a0}0.11.0"), "0.11.0");
}

#[test]
fn version_without_a_digit_word_is_the_whole_output() {
    assert_eq!(extract_version("v18.17.0\n"), "18.17.0");
    assert_eq!(extract_version("go version go1.21.5 linux/amd64"), "go version go1.21.5 linux/amd64");
    assert_eq!(extract_version("  vvv-none  "), "-none");
    assert_eq!(extract_version("version unknown"), "ersion unknown");
    assert_eq!(extract_version(""), "");
    assert_eq!(extract_version(" \n\t "), "");
    assert_eq!(extract_version("v"), "");
    assert_eq!(extract_version("swift-driver version: x"), "swift-driver version: x");
}

#[test]
fn version_agrees_with_the_text_functions_of_std() {
    for output in [
        "cargo 1.75.0 (1d8b05cdd 2023-11-20)\n",
        "v18.17.0\n",
        "  vv1 2\n",
        "x\u{2003}v2 \u{3000}3.4",
        "٣.٤ 5",
        "",
        "   ",
        "v v v",
    ] {
        let version = output.trim();
        let version = version
            .split_whitespace()
            .find(|s| s.chars().next().map(|c| c.is_ascii_digit()).unwrap_or(false))
            .unwrap_or(version);
        assert_eq!(extract_version(output), version.trim_start_matches('v'));
    }
}
