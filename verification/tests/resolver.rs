use process_manager::resolver::{
    build_cmdline, build_command, candidate_paths, is_supported_extension, quote_cmd_arg,
    resolve_path_candidate, resolve_program, supported_extensions, ResolvedProgram,
};

fn list(items: &[&str]) -> Vec<String> {
    items.iter().map(|s| s.to_string()).collect()
}

#[test]
fn extensions_in_order_of_priority() {
    assert_eq!(supported_extensions(), vec![".exe", ".com", ".cmd", ".bat"]);
}

#[test]
fn supported_extension_names() {
    for ext in ["exe", "com", "cmd", "bat"] {
        assert!(is_supported_extension(ext));
    }
    for ext in ["", "EXE", ".exe", "ps1", "sh", "exe "] {
        assert!(!is_supported_extension(ext), "{:?}", ext);
    }
}

#[test]
fn bare_name_is_tried_in_each_directory_with_each_extension() {
    let dirs = list(&["C:\\bin", "D:\\tools\\"]);
    assert_eq!(
        candidate_paths("npm", &dirs),
        vec![
            "C:\\bin\\npm.exe",
            "C:\\bin\\npm.com",
            "C:\\bin\\npm.cmd",
            "C:\\bin\\npm.bat",
            "D:\\tools\\npm.exe",
            "D:\\tools\\npm.com",
            "D:\\tools\\npm.cmd",
            "D:\\tools\\npm.bat",
        ]
    );
}

#[test]
fn bare_name_with_supported_extension_is_tried_as_it_is() {
    let dirs = list(&["C:\\bin", "", "x/"]);
    assert_eq!(
        candidate_paths("  Run.CMD ", &dirs),
        vec!["C:\\bin\\Run.CMD", "Run.CMD", "x/Run.CMD"]
    );
}

#[test]
fn bare_name_with_other_extension_gets_the_supported_ones() {
    let dirs = list(&["C:\\py"]);
    assert_eq!(
        candidate_paths("python3.11", &dirs),
        vec![
            "C:\\py\\python3.11.exe",
            "C:\\py\\python3.11.com",
            "C:\\py\\python3.11.cmd",
            "C:\\py\\python3.11.bat",
        ]
    );
}

#[test]
fn name_with_separator_is_taken_as_it_stands() {
    let dirs = list(&["C:\\bin"]);
    assert_eq!(candidate_paths(".\\run.bat", &dirs), vec![".\\run.bat"]);
    assert_eq!(candidate_paths("tools/run.ps1", &dirs), vec!["tools/run.ps1"]);
    assert_eq!(
        candidate_paths("C:\\app.d\\serve", &dirs),
        vec![
            "C:\\app.d\\serve.exe",
            "C:\\app.d\\serve.com",
            "C:\\app.d\\serve.cmd",
            "C:\\app.d\\serve.bat",
        ]
    );
    assert_eq!(
        candidate_paths("./.hidden", &dirs),
        vec!["./.hidden.exe", "./.hidden.com", "./.hidden.cmd", "./.hidden.bat"]
    );
}

#[test]
fn no_directories_no_candidates() {
    assert!(candidate_paths("npm", &Vec::new()).is_empty());
    assert!(candidate_paths("   ", &list(&["C:\\bin"])).len() == 4);
}

#[test]
fn candidate_is_classified_by_its_extension() {
    assert_eq!(
        resolve_path_candidate("C:\\bin\\node.exe", true),
        Some(ResolvedProgram { path: "C:\\bin\\node.exe".to_string(), is_cmd_script: false })
    );
    assert_eq!(
        resolve_path_candidate("C:\\bin\\tool.COM", true),
        Some(ResolvedProgram { path: "C:\\bin\\tool.COM".to_string(), is_cmd_script: false })
    );
    assert_eq!(
        resolve_path_candidate("C:\\bin\\npm.cmd", true),
        Some(ResolvedProgram { path: "C:\\bin\\npm.cmd".to_string(), is_cmd_script: true })
    );
    assert_eq!(
        resolve_path_candidate("run.Bat", true),
        Some(ResolvedProgram { path: "run.Bat".to_string(), is_cmd_script: true })
    );
}

#[test]
fn candidate_that_is_no_file_or_has_no_supported_extension_is_nothing() {
    assert_eq!(resolve_path_candidate("C:\\bin\\node.exe", false), None);
    assert_eq!(resolve_path_candidate("C:\\bin\\node", true), None);
    assert_eq!(resolve_path_candidate("C:\\bin\\run.ps1", true), None);
    assert_eq!(resolve_path_candidate("C:\\bin.exe\\run", true), None);
    assert_eq!(resolve_path_candidate(".exe", true), None);
    assert_eq!(resolve_path_candidate("dir\\.exe", true), None);
    assert_eq!(resolve_path_candidate("run.", true), None);
    assert_eq!(resolve_path_candidate("", true), None);
}

#[test]
fn first_usable_candidate_wins() {
    let dirs = list(&["C:\\a", "C:\\b"]);
    let mut probes = vec![false; 8];
    probes[2] = true;
    probes[4] = true;
    assert_eq!(
        resolve_program("npm", &dirs, &probes),
        Ok(ResolvedProgram { path: "C:\\a\\npm.cmd".to_string(), is_cmd_script: true })
    );
    probes[2] = false;
    assert_eq!(
        resolve_program("npm", &dirs, &probes),
        Ok(ResolvedProgram { path: "C:\\b\\npm.exe".to_string(), is_cmd_script: false })
    );
}

#[test]
fn missing_answers_count_as_no_file() {
    let dirs = list(&["C:\\a", "C:\\b"]);
    assert_eq!(
        resolve_program("npm", &dirs, &vec![false, true]),
        Ok(ResolvedProgram { path: "C:\\a\\npm.com".to_string(), is_cmd_script: false })
    );
    assert!(resolve_program("npm", &dirs, &Vec::new()).is_err());
}

#[test]
fn not_found_texts() {
    let dirs = list(&["C:\\a"]);
    assert_eq!(
        resolve_program(" npm ", &dirs, &vec![false; 4]),
        Err("Program not found or not executable: npm (expected .exe/.com/.cmd/.bat on PATH)"
            .to_string())
    );
    assert_eq!(
        resolve_program(".\\run.bat", &dirs, &vec![false]),
        Err("Program not found or not executable: .\\run.bat".to_string())
    );
    assert_eq!(
        resolve_program(".\\run.ps1", &dirs, &vec![true]),
        Err("Program not found or not executable: .\\run.ps1".to_string())
    );
    assert_eq!(
        resolve_program(".\\run", &dirs, &vec![false; 4]),
        Err("Program not found or not executable: .\\run (expected .exe/.com/.cmd/.bat)"
            .to_string())
    );
}

#[test]
fn empty_program_is_refused() {
    let dirs = list(&["C:\\a"]);
    assert_eq!(resolve_program("", &dirs, &vec![true; 4]), Err("Command is empty".to_string()));
    assert_eq!(resolve_program(" \t ", &dirs, &vec![true; 4]), Err("Command is empty".to_string()));
}

#[test]
fn script_runs_through_the_interpreter_with_separate_arguments() {
    let script = ResolvedProgram { path: "C:\\a b\\npm.cmd".to_string(), is_cmd_script: true };
    let (program, args) = build_command(script, list(&["run", "dev server", "--x=\"1\""]));
    assert_eq!(program, "cmd");
    assert_eq!(args, vec!["/C", "C:\\a b\\npm.cmd", "run", "dev server", "--x=\"1\""]);
}

#[test]
fn program_runs_directly() {
    let exe = ResolvedProgram { path: "C:\\bin\\node.exe".to_string(), is_cmd_script: false };
    let (program, args) = build_command(exe, list(&["server.js", "a b"]));
    assert_eq!(program, "C:\\bin\\node.exe");
    assert_eq!(args, vec!["server.js", "a b"]);
}

#[test]
fn words_are_quoted_where_they_need_it() {
    assert_eq!(quote_cmd_arg(""), "\"\"");
    assert_eq!(quote_cmd_arg("abc"), "abc");
    assert_eq!(quote_cmd_arg("C:\\bin\\x.exe"), "C:\\bin\\x.exe");
    assert_eq!(quote_cmd_arg("a b"), "\"a b\"");
    assert_eq!(quote_cmd_arg("a\tb"), "\"a\tb\"");
    assert_eq!(quote_cmd_arg("a\u{a0}b"), "\"a\u{a0}b\"");
    assert_eq!(quote_cmd_arg("a\"b"), "\"a\\\"b\"");
    assert_eq!(quote_cmd_arg("say \"hi\""), "\"say \\\"hi\\\"\"");
    assert_eq!(quote_cmd_arg("\""), "\"\\\"\"");
    assert_eq!(quote_cmd_arg("a|b"), "a|b");
}

#[test]
fn shown_command_line() {
    assert_eq!(build_cmdline("npm.cmd", &[]), "npm.cmd");
    assert_eq!(
        build_cmdline("C:\\a b\\npm.cmd", &list(&["run", "dev server", "", "x\"y"])),
        "\"C:\\a b\\npm.cmd\" run \"dev server\" \"\" \"x\\\"y\""
    );
    assert_eq!(build_cmdline("", &list(&["a"])), "\"\" a");
}
