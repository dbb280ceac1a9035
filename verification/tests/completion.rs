use my_dev_tool::completion::{
    add_completion, add_completion_to_shell, classify_shell, join_path, source_line,
    InstallAction, Shell,
};

fn run_installer(contents: &mut String, line: &str) -> InstallAction {
    let action = add_completion_to_shell(contents, line);
    if let InstallAction::Append(text) = &action {
        contents.push_str(text);
    }
    action
}

#[test]
fn a_value_that_mentions_zsh_selects_zsh() {
    assert_eq!(classify_shell("/bin/zsh"), Shell::Zsh);
    assert_eq!(classify_shell("zsh"), Shell::Zsh);
    assert_eq!(classify_shell("/usr/local/bin/zsh-5.9"), Shell::Zsh);
    assert_eq!(classify_shell("xzshx"), Shell::Zsh);
    assert_eq!(classify_shell("zzsh"), Shell::Zsh);
}

#[test]
fn any_other_value_selects_bash() {
    assert_eq!(classify_shell("/bin/bash"), Shell::Bash);
    assert_eq!(classify_shell(""), Shell::Bash);
    assert_eq!(classify_shell("/usr/bin/fish"), Shell::Bash);
    assert_eq!(classify_shell("zs"), Shell::Bash);
    assert_eq!(classify_shell("z sh"), Shell::Bash);
    assert_eq!(classify_shell("ZSH"), Shell::Bash);
    assert_eq!(classify_shell("hsz"), Shell::Bash);
}

#[test]
fn each_shell_has_its_startup_file() {
    assert_eq!(Shell::Zsh.startup_file_name(), ".zshrc");
    assert_eq!(Shell::Bash.startup_file_name(), ".bashrc");
}

#[test]
fn each_shell_reports_its_generated_script() {
    assert_eq!(Shell::Zsh.generated_message(), "Generated Zsh completion script.");
    assert_eq!(Shell::Bash.generated_message(), "Generated Bash completion script.");
}

#[test]
fn joins_a_directory_and_a_name_with_one_slash() {
    assert_eq!(join_path("/home/u", ".zshrc"), "/home/u/.zshrc");
    assert_eq!(join_path("/home/u/", ".zshrc"), "/home/u/.zshrc");
    assert_eq!(join_path("/", ".bashrc"), "/.bashrc");
    assert_eq!(join_path("", ".bashrc"), ".bashrc");
    assert_eq!(join_path("/home/ü", "x"), "/home/ü/x");
}

#[test]
fn joining_agrees_with_the_standard_path_join() {
    for dir in ["/home/u", "/home/u/", "/", "", "relative", "a/b/"] {
        for name in [".zshrc", ".bashrc", "my_dev_tool_completion"] {
            let expected = std::path::Path::new(dir).join(name);
            assert_eq!(join_path(dir, name), expected.to_str().unwrap());
        }
    }
}

#[test]
fn the_source_line_names_the_script() {
    assert_eq!(
        source_line("/home/u/my_dev_tool_completion"),
        "source /home/u/my_dev_tool_completion"
    );
    assert_eq!(source_line(""), "source ");
}

#[test]
fn plans_an_installation_for_zsh() {
    let plan = add_completion("/bin/zsh", "/home/u");
    assert_eq!(plan.shell, Shell::Zsh);
    assert_eq!(plan.completion_script, "/home/u/my_dev_tool_completion");
    assert_eq!(plan.startup_file, "/home/u/.zshrc");
    assert_eq!(plan.source_line, "source /home/u/my_dev_tool_completion");
}

#[test]
fn plans_an_installation_for_bash_by_default() {
    let plan = add_completion("", "/root/");
    assert_eq!(plan.shell, Shell::Bash);
    assert_eq!(plan.completion_script, "/root/my_dev_tool_completion");
    assert_eq!(plan.startup_file, "/root/.bashrc");
    assert_eq!(plan.source_line, "source /root/my_dev_tool_completion");
}

#[test]
fn the_line_is_appended_where_it_is_missing() {
    let line = "source /home/u/my_dev_tool_completion";
    let alone = "source /home/u/my_dev_tool_completion\n";
    let after_newline = "\nsource /home/u/my_dev_tool_completion\n";
    assert_eq!(
        add_completion_to_shell("export A=1\n", line),
        InstallAction::Append(String::from(alone))
    );
    assert_eq!(add_completion_to_shell("", line), InstallAction::Append(String::from(alone)));
    assert_eq!(
        add_completion_to_shell("source /home/u/my_dev_tool_completio", line),
        InstallAction::Append(String::from(after_newline))
    );
    assert_eq!(
        add_completion_to_shell("\n", line),
        InstallAction::Append(String::from(alone))
    );
    assert_eq!(
        add_completion_to_shell("export A=1\n ", line),
        InstallAction::Append(String::from(after_newline))
    );
}

#[test]
fn the_line_starts_a_line_of_its_own_after_an_unfinished_line() {
    let mut contents = String::from("export A=1");
    let action = run_installer(&mut contents, &source_line("/h/c"));
    assert_eq!(action, InstallAction::Append(String::from("\nsource /h/c\n")));
    assert_eq!(contents, "export A=1\nsource /h/c\n");
    let lines: Vec<&str> = contents.lines().filter(|l| !l.is_empty()).collect();
    assert_eq!(lines, vec!["export A=1", "source /h/c"]);
}

#[test]
fn nothing_is_appended_where_the_line_is_present() {
    let line = "source /home/u/my_dev_tool_completion";
    assert_eq!(
        add_completion_to_shell("a\nsource /home/u/my_dev_tool_completion\nb\n", line),
        InstallAction::AlreadyAdded
    );
    assert_eq!(add_completion_to_shell(line, line), InstallAction::AlreadyAdded);
    assert_eq!(
        add_completion_to_shell("export A=1source /home/u/my_dev_tool_completion", line),
        InstallAction::AlreadyAdded
    );
}

#[test]
fn running_the_installer_twice_adds_the_line_once() {
    let line = "source /home/u/my_dev_tool_completion";
    let mut contents = String::from("export A=1\n");
    let first = run_installer(&mut contents, line);
    assert_eq!(
        first,
        InstallAction::Append(String::from("source /home/u/my_dev_tool_completion\n"))
    );
    assert_eq!(contents, "export A=1\nsource /home/u/my_dev_tool_completion\n");
    let second = run_installer(&mut contents, line);
    assert_eq!(second, InstallAction::AlreadyAdded);
    assert_eq!(contents, "export A=1\nsource /home/u/my_dev_tool_completion\n");
    assert_eq!(contents.matches(line).count(), 1);
    assert_eq!(contents.lines().filter(|l| *l == line).count(), 1);
    assert_eq!(
        second.message("/home/u/.bashrc"),
        "Completion script already added to /home/u/.bashrc."
    );
}

#[test]
fn running_the_installer_twice_after_an_unfinished_line() {
    let line = "source /h/c";
    let mut contents = String::from("export A=1");
    let first = run_installer(&mut contents, line);
    let after_first = contents.clone();
    let second = run_installer(&mut contents, line);
    assert_eq!(first, InstallAction::Append(String::from("\nsource /h/c\n")));
    assert_eq!(second, InstallAction::AlreadyAdded);
    assert_eq!(contents, after_first);
    assert_eq!(contents, "export A=1\nsource /h/c\n");
    assert_eq!(contents.matches(line).count(), 1);
}

#[test]
fn running_the_installer_twice_on_an_empty_file() {
    let plan = add_completion("/bin/zsh", "/home/u");
    let mut contents = String::new();
    let first = run_installer(&mut contents, &plan.source_line);
    let after_first = contents.clone();
    let second = run_installer(&mut contents, &plan.source_line);
    assert_eq!(
        first,
        InstallAction::Append(String::from("source /home/u/my_dev_tool_completion\n"))
    );
    assert_eq!(second, InstallAction::AlreadyAdded);
    assert_eq!(contents, after_first);
    assert_eq!(contents, "source /home/u/my_dev_tool_completion\n");
    assert_eq!(contents.matches(plan.source_line.as_str()).count(), 1);
}

#[test]
fn a_line_with_a_newline_in_it_can_occur_twice() {
    let line = "source x\nsource x";
    let mut contents = String::from("source x");
    let first = run_installer(&mut contents, line);
    assert_eq!(first, InstallAction::Append(String::from("\nsource x\nsource x\n")));
    assert_eq!(run_installer(&mut contents, line), InstallAction::AlreadyAdded);
    assert_eq!(contents, "source x\nsource x\nsource x\n");
}

#[test]
fn actions_report_themselves() {
    assert_eq!(
        InstallAction::AlreadyAdded.message("/home/u/.zshrc"),
        "Completion script already added to /home/u/.zshrc."
    );
    assert_eq!(
        InstallAction::Append(String::from("source x")).message("/home/u/.zshrc"),
        "Added completion script to /home/u/.zshrc."
    );
}
