use oprs::process::interpreters::{friendly_name, Interpreter};

fn strings(v: &[&str]) -> Vec<String> {
    v.iter().map(|s| s.to_string()).collect()
}

#[test]
fn test_no_interpreter() {
    assert!(friendly_name(&strings(&["/bin/head", "-1", "file.txt"])).is_none());
}

#[test]
fn test_java_interpreter() {
    let prog = "/path/to/prog.jar";

    // Name for interpreter without script
    let r1 = friendly_name(&strings(&["/usr/local/bin/java", "-V"]));
    assert_eq!(Some("java".to_string()), r1);

    // Name from jar alone
    let r2 = friendly_name(&strings(&["/usr/bin/java", "-jar", prog]));
    assert_eq!(Some("java(prog)".to_string()), r2);

    // Name from jar with arguments
    let r3 = friendly_name(&strings(&["/bin/java", "-Dx=y", "-jar", prog, "arg"]));
    assert_eq!(Some("java(prog)".to_string()), r3);
}

#[test]
fn test_perl_interpreter() {
    let prog = "/path/to/prog.pl";

    // Name from exe if there is no command line
    let r1 = friendly_name(&strings(&["/usr/local/bin/perl"]));
    assert_eq!(Some("perl".to_string()), r1);

    // Name from script by extension
    let r2 = friendly_name(&strings(&["/usr/bin/perl", prog]));
    assert_eq!(Some("perl(prog)".to_string()), r2);

    // Name for module
    let r3 = friendly_name(&strings(&["/bin/perl", "-Dtls", prog, "arg"]));
    assert_eq!(Some("perl(prog)".to_string()), r3);
}

#[test]
fn test_python_interpreter() {
    let prog = "/path/to/prog.py";

    // Name from exe if there is no command line.
    let r1 = friendly_name(&strings(&["/usr/local/bin/python", "-h"]));
    assert_eq!(Some("python".to_string()), r1);

    // Name from script by extension
    let r2 = friendly_name(&strings(&["/usr/bin/python", "-v", prog]));
    assert_eq!(Some("python(prog)".to_string()), r2);

    // Name for python with a module
    let r3 = friendly_name(&strings(&["/bin/python", "-m", "http.server", "arg"]));
    assert_eq!(Some("python(http.server)".to_string()), r3);
}

#[test]
fn shell_interpreter_has_no_module_option() {
    let r = friendly_name(&strings(&["/bin/bash", "-m", "/usr/lib/run.sh"]));
    assert_eq!(Some("bash(run)".to_string()), r);
    let r = friendly_name(&strings(&["/bin/sh", "-m", "module"]));
    assert_eq!(Some("sh".to_string()), r);
}

#[test]
fn module_option_glued_to_its_name() {
    let r = friendly_name(&strings(&["/usr/bin/perl", "-MStrict"]));
    assert_eq!(Some("perl(Strict)".to_string()), r);
}

#[test]
fn guess_by_base_name() {
    let i = Interpreter::guess("/opt/python3.11").unwrap();
    assert_eq!(i.name, "python3.11");
    assert_eq!(i.extension, ".py");
    assert_eq!(i.mod_option, Some("-m"));
    assert!(Interpreter::guess("/usr/bin/javac").is_none());
    assert!(Interpreter::guess("").is_none());
}

#[test]
fn empty_command_line_has_no_name() {
    assert!(friendly_name(&[]).is_none());
}
