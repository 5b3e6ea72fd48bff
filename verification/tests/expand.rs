use puff::argument::Argument;
use puff::command::TaskCommand;
use puff::error::PuffError;
use puff::puff::{Puff, Tasks};
use puff::task::Task;
use puff::vars::Vars;

fn expander_puff(variables: Vec<(&str, &str)>) -> Puff {
    Puff {
        data: None,
        configuration: None,
        variables: Some(Vars {
            pairs: variables
                .into_iter()
                .map(|(k, v)| (k.to_string(), v.to_string()))
                .collect(),
        }),
        tasks: Tasks { pairs: Vec::new() },
    }
}

fn expander_task() -> Task {
    Task {
        description: None,
        arguments: None,
        commands: Vec::new(),
    }
}

fn expand(template: &str, variables: Vec<(&str, &str)>) -> Result<String, PuffError> {
    let puff = expander_puff(variables);
    let task = expander_task();
    let cmd = TaskCommand::Classic(String::new());
    let env = Vars { pairs: Vec::new() };
    cmd.format(template.to_string(), &None, &task, &puff, &env)
}

#[test]
fn expansion_is_identity_without_placeholders() {
    let s = "echo nothing to substitute $ { } $x";
    assert_eq!(expand(s, vec![("A", "unused")]).unwrap(), s);
}

#[test]
fn empty_template_expands_to_itself() {
    assert_eq!(expand("", vec![]).unwrap(), "");
}

#[test]
fn single_placeholder_is_substituted() {
    assert_eq!(expand("echo ${A}", vec![("A", "hi")]).unwrap(), "echo hi");
}

#[test]
fn cascading_resolution_follows_variables() {
    let r = expand("${A}", vec![("A", "${B}"), ("B", "x")]);
    assert_eq!(r.unwrap(), "x");
}

#[test]
fn several_occurrences_all_substituted() {
    let r = expand("${A} and ${A} and ${B}", vec![("A", "1"), ("B", "2")]);
    assert_eq!(r.unwrap(), "1 and 1 and 2");
}

#[test]
fn self_referential_variable_reports_no_convergence() {
    let r = expand("${A}", vec![("A", "${A}")]);
    assert!(matches!(r, Err(PuffError::NoConvergence)));
}

#[test]
fn mutually_referential_variables_report_no_convergence() {
    let r = expand("${A}", vec![("A", "${B}"), ("B", "${A}")]);
    assert!(matches!(r, Err(PuffError::NoConvergence)));
}

#[test]
fn no_convergence_message_text() {
    let r = expand("${A}", vec![("A", "${A}")]);
    assert_eq!(
        r.unwrap_err().message(),
        "template expansion did not converge"
    );
}

#[test]
fn unclosed_placeholder_stays_literal() {
    assert_eq!(expand("echo ${A", vec![("A", "hi")]).unwrap(), "echo ${A");
}

#[test]
fn empty_placeholder_name_stays_literal() {
    assert_eq!(expand("echo ${}", vec![]).unwrap(), "echo ${}");
}

#[test]
fn dollar_without_brace_stays_literal() {
    assert_eq!(expand("cost $5 ${A}", vec![("A", "now")]).unwrap(), "cost $5 now");
}

#[test]
fn unknown_placeholder_aborts_expansion() {
    let r = expand("echo ${missing}", vec![("A", "hi")]);
    match r {
        Err(PuffError::VarNotFound { name }) => assert_eq!(name, "missing"),
        other => panic!("expected the not-found error, got {:?}", other.map(|_| ())),
    }
}

#[test]
fn substituted_value_may_mix_text_and_placeholders() {
    let r = expand(
        "run ${cmd}",
        vec![("cmd", "build --mode ${mode}"), ("mode", "fast")],
    );
    assert_eq!(r.unwrap(), "run build --mode fast");
}

#[test]
fn adjacent_placeholders_both_substituted() {
    let r = expand("${A}${B}", vec![("A", "left"), ("B", "right")]);
    assert_eq!(r.unwrap(), "leftright");
}

#[test]
fn argument_default_may_cascade_into_variables() {
    let puff = expander_puff(vec![("dir", "/tmp")]);
    let task = Task {
        description: None,
        arguments: Some(vec![Argument {
            name: "out".to_string(),
            default: Some("${dir}/build".to_string()),
            options: None,
        }]),
        commands: Vec::new(),
    };
    let cmd = TaskCommand::Classic(String::new());
    let env = Vars { pairs: Vec::new() };
    let args = Some(Vec::new());
    let r = cmd.format("cp a ${out}".to_string(), &args, &task, &puff, &env);
    assert_eq!(r.unwrap(), "cp a /tmp/build");
}

#[test]
fn placeholder_resolved_from_argument_inside_template() {
    let puff = expander_puff(vec![]);
    let task = Task {
        description: None,
        arguments: Some(vec![Argument {
            name: "file".to_string(),
            default: None,
            options: None,
        }]),
        commands: Vec::new(),
    };
    let cmd = TaskCommand::Classic(String::new());
    let env = Vars { pairs: Vec::new() };
    let args = Some(vec!["main.c".to_string()]);
    let r = cmd.format("gcc ${file}".to_string(), &args, &task, &puff, &env);
    assert_eq!(r.unwrap(), "gcc main.c");
}
