use puff::argument::Argument;
use puff::command::TaskCommand;
use puff::error::PuffError;
use puff::puff::{Puff, Tasks};
use puff::task::Task;
use puff::vars::Vars;

fn resolver_puff(variables: Option<Vec<(&str, &str)>>) -> Puff {
    Puff {
        data: None,
        configuration: None,
        variables: variables.map(|pairs| Vars {
            pairs: pairs
                .into_iter()
                .map(|(k, v)| (k.to_string(), v.to_string()))
                .collect(),
        }),
        tasks: Tasks { pairs: Vec::new() },
    }
}

fn resolver_task(arguments: Option<Vec<Argument>>) -> Task {
    Task {
        description: None,
        arguments,
        commands: Vec::new(),
    }
}

fn arg(name: &str, default: Option<&str>, options: Option<Vec<&str>>) -> Argument {
    Argument {
        name: name.to_string(),
        default: default.map(|d| d.to_string()),
        options: options.map(|os| os.into_iter().map(|o| o.to_string()).collect()),
    }
}

fn no_env() -> Vars {
    Vars { pairs: Vec::new() }
}

#[test]
fn call_time_value_binds_by_position() {
    let task = resolver_task(Some(vec![arg("first", None, None), arg("second", None, None)]));
    let puff = resolver_puff(None);
    let cmd = TaskCommand::Classic(String::new());
    let args = Some(vec!["one".to_string(), "two".to_string()]);
    let r = cmd.find_var("second", &args, &task, &puff, &no_env());
    assert_eq!(r.unwrap(), "two");
}

#[test]
fn default_used_when_no_call_time_value() {
    let task = resolver_task(Some(vec![arg("name", Some("world"), None)]));
    let puff = resolver_puff(None);
    let cmd = TaskCommand::Classic(String::new());
    let args = Some(Vec::new());
    let r = cmd.find_var("name", &args, &task, &puff, &no_env());
    assert_eq!(r.unwrap(), "world");
}

#[test]
fn argument_binding_wins_over_global_variable() {
    let task = resolver_task(Some(vec![arg("name", Some("world"), None)]));
    let puff = resolver_puff(Some(vec![("name", "global")]));
    let cmd = TaskCommand::Classic(String::new());
    let args = Some(Vec::new());
    let r = cmd.format("hello ${name}".to_string(), &args, &task, &puff, &no_env());
    assert_eq!(r.unwrap(), "hello world");
}

#[test]
fn binding_skipped_when_no_call_args_at_all() {
    let task = resolver_task(Some(vec![arg("name", Some("world"), None)]));
    let puff = resolver_puff(Some(vec![("name", "global")]));
    let cmd = TaskCommand::Classic(String::new());
    let r = cmd.find_var("name", &None, &task, &puff, &no_env());
    assert_eq!(r.unwrap(), "global");
}

#[test]
fn value_outside_permitted_set_is_invalid() {
    let task = resolver_task(Some(vec![arg("env", None, Some(vec!["dev", "prod"]))]));
    let puff = resolver_puff(None);
    let cmd = TaskCommand::Classic(String::new());
    let args = Some(vec!["staging".to_string()]);
    let r = cmd.find_var("env", &args, &task, &puff, &no_env());
    match r {
        Err(PuffError::InvalidValue { index, name }) => {
            assert_eq!(index, 0);
            assert_eq!(name, "env");
        }
        other => panic!("expected the invalid-value error, got {:?}", other.map(|_| ())),
    }
}

#[test]
fn permitted_value_is_accepted() {
    let task = resolver_task(Some(vec![arg("env", None, Some(vec!["dev", "prod"]))]));
    let puff = resolver_puff(None);
    let cmd = TaskCommand::Classic(String::new());
    let args = Some(vec!["prod".to_string()]);
    let r = cmd.find_var("env", &args, &task, &puff, &no_env());
    assert_eq!(r.unwrap(), "prod");
}

#[test]
fn default_outside_permitted_set_is_invalid_too() {
    let task = resolver_task(Some(vec![arg("env", Some("staging"), Some(vec!["dev", "prod"]))]));
    let puff = resolver_puff(None);
    let cmd = TaskCommand::Classic(String::new());
    let args = Some(Vec::new());
    let r = cmd.find_var("env", &args, &task, &puff, &no_env());
    assert!(matches!(r, Err(PuffError::InvalidValue { index: 0, .. })));
}

#[test]
fn missing_value_without_default_must_be_provided() {
    let task = resolver_task(Some(vec![
        arg("first", Some("1"), None),
        arg("target", None, None),
    ]));
    let puff = resolver_puff(None);
    let cmd = TaskCommand::Classic(String::new());
    let args = Some(vec![]);
    let r = cmd.find_var("target", &args, &task, &puff, &no_env());
    match r {
        Err(PuffError::MustProvide { index, name }) => {
            assert_eq!(index, 1);
            assert_eq!(name, "target");
        }
        other => panic!("expected the must-be-provided error, got {:?}", other.map(|_| ())),
    }
}

#[test]
fn environment_snapshot_is_last_source() {
    let task = resolver_task(None);
    let puff = resolver_puff(Some(vec![("other", "x")]));
    let cmd = TaskCommand::Classic(String::new());
    let env = Vars {
        pairs: vec![("HOME_DIR".to_string(), "/home/someone".to_string())],
    };
    let r = cmd.find_var("HOME_DIR", &None, &task, &puff, &env);
    assert_eq!(r.unwrap(), "/home/someone");
}

#[test]
fn task_file_variable_wins_over_environment() {
    let task = resolver_task(None);
    let puff = resolver_puff(Some(vec![("who", "from-file")]));
    let cmd = TaskCommand::Classic(String::new());
    let env = Vars {
        pairs: vec![("who".to_string(), "from-env".to_string())],
    };
    let r = cmd.find_var("who", &None, &task, &puff, &env);
    assert_eq!(r.unwrap(), "from-file");
}

#[test]
fn unknown_name_is_not_found() {
    let task = resolver_task(None);
    let puff = resolver_puff(None);
    let cmd = TaskCommand::Classic(String::new());
    let r = cmd.find_var("nowhere", &None, &task, &puff, &no_env());
    match r {
        Err(PuffError::VarNotFound { name }) => assert_eq!(name, "nowhere"),
        other => panic!("expected the not-found error, got {:?}", other.map(|_| ())),
    }
}
