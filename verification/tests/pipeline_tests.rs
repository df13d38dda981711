use route_prompter::config::{resolve_routes, ArgsError, Config, Route};
use route_prompter::output::{accumulate_reply, ResultRecord};
use route_prompter::prompt::{
    assemble_messages, chat_endpoint, model_identifier, ControllerEntry, Role,
};
use route_prompter::response::ResponseError;

fn one_controller() -> Vec<ControllerEntry> {
    vec![ControllerEntry { path: "a.txt".to_owned(), content: "fn get_users() {}".to_owned() }]
}

#[test]
fn prompt_shape_without_detail() {
    let msgs = assemble_messages("SYS", "/users", "GET", &one_controller(), &None);
    assert_eq!(msgs.len(), 3);
    assert_eq!(msgs[0].role, Role::System);
    assert_eq!(msgs[0].content, "SYS");
    assert_eq!(msgs[1].role, Role::User);
    assert_eq!(msgs[1].content, "route: /users method: GET");
    assert_eq!(msgs[2].role, Role::User);
    assert_eq!(msgs[2].content, "controller 1: \n path: a.txt \n content: \n fn get_users() {}");
}

#[test]
fn prompt_shape_with_detail() {
    let detail = Some("use snake_case".to_owned());
    let msgs = assemble_messages("SYS", "/users", "GET", &one_controller(), &detail);
    assert_eq!(msgs.len(), 4);
    assert_eq!(msgs[3].role, Role::User);
    assert_eq!(msgs[3].content, "use snake_case");
}

#[test]
fn prompt_without_controllers_has_two_messages() {
    let msgs = assemble_messages("SYS", "/x", "POST", &Vec::new(), &None);
    assert_eq!(msgs.len(), 2);
    assert_eq!(msgs[1].content, "route: /x method: POST");
}

#[test]
fn controller_indexes_are_one_based_decimals() {
    let mut controllers = Vec::new();
    for i in 0..12 {
        controllers.push(ControllerEntry {
            path: format!("f{}.txt", i),
            content: "x".to_owned(),
        });
    }
    let msgs = assemble_messages("SYS", "/r", "GET", &controllers, &None);
    assert_eq!(msgs.len(), 14);
    assert_eq!(msgs[2].content, "controller 1: \n path: f0.txt \n content: \n x");
    assert_eq!(msgs[13].content, "controller 12: \n path: f11.txt \n content: \n x");
}

#[test]
fn end_to_end_scenario() {
    let msgs = assemble_messages("SYS", "/users", "GET", &one_controller(), &None);
    assert_eq!(msgs[1].content, "route: /users method: GET");
    assert_eq!(msgs[2].content, "controller 1: \n path: a.txt \n content: \n fn get_users() {}");

    let reply = "{\"message\":{\"content\":\"```json\\n{\\\"ok\\\":true}\\n```\"}}";
    let mut output: Vec<ResultRecord> = Vec::new();
    let outcome = accumulate_reply("/users", "GET", reply, &mut output);
    assert!(outcome.is_ok());
    assert_eq!(output.len(), 1);
    assert_eq!(output[0].route, "/users");
    assert_eq!(output[0].method, "GET");
    assert_eq!(output[0].message_content, "{\"ok\":true}");
}

#[test]
fn missing_content_resolves_to_placeholder() {
    let mut output: Vec<ResultRecord> = Vec::new();
    assert!(accumulate_reply("/a", "GET", "{}", &mut output).is_ok());
    assert!(accumulate_reply("/b", "GET", "{\"message\":{}}", &mut output).is_ok());
    assert!(accumulate_reply("/c", "GET", "{\"message\":{\"content\":5}}", &mut output).is_ok());
    assert_eq!(output.len(), 3);
    for record in &output {
        assert_eq!(record.message_content, "No content");
    }
}

#[test]
fn invalid_json_reply_is_an_error_and_appends_nothing() {
    let mut output: Vec<ResultRecord> = Vec::new();
    let outcome = accumulate_reply("/a", "GET", "not json at all", &mut output);
    assert_eq!(outcome, Err(ResponseError::InvalidJson));
    assert_eq!(output.len(), 0);
}

#[test]
fn one_record_per_route_in_order() {
    let mut output: Vec<ResultRecord> = Vec::new();
    assert!(
        accumulate_reply("/first", "GET", "{\"message\":{\"content\":\"one\"}}", &mut output)
            .is_ok()
    );
    assert!(
        accumulate_reply("/second", "POST", "{\"message\":{\"content\":\"two\"}}", &mut output)
            .is_ok()
    );
    assert_eq!(output.len(), 2);
    assert_eq!(output[0].route, "/first");
    assert_eq!(output[0].message_content, "one");
    assert_eq!(output[1].route, "/second");
    assert_eq!(output[1].method, "POST");
    assert_eq!(output[1].message_content, "two");
}

#[test]
fn direct_flags_make_a_single_route() {
    let routes = resolve_routes(
        None,
        Some("/x".to_owned()),
        Some("POST".to_owned()),
        Some(vec!["f1.txt".to_owned(), "f2.txt".to_owned()]),
    )
    .unwrap();
    assert_eq!(routes.len(), 1);
    assert_eq!(routes[0].path, "/x");
    assert_eq!(routes[0].method, "POST");
    assert_eq!(routes[0].controllers, vec!["f1.txt".to_owned(), "f2.txt".to_owned()]);
    assert!(routes[0].other_details.is_none());
}

#[test]
fn missing_arguments_are_rejected() {
    assert_eq!(
        resolve_routes(None, None, None, None).unwrap_err(),
        ArgsError::MissingArguments
    );
    assert_eq!(
        resolve_routes(None, Some("/x".to_owned()), None, None).unwrap_err(),
        ArgsError::MissingArguments
    );
    assert_eq!(
        resolve_routes(None, Some("/x".to_owned()), Some("GET".to_owned()), None).unwrap_err(),
        ArgsError::MissingArguments
    );
    assert_eq!(
        resolve_routes(None, None, Some("GET".to_owned()), Some(vec!["a".to_owned()]))
            .unwrap_err(),
        ArgsError::MissingArguments
    );
}

#[test]
fn config_takes_precedence_over_flags() {
    let config = Config {
        routes: vec![Route {
            path: "/from-config".to_owned(),
            method: "GET".to_owned(),
            controllers: vec!["c.txt".to_owned()],
            other_details: Some("notes".to_owned()),
        }],
    };
    let routes = resolve_routes(
        Some(config),
        Some("/ignored".to_owned()),
        Some("POST".to_owned()),
        Some(vec!["ignored.txt".to_owned()]),
    )
    .unwrap();
    assert_eq!(routes.len(), 1);
    assert_eq!(routes[0].path, "/from-config");
    assert_eq!(routes[0].other_details, Some("notes".to_owned()));
}

#[test]
fn wire_constants() {
    assert_eq!(model_identifier(), "llama3.1:8b");
    assert_eq!(chat_endpoint("http://localhost:11434"), "http://localhost:11434/api/chat");
}
