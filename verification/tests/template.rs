use edna::cli::template_cli::{
    default_output, exclude_config_answer, output_from_flag, output_from_prompt, settle,
    source_answer, template_config, PathAnswer,
};
use edna::templates::config::CreatedTemplateConfig;

fn text(s: &str) -> String {
    s.to_string()
}

#[test]
fn yes_is_the_first_choice() {
    assert!(exclude_config_answer(0));
    assert!(!exclude_config_answer(1));
    assert!(!exclude_config_answer(7));
}

#[test]
fn flag_output_is_an_entry_of_the_templates_directory() {
    assert_eq!(
        output_from_flag(&text("./templates"), &text("web")),
        PathAnswer::Relative(text("./templates/web"))
    );
}

#[test]
fn prompt_proposes_the_template_name() {
    assert_eq!(default_output(&text("./templates"), &text("web")), "./templates/web");
}

#[test]
fn accepted_proposal_is_used_as_it_stands() {
    assert_eq!(
        output_from_prompt(&text("./templates"), &text("web"), &text("./templates/web")),
        PathAnswer::Verbatim(text("./templates/web"))
    );
}

#[test]
fn other_answer_is_an_entry_of_the_templates_directory() {
    assert_eq!(
        output_from_prompt(&text("./templates"), &text("web"), &text("site")),
        PathAnswer::Relative(text("./templates/site"))
    );
    assert_eq!(
        output_from_prompt(&text("./templates"), &text("web"), &text("web")),
        PathAnswer::Relative(text("./templates/web"))
    );
}

#[test]
fn empty_source_stands_for_no_files() {
    assert_eq!(source_answer(&String::new()), PathAnswer::Verbatim(String::new()));
    assert_eq!(source_answer(&text("./src")), PathAnswer::Relative(text("./src")));
}

#[test]
fn verbatim_answers_settle_to_themselves() {
    assert_eq!(settle(PathAnswer::Verbatim(String::new())), Some(String::new()));
    assert_eq!(settle(PathAnswer::Verbatim(text("./templates/web"))), Some(text("./templates/web")));
}

#[test]
fn relative_answers_settle_to_absolute_paths() {
    assert_eq!(settle(PathAnswer::Relative(text("/srv/templates/web"))), Some(text("/srv/templates/web")));
    let settled = settle(PathAnswer::Relative(text("templates/web"))).unwrap();
    assert_eq!(settled, std::path::absolute("templates/web").unwrap().to_str().unwrap());
    assert!(settled.starts_with('/'));
    assert_ne!(settled, "templates/web");
    assert_eq!(settle(PathAnswer::Relative(String::new())), None);
}

#[test]
fn answers_become_a_project_config() {
    let made = template_config(
        text("web"),
        text("Ada"),
        text("2.0.0"),
        text("A web app"),
        true,
        vec![text("node_modules"), text("target")],
        vec![text("npm install")],
    );
    assert_eq!(
        made,
        CreatedTemplateConfig {
            target: text("project"),
            name: text("web"),
            author: text("Ada"),
            version: text("2.0.0"),
            description: text("A web app"),
            exclude_paths: vec![text("node_modules"), text("target")],
            scripts: vec![text("npm install")],
            exclude_config: true,
        }
    );
}
