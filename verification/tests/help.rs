use boxlib::help::render_config_help;

#[test]
fn help_lists_doc_then_name() {
    let names = vec!["name".to_string(), "image".to_string()];
    let docs = vec![Some("Name of the configuration".to_string()), None];
    assert_eq!(
        render_config_help(&names, &docs),
        "Name of the configuration\nname\n\n??\nimage\n\n"
    );
}

#[test]
fn help_empty() {
    assert_eq!(render_config_help(&Vec::new(), &Vec::new()), "");
}
