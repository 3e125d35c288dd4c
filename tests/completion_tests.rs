use cmdgen::completion::{
    key_file_path, masked_key, raw_completion, CompletionError, CompletionRequest, MODEL,
    SYSTEM_PROMPT,
};

#[test]
fn request_for_action() {
    let r = CompletionRequest::for_action("list files".to_string());
    assert_eq!(r.model, "gpt-4o-mini");
    assert_eq!(r.model, MODEL);
    assert_eq!(r.system, SYSTEM_PROMPT);
    assert_eq!(r.user, "list files");
}

#[test]
fn first_choice_is_taken() {
    let choices = vec![Some("```\nls\n```".to_string()), Some("pwd".to_string())];
    assert_eq!(raw_completion(&choices), Ok("```\nls\n```".to_string()));
}

#[test]
fn first_choice_without_text_is_empty() {
    let choices = vec![None, Some("pwd".to_string())];
    assert_eq!(raw_completion(&choices), Ok(String::new()));
}

#[test]
fn no_choices_is_an_error() {
    assert_eq!(raw_completion(&Vec::new()), Err(CompletionError::NoChoices));
}

#[test]
fn key_path_under_home() {
    assert_eq!(key_file_path("/home/ann"), "/home/ann/.cmd.config");
}

#[test]
fn masked_key_has_one_star_per_char() {
    assert_eq!(masked_key(5), "*****");
    assert_eq!(masked_key(0), "");
}
