use route_prompter::sanitize::clean_json_response;

#[test]
fn removes_escaped_newline() {
    assert_eq!(clean_json_response("a\\nb"), "ab");
}

#[test]
fn removes_newline_characters() {
    assert_eq!(clean_json_response("a\nb\nc"), "abc");
}

#[test]
fn unescapes_quotes() {
    assert_eq!(clean_json_response("a\\\"b\\\"c"), "a\"b\"c");
}

#[test]
fn removes_fence_json_everywhere() {
    assert_eq!(clean_json_response("```json{}```"), "{}");
    assert_eq!(clean_json_response("a```json b``` c"), "a b c");
    assert_eq!(clean_json_response("x```jsony"), "xy");
}

#[test]
fn removes_fences_at_any_position() {
    assert_eq!(clean_json_response("```x```y```"), "xy");
    assert_eq!(clean_json_response("start``` middle ```end"), "start middle end");
}

#[test]
fn empty_input_stays_empty() {
    assert_eq!(clean_json_response(""), "");
}

#[test]
fn backtick_runs_lose_whole_fences_only() {
    assert_eq!(clean_json_response("`````"), "``");
    assert_eq!(clean_json_response("``````"), "");
    assert_eq!(clean_json_response("``"), "``");
}

#[test]
fn passes_run_once_each_in_order() {
    // Dropping a fence can form a backslash-n, but the backslash-n pass has
    // already run: a single pass per pattern, in the fixed order.
    assert_eq!(clean_json_response("\\```n"), "\\n");
}

#[test]
fn idempotent_on_pattern_free_input() {
    let once = clean_json_response("{ok:true}");
    let twice = clean_json_response(&once);
    assert_eq!(once, "{ok:true}");
    assert_eq!(twice, once);
}

#[test]
fn idempotent_on_own_output_of_clean_text() {
    let input = "already clean text with no markers";
    assert_eq!(clean_json_response(input), input);
    assert_eq!(clean_json_response(&clean_json_response(input)), clean_json_response(input));
}

#[test]
fn placeholder_text_is_unchanged() {
    assert_eq!(clean_json_response("No content"), "No content");
}

#[test]
fn typical_fenced_reply_is_unwrapped() {
    assert_eq!(clean_json_response("```json\n{\"ok\":true}\n```"), "{\"ok\":true}");
}
