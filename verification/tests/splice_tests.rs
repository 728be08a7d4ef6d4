use rag_rust::rag_proxy::splice::{
    context_block, find_messages_list, inject_context, splice_context, to_json_literal,
};
use serde_json::Value;

const HEADING: &str = "--- Context from: RAG ---\n";

fn chars(text: &str) -> Vec<char> {
    text.chars().collect()
}

fn text(value: &str) -> Value {
    Value::String(value.to_string())
}

/// What the payload should read as after the context went in: the block
/// behind the text of the latest system message, or a new system message in
/// front where no system message has a text.
fn expected(raw: &str, context: &str) -> Value {
    let mut document: Value = serde_json::from_str(raw).unwrap();
    let block = format!("{}{}", HEADING, context);
    let list = document.get_mut("messages").and_then(|m| m.as_array_mut()).unwrap();
    let latest = list
        .iter()
        .rposition(|m| m.get("role").and_then(|r| r.as_str()) == Some("system"));
    let target = latest.and_then(|at| match list[at].get("content") {
        Some(Value::String(_)) => Some(at),
        _ => None,
    });
    match target {
        Some(at) => {
            let old = list[at]["content"].as_str().unwrap().to_string();
            list[at]["content"] = Value::String(format!("{}{}", old, block));
        }
        None => {
            let mut message = serde_json::Map::new();
            message.insert("role".to_string(), text("system"));
            message.insert("content".to_string(), Value::String(block));
            list.insert(0, Value::Object(message));
        }
    }
    document
}

fn check(raw: &str, context: &str) -> String {
    let out = inject_context(raw, context);
    let read: Value = serde_json::from_str(&out).unwrap();
    assert_eq!(read, expected(raw, context), "{}", raw);
    out
}

#[test]
fn the_context_block_has_a_heading() {
    assert_eq!(context_block("Paris."), "--- Context from: RAG ---\nParis.");
}

#[test]
fn the_context_goes_behind_the_system_message() {
    let raw = r#"{"model":"m", "messages":[{"role":"system","content":"You are helpful."}],  "stream":false}"#;
    let out = check(raw, "Paris is the capital of France.");
    assert_eq!(
        out,
        r#"{"model":"m", "messages":[{"role":"system","content":"You are helpful.--- Context from: RAG ---\nParis is the capital of France."}],  "stream":false}"#
    );
}

#[test]
fn the_context_is_escaped_for_json() {
    let raw = r#"{"messages":[{"role":"system","content":"Rules."}]}"#;
    let out = check(raw, "say \"hi\"\\\tnow\u{1}");
    let value: Value = serde_json::from_str(&out).unwrap();
    assert_eq!(
        value["messages"][0]["content"],
        text("Rules.--- Context from: RAG ---\nsay \"hi\"\\\tnow\u{1}")
    );
}

#[test]
fn a_user_message_with_the_same_words_is_left_alone() {
    let raw = r#"{"messages":[{"role":"user","content":"be helpful."},{"role":"system","content":"You are helpful."}]}"#;
    assert_eq!(
        check(raw, "ctx"),
        r#"{"messages":[{"role":"user","content":"be helpful."},{"role":"system","content":"You are helpful.--- Context from: RAG ---\nctx"}]}"#
    );
}

#[test]
fn only_the_latest_system_message_gets_the_block() {
    let raw = r#"{"messages":[{"role":"system","content":"A. Be brief."},{"role":"user","content":"q"},{"role":"system","content":"Be brief."}]}"#;
    assert_eq!(
        check(raw, "ctx"),
        r#"{"messages":[{"role":"system","content":"A. Be brief."},{"role":"user","content":"q"},{"role":"system","content":"Be brief.--- Context from: RAG ---\nctx"}]}"#
    );
    let raw = r#"{"messages":[{"role":"system","content":"first"},{"role":"system","content":"second"},{"role":"user","content":"second"}]}"#;
    assert_eq!(
        check(raw, "ctx"),
        r#"{"messages":[{"role":"system","content":"first"},{"role":"system","content":"second--- Context from: RAG ---\nctx"},{"role":"user","content":"second"}]}"#
    );
}

#[test]
fn a_list_of_that_name_inside_another_object_is_passed_over() {
    let raw = r#"{"meta":{"messages":[]},"messages":[{"role":"user","content":"q"}]}"#;
    assert_eq!(
        check(raw, "ctx"),
        r#"{"meta":{"messages":[]},"messages":[{"role":"system","content":"--- Context from: RAG ---\nctx"},{"role":"user","content":"q"}]}"#
    );
    let raw = r#"{"tools":[{"messages":[{"role":"system","content":"inner"}]}],"messages":[{"role":"system","content":"outer"}]}"#;
    assert_eq!(
        check(raw, "ctx"),
        r#"{"tools":[{"messages":[{"role":"system","content":"inner"}]}],"messages":[{"role":"system","content":"outer--- Context from: RAG ---\nctx"}]}"#
    );
}

#[test]
fn escapes_at_the_end_of_the_system_text_do_not_hide_it() {
    let raw = r#"{"messages":[{"role":"system","content":"Be brief.\n"}]}"#;
    assert_eq!(
        check(raw, "ctx"),
        r#"{"messages":[{"role":"system","content":"Be brief.\n--- Context from: RAG ---\nctx"}]}"#
    );
    let raw = r#"{"messages":[{"role":"system","content":"say \"hi\""}]}"#;
    assert_eq!(
        check(raw, "ctx"),
        r#"{"messages":[{"role":"system","content":"say \"hi\"--- Context from: RAG ---\nctx"}]}"#
    );
    let raw = r#"{"messages":[{"role":"system","content":"a backslash \\"}]}"#;
    assert_eq!(
        check(raw, "ctx"),
        r#"{"messages":[{"role":"system","content":"a backslash \\--- Context from: RAG ---\nctx"}]}"#
    );
}

#[test]
fn an_empty_system_text_gets_the_block() {
    let raw = r#"{"messages":[{"role":"system","content":""}]}"#;
    assert_eq!(
        check(raw, "ctx"),
        r#"{"messages":[{"role":"system","content":"--- Context from: RAG ---\nctx"}]}"#
    );
}

#[test]
fn brackets_and_names_inside_strings_are_text() {
    let raw = r#"{"note":"\"messages\":[ ] } {","messages":[{"role":"user","content":"] } \"role\":\"system\""},{"role":"system","content":"x [ { y"}]}"#;
    assert_eq!(
        check(raw, "ctx"),
        r#"{"note":"\"messages\":[ ] } {","messages":[{"role":"user","content":"] } \"role\":\"system\""},{"role":"system","content":"x [ { y--- Context from: RAG ---\nctx"}]}"#
    );
}

#[test]
fn members_of_an_object_inside_a_message_are_not_the_messages() {
    let raw = r#"{"messages":[{"role":"user","meta":{"role":"system","content":"inner"},"content":"q"}]}"#;
    assert_eq!(
        check(raw, "ctx"),
        r#"{"messages":[{"role":"system","content":"--- Context from: RAG ---\nctx"},{"role":"user","meta":{"role":"system","content":"inner"},"content":"q"}]}"#
    );
    let raw = r#"{"messages":[{"meta":{"role":"user","content":"inner"},"content":"sys","role":"system"}]}"#;
    assert_eq!(
        check(raw, "ctx"),
        r#"{"messages":[{"meta":{"role":"user","content":"inner"},"content":"sys--- Context from: RAG ---\nctx","role":"system"}]}"#
    );
}

#[test]
fn the_order_of_the_members_does_not_matter() {
    let raw = r#"{"messages":[{"content":"sys","role":"system"},{"content":"q","role":"user"}],"model":"m"}"#;
    assert_eq!(
        check(raw, "ctx"),
        r#"{"messages":[{"content":"sys--- Context from: RAG ---\nctx","role":"system"},{"content":"q","role":"user"}],"model":"m"}"#
    );
}

#[test]
fn white_space_is_kept_as_it_is() {
    let raw = "{\n  \"model\": \"m\",\n  \"messages\" \t:\r\n  [\n    {\n      \"role\" : \"system\",\n      \"content\" :\n        \"You are helpful.\"\n    },\n    {\"role\": \"user\", \"content\": \"q\"}\n  ]\n}\n";
    let out = check(raw, "ctx");
    assert_eq!(
        out,
        raw.replace("You are helpful.\"", "You are helpful.--- Context from: RAG ---\\nctx\"")
    );
}

#[test]
fn without_a_system_message_one_is_put_in_front() {
    let raw = r#"{"model":"m","messages":[{"role":"user","content":"Where is Paris?"}]}"#;
    assert_eq!(
        check(raw, "In France."),
        r#"{"model":"m","messages":[{"role":"system","content":"--- Context from: RAG ---\nIn France."},{"role":"user","content":"Where is Paris?"}]}"#
    );
    let raw = r#"{ "model" : "m", "messages" : [ {"role": "user", "content": "q"} ] }"#;
    assert_eq!(
        check(raw, "c"),
        r#"{ "model" : "m", "messages" : [{"role":"system","content":"--- Context from: RAG ---\nc"}, {"role": "user", "content": "q"} ] }"#
    );
}

#[test]
fn a_system_message_is_put_into_an_empty_list_without_a_comma() {
    let raw = "{\"messages\":[ \n]}";
    assert_eq!(
        check(raw, "ctx"),
        "{\"messages\":[{\"role\":\"system\",\"content\":\"--- Context from: RAG ---\\nctx\"} \n]}"
    );
}

#[test]
fn a_system_message_without_a_text_gets_a_message_in_front() {
    let raw = r#"{"messages":[{"role":"system","content":[{"type":"text","text":"rules"}]},{"role":"user","content":"q"}]}"#;
    assert_eq!(
        check(raw, "ctx"),
        r#"{"messages":[{"role":"system","content":"--- Context from: RAG ---\nctx"},{"role":"system","content":[{"type":"text","text":"rules"}]},{"role":"user","content":"q"}]}"#
    );
    let raw = r#"{"messages":[{"role":"system","content":"old"},{"role":"system"}]}"#;
    assert_eq!(
        check(raw, "ctx"),
        r#"{"messages":[{"role":"system","content":"--- Context from: RAG ---\nctx"},{"role":"system","content":"old"},{"role":"system"}]}"#
    );
}

#[test]
fn a_member_of_that_name_that_is_no_list_is_passed_over() {
    let raw = r#"{"messages":"none"}"#;
    assert_eq!(inject_context(raw, "ctx"), raw);
    let raw = r#"{"messages":{"role":"user"}}"#;
    assert_eq!(inject_context(raw, "ctx"), raw);
}

#[test]
fn a_payload_without_a_list_of_messages_stays_as_it_is() {
    for raw in ["", "{}", r#"{"model":"m","prompt":"q"}"#, "\"messages\":[", "[1, 2]", "{\"messages\""] {
        assert_eq!(inject_context(raw, "ctx"), raw);
    }
}

#[test]
fn an_empty_context_leaves_the_payload_as_it_is() {
    let raw = r#"{"messages":[{"role":"system","content":"You are helpful."}]}"#;
    assert_eq!(inject_context(raw, ""), raw);
}

#[test]
fn text_that_is_no_ascii_is_kept() {
    let raw = r#"{"messages":[{"role":"user","content":"Où est Paris ?"},{"role":"system","content":"Réponds en français — «bref»."}]}"#;
    assert_eq!(
        check(raw, "À l’ouest"),
        r#"{"messages":[{"role":"user","content":"Où est Paris ?"},{"role":"system","content":"Réponds en français — «bref».--- Context from: RAG ---\nÀ l’ouest"}]}"#
    );
}

#[test]
fn splicing_takes_the_literal_as_it_is_given() {
    let raw = r#"{"messages":[{"role":"system","content":"abc"}]}"#;
    assert_eq!(
        splice_context(raw, "\"XYZ\""),
        r#"{"messages":[{"role":"system","content":"abcXYZ"}]}"#
    );
    assert_eq!(splice_context(raw, "XYZ"), raw);
    assert_eq!(splice_context(raw, "\""), raw);
    assert_eq!(splice_context(raw, "\"\""), raw);
    let raw = r#"{"messages":[]}"#;
    assert_eq!(
        splice_context(raw, "\"XYZ\""),
        r#"{"messages":[{"role":"system","content":"XYZ"}]}"#
    );
}

#[test]
fn the_list_of_messages_is_found_behind_its_bracket() {
    assert_eq!(find_messages_list(&chars(r#"{"messages":[]}"#)), Some(13));
    assert_eq!(find_messages_list(&chars(r#"{"messages" : []}"#)), Some(15));
    assert_eq!(find_messages_list(&chars(r#"{"messages":1,"messages":[]}"#)), Some(26));
    assert_eq!(find_messages_list(&chars(r#"{"a":{"messages":[]},"messages":[]}"#)), Some(33));
    assert_eq!(find_messages_list(&chars(r#"{"a":"\"messages\":[","messages":[]}"#)), Some(34));
    assert_eq!(find_messages_list(&chars(r#"{"a":{"messages":[]}}"#)), None);
    assert_eq!(find_messages_list(&chars(r#"{"messages":"#)), None);
    assert_eq!(find_messages_list(&chars(r#"{"message":[]}"#)), None);
    assert_eq!(find_messages_list(&chars(r#"["messages":[]]"#)), Some(13));
    assert_eq!(find_messages_list(&chars(r#""messages":[]"#)), None);
    assert_eq!(find_messages_list(&chars("")), None);
}

#[test]
fn payloads_read_as_they_should_after_the_context_went_in() {
    let payloads = [
        r#"{"messages":[]}"#,
        r#"{"messages":[{"role":"system","content":"s"}]}"#,
        r#"{"messages":[{"role":"user","content":"u"},{"role":"assistant","content":"a"}]}"#,
        r#"{"messages":[{"role":"system","content":"one"},{"role":"user","content":"two"},{"role":"system","content":"three"},{"role":"user","content":"three"}]}"#,
        r#"{"x":[1,[2,{"messages":[3]}]],"messages":[{"role":"system","content":"s\\"},{"role":"user","content":[{"type":"text","text":"t"}]}],"y":{"messages":[]}}"#,
        r#"{"messages":[{"role":"system","content":"tab\there","name":"n"},{"role":"tool","content":null}]}"#,
        r#"{"messages":[{"role":"system","content":null},{"role":"user","content":"q"}]}"#,
        r#"{"messages":[{"content":"c","role":"sys\u0074em"}]}"#,
        r#"{"messages":[{"role":"system","role2":"user","content":"c","content2":"d"}]}"#,
    ];
    for raw in payloads {
        for context in ["c", "two\nlines", "quote \" and \\ backslash", "é"] {
            if raw.contains("sys\\u0074em") {
                let out = inject_context(raw, context);
                let read: Value = serde_json::from_str(&out).unwrap();
                assert_eq!(read["messages"].as_array().unwrap().len(), 2);
                assert_eq!(read["messages"][1]["content"], text("c"));
            } else {
                check(raw, context);
            }
        }
    }
}

#[test]
fn literals_are_written_as_json_writes_them() {
    assert_eq!(to_json_literal(""), "\"\"");
    assert_eq!(to_json_literal("plain"), "\"plain\"");
    assert_eq!(
        to_json_literal("q\" b\\ \u{8}\t\n\u{c}\r \u{0}\u{1f}\u{7f} é/"),
        "\"q\\\" b\\\\ \\b\\t\\n\\f\\r \\u0000\\u001f\u{7f} é/\""
    );
    for code in 0..=0x10ffffu32 {
        if let Some(c) = char::from_u32(code) {
            let text = c.to_string();
            assert_eq!(to_json_literal(&text), serde_json::to_string(&text).unwrap(), "U+{:04X}", code);
        }
    }
    for text in ["two\nlines", "a\"b\\c", "\u{1}\u{2}x\u{1e}", "🦀 ünïcödé"] {
        let literal = to_json_literal(text);
        assert_eq!(literal, serde_json::to_string(text).unwrap());
        assert_eq!(serde_json::from_str::<String>(&literal).unwrap(), text);
    }
}
