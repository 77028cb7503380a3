use felix_bot::ai::{
    build_prompt, extract_narrative, frame_narrative_request, generate_llm_message,
    narrative_from_field, narrative_request, NarrativeError, ServiceReply,
};
use felix_bot::config::MAX_OUTPUT_TOKENS;
use felix_bot::models::{DailyData, NationalDay};

const GUIDANCE: &str = "  \n\nYou are Sir Felix Whiskersworth, our family's distinguished black-and-white feline, once simply Felix, now knighted for your charm and wisdom. Your task is to craft a daily message that transforms today's national days and any special occasions (like birthdays) into a single, captivating tale or reflection, as seen through your sharp, cat-like eyes.  \n\nHere's how to make it purrfect:  \n- **Weave a Seamless Story:** Blend all the national days and special occasions into one cohesive narrative or witty commentary. Avoid a mere list—let each element flow naturally into the next, as if you're stalking a thread of yarn through the day.  \n- **Feline Perspective:** Reflect on these human holidays and events with a cat's curiosity, humor, or indifference. How might they connect to your world of napping, hunting, or preening? Make it uniquely yours.  \n- **Tone:** Strike a balance between elegance (befitting your noble title) and playfulness (true to your whiskered spirit). Be witty, charming, and a tad mischievous, but never stiff or silly.  \n- **Structure:** Begin with a feline observation about the day—perhaps the weather, a sunbeam, or a human's antics. Then, deftly tie in the national days and special occasions, letting your thoughts pounce from one to the next. Conclude with a clever, cat-inspired quip or a gracious farewell.  \n- **Emojis:** Sprinkle in 3–5 relevant, humorous emojis to amplify your personality (e.g., 🐾 for paw prints, 😸 for feline glee). No hashtags allowed—this isn't a social media chase!  \n\nEnd your message with a dashing sign-off, such as \"Yours in whiskers and wisdom, Sir Felix Whiskersworth,\" tailored to the day's mood. Keep it concise yet rich—think of it as a purrfectly groomed coat: sleek, shiny, and full of character. Now, unleash your feline brilliance!";

fn facts(names: &[&str], birthday: Option<&str>) -> DailyData {
    DailyData {
        date_str: "2025-02-04".to_string(),
        formatted_date: "Tuesday, February 4, 2025".to_string(),
        national_days: names
            .iter()
            .map(|name| NationalDay { name: name.to_string(), url: format!("/{}", name) })
            .collect(),
        birthday: birthday.map(str::to_string),
    }
}

fn answered(status: u16, body: &str) -> ServiceReply {
    ServiceReply::Answered { status, body: body.to_string() }
}

#[test]
fn prompt_holds_every_fact() {
    let prompt = build_prompt(&facts(&["Pancake Day", "Kite Day"], Some("Ada turns 9")));
    let expected = format!(
        "Today's date is Tuesday, February 4, 2025. Below are today's national days and any special occasions to inspire your message:  \n**National Days:** Pancake Day\nKite Day  \n**Special Occasions:** Ada turns 9{}",
        GUIDANCE
    );
    assert_eq!(prompt, expected);
}

#[test]
fn prompt_of_a_day_without_facts() {
    let prompt = build_prompt(&facts(&[], None));
    let expected = format!(
        "Today's date is Tuesday, February 4, 2025. Below are today's national days and any special occasions to inspire your message:  \n**National Days:**   \n**Special Occasions:** None{}",
        GUIDANCE
    );
    assert_eq!(prompt, expected);
}

#[test]
fn prompt_with_one_observance_has_no_line_break_among_the_names() {
    let prompt = build_prompt(&facts(&["Kite Day"], None));
    assert!(prompt.contains("**National Days:** Kite Day  \n**Special Occasions:** None  \n\nYou are Sir Felix"));
    assert!(prompt.ends_with("Now, unleash your feline brilliance!"));
}

#[test]
fn prompt_asks_for_few_emojis_and_no_hashtags() {
    let prompt = build_prompt(&facts(&[], None));
    assert!(prompt.contains("Sprinkle in 3\u{2013}5 relevant, humorous emojis"));
    assert!(prompt.contains("No hashtags allowed"));
    assert!(prompt.contains("such as \"Yours in whiskers and wisdom, Sir Felix Whiskersworth,\""));
}

#[test]
fn request_is_what_a_json_writer_writes() {
    let prompt = "Line one\nwith \"quotes\", a \\ and a paw \u{1f43e}";
    let body = narrative_request("some-model", prompt, MAX_OUTPUT_TOKENS);
    let mut message = serde_json::Map::new();
    message.insert("role".to_string(), serde_json::Value::from("user"));
    message.insert("content".to_string(), serde_json::Value::from(prompt));
    let mut request = serde_json::Map::new();
    request.insert("model".to_string(), serde_json::Value::from("some-model"));
    request.insert(
        "messages".to_string(),
        serde_json::Value::Array(vec![serde_json::Value::Object(message)]),
    );
    request.insert("max_tokens".to_string(), serde_json::Value::from(1000));
    let parsed: serde_json::Value = serde_json::from_str(&body).unwrap();
    assert_eq!(parsed, serde_json::Value::Object(request));
    assert_eq!(parsed["messages"][0]["content"].as_str(), Some(prompt));
}

#[test]
fn request_text_is_exact() {
    assert_eq!(
        narrative_request("m", "say \"hi\"\n", 1000),
        "{\"max_tokens\":1000,\"messages\":[{\"content\":\"say \\\"hi\\\"\\n\",\"role\":\"user\"}],\"model\":\"m\"}"
    );
    assert_eq!(
        frame_narrative_request("\"m\"", "\"p\"", 7),
        "{\"max_tokens\":7,\"messages\":[{\"content\":\"p\",\"role\":\"user\"}],\"model\":\"m\"}"
    );
}

#[test]
fn narrative_is_read_from_the_first_content_block() {
    let body = "{\"id\":\"msg_1\",\"content\":[{\"type\":\"text\",\"text\":\"Purr \\\"indeed\\\" \u{1f43e}\\n\\nYours, Felix\"},{\"type\":\"text\",\"text\":\"second\"}]}";
    assert_eq!(
        generate_llm_message(&answered(200, body)),
        Ok("Purr \"indeed\" \u{1f43e}\n\nYours, Felix".to_string())
    );
    assert_eq!(
        extract_narrative(body),
        Some("Purr \"indeed\" \u{1f43e}\n\nYours, Felix".to_string())
    );
}

#[test]
fn answer_without_narrative_is_a_bad_answer() {
    let bodies = [
        "{}",
        "{\"content\":[]}",
        "{\"content\":{}}",
        "{\"content\":{\"0\":{\"text\":\"no array\"}}}",
        "{\"content\":[{\"type\":\"text\"}]}",
        "{\"content\":[{\"text\":5}]}",
        "{\"content\":[{\"text\":null}]}",
        "{\"content\":[[\"text\"]]}",
        "[{\"text\":\"top level array\"}]",
        "\"just a string\"",
        "no json at all",
        "",
    ];
    for body in bodies {
        assert_eq!(extract_narrative(body), None, "body {}", body);
        assert_eq!(
            generate_llm_message(&answered(200, body)),
            Err(NarrativeError::ServiceResponse),
            "body {}",
            body
        );
    }
}

#[test]
fn failure_status_carries_the_body() {
    let body = "{\"content\":[{\"text\":\"ignored\"}],\"error\":\"overloaded\"}";
    for status in [0, 100, 199, 300, 302, 400, 401, 429, 500, 529, u16::MAX] {
        assert_eq!(
            generate_llm_message(&answered(status, body)),
            Err(NarrativeError::ServiceRequest(body.to_string())),
            "status {}",
            status
        );
    }
}

#[test]
fn every_success_status_is_read() {
    let body = "{\"content\":[{\"text\":\"ok\"}]}";
    for status in [200, 201, 204, 299] {
        assert_eq!(generate_llm_message(&answered(status, body)), Ok("ok".to_string()), "status {}", status);
    }
}

#[test]
fn unreachable_service_is_a_failed_request() {
    assert_eq!(
        generate_llm_message(&ServiceReply::Unreachable("connection refused".to_string())),
        Err(NarrativeError::ServiceRequest("connection refused".to_string()))
    );
}

#[test]
fn outcome_for_each_kind_of_reply() {
    let unreachable = ServiceReply::Unreachable("timed out".to_string());
    assert_eq!(
        narrative_from_field(&unreachable, Some("text".to_string())),
        Err(NarrativeError::ServiceRequest("timed out".to_string()))
    );
    assert_eq!(
        narrative_from_field(&answered(503, "busy"), Some("text".to_string())),
        Err(NarrativeError::ServiceRequest("busy".to_string()))
    );
    assert_eq!(narrative_from_field(&answered(200, "{}"), None), Err(NarrativeError::ServiceResponse));
    assert_eq!(
        narrative_from_field(&answered(200, "{}"), Some("text".to_string())),
        Ok("text".to_string())
    );
}

#[test]
fn empty_narrative_is_a_narrative() {
    assert_eq!(
        generate_llm_message(&answered(200, "{\"content\":[{\"text\":\"\"}]}")),
        Ok(String::new())
    );
}
