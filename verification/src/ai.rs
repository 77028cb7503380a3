//! Asking the text service for the narrative of the day.
//!
//! The library writes the request and reads the reply; the caller carries
//! both over the network, once.

use vstd::prelude::*;
use vstd::string::*;
use crate::decimal::{decimal_string, decimal_text};
use crate::http::{is_success, status_is_success};
use crate::json::{
    json_element, json_element_text, json_member, json_member_text, json_string,
    json_string_content, json_string_literal, json_string_value,
};
use crate::models::{national_day_views, optional_text, DailyData, DailyDataView, NationalDayView};

verus! {

/// What the prompt says before the date.
pub const PROMPT_OPENING: &'static str = "Today's date is ";

/// What stands between the date and the names of the observances.
pub const PROMPT_DAYS_HEADING: &'static str =
    ". Below are today's national days and any special occasions to inspire your \
    message:  \n**National Days:** ";

/// What stands between the names of the observances and the note.
pub const PROMPT_OCCASIONS_HEADING: &'static str = "  \n**Special Occasions:** ";

/// What closes the facts.
pub const PROMPT_AFTER_FACTS: &'static str = "  \n\n";

/// Who the narrator is and what the task is.
pub const PROMPT_PERSONA: &'static str =
    "You are Sir Felix Whiskersworth, our family's distinguished black-and-white feline, \
    once simply Felix, now knighted for your charm and wisdom. Your task is to craft a \
    daily message that transforms today's national days and any special occasions (like \
    birthdays) into a single, captivating tale or reflection, as seen through your \
    sharp, cat-like eyes.  \n\n";

/// The heading of the guidance.
pub const PROMPT_GUIDE_HEADING: &'static str = "Here's how to make it purrfect:  \n";

/// One passage, not a list.
pub const PROMPT_GUIDE_STORY: &'static str =
    "- **Weave a Seamless Story:** Blend all the national days and special occasions \
    into one cohesive narrative or witty commentary. Avoid a mere list\u{2014}let each \
    element flow naturally into the next, as if you're stalking a thread of yarn \
    through the day.  \n";

/// The point of view.
pub const PROMPT_GUIDE_PERSPECTIVE: &'static str =
    "- **Feline Perspective:** Reflect on these human holidays and events with a cat's \
    curiosity, humor, or indifference. How might they connect to your world of napping, \
    hunting, or preening? Make it uniquely yours.  \n";

/// The tone.
pub const PROMPT_GUIDE_TONE: &'static str =
    "- **Tone:** Strike a balance between elegance (befitting your noble title) and \
    playfulness (true to your whiskered spirit). Be witty, charming, and a tad \
    mischievous, but never stiff or silly.  \n";

/// The course of the passage.
pub const PROMPT_GUIDE_STRUCTURE: &'static str =
    "- **Structure:** Begin with a feline observation about the day\u{2014}perhaps the \
    weather, a sunbeam, or a human's antics. Then, deftly tie in the national days and \
    special occasions, letting your thoughts pounce from one to the next. Conclude with \
    a clever, cat-inspired quip or a gracious farewell.  \n";

/// How many emojis, and no hashtags.
pub const PROMPT_GUIDE_EMOJIS: &'static str =
    "- **Emojis:** Sprinkle in 3\u{2013}5 relevant, humorous emojis to amplify your \
    personality (e.g., \u{1f43e} for paw prints, \u{1f638} for feline glee). No \
    hashtags allowed\u{2014}this isn't a social media chase!  \n\n";

/// How the passage ends, and how long it may be.
pub const PROMPT_SIGN_OFF: &'static str =
    "End your message with a dashing sign-off, such as \"Yours in whiskers and wisdom, \
    Sir Felix Whiskersworth,\" tailored to the day's mood. Keep it concise yet \
    rich\u{2014}think of it as a purrfectly groomed coat: sleek, shiny, and full of \
    character. Now, unleash your feline brilliance!";

/// What stands for the note where the day has none.
pub const NO_OCCASION: &'static str = "None";

/// The names of the observances, one per line: a line break between two
/// names, none before the first or after the last. Nothing for no observance.
pub open spec fn names_block(days: Seq<NationalDayView>) -> Seq<char>
    decreases days.len(),
{
    if days.len() == 0 {
        Seq::empty()
    } else if days.len() == 1 {
        days[0].name
    } else {
        names_block(days.drop_last()) + "\n"@ + days.last().name
    }
}

/// The note as the prompt shows it.
pub open spec fn occasion_line(note: Option<Seq<char>>) -> Seq<char> {
    match note {
        Some(text) => text,
        None => NO_OCCASION@,
    }
}

/// What the prompt asks of the service, the same every day.
pub open spec fn prompt_guidance() -> Seq<char> {
    PROMPT_PERSONA@ + PROMPT_GUIDE_HEADING@ + PROMPT_GUIDE_STORY@ + PROMPT_GUIDE_PERSPECTIVE@
        + PROMPT_GUIDE_TONE@ + PROMPT_GUIDE_STRUCTURE@ + PROMPT_GUIDE_EMOJIS@ + PROMPT_SIGN_OFF@
}

/// The prompt for a day: its display date, the names of its observances,
/// its note or the placeholder, then the guidance.
pub open spec fn prompt_text(data: DailyDataView) -> Seq<char> {
    PROMPT_OPENING@ + data.formatted_date + PROMPT_DAYS_HEADING@ + names_block(data.national_days)
        + PROMPT_OCCASIONS_HEADING@ + occasion_line(data.birthday) + PROMPT_AFTER_FACTS@
        + prompt_guidance()
}

/// Writes the prompt for a day.
pub fn build_prompt(daily_data: &DailyData) -> (prompt: String)
    ensures
        prompt@ == prompt_text(daily_data@),
{
    let ghost days = national_day_views(daily_data.national_days@);
    let mut prompt = String::from_str(PROMPT_OPENING);
    prompt.append(daily_data.formatted_date.as_str());
    prompt.append(PROMPT_DAYS_HEADING);
    let ghost head = prompt@;
    let count = daily_data.national_days.len();
    let mut i: usize = 0;
    assert(head + names_block(days.take(0)) =~= head);
    while i < count
        invariant
            i <= count,
            count == daily_data.national_days@.len(),
            days == national_day_views(daily_data.national_days@),
            prompt@ == head + names_block(days.take(i as int)),
        decreases count - i,
    {
        if i > 0 {
            prompt.append("\n");
        }
        prompt.append(daily_data.national_days[i].name.as_str());
        proof {
            let next = days.take(i + 1);
            assert(next.drop_last() =~= days.take(i as int));
            assert(next.last() == days[i as int]);
            assert(days[i as int].name == daily_data.national_days@[i as int].name@);
            assert(prompt@ =~= head + names_block(next));
        }
        i += 1;
    }
    assert(days.take(count as int) =~= days);
    match &daily_data.birthday {
        Some(note) => {
            prompt.append(PROMPT_OCCASIONS_HEADING);
            prompt.append(note.as_str());
        },
        None => {
            prompt.append(PROMPT_OCCASIONS_HEADING);
            prompt.append(NO_OCCASION);
        },
    }
    prompt.append(PROMPT_AFTER_FACTS);
    let ghost facts = prompt@;
    prompt.append(PROMPT_PERSONA);
    prompt.append(PROMPT_GUIDE_HEADING);
    prompt.append(PROMPT_GUIDE_STORY);
    prompt.append(PROMPT_GUIDE_PERSPECTIVE);
    prompt.append(PROMPT_GUIDE_TONE);
    prompt.append(PROMPT_GUIDE_STRUCTURE);
    prompt.append(PROMPT_GUIDE_EMOJIS);
    prompt.append(PROMPT_SIGN_OFF);
    assert(prompt@ =~= facts + prompt_guidance());
    assert(prompt@ =~= prompt_text(daily_data@));
    prompt
}

/// The body of the request to the text service around two JSON string
/// literals: a JSON object with the bound on the output, one message of the
/// user that holds the prompt, and the model, its members in this order.
pub open spec fn framed_request(
    model_literal: Seq<char>,
    prompt_literal: Seq<char>,
    max_tokens: nat,
) -> Seq<char> {
    "{\"max_tokens\":"@ + decimal_text(max_tokens) + ",\"messages\":[{\"content\":"@
        + prompt_literal + ",\"role\":\"user\"}],\"model\":"@ + model_literal + "}"@
}

/// The body of the request to the text service.
pub open spec fn narrative_request_text(model: Seq<char>, prompt: Seq<char>, max_tokens: nat) -> Seq<
    char,
> {
    framed_request(json_string_literal(model), json_string_literal(prompt), max_tokens)
}

/// Writes the body of the request to the text service around the model and
/// the prompt, both given as JSON string literals.
pub fn frame_narrative_request(model_literal: &str, prompt_literal: &str, max_tokens: u64) -> (body:
    String)
    ensures
        body@ == framed_request(model_literal@, prompt_literal@, max_tokens as nat),
{
    let mut body = String::from_str("{\"max_tokens\":");
    body.append(decimal_string(max_tokens).as_str());
    body.append(",\"messages\":[{\"content\":");
    body.append(prompt_literal);
    body.append(",\"role\":\"user\"}],\"model\":");
    body.append(model_literal);
    body.append("}");
    body
}

/// Writes the body of the request to the text service.
pub fn narrative_request(model: &str, prompt: &str, max_tokens: u64) -> (body: String)
    ensures
        body@ == narrative_request_text(model@, prompt@, max_tokens as nat),
{
    let model_literal = json_string(model);
    let prompt_literal = json_string(prompt);
    frame_narrative_request(model_literal.as_str(), prompt_literal.as_str(), max_tokens)
}

/// What came of the one call to the text service.
#[derive(Debug, PartialEq, Eq)]
pub enum ServiceReply {
    /// The request did not get through; the text says why.
    Unreachable(String),
    /// The service answered with this status and this body.
    Answered { status: u16, body: String },
}

/// Mathematical value of a [`ServiceReply`].
pub enum ServiceReplyView {
    Unreachable(Seq<char>),
    Answered { status: nat, body: Seq<char> },
}

impl View for ServiceReply {
    type V = ServiceReplyView;

    open spec fn view(&self) -> ServiceReplyView {
        match self {
            ServiceReply::Unreachable(reason) => ServiceReplyView::Unreachable(reason@),
            ServiceReply::Answered { status, body } => ServiceReplyView::Answered {
                status: *status as nat,
                body: body@,
            },
        }
    }
}

/// Why no narrative was had.
#[derive(Debug, PartialEq, Eq)]
pub enum NarrativeError {
    /// The call failed: the request did not get through, and the text says
    /// why, or the service answered with a status outside 200..=299, and the
    /// text is the body of its answer.
    ServiceRequest(String),
    /// The service answered with success, but its answer holds no text where
    /// the narrative should be.
    ServiceResponse,
}

/// Mathematical value of a [`NarrativeError`].
pub enum NarrativeErrorView {
    ServiceRequest(Seq<char>),
    ServiceResponse,
}

impl View for NarrativeError {
    type V = NarrativeErrorView;

    open spec fn view(&self) -> NarrativeErrorView {
        match self {
            NarrativeError::ServiceRequest(reason) => NarrativeErrorView::ServiceRequest(reason@),
            NarrativeError::ServiceResponse => NarrativeErrorView::ServiceResponse,
        }
    }
}

/// The narrative in the body of an answer: the string at `content[0].text`.
pub open spec fn narrative_field(body: Seq<char>) -> Option<Seq<char>> {
    match json_member_text(body, "content"@) {
        Some(content) => match json_element_text(content, 0) {
            Some(first) => match json_member_text(first, "text"@) {
                Some(text) => json_string_content(text),
                None => None,
            },
            None => None,
        },
        None => None,
    }
}

/// What a reply of the service amounts to, given the narrative found in
/// its body: a request that did not get through fails with its reason, a
/// status outside 200 to 299 fails with the body, a success without a
/// narrative fails as a bad answer, and a success with one gives it.
pub open spec fn reply_outcome(reply: ServiceReplyView, field: Option<Seq<char>>) -> Result<
    Seq<char>,
    NarrativeErrorView,
> {
    match reply {
        ServiceReplyView::Unreachable(reason) => Err(NarrativeErrorView::ServiceRequest(reason)),
        ServiceReplyView::Answered { status, body } => if !is_success(status) {
            Err(NarrativeErrorView::ServiceRequest(body))
        } else {
            match field {
                Some(text) => Ok(text),
                None => Err(NarrativeErrorView::ServiceResponse),
            }
        },
    }
}

/// The body of a reply, where it has one.
pub open spec fn reply_body(reply: ServiceReplyView) -> Seq<char> {
    match reply {
        ServiceReplyView::Unreachable(_) => Seq::empty(),
        ServiceReplyView::Answered { status, body } => body,
    }
}

/// What a reply of the service amounts to.
pub open spec fn narrative_of_reply(reply: ServiceReplyView) -> Result<
    Seq<char>,
    NarrativeErrorView,
> {
    reply_outcome(reply, narrative_field(reply_body(reply)))
}

/// The view of the result of [`generate_llm_message`].
pub open spec fn narrative_result_view(result: Result<String, NarrativeError>) -> Result<
    Seq<char>,
    NarrativeErrorView,
> {
    match result {
        Ok(text) => Ok(text@),
        Err(error) => Err(error@),
    }
}

/// Reads the narrative out of the body of an answer.
pub fn extract_narrative(body: &str) -> (narrative: Option<String>)
    ensures
        match narrative {
            Some(text) => narrative_field(body@) == Some(text@),
            None => narrative_field(body@) is None,
        },
{
    match json_member(body, "content") {
        Some(content) => match json_element(content.as_str(), 0) {
            Some(first) => match json_member(first.as_str(), "text") {
                Some(text) => json_string_value(text.as_str()),
                None => None,
            },
            None => None,
        },
        None => None,
    }
}

/// Decides what a reply of the service amounts to, given the narrative
/// found in its body.
pub fn narrative_from_field(reply: &ServiceReply, field: Option<String>) -> (result: Result<
    String,
    NarrativeError,
>)
    ensures
        narrative_result_view(result) == reply_outcome(reply@, optional_text(field)),
{
    match reply {
        ServiceReply::Unreachable(reason) => Err(NarrativeError::ServiceRequest(reason.clone())),
        ServiceReply::Answered { status, body } => {
            if !status_is_success(*status) {
                Err(NarrativeError::ServiceRequest(body.clone()))
            } else {
                match field {
                    Some(text) => Ok(text),
                    None => Err(NarrativeError::ServiceResponse),
                }
            }
        },
    }
}

/// Turns the reply of the text service into the narrative of the day, or
/// into the reason why there is none.
pub fn generate_llm_message(reply: &ServiceReply) -> (result: Result<String, NarrativeError>)
    ensures
        narrative_result_view(result) == narrative_of_reply(reply@),
{
    let field = match reply {
        ServiceReply::Unreachable(_) => None,
        ServiceReply::Answered { status, body } => {
            if status_is_success(*status) {
                extract_narrative(body.as_str())
            } else {
                None
            }
        },
    };
    let result = narrative_from_field(reply, field);
    assert(reply_outcome(reply@, optional_text(field)) == narrative_of_reply(reply@));
    result
}

} // verus!
