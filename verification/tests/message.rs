use felix_bot::discord::build_message;
use felix_bot::models::{DailyData, NationalDay};

fn day(name: &str, url: &str) -> NationalDay {
    NationalDay { name: name.to_string(), url: url.to_string() }
}

fn facts(days: Vec<NationalDay>, birthday: Option<&str>) -> DailyData {
    DailyData {
        date_str: "2025-02-04".to_string(),
        formatted_date: "Tuesday, February 4, 2025".to_string(),
        national_days: days,
        birthday: birthday.map(str::to_string),
    }
}

#[test]
fn message_with_two_observances() {
    let data = facts(vec![day("Pancake Day", "/pancake-day"), day("Kite Day", "/kite-day")], None);
    let message = build_message(&data, "Cats love pancakes. 🐾", "https://x.test");
    assert_eq!(
        message,
        "Tuesday, February 4, 2025 | [Pancake Day](https://x.test/pancake-day) | [Kite Day](https://x.test/kite-day)\nCats love pancakes. 🐾"
    );
}

#[test]
fn message_without_observances_or_note() {
    let data = facts(Vec::new(), None);
    assert_eq!(
        build_message(&data, "A quiet day.", "https://x.test"),
        "Tuesday, February 4, 2025\nA quiet day."
    );
}

#[test]
fn message_with_note_only() {
    let data = facts(Vec::new(), Some("Happy birthday, Ada!"));
    assert_eq!(
        build_message(&data, "Purr.", "https://x.test"),
        "Tuesday, February 4, 2025 | Happy birthday, Ada!\nPurr."
    );
}

#[test]
fn message_with_observance_and_note() {
    let data = facts(vec![day("Kite Day", "/kite-day")], Some("Happy birthday, Ada!"));
    assert_eq!(
        build_message(&data, "Purr.\n\nMore.", "https://x.test"),
        "Tuesday, February 4, 2025 | [Kite Day](https://x.test/kite-day) | Happy birthday, Ada!\nPurr.\n\nMore."
    );
}

#[test]
fn swapping_observances_swaps_only_their_links() {
    let forward = facts(vec![day("Pancake Day", "/pancake-day"), day("Kite Day", "/kite-day")], Some("note"));
    let backward = facts(vec![day("Kite Day", "/kite-day"), day("Pancake Day", "/pancake-day")], Some("note"));
    let pancake = " | [Pancake Day](https://x.test/pancake-day)";
    let kite = " | [Kite Day](https://x.test/kite-day)";
    assert_eq!(
        build_message(&forward, "Story", "https://x.test"),
        format!("Tuesday, February 4, 2025{}{} | note\nStory", pancake, kite)
    );
    assert_eq!(
        build_message(&backward, "Story", "https://x.test"),
        format!("Tuesday, February 4, 2025{}{} | note\nStory", kite, pancake)
    );
}
