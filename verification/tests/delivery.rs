use felix_bot::delivery::{ChunkedDelivery, DeliveryAction, DeliveryError, DeliveryState, SendOutcome};
use felix_bot::discord::{send_message, send_multipart_discord_message};

fn paragraph(letter: char, len: usize) -> String {
    let mut text = String::new();
    for _ in 0..len - 2 {
        text.push(letter);
    }
    text.push_str("\n\n");
    text
}

/// Drives a delivery over a transport that refuses the chunks whose
/// positions are listed in `refused`, and returns what the transport saw.
fn drive(delivery: &mut ChunkedDelivery, refused: &[usize]) -> (Vec<String>, Result<(), DeliveryError>) {
    let mut seen = Vec::new();
    loop {
        match delivery.poll() {
            DeliveryAction::Send(chunk) => {
                let position = seen.len();
                seen.push(chunk);
                if refused.contains(&position) {
                    delivery.report(SendOutcome::Rejected(format!("refused chunk {}", position)));
                } else {
                    delivery.report(SendOutcome::Delivered);
                }
            }
            DeliveryAction::AwaitOutcome => panic!("a chunk is out although every outcome was reported"),
            DeliveryAction::Complete => return (seen, Ok(())),
            DeliveryAction::Abort(error) => return (seen, Err(error)),
        }
    }
}

#[test]
fn short_message_is_one_chunk() {
    let delivery = send_message("Hello\n\nworld", 2000);
    assert_eq!(delivery.chunks(), &vec!["Hello\n\nworld".to_string()]);
    assert_eq!(delivery.state(), &DeliveryState::Pending);
    assert_eq!(delivery.sent(), 0);
    assert_eq!(delivery.max_len(), 2000);
}

#[test]
fn message_of_exactly_the_limit_is_one_chunk() {
    let message = "ab\n\ncd\n\nef";
    assert_eq!(message.len(), 10);
    let delivery = send_message(message, 10);
    assert_eq!(delivery.chunks(), &vec![message.to_string()]);
}

#[test]
fn empty_message_is_one_empty_chunk() {
    let mut delivery = send_message("", 2000);
    assert_eq!(delivery.chunks(), &vec![String::new()]);
    let (seen, result) = drive(&mut delivery, &[]);
    assert_eq!(seen, vec![String::new()]);
    assert_eq!(result, Ok(()));
}

#[test]
fn empty_message_has_no_multipart_chunk() {
    assert_eq!(send_multipart_discord_message("", 5), Vec::<String>::new());
}

#[test]
fn three_paragraphs_make_three_chunks() {
    let first = paragraph('a', 1500);
    let second = paragraph('b', 1500);
    let third = "c".repeat(1500);
    let message = format!("{}{}{}", first, second, third);
    assert_eq!(message.len(), 4500);
    let mut delivery = send_message(&message, 2000);
    assert_eq!(delivery.chunks(), &vec![first.clone(), second.clone(), third.clone()]);
    let (seen, result) = drive(&mut delivery, &[]);
    assert_eq!(seen, vec![first, second, third]);
    assert_eq!(result, Ok(()));
    assert_eq!(delivery.state(), &DeliveryState::Done);
    assert_eq!(delivery.sent(), 3);
}

#[test]
fn failure_on_second_chunk_stops_the_delivery() {
    let first = paragraph('a', 1500);
    let second = paragraph('b', 1500);
    let third = "c".repeat(1500);
    let message = format!("{}{}{}", first, second, third);
    let mut delivery = send_message(&message, 2000);
    let (seen, result) = drive(&mut delivery, &[1]);
    assert_eq!(seen, vec![first, second]);
    let error = DeliveryError::Transport { index: 1, reason: "refused chunk 1".to_string() };
    assert_eq!(result, Err(error.duplicate()));
    assert_eq!(delivery.sent(), 1);
    assert_eq!(delivery.state(), &DeliveryState::Failed(error.duplicate()));
    assert_eq!(delivery.poll(), DeliveryAction::Abort(error.duplicate()));
    delivery.report(SendOutcome::Delivered);
    assert_eq!(delivery.sent(), 1);
    assert_eq!(delivery.poll(), DeliveryAction::Abort(error));
}

#[test]
fn chunks_join_to_the_message() {
    let message = "one\n\ntwo two\n\n\n\nthree\nstill three\n\nfour";
    for limit in 0..message.len() + 2 {
        let chunks = send_multipart_discord_message(message, limit);
        assert_eq!(chunks.concat(), message, "limit {}", limit);
        assert!(chunks.iter().all(|chunk| !chunk.is_empty()), "limit {}", limit);
        let delivery = send_message(message, limit);
        assert_eq!(delivery.chunks().concat(), message, "limit {}", limit);
    }
}

#[test]
fn units_are_gathered_greedily() {
    let message = "aa\n\nbb\n\ncc\n\ndd";
    assert_eq!(
        send_multipart_discord_message(message, 8),
        vec!["aa\n\nbb\n\n".to_string(), "cc\n\ndd".to_string()]
    );
    assert_eq!(
        send_multipart_discord_message(message, 7),
        vec!["aa\n\n".to_string(), "bb\n\n".to_string(), "cc\n\ndd".to_string()]
    );
    assert_eq!(
        send_multipart_discord_message(message, 4),
        vec!["aa\n\n".to_string(), "bb\n\n".to_string(), "cc\n\n".to_string(), "dd".to_string()]
    );
}

#[test]
fn separators_do_not_overlap() {
    assert_eq!(
        send_multipart_discord_message("a\n\n\nb", 3),
        vec!["a\n\n".to_string(), "\nb".to_string()]
    );
    assert_eq!(
        send_multipart_discord_message("\n\n\n\n", 2),
        vec!["\n\n".to_string(), "\n\n".to_string()]
    );
    let expected: Vec<String> = "a\n\n\nb".split_inclusive("\n\n").map(str::to_string).collect();
    assert_eq!(send_multipart_discord_message("a\n\n\nb", 3), expected);
}

#[test]
fn sizes_are_counted_in_bytes() {
    // Each paw print takes four bytes.
    let message = "🐾🐾\n\n🐾";
    assert_eq!(message.len(), 14);
    assert_eq!(send_message(message, 14).chunks(), &vec![message.to_string()]);
    assert_eq!(
        send_message(message, 13).chunks(),
        &vec!["🐾🐾\n\n".to_string(), "🐾".to_string()]
    );
}

#[test]
fn no_chunk_exceeds_the_limit_when_no_unit_does() {
    let message = "alpha\n\nbeta\n\ngamma delta\n\nepsilon\n\nz";
    let longest = message.split_inclusive("\n\n").map(str::len).max().unwrap();
    for limit in longest..message.len() + 1 {
        for chunk in send_message(message, limit).chunks() {
            assert!(chunk.len() <= limit, "limit {}", limit);
        }
    }
}

#[test]
fn oversized_unit_is_kept_whole() {
    let message = "aa\n\nbbbbbbbbbb\n\ncc";
    assert_eq!(
        send_multipart_discord_message(message, 6),
        vec!["aa\n\n".to_string(), "bbbbbbbbbb\n\n".to_string(), "cc".to_string()]
    );
    assert_eq!(
        send_multipart_discord_message("bbbbbbbbbb\n\ncc", 6),
        vec!["bbbbbbbbbb\n\n".to_string(), "cc".to_string()]
    );
}

#[test]
fn oversized_chunk_is_not_offered_to_the_transport() {
    let mut delivery = send_message("aa\n\nbbbbbbbbbb\n\ncc", 6);
    let (seen, result) = drive(&mut delivery, &[]);
    assert_eq!(seen, vec!["aa\n\n".to_string()]);
    assert_eq!(result, Err(DeliveryError::ChunkTooLarge { index: 1, len: 12 }));
    assert_eq!(delivery.sent(), 1);
    assert_eq!(
        delivery.state(),
        &DeliveryState::Failed(DeliveryError::ChunkTooLarge { index: 1, len: 12 })
    );
}

#[test]
fn a_chunk_is_offered_once() {
    let mut delivery = send_message("hello", 10);
    assert_eq!(delivery.poll(), DeliveryAction::Send("hello".to_string()));
    assert_eq!(delivery.state(), &DeliveryState::Flushing);
    assert_eq!(delivery.poll(), DeliveryAction::AwaitOutcome);
    delivery.report(SendOutcome::Delivered);
    assert_eq!(delivery.state(), &DeliveryState::Accumulating);
    assert_eq!(delivery.sent(), 1);
    assert_eq!(delivery.poll(), DeliveryAction::Complete);
    assert_eq!(delivery.state(), &DeliveryState::Done);
}

#[test]
fn an_outcome_that_nothing_waits_for_is_ignored() {
    let mut delivery = ChunkedDelivery::new(vec!["a".to_string(), "b".to_string()], 5);
    delivery.report(SendOutcome::Delivered);
    assert_eq!(delivery.state(), &DeliveryState::Pending);
    assert_eq!(delivery.sent(), 0);
    delivery.report(SendOutcome::Rejected("too early".to_string()));
    assert_eq!(delivery.state(), &DeliveryState::Pending);
    assert_eq!(delivery.poll(), DeliveryAction::Send("a".to_string()));
}

const SAMPLES: [&str; 8] = [
    "",
    "\n",
    "\n\n",
    "plain text without a blank line",
    "one\n\ntwo\n\nthree",
    "ends with a separator\n\n",
    "\n\n\n\n\nleading and odd\n\n\n",
    "Tuesday | [Kite Day](https://x.test/kite-day)\nA tale \u{1f43e}\n\nof \u{e9}t\u{e9}\n\n\u{2014} Felix",
];

#[test]
fn units_are_what_splitting_after_blank_lines_gives() {
    for message in SAMPLES {
        let units: Vec<String> = message.split_inclusive("\n\n").map(str::to_string).collect();
        assert_eq!(send_multipart_discord_message(message, 0), units, "message {:?}", message);
    }
}

#[test]
fn chunks_are_what_accumulating_units_gives() {
    for message in SAMPLES {
        let longest = message.split_inclusive("\n\n").map(str::len).max().unwrap_or(0);
        for limit in longest..message.len() + 2 {
            let mut expected: Vec<String> = Vec::new();
            let mut current = String::new();
            for unit in message.split_inclusive("\n\n") {
                if current.len() + unit.len() > limit {
                    expected.push(current.clone());
                    current.clear();
                }
                current.push_str(unit);
            }
            if !current.is_empty() {
                expected.push(current);
            }
            assert_eq!(
                send_multipart_discord_message(message, limit),
                expected,
                "message {:?}, limit {}",
                message,
                limit
            );
        }
    }
}

#[test]
fn every_sample_is_reconstituted_under_every_limit() {
    for message in SAMPLES {
        for limit in 0..message.len() + 2 {
            let mut delivery = send_message(message, limit);
            assert_eq!(delivery.chunks().concat(), message);
            if message.len() <= limit {
                assert_eq!(delivery.chunks(), &vec![message.to_string()]);
            }
            let (seen, result) = drive(&mut delivery, &[]);
            match result {
                Ok(()) => assert_eq!(seen.concat(), message),
                Err(DeliveryError::ChunkTooLarge { index, len }) => {
                    assert_eq!(seen.len(), index);
                    assert_eq!(delivery.chunks()[index].len(), len);
                    assert!(len > limit);
                    assert!(message.starts_with(&seen.concat()));
                }
                Err(other) => panic!("unexpected failure {:?}", other),
            }
        }
    }
}
