use sortable_quick_unique_id::versions::v0::NIL_MACHINE_ID;
use sortable_quick_unique_id::{SQUIDv0, SQUID};
use std::time::{SystemTime, UNIX_EPOCH};

struct Countdown {
    left: u32,
}

impl SQUID for Countdown {
    fn generate(&mut self) -> Option<String> {
        if self.left == 0 {
            return None;
        }
        self.left -= 1;
        Some(format!("T-{}", self.left))
    }
}

fn take_two(source: &mut dyn SQUID) -> (Option<String>, Option<String>) {
    (source.generate(), source.generate())
}

fn wall_clock_millis() -> u128 {
    SystemTime::now().duration_since(UNIX_EPOCH).unwrap().as_millis()
}

/// Splits an identifier after the given machine identifier into its
/// timestamp and counter fields.
fn fields<'a>(id: &'a str, machine_id: &str) -> (&'a str, &'a str) {
    let rest = id.strip_prefix(machine_id).unwrap().strip_prefix('-').unwrap();
    let (timestamp, counter) = rest.split_once('-').unwrap();
    (timestamp, counter)
}

fn is_digits(text: &str) -> bool {
    !text.is_empty() && text.chars().all(|c| c.is_ascii_digit())
}

#[test]
fn counts_within_a_millisecond_and_starts_again_after() {
    let mut squid = SQUIDv0::with_machine_id("AAAA".to_string());
    assert_eq!(squid.generate_at(1000), "AAAA-1000-0000");
    assert_eq!(squid.generate_at(1000), "AAAA-1000-0001");
    assert_eq!(squid.generate_at(1001), "AAAA-1001-0000");
}

#[test]
fn the_counter_grows_past_four_digits() {
    let mut squid = SQUIDv0::with_machine_id("X".to_string());
    let mut ids = Vec::new();
    for _ in 0..10_001 {
        ids.push(squid.generate_at(5));
    }
    assert_eq!(ids[0], "X-5-0000");
    assert_eq!(fields(&ids[9_999], "X").1, "9999");
    assert_eq!(fields(&ids[10_000], "X").1, "10000");
    assert_eq!(ids[9_999], "X-5-9999");
    assert_eq!(ids[10_000], "X-5-10000");
}

#[test]
fn the_same_timestamp_adds_one_to_the_counter() {
    let mut squid = SQUIDv0::with_machine_id("m".to_string());
    squid.generate_at(42);
    let first = squid.generate_at(42);
    let second = squid.generate_at(42);
    let first_counter: u64 = fields(&first, "m").1.parse().unwrap();
    let second_counter: u64 = fields(&second, "m").1.parse().unwrap();
    assert_eq!(first_counter, 1);
    assert_eq!(second_counter, first_counter + 1);
}

#[test]
fn another_timestamp_sets_the_counter_to_zero() {
    let mut squid = SQUIDv0::with_machine_id("m".to_string());
    for _ in 0..25 {
        squid.generate_at(42);
    }
    assert_eq!(squid.generate_at(42), "m-42-0025");
    assert_eq!(squid.generate_at(43), "m-43-0000");
    assert_eq!(squid.generate_at(42), "m-42-0000");
}

#[test]
fn a_fresh_generator_counts_the_timestamp_zero_as_seen() {
    let mut squid = SQUIDv0::with_machine_id("AAAA".to_string());
    assert_eq!(squid.generate_at(0), "AAAA-0-0001");
    assert_eq!(squid.generate_at(0), "AAAA-0-0002");
    assert_eq!(squid.generate_at(1), "AAAA-1-0000");
}

#[test]
fn every_identifier_has_three_fields() {
    let mut squid = SQUIDv0::with_machine_id("dev".to_string());
    let stamps: [u128; 6] = [0, 7, 7, 1_700_000_000_000, 1_700_000_000_000, u128::MAX];
    for timestamp in stamps {
        let id = squid.generate_at(timestamp);
        let (timestamp_text, counter_text) = fields(&id, "dev");
        assert!(is_digits(timestamp_text));
        assert!(is_digits(counter_text));
        assert_eq!(timestamp_text, timestamp.to_string());
        assert_eq!(counter_text.len(), 4);
    }
}

#[test]
fn the_largest_timestamp_is_written_in_full() {
    let mut squid = SQUIDv0::with_machine_id("m".to_string());
    assert_eq!(
        squid.generate_at(u128::MAX),
        "m-340282366920938463463374607431768211455-0000"
    );
}

#[test]
fn a_given_machine_identifier_is_kept_verbatim() {
    for given in ["AAAA", "", "a-b-c", "  spaced  ", "zażółć-ß", "line\nbreak"] {
        let mut squid = SQUIDv0::with_machine_id(given.to_string());
        let id = squid.generate_at(12);
        assert_eq!(id, format!("{}-12-0000", given));
    }
}

#[test]
fn a_failed_lookup_falls_back_to_the_nil_identifier() {
    assert_eq!(NIL_MACHINE_ID, "00000000-0000-0000-0000-000000000000");
    let mut squid = SQUIDv0::from_lookup(None);
    assert_eq!(
        squid.generate_at(1000),
        "00000000-0000-0000-0000-000000000000-1000-0000"
    );
}

#[test]
fn an_answered_lookup_is_kept_as_it_came() {
    let mut squid = SQUIDv0::from_lookup(Some("92cc698195f84d3b85f1cfb0a09e957f\n".to_string()));
    assert_eq!(
        squid.generate_at(1),
        "92cc698195f84d3b85f1cfb0a09e957f\n-1-0000"
    );
}

#[test]
fn any_answer_of_a_lookup_is_kept_verbatim() {
    for found in ["", "a", "\n", "140EF834-2DB3-0F7A-27B4-4CEDFB73167C"] {
        let mut squid = SQUIDv0::from_lookup(Some(found.to_string()));
        assert_eq!(squid.generate_at(31), format!("{}-31-0000", found));
    }
}

#[test]
fn an_empty_answer_is_not_a_failed_lookup() {
    let mut answered = SQUIDv0::from_lookup(Some(String::new()));
    assert_eq!(answered.generate_at(9), "-9-0000");
    let mut failed = SQUIDv0::from_lookup(None);
    assert_eq!(
        failed.generate_at(9),
        "00000000-0000-0000-0000-000000000000-9-0000"
    );
}

#[test]
fn a_clock_before_the_epoch_gives_no_identifier_and_changes_nothing() {
    let mut squid = SQUIDv0::with_machine_id("X".to_string());
    assert_eq!(squid.generate_from(Some(5)), Some("X-5-0000".to_string()));
    assert_eq!(squid.generate_from(None), None);
    assert_eq!(squid.generate_from(None), None);
    assert_eq!(squid.generate_from(Some(5)), Some("X-5-0001".to_string()));
    assert_eq!(squid.generate_from(None), None);
    assert_eq!(squid.generate_at(6), "X-6-0000");
}

#[test]
fn a_reading_gives_the_identifier_of_its_timestamp() {
    let mut from_reading = SQUIDv0::with_machine_id("AAAA".to_string());
    let mut at_timestamp = SQUIDv0::with_machine_id("AAAA".to_string());
    for timestamp in [1000u128, 1000, 1001, 0, 0, u128::MAX] {
        assert_eq!(
            from_reading.generate_from(Some(timestamp)),
            Some(at_timestamp.generate_at(timestamp))
        );
    }
}

#[test]
fn the_wall_clock_gives_the_timestamp() {
    let mut squid = SQUIDv0::with_machine_id("clock".to_string());
    let before = wall_clock_millis();
    let id = squid.generate().unwrap();
    let after = wall_clock_millis();
    let (timestamp_text, counter_text) = fields(&id, "clock");
    let timestamp: u128 = timestamp_text.parse().unwrap();
    assert!(before <= timestamp && timestamp <= after);
    assert_eq!(counter_text, "0000");
}

#[test]
fn the_wall_clock_and_a_given_timestamp_share_the_counter() {
    let mut squid = SQUIDv0::with_machine_id("clock".to_string());
    let far_ahead = u128::MAX;
    assert_eq!(squid.generate_at(far_ahead), format!("clock-{}-0000", far_ahead));
    let id = squid.generate().unwrap();
    assert_eq!(fields(&id, "clock").1, "0000");
    let timestamp = fields(&id, "clock").0.to_string();
    let mut next = squid.generate().unwrap();
    let mut expected = 1;
    while fields(&next, "clock").0 == timestamp && expected < 50 {
        assert_eq!(fields(&next, "clock").1, format!("{:04}", expected));
        expected += 1;
        next = squid.generate().unwrap();
    }
}

#[test]
fn any_scheme_fits_behind_the_trait() {
    let mut countdown = Countdown { left: 3 };
    assert_eq!(
        take_two(&mut countdown),
        (Some("T-2".to_string()), Some("T-1".to_string()))
    );
    assert_eq!(take_two(&mut countdown), (Some("T-0".to_string()), None));
    let mut squid = SQUIDv0::with_machine_id("m".to_string());
    let (first, second) = take_two(&mut squid);
    let (first, second) = (first.unwrap(), second.unwrap());
    assert_ne!(first, second);
    assert!(first < second);
    assert!(is_digits(fields(&first, "m").0));
}

#[test]
fn the_trait_and_the_generator_hand_out_the_same_identifiers() {
    let mut squid = SQUIDv0::with_machine_id("m".to_string());
    squid.generate_at(u128::MAX);
    let through_trait = SQUID::generate(&mut squid).unwrap();
    assert_eq!(fields(&through_trait, "m").1, "0000");
    assert!(fields(&through_trait, "m").0.parse::<u128>().unwrap() >= 1_000_000_000_000);
}
