//! Nickname normalization, collision resolution and team assignment.
use ffoie_chat::nickname::{
    assign_nick, assign_nick_from, assign_team, normalize_nick, team_for, with_suffix, TakenNicks,
};
use ffoie_chat::protocol::Team;

#[test]
fn empty_string_becomes_guest() {
    assert_eq!(normalize_nick(""), "guest");
}

#[test]
fn whitespace_only_becomes_guest() {
    assert_eq!(normalize_nick("   "), "guest");
    assert_eq!(normalize_nick("\t\n"), "guest");
}

#[test]
fn short_name_unchanged() {
    assert_eq!(normalize_nick("AB"), "AB");
}

#[test]
fn trimmed_name() {
    assert_eq!(normalize_nick("  hello  "), "hello");
}

#[test]
fn overlong_truncated_to_20_code_points() {
    // 25 ASCII chars.
    let long = "abcdefghijklmnopqrstuvwxy";
    let result = normalize_nick(long);
    assert_eq!(result.chars().count(), 20);
    assert_eq!(result, "abcdefghijklmnopqrst");
}

#[test]
fn truncation_counts_unicode_scalars_not_bytes() {
    // Each '€' is 3 bytes but 1 code point.
    let long: String = std::iter::repeat('€').take(25).collect();
    let result = normalize_nick(&long);
    assert_eq!(result.chars().count(), 20);
}

#[test]
fn exactly_20_code_points_unchanged() {
    let twenty: String = "a".repeat(20);
    assert_eq!(normalize_nick(&twenty), twenty);
}

#[test]
fn no_collision_returns_normalized() {
    let taken = TakenNicks::new();
    assert_eq!(assign_nick("Ranger", &taken), "Ranger");
}

#[test]
fn collision_appends_suffix() {
    let mut taken = TakenNicks::new();
    taken.insert("Ranger".to_string());

    let result = assign_nick("Ranger", &taken);
    // Should be "Ranger#NNNN" where NNNN is 4 digits.
    assert!(
        result.starts_with("Ranger#"),
        "expected suffix, got: {result}"
    );
    let suffix = &result["Ranger#".len()..];
    assert_eq!(suffix.len(), 4, "suffix should be 4 digits");
    assert!(suffix.chars().all(|c| c.is_ascii_digit()));
}

#[test]
fn all_collisions_falls_back_to_guest_suffix() {
    // Pre-fill all 10000 Ranger#NNNN combinations.
    let mut taken = TakenNicks::new();
    taken.insert("Ranger".to_string());
    for i in 0..10000u32 {
        taken.insert(format!("Ranger#{i:04}"));
    }

    let result = assign_nick("Ranger", &taken);
    assert!(
        result.starts_with("guest#"),
        "should fall back to guest#NNNN, got: {result}"
    );
    let suffix = &result["guest#".len()..];
    assert_eq!(suffix.len(), 4);
    assert!(suffix.chars().all(|c| c.is_ascii_digit()));
}

#[test]
fn empty_request_normalizes_then_checks_collision() {
    let taken = TakenNicks::new();
    // Empty → normalized to "guest", not taken → returned as "guest".
    assert_eq!(assign_nick("", &taken), "guest");
}

#[test]
fn team_is_red_or_blue_never_none() {
    // Run many times to exercise both branches.
    for _ in 0..200 {
        let t = assign_team();
        assert!(
            matches!(t, Team::Red | Team::Blue),
            "assign_team returned Team::NoTeam"
        );
    }
}

#[test]
fn team_returns_both_values_over_many_calls() {
    // With 200 calls, the probability of never seeing one branch is
    // (0.5)^200 ≈ 10^-60 — effectively impossible.
    let mut saw_red = false;
    let mut saw_blue = false;
    for _ in 0..200 {
        match assign_team() {
            Team::Red => saw_red = true,
            Team::Blue => saw_blue = true,
            Team::NoTeam => panic!("assign_team must not return Team::NoTeam"),
        }
    }
    assert!(saw_red, "never saw Team::Red in 200 calls");
    assert!(saw_blue, "never saw Team::Blue in 200 calls");
}

#[test]
fn heads_is_red_and_tails_is_blue() {
    assert_eq!(team_for(true), Team::Red);
    assert_eq!(team_for(false), Team::Blue);
}

#[test]
fn suffix_is_padded_with_zeros() {
    assert_eq!(with_suffix("Fox", 7), "Fox#0007");
    assert_eq!(with_suffix("Fox", 9999), "Fox#9999");
    assert_eq!(with_suffix("Fox", 1230), "Fox#1230");
}

#[test]
fn first_free_suffix_is_taken_in_order_of_the_draws() {
    let mut taken = TakenNicks::new();
    taken.insert("Fox".to_string());
    taken.insert("Fox#0001".to_string());
    taken.insert("Fox#0002".to_string());
    let draws = vec![1, 2, 1, 42, 5, 6, 7, 8, 9, 10, 11];
    assert_eq!(assign_nick_from("  Fox ", &taken, &draws), "Fox#0042");
}

#[test]
fn eleventh_draw_is_the_guest_suffix() {
    let mut taken = TakenNicks::new();
    taken.insert("Fox".to_string());
    taken.insert("Fox#0001".to_string());
    let draws = vec![1, 1, 1, 1, 1, 1, 1, 1, 1, 1, 77];
    assert_eq!(assign_nick_from("Fox", &taken, &draws), "guest#0077");
}

#[test]
fn truncation_may_leave_a_space_at_the_end() {
    assert_eq!(normalize_nick("aaaaaaaaaaaaaaaaaaa bcd"), "aaaaaaaaaaaaaaaaaaa ");
}
