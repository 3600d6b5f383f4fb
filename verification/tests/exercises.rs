use rust_basics::borrowing::{longest, return_same, same};
use rust_basics::generics::{largest, MyBox, Point};
use rust_basics::guessing::{judge, play, secret_number, Round, Verdict};
use rust_basics::inventory::{Inventory, ShirtColor};
use rust_basics::news::{announcement, NewsArticle, Summary, Tweet, TweetType};
use rust_basics::publishing::{add_one, mix, PrimaryColor, SecondaryColor};
use rust_basics::quota::{notice, to_double, usage, LimitTracker, Messenger, Usage};
use rust_basics::shapes::{build_user, Rectangle};
use rust_basics::text::{first_word, last_char_of_first_line};
use std::cell::RefCell;

struct MockMessenger {
    sent_messages: RefCell<Vec<String>>,
}

impl MockMessenger {
    fn new() -> MockMessenger {
        MockMessenger { sent_messages: RefCell::new(vec![]) }
    }
}

impl Messenger for MockMessenger {
    fn send(&self, message: &str) {
        self.sent_messages.borrow_mut().push(String::from(message));
    }
}

struct Silent;

impl Summary for Silent {}

#[test]
fn add_one_adds_one() {
    assert_eq!(6, add_one(5));
    assert_eq!(0, add_one(-1));
    assert_eq!(i32::MAX, add_one(i32::MAX - 1));
    assert_eq!(i32::MIN + 1, add_one(i32::MIN));
}

#[test]
fn every_mix_is_orange() {
    assert!(matches!(mix(PrimaryColor::Red, PrimaryColor::Yellow), SecondaryColor::Orange));
    assert!(matches!(mix(PrimaryColor::Blue, PrimaryColor::Blue), SecondaryColor::Orange));
}

#[test]
fn article_summary_names_headline_author_and_place() {
    let article = NewsArticle::new("Penguins win", "Pittsburgh", "Iceburgh", "They won.");
    assert_eq!(article.summarize(), "Penguins win, by Iceburgh (Pittsburgh)");
}

#[test]
fn tweet_summary_names_user_and_content() {
    let tweet = Tweet::new(
        "horse_ebooks",
        "of course, as you probably already know, people",
        TweetType::Tweet,
        None,
    )
    .unwrap();
    assert_eq!(
        tweet.summarize(),
        "horse_ebooks: of course, as you probably already know, people"
    );
}

#[test]
fn tweet_of_the_full_length_is_taken() {
    let content = "a".repeat(280);
    assert!(Tweet::new("u", &content, TweetType::Retweet, None).is_ok());
}

#[test]
fn tweet_over_the_limit_is_refused() {
    let content = "a".repeat(281);
    assert_eq!(
        Tweet::new("u", &content, TweetType::Tweet, None).err(),
        Some(String::from("Tweet too long."))
    );
    assert_eq!(
        Tweet::new("u", &content, TweetType::Reply, None).err(),
        Some(String::from("Tweet too long."))
    );
}

#[test]
fn tweet_length_counts_bytes() {
    let content = "ä".repeat(141);
    assert_eq!(
        Tweet::new("u", &content, TweetType::Tweet, None).err(),
        Some(String::from("Tweet too long."))
    );
    assert!(Tweet::new("u", &"ä".repeat(140), TweetType::Tweet, None).is_ok());
}

#[test]
fn reply_needs_a_tweet_to_reply_to() {
    assert_eq!(
        Tweet::new("u", "hello", TweetType::Reply, None).err(),
        Some(String::from("Tweet is a reply to nothing."))
    );
    assert!(Tweet::new("u", "hello", TweetType::Reply, Some(7)).is_ok());
    assert!(Tweet::new("u", "hello", TweetType::Tweet, Some(7)).is_ok());
}

#[test]
fn summary_without_words_of_its_own_invites_to_read_on() {
    assert_eq!(Silent.summarize(), "(Read more...)");
}

#[test]
fn announcement_leads_with_breaking_news() {
    assert_eq!(announcement("a: b"), "Breaking news! a: b");
}

#[test]
fn usage_has_its_thresholds() {
    assert_eq!(usage(0, 100), Usage::Fine);
    assert_eq!(usage(74, 100), Usage::Fine);
    assert_eq!(usage(75, 100), Usage::Warning);
    assert_eq!(usage(89, 100), Usage::Warning);
    assert_eq!(usage(90, 100), Usage::Urgent);
    assert_eq!(usage(99, 100), Usage::Urgent);
    assert_eq!(usage(100, 100), Usage::Over);
    assert_eq!(usage(usize::MAX, 1), Usage::Over);
    assert_eq!(usage(2, 3), Usage::Fine);
    assert_eq!(usage(3, 4), Usage::Warning);
    assert_eq!(usage(9, 10), Usage::Urgent);
}

fn usage_in_floating_point(value: usize, max: usize) -> Usage {
    let percentage_of_max = value as f64 / max as f64;
    if percentage_of_max >= 1.0 {
        Usage::Over
    } else if percentage_of_max >= 0.9 {
        Usage::Urgent
    } else if percentage_of_max >= 0.75 {
        Usage::Warning
    } else {
        Usage::Fine
    }
}

#[test]
fn usage_rounds_as_double_precision_does() {
    assert_eq!(usage(18446744073709551614, 18446744073709551615), Usage::Over);
    assert_eq!(usage(89999999999999999, 100000000000000000), Usage::Urgent);
    assert_eq!(usage(89999999999999990, 100000000000000000), Usage::Warning);
    assert_eq!(usage(9007199254740993, 9007199254740992), Usage::Over);
    assert_eq!(usage(9007199254740992, 9007199254740993), Usage::Over);
    assert_eq!(usage(9007199254740992, 9007199254740995), Usage::Urgent);
}

#[test]
fn usage_agrees_with_floating_point_around_the_thresholds() {
    let quotas: [usize; 12] = [
        1,
        3,
        7,
        10,
        1000,
        4503599627370497,
        9007199254740991,
        9007199254740993,
        100000000000000000,
        1152921504606846977,
        18446744073709551614,
        18446744073709551615,
    ];
    for max in quotas {
        let marks = [
            (max as u128 * 3 / 4) as usize,
            (max as u128 * 9 / 10) as usize,
            max,
            max / 2,
        ];
        for mark in marks {
            for step in 0..2000usize {
                for value in [mark.saturating_sub(step), mark.saturating_add(step)] {
                    assert_eq!(usage(value, max), usage_in_floating_point(value, max));
                }
            }
        }
    }
    for max in 0..200usize {
        for value in 0..300usize {
            assert_eq!(usage(value, max), usage_in_floating_point(value, max));
        }
    }
}

#[test]
fn whole_numbers_round_to_53_bits_and_ties_to_even() {
    assert_eq!(to_double(0), 0);
    assert_eq!(to_double(9007199254740991), 9007199254740991);
    assert_eq!(to_double(9007199254740993), 9007199254740992);
    assert_eq!(to_double(9007199254740995), 9007199254740996);
    assert_eq!(to_double(9007199254740994), 9007199254740994);
    assert_eq!(to_double(18446744073709551615), 18446744073709551616);
    assert_eq!(to_double(18446744073709550591), 18446744073709549568);
    for n in [
        1usize,
        4503599627370497,
        36028797018963969,
        89999999999999999,
        1152921504606846977,
        12345678901234567890,
        18446744073709551614,
    ] {
        assert_eq!(to_double(n), (n as f64) as u128);
    }
}

#[test]
fn empty_quota_is_passed_by_anything_but_zero() {
    assert_eq!(usage(0, 0), Usage::Fine);
    assert_eq!(usage(1, 0), Usage::Over);
}

#[test]
fn each_usage_has_its_notice() {
    assert_eq!(notice(Usage::Fine), None);
    assert_eq!(notice(Usage::Warning), Some("Warning: You've used up over 75% of your quota!"));
    assert_eq!(
        notice(Usage::Urgent),
        Some("Urgent warning: You've used up over 90% of your quota!")
    );
    assert_eq!(notice(Usage::Over), Some("Error: You are over your quota!"));
}

#[test]
fn it_sends_an_over_75_percent_warning_message() {
    let mock_messenger = MockMessenger::new();
    let mut limit_tracker = LimitTracker::new(&mock_messenger, 100);

    limit_tracker.set_value(80);

    assert_eq!(mock_messenger.sent_messages.borrow().len(), 1);
    assert_eq!(
        mock_messenger.sent_messages.borrow()[0],
        "Warning: You've used up over 75% of your quota!"
    );
}

#[test]
fn tracker_sends_one_notice_for_each_value_that_calls_for_one() {
    let mock_messenger = MockMessenger::new();
    let mut limit_tracker = LimitTracker::new(&mock_messenger, 100);

    limit_tracker.set_value(10);
    limit_tracker.set_value(95);
    limit_tracker.set_value(74);
    limit_tracker.set_value(100);

    let sent = mock_messenger.sent_messages.borrow();
    assert_eq!(sent.len(), 2);
    assert_eq!(sent[0], "Urgent warning: You've used up over 90% of your quota!");
    assert_eq!(sent[1], "Error: You are over your quota!");
}

#[test]
fn guess_is_judged_against_the_secret() {
    assert_eq!(judge(1, 50), Verdict::TooSmall);
    assert_eq!(judge(49, 50), Verdict::TooSmall);
    assert_eq!(judge(50, 50), Verdict::Win);
    assert_eq!(judge(51, 50), Verdict::TooBig);
    assert_eq!(judge(u32::MAX, 100), Verdict::TooBig);
}

#[test]
fn game_is_over_when_the_secret_is_guessed() {
    assert_eq!(play(3, 4), (Verdict::TooSmall, Round::Playing));
    assert_eq!(play(5, 4), (Verdict::TooBig, Round::Playing));
    assert_eq!(play(4, 4), (Verdict::Win, Round::Over));
}

#[test]
fn secret_lies_between_one_and_a_hundred() {
    let mut seen = Vec::new();
    for _ in 0..500 {
        let n = secret_number();
        assert!(1 <= n && n <= 100);
        if !seen.contains(&n) {
            seen.push(n);
        }
    }
    assert!(seen.len() > 1);
}

#[test]
fn preferred_color_is_given_away() {
    let store = Inventory { shirts: vec![ShirtColor::Blue, ShirtColor::Red, ShirtColor::Blue] };
    assert_eq!(store.giveaway(Some(ShirtColor::Red)), ShirtColor::Red);
    assert_eq!(store.giveaway(Some(ShirtColor::Blue)), ShirtColor::Blue);
}

#[test]
fn most_stocked_color_is_given_away_without_a_preference() {
    let store = Inventory { shirts: vec![ShirtColor::Blue, ShirtColor::Red, ShirtColor::Blue] };
    assert_eq!(store.giveaway(None), ShirtColor::Blue);
    let store = Inventory { shirts: vec![ShirtColor::Red, ShirtColor::Red, ShirtColor::Blue] };
    assert_eq!(store.giveaway(None), ShirtColor::Red);
    assert_eq!(store.most_stocked(), ShirtColor::Red);
}

#[test]
fn level_stock_counts_as_blue() {
    let store = Inventory { shirts: vec![ShirtColor::Red, ShirtColor::Blue] };
    assert_eq!(store.most_stocked(), ShirtColor::Blue);
    let store = Inventory { shirts: vec![] };
    assert_eq!(store.most_stocked(), ShirtColor::Blue);
}

#[test]
fn rectangle_has_area_and_holds_smaller_ones() {
    let rect1 = Rectangle { width: 30, height: 50 };
    let rect2 = Rectangle::square(10);
    assert_eq!(rect2.width, 10);
    assert_eq!(rect2.height, 10);
    assert_eq!(rect1.area(), 1500);
    assert_eq!(Rectangle { width: 65535, height: 65537 }.area(), u32::MAX);
    assert!(rect1.can_hold(&rect2));
    assert!(!rect2.can_hold(&rect1));
    assert!(!rect1.can_hold(&Rectangle { width: 30, height: 10 }));
    assert!(!rect1.can_hold(&Rectangle { width: 10, height: 50 }));
}

#[test]
fn new_user_is_active_and_signed_in_once() {
    let user = build_user("trey@mail.com".to_string(), "Trey".to_string());
    assert!(user.active);
    assert_eq!(user.username, "Trey");
    assert_eq!(user.email, "trey@mail.com");
    assert_eq!(user.sign_in_count, 1);
}

#[test]
fn largest_of_a_list() {
    assert_eq!(*largest(&[34, 50, 25, 100, 65]), 100);
    assert_eq!(*largest(&['y', 'm', 'a', 'q']), 'y');
    assert_eq!(*largest(&[7]), 7);
    assert_eq!(*largest(&[-3, -1, -2]), -1);
}

#[test]
fn point_and_box_give_back_what_they_hold() {
    let point = Point { x: 5, y: 10 };
    assert_eq!(*point.x(), 5);
    let boxed = MyBox::new(5);
    assert_eq!(*boxed.deref(), 5);
}

#[test]
fn longest_counts_bytes_and_prefers_the_second_when_level() {
    assert_eq!(longest("abcd", "xyz"), "abcd");
    assert_eq!(longest("xyz", "abcd"), "abcd");
    assert_eq!(longest("abc", "xyz"), "xyz");
    assert_eq!(longest("ää", "xyz"), "ää");
}

#[test]
fn return_same_prefers_an_even_first_number() {
    assert_eq!(*return_same(&4, &7), 4);
    assert_eq!(*return_same(&5, &6), 6);
    assert_eq!(*return_same(&5, &7), 7);
    assert_eq!(*return_same(&0, &7), 0);
}

#[test]
fn same_is_the_identity() {
    assert_eq!(same("Trey"), "Trey");
    assert_eq!(same(""), "");
}

#[test]
fn first_word_ends_at_the_first_space() {
    assert_eq!(first_word("trey is cool"), "trey");
    assert_eq!(first_word("trey"), "trey");
    assert_eq!(first_word(" trey"), "");
    assert_eq!(first_word(""), "");
    assert_eq!(first_word("größe zählt"), "größe");
}

#[test]
fn last_char_of_the_first_line() {
    assert_eq!(last_char_of_first_line("Hello"), Some('o'));
    assert_eq!(last_char_of_first_line("Hello, world\nHow are you today?"), Some('d'));
    assert_eq!(last_char_of_first_line("Bär\r\nx"), Some('r'));
    assert_eq!(last_char_of_first_line(""), None);
    assert_eq!(last_char_of_first_line("\nhi"), None);
}
