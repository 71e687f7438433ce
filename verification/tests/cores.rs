use sc_scraper::classify_org_label;
use sc_scraper::clean_bio_lines;
use sc_scraper::parse_date_text;
use sc_scraper::parse_u64_str;
use sc_scraper::reconcile_other;
use sc_scraper::record_id_from_text;
use sc_scraper::split_str_commas;
use sc_scraper::trim_str;
use sc_scraper::u64_to_string;
use sc_scraper::OrganizationType;
use sc_scraper::ScScrapingError;
use sc_scraper::UtcDate;

#[test]
fn date_text_parses_to_day_precision() {
    assert_eq!(
        parse_date_text("Jan 5, 2941"),
        Some(UtcDate { year: 2941, month: 1, day: 5 })
    );
    assert_eq!(
        parse_date_text("Dec 31, 2020"),
        Some(UtcDate { year: 2020, month: 12, day: 31 })
    );
    assert_eq!(
        parse_date_text("Jan 05, 2941"),
        Some(UtcDate { year: 2941, month: 1, day: 5 })
    );
}

#[test]
fn every_month_abbreviation_maps_to_its_number() {
    let months = [
        "Jan", "Feb", "Mar", "Apr", "May", "Jun", "Jul", "Aug", "Sep", "Oct", "Nov", "Dec",
    ];
    for (k, m) in months.iter().enumerate() {
        let text = format!("{m} 1, 2941");
        let parsed = parse_date_text(&text).expect("every month abbreviation parses");
        assert_eq!(parsed.month as usize, k + 1);
        assert_eq!(parsed.day, 1);
        assert_eq!(parsed.year, 2941);
    }
}

#[test]
fn date_text_rejects_other_shapes() {
    assert_eq!(parse_date_text("2941-01-05"), None);
    assert_eq!(parse_date_text("January 5, 2941"), None);
    assert_eq!(parse_date_text("Jan 5 2941"), None);
    assert_eq!(parse_date_text("jan 5, 2941"), None);
    assert_eq!(parse_date_text("Jan  5, 2941"), None);
    assert_eq!(parse_date_text("Jan 5, 294"), None);
    assert_eq!(parse_date_text(""), None);
}

#[test]
fn date_text_checks_the_calendar() {
    assert_eq!(parse_date_text("Feb 30, 2941"), None);
    assert_eq!(parse_date_text("Feb 29, 2941"), None);
    assert_eq!(
        parse_date_text("Feb 29, 2944"),
        Some(UtcDate { year: 2944, month: 2, day: 29 })
    );
    assert_eq!(parse_date_text("Feb 29, 2100"), None);
    assert_eq!(
        parse_date_text("Feb 29, 2000"),
        Some(UtcDate { year: 2000, month: 2, day: 29 })
    );
    assert_eq!(parse_date_text("Apr 31, 2941"), None);
    assert_eq!(parse_date_text("Jan 0, 2941"), None);
}

#[test]
fn record_ids_strip_one_hash_marker() {
    assert_eq!(record_id_from_text("#123456"), Some(123456));
    assert_eq!(record_id_from_text("123456"), Some(123456));
    assert_eq!(record_id_from_text("##123456"), None);
    assert_eq!(record_id_from_text("#12a"), None);
    assert_eq!(record_id_from_text(""), None);
    assert_eq!(record_id_from_text("#"), None);
}

#[test]
fn u64_parsing_matches_the_standard_shape() {
    assert_eq!(parse_u64_str("0"), Some(0));
    assert_eq!(parse_u64_str("+42"), Some(42));
    assert_eq!(parse_u64_str("18446744073709551615"), Some(u64::MAX));
    assert_eq!(parse_u64_str("18446744073709551616"), None);
    assert_eq!(parse_u64_str(""), None);
    assert_eq!(parse_u64_str("+"), None);
    assert_eq!(parse_u64_str("12 3"), None);
}

#[test]
fn numbers_render_in_decimal() {
    assert_eq!(u64_to_string(0), "0");
    assert_eq!(u64_to_string(7), "7");
    assert_eq!(u64_to_string(1234567890), "1234567890");
}

#[test]
fn trimming_removes_outer_whitespace_only() {
    assert_eq!(trim_str("  Space Ace  "), "Space Ace");
    assert_eq!(trim_str("\t x \n"), "x");
    assert_eq!(trim_str("\u{3000}x\u{3000}"), "x");
    assert_eq!(trim_str("   "), "");
    assert_eq!(trim_str("a b"), "a b");
}

#[test]
fn comma_splitting_keeps_every_field() {
    assert_eq!(split_str_commas("a,b"), vec!["a".to_string(), "b".to_string()]);
    assert_eq!(
        split_str_commas("Berlin, Germany"),
        vec!["Berlin".to_string(), " Germany".to_string()]
    );
    assert_eq!(split_str_commas(""), vec!["".to_string()]);
    assert_eq!(split_str_commas(",a,"), vec!["".to_string(), "a".to_string(), "".to_string()]);
}

#[test]
fn bio_lines_are_trimmed_and_emptied_lines_dropped() {
    let lines = vec!["  a  ".to_string(), "   ".to_string(), "b".to_string()];
    assert_eq!(clean_bio_lines(&lines), vec!["a".to_string(), "b".to_string()]);
}

#[test]
fn organization_labels_classify_exactly() {
    assert_eq!(classify_org_label("affiliation").unwrap(), OrganizationType::Affiliate);
    assert_eq!(classify_org_label("main organization").unwrap(), OrganizationType::Main);
    match classify_org_label("banana") {
        Err(ScScrapingError::Organization { message }) => {
            assert_eq!(message, "Invalid organization type `banana`");
        },
        _ => panic!("expected an organization failure"),
    }
}

#[test]
fn errors_hand_out_their_message_text() {
    let e = ScScrapingError::citizen("something went missing");
    assert_eq!(e.message_text(), "something went missing");
    let o = ScScrapingError::organization("a block was off");
    assert_eq!(o.message_text(), "a block was off");
}

#[test]
fn sidebar_pairs_reconcile_into_lists() {
    let pairs = vec![
        ("enlisted".to_string(), "Jan 5, 2941".to_string()),
        ("location".to_string(), "Berlin, Germany".to_string()),
        ("fluency".to_string(), "English".to_string()),
        ("unrelated".to_string(), "ignored".to_string()),
    ];
    let d = reconcile_other(&pairs).expect("well-formed pairs must reconcile");
    assert_eq!(d.enlisted, UtcDate { year: 2941, month: 1, day: 5 });
    assert_eq!(d.location, vec!["Berlin".to_string(), "Germany".to_string()]);
    assert_eq!(d.languages, vec!["English".to_string()]);
}

#[test]
fn blank_list_values_are_treated_as_absent() {
    let pairs = vec![
        ("enlisted".to_string(), "Jan 5, 2941".to_string()),
        ("location".to_string(), "".to_string()),
        ("fluency".to_string(), " , ".to_string()),
    ];
    let d = reconcile_other(&pairs).expect("blank list values are no occurrence");
    assert!(d.location.is_empty());
    assert!(d.languages.is_empty());
}

#[test]
fn blank_list_value_does_not_count_as_duplicate() {
    let pairs = vec![
        ("enlisted".to_string(), "Jan 5, 2941".to_string()),
        ("location".to_string(), "".to_string()),
        ("location".to_string(), "Berlin, Germany".to_string()),
    ];
    let d = reconcile_other(&pairs).expect("a blank value does not occupy the field");
    assert_eq!(d.location, vec!["Berlin".to_string(), "Germany".to_string()]);
}

#[test]
fn repeated_enlistment_is_reported_first() {
    let pairs = vec![
        ("enlisted".to_string(), "Jan 5, 2941".to_string()),
        ("enlisted".to_string(), "Jan 6, 2941".to_string()),
    ];
    match reconcile_other(&pairs) {
        Err(ScScrapingError::Citizen { message }) => {
            assert_eq!(message, "Found multiple instances of `Enlisted`");
        },
        _ => panic!("expected a citizen failure"),
    }
}

#[test]
fn repeated_fluency_is_reported() {
    let pairs = vec![
        ("enlisted".to_string(), "Jan 5, 2941".to_string()),
        ("fluency".to_string(), "English".to_string()),
        ("fluency".to_string(), "German".to_string()),
    ];
    match reconcile_other(&pairs) {
        Err(ScScrapingError::Citizen { message }) => {
            assert_eq!(message, "Found multiple instances of `Fluency`");
        },
        _ => panic!("expected a citizen failure"),
    }
}
