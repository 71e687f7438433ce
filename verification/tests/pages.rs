use sc_scraper::parse_citizen_record;
use sc_scraper::parse_organizations;
use sc_scraper::Organization;
use sc_scraper::ScScrapingError;
use sc_scraper::UtcDate;

fn profile_html(info_rows: &str, sidebar_rows: &str, record_row: &str) -> String {
    format!(
        r#"<html><body>
        <div class="profile-content">
          <div class="wrapper">
            <div class="profile left-col">
              <div>
                <div class="thumb"><img src="/media/avatar.jpg"/></div>
                <div class="info">{info_rows}</div>
              </div>
            </div>
          </div>
          <div class="left-col">
            <div>{sidebar_rows}</div>
          </div>
          {record_row}
          <div class="right-col">
            <p class="website"><a href="https://example.com">example.com</a></p>
            <div class="entry bio"><div class="value">
              Line one
              <br/>
              Line two
            </div></div>
          </div>
        </div>
        </body></html>"#
    )
}

const GOOD_INFO: &str = r#"
    <p><strong>Space Ace</strong></p>
    <p><strong>space_ace</strong></p>
    <p><span class="icon"><img src="/media/icon.png"/></span><span class="value">Grand Admiral</span></p>
"#;

const GOOD_SIDEBAR: &str = r#"
    <p><span>Enlisted</span><strong>Jan 5, 2941</strong></p>
    <p><span>Location</span><strong>Berlin, Germany</strong></p>
    <p><span>Fluency</span><strong>English, German</strong></p>
"#;

const GOOD_RECORD: &str =
    r#"<p class="citizen-record"><strong class="value">#123456</strong></p>"#;

#[test]
fn full_profile_extracts_every_field() {
    let html = profile_html(GOOD_INFO, GOOD_SIDEBAR, GOOD_RECORD);
    let c = parse_citizen_record(&html).expect("well-formed profile must parse");
    assert_eq!(c.moniker, "Space Ace");
    assert_eq!(c.handle, "space_ace");
    assert_eq!(c.title.value, "Grand Admiral");
    assert_eq!(c.title.icon, "https://robertsspaceindustries.com/media/icon.png");
    assert_eq!(c.avatar, "https://robertsspaceindustries.com/media/avatar.jpg");
    assert_eq!(c.enlisted, UtcDate { year: 2941, month: 1, day: 5 });
    assert_eq!(c.citizen_record_number, Some(123456));
    assert_eq!(c.location, vec!["Berlin".to_string(), "Germany".to_string()]);
    assert_eq!(c.fluency, vec!["English".to_string(), "German".to_string()]);
    assert_eq!(c.website, Some("example.com".to_string()));
    assert_eq!(c.bio, vec!["Line one".to_string(), "Line two".to_string()]);
}

fn citizen_err(html: &str) -> String {
    match parse_citizen_record(html) {
        Err(ScScrapingError::Citizen { message }) => message,
        Err(ScScrapingError::Organization { .. }) => panic!("wrong error category"),
        Ok(_) => panic!("expected a failure"),
    }
}

#[test]
fn missing_moniker_fails() {
    let info = r#"
        <p></p>
        <p><strong>space_ace</strong></p>
        <p><span class="icon"><img src="/media/icon.png"/></span><span class="value">T</span></p>
    "#;
    let html = profile_html(info, GOOD_SIDEBAR, GOOD_RECORD);
    assert_eq!(citizen_err(&html), "Moniker could not be parsed");
}

#[test]
fn wrong_info_row_count_fails_with_count() {
    let info = r#"
        <p><strong>Space Ace</strong></p>
        <p><strong>space_ace</strong></p>
    "#;
    let html = profile_html(info, GOOD_SIDEBAR, GOOD_RECORD);
    assert_eq!(citizen_err(&html), "Found 2 profile element(s), expected 3.");
}

#[test]
fn missing_enlistment_fails() {
    let sidebar = r#"<p><span>Location</span><strong>Berlin</strong></p>"#;
    let html = profile_html(GOOD_INFO, sidebar, GOOD_RECORD);
    assert_eq!(citizen_err(&html), "Enlisted date not found");
}

#[test]
fn duplicate_location_fails_naming_location() {
    let sidebar = r#"
        <p><span>Enlisted</span><strong>Jan 5, 2941</strong></p>
        <p><span>Location</span><strong>Berlin, Germany</strong></p>
        <p><span>Location</span><strong>Paris, France</strong></p>
    "#;
    let html = profile_html(GOOD_INFO, sidebar, GOOD_RECORD);
    assert_eq!(citizen_err(&html), "Found multiple instances of `Location`");
}

#[test]
fn wrong_date_format_fails_naming_the_value() {
    let sidebar = r#"<p><span>Enlisted</span><strong>2941-01-05</strong></p>"#;
    let html = profile_html(GOOD_INFO, sidebar, GOOD_RECORD);
    let msg = citizen_err(&html);
    assert!(msg.contains("2941-01-05"), "message must name the value: {msg}");
    assert_eq!(msg, "Error parsing the date `2941-01-05`: invalid format");
}

#[test]
fn missing_identifier_is_no_failure() {
    let html = profile_html(GOOD_INFO, GOOD_SIDEBAR, "");
    let c = parse_citizen_record(&html).expect("identifier is optional");
    assert_eq!(c.citizen_record_number, None);
}

#[test]
fn empty_profile_content_fails() {
    let html = "<html><body><div class=\"other\"></div></body></html>";
    assert_eq!(citizen_err(html), "Citizen content is empty");
}

fn org_block(title: &str, marker: &str, name: &str, sid: &str, rank: &str) -> String {
    format!(
        r#"<div class="box-content org">
          <div class="title">{title}</div>
          {marker}
          <div class="inner-bg">
            <div class="left-col">
              <div>
                <div class="thumb"><a href="/orgs/FOO"><img src="/media/foo-logo.png"/></a></div>
                <div class="info">
                  <div class="ranking"><span class="active"></span><span class="active"></span><span></span></div>
                  <p><a href="/orgs/FOO">{name}</a></p>
                  <p><strong>{sid}</strong></p>
                  <p><strong>{rank}</strong></p>
                </div>
              </div>
            </div>
          </div>
        </div>"#
    )
}

fn orgs_page(blocks: &str) -> String {
    format!("<html><body>{blocks}</body></html>")
}

#[test]
fn one_main_and_one_affiliate_are_grouped() {
    let blocks = format!(
        "{}{}",
        org_block("Main organization", "", "Foo Fleet", "FOO", "Captain"),
        org_block("Affiliation", "", "Bar Guild", "BAR", "Ensign"),
    );
    let page = orgs_page(&blocks);
    let orgs = parse_organizations(&page)
        .expect("well-formed organizations must parse")
        .expect("blocks exist, so a structure is returned");
    match orgs.main.expect("one main organization") {
        Organization::Visible { logo, name, sid, url, rank, member_count } => {
            assert_eq!(logo, "https://robertsspaceindustries.com/media/foo-logo.png");
            assert_eq!(name, "Foo Fleet");
            assert_eq!(sid, "FOO");
            assert_eq!(url, "https://robertsspaceindustries.com/orgs/FOO");
            assert_eq!(rank.name, "Captain");
            assert_eq!(rank.value, 2);
            assert_eq!(member_count, 0);
        },
        Organization::Redacted => panic!("main organization must be visible"),
    }
    assert_eq!(orgs.affiliates.len(), 1);
    match &orgs.affiliates[0] {
        Organization::Visible { name, sid, .. } => {
            assert_eq!(name, "Bar Guild");
            assert_eq!(sid, "BAR");
        },
        Organization::Redacted => panic!("affiliate must be visible"),
    }
}

#[test]
fn two_main_organizations_fail() {
    let blocks = format!(
        "{}{}",
        org_block("Main organization", "", "Foo Fleet", "FOO", "Captain"),
        org_block("Main organization", "", "Bar Guild", "BAR", "Ensign"),
    );
    let page = orgs_page(&blocks);
    match parse_organizations(&page) {
        Err(ScScrapingError::Organization { message }) => {
            assert_eq!(message, "Cannot have multiple main organizations");
        },
        Err(ScScrapingError::Citizen { .. }) => panic!("wrong error category"),
        Ok(_) => panic!("expected a failure"),
    }
}

#[test]
fn zero_organization_blocks_yield_none() {
    let page = orgs_page("<div class=\"something-else\"></div>");
    let r = parse_organizations(&page).expect("no blocks is no failure");
    assert!(r.is_none(), "no blocks must yield no structure at all");
}

#[test]
fn redacted_marker_wins_over_any_content() {
    let marker = r#"<div class="member-visibility-restriction">hidden</div>"#;
    let blocks = org_block("Affiliation", marker, "Bar Guild", "BAR", "Ensign");
    let page = orgs_page(&blocks);
    let orgs = parse_organizations(&page).expect("must parse").expect("one block");
    assert!(orgs.main.is_none());
    assert_eq!(orgs.affiliates.len(), 1);
    match &orgs.affiliates[0] {
        Organization::Redacted => {},
        Organization::Visible { .. } => panic!("redacted marker must win"),
    }
}

#[test]
fn invalid_organization_label_fails_naming_it() {
    let blocks = org_block("Sponsor", "", "Foo Fleet", "FOO", "Captain");
    let page = orgs_page(&blocks);
    match parse_organizations(&page) {
        Err(ScScrapingError::Organization { message }) => {
            assert_eq!(message, "Invalid organization type `sponsor`");
        },
        _ => panic!("expected an organization failure"),
    }
}

#[test]
fn absolute_title_icon_is_kept_as_it_is() {
    let info = r#"
        <p><strong>Space Ace</strong></p>
        <p><strong>space_ace</strong></p>
        <p><span class="icon"><img src="https://cdn.example.com/icon.png"/></span><span class="value">T</span></p>
    "#;
    let html = profile_html(info, GOOD_SIDEBAR, GOOD_RECORD);
    let c = parse_citizen_record(&html).expect("absolute icon sources are accepted");
    assert_eq!(c.title.icon, "https://cdn.example.com/icon.png");
}

#[test]
fn bare_relative_title_icon_fails() {
    let info = r#"
        <p><strong>Space Ace</strong></p>
        <p><strong>space_ace</strong></p>
        <p><span class="icon"><img src="icon.png"/></span><span class="value">T</span></p>
    "#;
    let html = profile_html(info, GOOD_SIDEBAR, GOOD_RECORD);
    assert_eq!(citizen_err(&html), "Title icon could not be parsed");
}

#[test]
fn icon_url_is_normalized_not_echoed() {
    let info = r#"
        <p><strong>Space Ace</strong></p>
        <p><strong>space_ace</strong></p>
        <p><span class="icon"><img src="https://CDN.Example.com/icon.png"/></span><span class="value">T</span></p>
    "#;
    let html = profile_html(info, GOOD_SIDEBAR, GOOD_RECORD);
    let c = parse_citizen_record(&html).expect("absolute icon sources are accepted");
    assert_eq!(c.title.icon, "https://cdn.example.com/icon.png");
}

#[test]
fn missing_avatar_fails() {
    let html = profile_html(GOOD_INFO, GOOD_SIDEBAR, GOOD_RECORD)
        .replace(r#"<div class="thumb"><img src="/media/avatar.jpg"/></div>"#, "");
    assert_eq!(citizen_err(&html), "Could not parse avatar URL");
}

#[test]
fn missing_right_column_fails() {
    let html = profile_html(GOOD_INFO, GOOD_SIDEBAR, GOOD_RECORD)
        .replace(r#"<div class="right-col">"#, r#"<div class="elsewhere">"#);
    assert_eq!(citizen_err(&html), "Web and bio parent could not be found");
}

#[test]
fn uppercase_sidebar_labels_are_recognized() {
    let sidebar = r#"<p><span>ENLISTED</span><strong>Jan 5, 2941</strong></p>"#;
    let html = profile_html(GOOD_INFO, sidebar, GOOD_RECORD);
    let c = parse_citizen_record(&html).expect("labels are folded before matching");
    assert_eq!(c.enlisted, UtcDate { year: 2941, month: 1, day: 5 });
    assert!(c.location.is_empty());
}
