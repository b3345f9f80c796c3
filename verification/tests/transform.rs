use pinboard_to_raindrop::bookmark::{PinboardBookmark, TransformError};

fn sample(created: &str) -> PinboardBookmark {
    PinboardBookmark {
        url: "url".to_string(),
        title: "title".to_string(),
        created: created.to_string(),
        description: "Fusce ex ligula, auctor et\nvestibulum eu, \r\nporttitor at dolor.\n\r"
            .to_string(),
        tags: "a b c".to_string(),
    }
}

#[test]
fn valid_to_raindrop() {
    let description = "Fusce ex ligula, auctor et\nvestibulum eu, \r\nporttitor at dolor.\n\r";
    let tags = "a b c";
    let user_tags = "@pinboard";
    let created = "2017-04-03T15:59:39Z";
    let folder = "Imported";

    let pb_bm = PinboardBookmark {
        url: "url".to_string(),
        title: "title".to_string(),
        created: created.to_string(),
        description: description.to_string(),
        tags: tags.to_string(),
    };

    let bm = pb_bm
        .into_raindrop(folder, &Some(user_tags.to_string()), &true)
        .unwrap();
    assert_eq!(bm.url, "url");
    assert_eq!(bm.created, created);
    assert_eq!(bm.title, "title");
    assert_eq!(bm.tags, [tags, user_tags].join(" "));
}

#[test]
fn invalid_datetime_to_raindrop() {
    let description = "Fusce ex ligula, auctor et\nvestibulum eu, \r\nporttitor at dolor.\n\r";
    let tags = "a b c";
    let user_tags = "@pinboard";
    let created = "2017/04/03";
    let folder = "Imported";

    let pb_bm = PinboardBookmark {
        url: "url".to_string(),
        title: "title".to_string(),
        created: created.to_string(),
        description: description.to_string(),
        tags: tags.to_string(),
    };

    let bm = pb_bm.into_raindrop(folder, &Some(user_tags.to_string()), &true);
    assert_eq!(true, bm.is_err())
}

#[test]
fn round_trip_cleaned_record() {
    let bm = sample("2017-04-03T15:59:39Z")
        .into_raindrop("Imported", &Some("@pinboard".to_string()), &true)
        .unwrap();
    assert_eq!(bm.url, "url");
    assert_eq!(bm.folder, "Imported");
    assert_eq!(bm.title, "title");
    assert_eq!(
        bm.description,
        "Fusce ex ligula, auctor et vestibulum eu, porttitor at dolor."
    );
    assert_eq!(bm.tags, "a b c @pinboard");
    assert_eq!(bm.created, "2017-04-03T15:59:39Z");
}

#[test]
fn created_kept_verbatim_with_offset() {
    let bm = sample("2017-04-03T15:59:39+02:00")
        .into_raindrop("Imported", &None, &false)
        .unwrap();
    assert_eq!(bm.created, "2017-04-03T15:59:39+02:00");
}

#[test]
fn invalid_timestamp_error_kind() {
    let r = sample("not a date").into_raindrop("Imported", &None, &false);
    assert_eq!(r.unwrap_err(), TransformError::InvalidTimestamp);
}

#[test]
fn date_only_is_rejected() {
    let r = sample("2017-04-03").into_raindrop("Imported", &None, &false);
    assert!(r.is_err());
}

#[test]
fn tag_appends_user_tags() {
    let tagged = PinboardBookmark::tag("a b c", &Some("@pinboard".to_string()));
    assert_eq!(tagged, "a b c @pinboard");
}

#[test]
fn tag_without_user_tags_is_unchanged() {
    let tagged = PinboardBookmark::tag("a b c", &None);
    assert_eq!(tagged, "a b c");
}

#[test]
fn clean_description_collapses_line_breaks() {
    let cleaned = PinboardBookmark::clean_description("  alpha \n\tbeta\r\n gamma \n\r");
    assert_eq!(cleaned, "alpha beta gamma");
}

#[test]
fn clean_description_of_whitespace_is_empty() {
    assert_eq!(PinboardBookmark::clean_description("  \r\n \n\t "), "");
    assert_eq!(PinboardBookmark::clean_description(""), "");
}

#[test]
fn clean_description_single_line_trimmed() {
    assert_eq!(PinboardBookmark::clean_description("  hello world  "), "hello world");
}

#[test]
fn disabled_cleaning_keeps_description_identical() {
    let raw = "line one\n  line two \r\n";
    let mut bm = sample("2017-04-03T15:59:39Z");
    bm.description = raw.to_string();
    let out = bm.into_raindrop("Imported", &None, &false).unwrap();
    assert_eq!(out.description, raw);
}

#[test]
fn folder_is_the_configured_value() {
    let bm = sample("2017-04-03T15:59:39Z")
        .into_raindrop("My Folder", &None, &false)
        .unwrap();
    assert_eq!(bm.folder, "My Folder");
}
