use pinboard_to_raindrop::bookmark::RaindropBookmark;
use pinboard_to_raindrop::csvout::to_csv;

fn rd(
    url: &str,
    folder: &str,
    title: &str,
    description: &str,
    tags: &str,
    created: &str,
) -> RaindropBookmark {
    RaindropBookmark {
        url: url.to_string(),
        folder: folder.to_string(),
        title: title.to_string(),
        description: description.to_string(),
        tags: tags.to_string(),
        created: created.to_string(),
    }
}

#[test]
fn plain_record_is_one_row() {
    let bms = vec![rd(
        "http://example.com",
        "Imported",
        "title",
        "a description",
        "a b c @pinboard",
        "2017-04-03T15:59:39Z",
    )];
    assert_eq!(
        to_csv(&bms),
        "url,folder,title,description,tags,created\n\
         http://example.com,Imported,title,a description,a b c @pinboard,2017-04-03T15:59:39Z\n"
    );
}

#[test]
fn special_fields_are_quoted_and_doubled() {
    let bms = vec![rd(
        "u",
        "f",
        "a,b",
        "say \"hi\"",
        "line\nbreak",
        "2017-04-03T15:59:39Z",
    )];
    assert_eq!(
        to_csv(&bms),
        "url,folder,title,description,tags,created\n\
         u,f,\"a,b\",\"say \"\"hi\"\"\",\"line\nbreak\",2017-04-03T15:59:39Z\n"
    );
}

#[test]
fn rows_keep_their_order() {
    let bms = vec![
        rd("first", "f", "t", "d", "g", "c"),
        rd("second", "f", "t", "d", "g", "c"),
    ];
    let text = to_csv(&bms);
    let first = text.find("first").unwrap();
    let second = text.find("second").unwrap();
    assert!(first < second);
}

#[test]
fn encoding_agrees_with_the_csv_crate() {
    let bms = vec![
        rd(
            "http://example.com",
            "Pinboard Imports",
            "a \"quoted\" title",
            "multi\nline, text",
            "a b c",
            "2017-04-03T15:59:39Z",
        ),
        rd("u2", "f2", "t2", "plain", "x y", "2018-01-01T00:00:00Z"),
    ];
    let mut wtr = csv::Writer::from_writer(Vec::new());
    wtr.write_record(["url", "folder", "title", "description", "tags", "created"])
        .unwrap();
    for bm in &bms {
        wtr.write_record([
            bm.url.as_str(),
            bm.folder.as_str(),
            bm.title.as_str(),
            bm.description.as_str(),
            bm.tags.as_str(),
            bm.created.as_str(),
        ])
        .unwrap();
    }
    let reference = String::from_utf8(wtr.into_inner().unwrap()).unwrap();
    assert_eq!(to_csv(&bms), reference);
}
