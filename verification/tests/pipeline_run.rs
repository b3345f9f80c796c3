use pinboard_to_raindrop::bookmark::PinboardBookmark;
use pinboard_to_raindrop::csvout::to_csv;
use pinboard_to_raindrop::fetch::{check_status, posts_url, FetchError, PB_ENDPOINT};
use pinboard_to_raindrop::pipeline::run_pipeline;
use pinboard_to_raindrop::report::stats;

fn record(url: &str, created: &str) -> PinboardBookmark {
    PinboardBookmark {
        url: url.to_string(),
        title: "title".to_string(),
        created: created.to_string(),
        description: "desc".to_string(),
        tags: "a".to_string(),
    }
}

#[test]
fn http_500_is_token_error() {
    assert_eq!(check_status(500), Err(FetchError::InvalidToken));
}

#[test]
fn http_200_proceeds() {
    assert_eq!(check_status(200), Ok(()));
}

#[test]
fn other_statuses_carry_their_code() {
    assert_eq!(check_status(404), Err(FetchError::UpstreamStatus(404)));
    assert_eq!(check_status(301), Err(FetchError::UpstreamStatus(301)));
}

#[test]
fn posts_url_shape() {
    let url = posts_url("johndoe:xxx");
    assert_eq!(
        url,
        format!("{}/posts/all?auth_token={}&format=json", PB_ENDPOINT, "johndoe:xxx")
    );
    assert_eq!(
        url,
        "https://api.pinboard.in/v1/posts/all?auth_token=johndoe:xxx&format=json"
    );
}

#[test]
fn pipeline_counts_and_order() {
    let bms = vec![
        record("one", "2017-04-03T15:59:39Z"),
        record("two", "2017/04/03"),
        record("three", "2018-01-01T00:00:00Z"),
        record("four", "nope"),
        record("five", "2019-06-30T23:59:60Z"),
    ];
    let (oks, n_err) = run_pipeline(bms, "Imported", &None, &false);
    assert_eq!(n_err, 2);
    assert_eq!(oks.len(), 3);
    assert_eq!(oks[0].url, "one");
    assert_eq!(oks[1].url, "three");
    assert_eq!(oks[2].url, "five");
}

#[test]
fn pipeline_of_all_failures_is_a_successful_empty_run() {
    let bms = vec![record("a", "bad"), record("b", "worse")];
    let (oks, n_err) = run_pipeline(bms, "Imported", &None, &false);
    assert_eq!(oks.len(), 0);
    assert_eq!(n_err, 2);
    let text = to_csv(&oks);
    assert_eq!(text, "url,folder,title,description,tags,created\n");
}

#[test]
fn stats_lines_show_exact_counts() {
    let (ok_line, err_line) = stats(3, 2);
    assert_eq!(ok_line, "\u{2713} 3 bookmarks successfully processed");
    assert_eq!(err_line, "\u{2715} 2 bookmark processing errors ");
}

#[test]
fn stats_lines_with_zero_counts() {
    let (ok_line, err_line) = stats(0, 0);
    assert_eq!(ok_line, "\u{2713} 0 bookmarks successfully processed");
    assert_eq!(err_line, "\u{2715} 0 bookmark processing errors ");
}

#[test]
fn stats_lines_with_large_counts() {
    let (ok_line, err_line) = stats(1204, 10);
    assert_eq!(ok_line, "\u{2713} 1204 bookmarks successfully processed");
    assert_eq!(err_line, "\u{2715} 10 bookmark processing errors ");
}

#[test]
fn csv_rows_match_success_count() {
    let bms = vec![
        record("one", "2017-04-03T15:59:39Z"),
        record("two", "2017/04/03"),
        record("three", "2018-01-01T00:00:00Z"),
    ];
    let (oks, n_err) = run_pipeline(bms, "Imported", &None, &false);
    assert_eq!((oks.len(), n_err), (2, 1));
    let text = to_csv(&oks);
    // plain fields: the row count is the line count minus the header
    assert_eq!(text.lines().count(), 1 + oks.len());
}
