use m3u8_downloader_rs::cli::{parse_args, Args, CliError};

fn parse(line: &[&str]) -> Result<Args, CliError> {
    let argv: Vec<String> = line.iter().map(|s| s.to_string()).collect();
    parse_args(&argv)
}

fn defaults(url: &str) -> Args {
    Args {
        url: url.to_string(),
        output_dir: "output".to_string(),
        output_video: "output_video.mp4".to_string(),
        threads: 10,
        ffmpeg_path: None,
        no_merge: false,
        keep_segments: false,
        headers: Vec::new(),
    }
}

#[test]
fn url_alone_takes_every_default() {
    assert_eq!(parse(&["prog", "--url", "https://a.example/m.m3u8"]), Ok(defaults("https://a.example/m.m3u8")));
    assert_eq!(parse(&["prog", "-u", "https://a.example/m.m3u8"]), Ok(defaults("https://a.example/m.m3u8")));
    assert_eq!(parse(&["prog", "--url=https://a.example/m.m3u8?x=1"]), Ok(defaults("https://a.example/m.m3u8?x=1")));
}

#[test]
fn every_option_is_read() {
    let parsed = parse(&[
        "prog", "-o", "dl", "--output-video", "film.mp4", "-t", "4", "--ffmpeg-path",
        "/opt/ffmpeg", "--no-merge", "--keep-segments", "-H", "Cookie: a=b", "--header",
        "Referer: https://a.example/", "-u", "https://a.example/m.m3u8",
    ]);
    assert_eq!(
        parsed,
        Ok(Args {
            url: "https://a.example/m.m3u8".to_string(),
            output_dir: "dl".to_string(),
            output_video: "film.mp4".to_string(),
            threads: 4,
            ffmpeg_path: Some("/opt/ffmpeg".to_string()),
            no_merge: true,
            keep_segments: true,
            headers: vec!["Cookie: a=b".to_string(), "Referer: https://a.example/".to_string()],
        })
    );
}

#[test]
fn long_options_take_values_after_an_equals_sign() {
    let parsed = parse(&[
        "prog", "--output-dir=dl", "--threads=32", "--header=X-A: 1=2", "--url=u", "--output-video=",
    ]);
    let mut expected = defaults("u");
    expected.output_dir = "dl".to_string();
    expected.threads = 32;
    expected.output_video = String::new();
    expected.headers = vec!["X-A: 1=2".to_string()];
    assert_eq!(parsed, Ok(expected));
}

#[test]
fn a_value_may_look_like_an_option() {
    let mut expected = defaults("--no-merge");
    expected.headers = vec!["-H".to_string()];
    assert_eq!(parse(&["prog", "-u", "--no-merge", "-H", "-H"]), Ok(expected));
}

#[test]
fn the_first_argument_is_passed_over() {
    assert_eq!(parse(&["--no-merge", "-u", "x"]), Ok(defaults("x")));
    assert_eq!(parse(&[]), Err(CliError::MissingUrl));
    assert_eq!(parse(&["prog"]), Err(CliError::MissingUrl));
    assert_eq!(parse(&["prog", "--no-merge"]), Err(CliError::MissingUrl));
}

#[test]
fn unknown_arguments_are_refused() {
    assert_eq!(parse(&["prog", "-u", "x", "extra"]), Err(CliError::UnknownArgument { index: 3 }));
    assert_eq!(parse(&["prog", "--nope"]), Err(CliError::UnknownArgument { index: 1 }));
    assert_eq!(parse(&["prog", "-u=x"]), Err(CliError::UnknownArgument { index: 1 }));
    assert_eq!(parse(&["prog", "--nope=1", "-u", "x"]), Err(CliError::UnknownArgument { index: 1 }));
    assert_eq!(parse(&["prog", ""]), Err(CliError::UnknownArgument { index: 1 }));
    assert_eq!(parse(&["prog", "--URL", "x"]), Err(CliError::UnknownArgument { index: 1 }));
}

#[test]
fn flags_take_no_value() {
    assert_eq!(parse(&["prog", "-u", "x", "--no-merge=yes"]), Err(CliError::UnexpectedValue { index: 3 }));
    assert_eq!(parse(&["prog", "--keep-segments="]), Err(CliError::UnexpectedValue { index: 1 }));
    assert_eq!(parse(&["prog", "--help=now"]), Err(CliError::UnexpectedValue { index: 1 }));
}

#[test]
fn an_option_at_the_end_misses_its_value() {
    assert_eq!(parse(&["prog", "-u"]), Err(CliError::MissingValue { index: 1 }));
    assert_eq!(parse(&["prog", "-u", "x", "--threads"]), Err(CliError::MissingValue { index: 3 }));
    assert_eq!(parse(&["prog", "-u", "x", "-H"]), Err(CliError::MissingValue { index: 3 }));
}

#[test]
fn only_headers_may_repeat() {
    assert_eq!(parse(&["prog", "-u", "x", "--url", "y"]), Err(CliError::Repeated { index: 3 }));
    assert_eq!(parse(&["prog", "-o", "a", "-o", "b"]), Err(CliError::Repeated { index: 3 }));
    assert_eq!(parse(&["prog", "--output-video=a", "--output-video=b"]), Err(CliError::Repeated { index: 2 }));
    assert_eq!(parse(&["prog", "-t", "1", "-t", "zz"]), Err(CliError::Repeated { index: 3 }));
    assert_eq!(parse(&["prog", "--ffmpeg-path", "a", "--ffmpeg-path", "b"]), Err(CliError::Repeated { index: 3 }));
    assert_eq!(parse(&["prog", "--no-merge", "--no-merge"]), Err(CliError::Repeated { index: 2 }));
    assert_eq!(parse(&["prog", "--keep-segments", "--keep-segments"]), Err(CliError::Repeated { index: 2 }));
}

#[test]
fn threads_must_be_a_number_that_fits() {
    assert_eq!(parse(&["prog", "-t", "four"]), Err(CliError::InvalidThreads { index: 1 }));
    assert_eq!(parse(&["prog", "-t", ""]), Err(CliError::InvalidThreads { index: 1 }));
    assert_eq!(parse(&["prog", "-t", "-1"]), Err(CliError::InvalidThreads { index: 1 }));
    assert_eq!(parse(&["prog", "-t", "+1"]), Err(CliError::InvalidThreads { index: 1 }));
    assert_eq!(parse(&["prog", "-t", "1 "]), Err(CliError::InvalidThreads { index: 1 }));
    assert_eq!(
        parse(&["prog", "--threads=99999999999999999999999999"]),
        Err(CliError::InvalidThreads { index: 1 })
    );
    let mut expected = defaults("x");
    expected.threads = 0;
    assert_eq!(parse(&["prog", "-t", "000", "-u", "x"]), Ok(expected));
    let mut expected = defaults("x");
    expected.threads = usize::MAX;
    let most = usize::MAX.to_string();
    assert_eq!(parse(&["prog", "-t", &most, "-u", "x"]), Ok(expected));
}

#[test]
fn help_and_version_end_the_reading() {
    assert_eq!(parse(&["prog", "-h"]), Err(CliError::HelpRequested));
    assert_eq!(parse(&["prog", "-u", "x", "--help", "junk"]), Err(CliError::HelpRequested));
    assert_eq!(parse(&["prog", "-V"]), Err(CliError::VersionRequested));
    assert_eq!(parse(&["prog", "--version", "--help"]), Err(CliError::VersionRequested));
    assert_eq!(parse(&["prog", "junk", "--help"]), Err(CliError::UnknownArgument { index: 1 }));
}
