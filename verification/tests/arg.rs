use s3find::Cmd;
use s3find::FindError;
use s3find::FindOpt;
use s3find::FindSize;
use s3find::FindTag;
use s3find::FindTime;
use s3find::InameGlob;
use s3find::S3path;
use s3find::parse_name_glob;
use s3find::parse_regex;

#[test]
fn s3path_corect() {
    let url = "s3://testbucket/";
    let path = S3path::from_str(url).unwrap();
    assert_eq!(path.bucket, "testbucket", "This should be 'testbucket'");
    assert_eq!(
        path.prefix,
        Some("".to_string()),
        "This should be empty path"
    );
}

#[test]
fn s3path_correct_full() {
    let url = "s3://testbucket/path";
    let path = S3path::from_str(url).unwrap();
    assert_eq!(path.bucket, "testbucket", "This should be 'testbucket'");
    assert_eq!(
        path.prefix,
        Some("path".to_string()),
        "This should be 'path'"
    );
}

#[test]
fn s3path_correct_short() {
    let url = "s3://testbucket";
    let path = S3path::from_str(url).unwrap();
    assert_eq!(path.bucket, "testbucket", "This should be 'testbucket'");
    assert_eq!(path.prefix, None, "This should be None");
}

#[test]
fn s3path_only_bucket() {
    let url = "testbucket";
    let path = S3path::from_str(url);
    assert!(
        path.is_err(),
        "This s3 url should not be validated posivitely"
    );
}

#[test]
fn s3path_without_bucket() {
    let url = "s3://";
    let path = S3path::from_str(url);
    assert!(
        path.is_err(),
        "This s3 url should not be validated posivitely"
    );
}

#[test]
fn s3path_without_2_slash() {
    let url = "s3:/testbucket";
    let path = S3path::from_str(url);
    assert!(
        path.is_err(),
        "This s3 url should not be validated posivitely"
    );
}

#[test]
fn size_corect() {
    let size_str = "1111";
    let size = FindSize::from_str(size_str);

    assert_eq!(size.ok(), Some(FindSize::Equal(1111)), "should be equal");
}

#[test]
fn size_corect_k() {
    let size_str = "1111k";
    let size = FindSize::from_str(size_str);

    assert_eq!(
        size.ok(),
        Some(FindSize::Equal(1111 * 1024)),
        "should be equal"
    );
}

#[test]
fn size_corect_positive() {
    let size_str = "+1111";
    let size = FindSize::from_str(size_str);

    assert_eq!(size.ok(), Some(FindSize::Bigger(1111)), "should be upper");
}

#[test]
fn size_corect_positive_k() {
    let size_str = "+1111k";
    let size = FindSize::from_str(size_str);

    assert_eq!(
        size.ok(),
        Some(FindSize::Bigger(1111 * 1024)),
        "should be upper"
    );
}

#[test]
fn size_corect_negative() {
    let size_str = "-1111";
    let size = FindSize::from_str(size_str);

    assert_eq!(size.ok(), Some(FindSize::Lower(1111)), "should be lower");
}

#[test]
fn size_corect_negative_k() {
    let size_str = "-1111k";
    let size = FindSize::from_str(size_str);

    assert_eq!(
        size.ok(),
        Some(FindSize::Lower(1111 * 1024)),
        "should be lower"
    );
}

#[test]
fn size_incorect_negative() {
    let size_str = "-";
    let size = FindSize::from_str(size_str);

    assert!(size.is_err(), "Should be error");
}

#[test]
fn size_incorect_negative_s() {
    let size_str = "-123w";
    let size = FindSize::from_str(size_str);

    assert!(size.is_err(), "Should be error");
}

#[test]
fn time_corect() {
    let time_str = "1111";
    let time = FindTime::from_str(time_str);

    assert!(time.is_ok(), "Should be ok");
    assert_eq!(time.ok(), Some(FindTime::Upper(1111)), "Should be upper");
}

#[test]
fn time_corect_m() {
    let time_str = "10m";
    let time = FindTime::from_str(time_str);

    assert!(time.is_ok(), "Should be ok");
    assert_eq!(time.ok(), Some(FindTime::Upper(600)), "Should be upper");
}

#[test]
fn time_corect_positive() {
    let time_str = "+1111";
    let time = FindTime::from_str(time_str);

    assert!(time.is_ok(), "Should be ok");
    assert_eq!(time.ok(), Some(FindTime::Upper(1111)), "Should be upper");
}

#[test]
fn time_corect_positive_m() {
    let time_str = "+10m";
    let time = FindTime::from_str(time_str);

    assert!(time.is_ok(), "Should be ok");
    assert_eq!(time.ok(), Some(FindTime::Upper(600)), "Should be upper");
}

#[test]
fn time_corect_negative_m() {
    let time_str = "-10m";
    let time = FindTime::from_str(time_str);

    assert!(time.is_ok(), "Should be ok");
    assert_eq!(time.ok(), Some(FindTime::Lower(600)), "Should be upper");
}

#[test]
fn time_corect_negative() {
    let time_str = "-1111";
    let time = FindTime::from_str(time_str);

    assert!(time.is_ok(), "Should be ok");
    assert_eq!(time.ok(), Some(FindTime::Lower(1111)), "Should be lower");
}

#[test]
fn time_incorect_negative() {
    let time_str = "-";
    let time = FindTime::from_str(time_str);
    assert!(time.is_err(), "Should be error");
}

#[test]
fn time_incorect_negative_t() {
    let time_str = "-10t";
    let time = FindTime::from_str(time_str);
    assert!(time.is_err(), "Should be error");
}

#[test]
fn time_incorect_positive() {
    let time_str = "+";
    let time = FindTime::from_str(time_str);
    assert!(time.is_err(), "Should be error");
}

#[test]
fn time_incorect_positive_t() {
    let time_str = "+10t";
    let time = FindTime::from_str(time_str);
    assert!(time.is_err(), "Should be error");
}

#[test]
fn tag_ok() {
    let str = "tag1:value2";
    let tag = FindTag::from_str(str);
    assert!(tag.is_ok(), "Should be ok");
    let ftag = tag.unwrap();
    assert_eq!(ftag.key, "tag1", "Should be tag1");
    assert_eq!(ftag.value, "value2", "Should be value2");
}

#[test]
fn tag_incorect_1() {
    let str = "tag1value2";
    let time = FindTag::from_str(str);
    assert!(time.is_err(), "Should not be parsed");
}

#[test]
fn tag_incorect_2() {
    let str = "tag1:value2:";
    let time = FindTag::from_str(str);
    assert!(time.is_err(), "Should not be parsed");
}

#[test]
fn tag_incorect_3() {
    let str = ":";
    let time = FindTag::from_str(str);
    assert!(time.is_err(), "Should not be parsed");
}

#[test]
fn s3path_multi_segment_prefix_takes_first() {
    let path = S3path::from_str("s3://bucket/a/b").unwrap();
    assert_eq!(path.bucket, "bucket");
    assert_eq!(path.prefix, Some("a".to_string()));
}

#[test]
fn s3path_error_kind() {
    assert_eq!(S3path::from_str("http://bucket"), Err(FindError::S3Parse));
    assert_eq!(S3path::from_str(""), Err(FindError::S3Parse));
}

#[test]
fn size_units_all() {
    assert_eq!(FindSize::from_str("2M").ok(), Some(FindSize::Equal(2 * 1024 * 1024)));
    assert_eq!(FindSize::from_str("2G").ok(), Some(FindSize::Equal(2 * 1024 * 1024 * 1024)));
    assert_eq!(
        FindSize::from_str("2T").ok(),
        Some(FindSize::Equal(2 * 1024_i64.pow(4)))
    );
    assert_eq!(
        FindSize::from_str("2P").ok(),
        Some(FindSize::Equal(2 * 1024_i64.pow(5)))
    );
}

#[test]
fn size_anchored_at_end() {
    // the grammar is anchored at the end of the string, so only the
    // trailing digit run counts
    assert_eq!(FindSize::from_str("abc123").ok(), Some(FindSize::Equal(123)));
    assert!(FindSize::from_str("123x").is_err());
}

#[test]
fn size_error_kind() {
    assert_eq!(FindSize::from_str("-"), Err(FindError::SizeParse));
    assert_eq!(FindSize::from_str(""), Err(FindError::SizeParse));
    assert_eq!(FindSize::from_str("k"), Err(FindError::SizeParse));
}

#[test]
fn size_overflow_is_an_error() {
    // 8191 petabytes still fit a signed 64-bit byte count; 8192 do not
    assert!(FindSize::from_str("8191P").is_ok());
    assert!(FindSize::from_str("8192P").is_err());
    assert!(FindSize::from_str("99999999999999999999").is_err());
}

#[test]
fn size_round_trip_canonical() {
    // re-parsing the canonical decimal form of a parsed size yields the
    // same value
    let parsed = FindSize::from_str("1111k").unwrap();
    assert_eq!(parsed, FindSize::Equal(1137664));
    assert_eq!(FindSize::from_str("1137664").unwrap(), parsed);

    let parsed = FindSize::from_str("+3G").unwrap();
    assert_eq!(parsed, FindSize::Bigger(3221225472));
    assert_eq!(FindSize::from_str("+3221225472").unwrap(), parsed);

    let parsed = FindSize::from_str("-2M").unwrap();
    assert_eq!(parsed, FindSize::Lower(2097152));
    assert_eq!(FindSize::from_str("-2097152").unwrap(), parsed);
}

#[test]
fn time_units_all() {
    assert_eq!(FindTime::from_str("5s").ok(), Some(FindTime::Upper(5)));
    assert_eq!(FindTime::from_str("2h").ok(), Some(FindTime::Upper(7200)));
    assert_eq!(FindTime::from_str("1d").ok(), Some(FindTime::Upper(86400)));
    assert_eq!(FindTime::from_str("2w").ok(), Some(FindTime::Upper(1209600)));
}

#[test]
fn time_error_kind() {
    assert_eq!(FindTime::from_str(""), Err(FindError::TimeParse));
    assert_eq!(FindTime::from_str("m"), Err(FindError::TimeParse));
}

#[test]
fn time_round_trip_canonical() {
    // re-parsing the canonical decimal form of a parsed time yields the
    // same value
    let parsed = FindTime::from_str("+10m").unwrap();
    assert_eq!(parsed, FindTime::Upper(600));
    assert_eq!(FindTime::from_str("600").unwrap(), parsed);

    let parsed = FindTime::from_str("-10m").unwrap();
    assert_eq!(parsed, FindTime::Lower(600));
    assert_eq!(FindTime::from_str("-600").unwrap(), parsed);
}

#[test]
fn tag_error_kinds() {
    assert_eq!(FindTag::from_str("tag1value2"), Err(FindError::TagParseError));
    assert_eq!(FindTag::from_str("tag1:value2:"), Err(FindError::TagValueParseError));
    assert_eq!(FindTag::from_str("key:va lue"), Err(FindError::TagValueParseError));
    assert_eq!(FindTag::from_str(":value"), Err(FindError::TagKeyParseError));
    assert_eq!(FindTag::from_str(":"), Err(FindError::TagValueParseError));
}

#[test]
fn tag_anchored_at_end() {
    // the grammar is anchored at the end of the string: the pair around the
    // last colon wins
    let tag = FindTag::from_str("a:b:c").unwrap();
    assert_eq!(tag.key, "b");
    assert_eq!(tag.value, "c");
}

#[test]
fn size_unicode_digit_in_run_is_an_error() {
    // an Arabic-Indic digit joins the digit run, and no integer can be
    // read from a run that is not plain 0-9
    assert_eq!(FindSize::from_str("\u{663}3"), Err(FindError::SizeParse));
    assert_eq!(FindSize::from_str("\u{663}"), Err(FindError::SizeParse));
    assert_eq!(FindSize::from_str("+\u{663}3k"), Err(FindError::SizeParse));
    // a non-digit character does not join the run; the ASCII tail parses
    assert_eq!(FindSize::from_str("\u{2192}3").ok(), Some(FindSize::Equal(3)));
}

#[test]
fn time_unicode_digit_in_run_is_an_error() {
    assert_eq!(FindTime::from_str("\u{663}3"), Err(FindError::TimeParse));
    assert_eq!(FindTime::from_str("-\u{663}3m"), Err(FindError::TimeParse));
    assert_eq!(FindTime::from_str("\u{2192}3").ok(), Some(FindTime::Upper(3)));
}

#[test]
fn tag_unicode_words() {
    // word characters beyond ASCII are accepted, as the regex \w class has
    // them
    let tag = FindTag::from_str("\u{43a}\u{43b}\u{44e}\u{447}:\u{431}").unwrap();
    assert_eq!(tag.key, "\u{43a}\u{43b}\u{44e}\u{447}");
    assert_eq!(tag.value, "\u{431}");
    // a non-word character is still rejected wherever it lands
    assert_eq!(
        FindTag::from_str("a:\u{2192}"),
        Err(FindError::TagValueParseError)
    );
    assert_eq!(
        FindTag::from_str("\u{2192}:b"),
        Err(FindError::TagKeyParseError)
    );
}

#[test]
fn error_messages() {
    assert_eq!(FindError::S3Parse.message(), "Invalid s3 path");
    assert_eq!(FindError::SizeParse.message(), "Invalid size parameter");
    assert_eq!(FindError::TimeParse.message(), "Invalid mtime parameter");
    assert_eq!(FindError::TagParseError.message(), "Cannot parse tag");
    assert_eq!(FindError::TagKeyParseError.message(), "Cannot parse tag key");
    assert_eq!(FindError::TagValueParseError.message(), "Cannot parse tag value");
}

#[test]
fn glob_patterns_compile() {
    assert!(parse_name_glob("*.txt").is_ok());
    assert!(parse_name_glob("a[!b").is_err());
    assert!(InameGlob::from_str("photo-????.jpg").is_ok());
    assert!(InameGlob::from_str("***").is_err());
}

#[test]
fn glob_pattern_is_kept() {
    let glob = parse_name_glob("*.rs").unwrap();
    assert!(glob.matches("lib.rs"));
    assert!(!glob.matches("lib.txt"));
    let iglob = InameGlob::from_str("*.RS").unwrap();
    assert!(iglob.0.matches("lib.RS"));
}

#[test]
fn regex_patterns_compile() {
    assert!(parse_regex(r"^\d+$").is_ok());
    assert!(parse_regex("(unclosed").is_err());
}

#[test]
fn regex_pattern_is_kept() {
    let re = parse_regex(r"^\d+$").unwrap();
    assert!(re.is_match("123"));
    assert!(!re.is_match("12a"));
}

#[test]
fn empty_request_is_valid() {
    // a request with zero filters and zero action matches everything and
    // is well-formed
    let path = S3path::from_str("s3://bucket/prefix").unwrap();
    let opts = FindOpt::new(path);
    assert!(opts.validate());
    assert!(opts.name.is_empty());
    assert!(opts.iname.is_empty());
    assert!(opts.regex.is_empty());
    assert!(opts.mtime.is_empty());
    assert!(opts.size.is_empty());
    assert!(opts.cmd.is_none());
    assert_eq!(opts.path.bucket, "bucket");
}

#[test]
fn request_validation() {
    let path = S3path::from_str("s3://bucket").unwrap();

    let mut opts = FindOpt::new(path);
    opts.aws_access_key = Some("key".to_string());
    assert!(!opts.validate(), "access key without secret key");
    opts.aws_secret_key = Some("secret".to_string());
    assert!(opts.validate(), "both credentials");

    opts.cmd = Some(Cmd::Tags { tags: vec![] });
    assert!(!opts.validate(), "setting tags needs at least one tag");
    opts.cmd = Some(Cmd::Tags {
        tags: vec![FindTag::from_str("tag1:value2").unwrap()],
    });
    assert!(opts.validate());
    opts.cmd = Some(Cmd::Download {
        force: true,
        destination: "target".to_string(),
    });
    assert!(opts.validate());
}
