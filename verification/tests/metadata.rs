use sitegen::metadata::{ParseFault, PostDate, PostMetadataParser};

#[test]
fn working() {
    let date = PostDate::parse(b"01-02-1970").unwrap();
    assert_eq!(
        date,
        PostDate {
            day: 1,
            month: 2,
            year: 1970,
        }
    );
}

#[test]
fn missing_fields() {
    assert!(PostDate::parse(b"-02-1970").is_none());
    assert!(PostDate::parse(b"01--1970").is_none());
    assert!(PostDate::parse(b"01-02-").is_none());
}

#[test]
fn missing_colon() {
    assert!(PostMetadataParser::parse(b"   missing colon\n").is_err());
}

#[test]
fn invalid_key() {
    assert!(PostMetadataParser::parse(b"   x: y\n").is_err());
}

#[test]
fn list_empty() {
    assert!(PostMetadataParser::parse(b"categories: a,   ,b\n").is_err());
}

#[test]
fn test_metadata() {
    let metadata =
        PostMetadataParser::parse(b"date: 01-02-1970\ncategories: A, B, C\n\n# Title \n\ncontent")
            .unwrap();
    assert_eq!(
        metadata.date(),
        &PostDate {
            day: 1,
            month: 2,
            year: 1970
        }
    );
    assert_eq!(metadata.title(), "Title ");
    assert_eq!(
        metadata.categories().as_slice(),
        ["A".to_string(), "B".to_string(), "C".to_string()]
    );
}

#[test]
fn date_range_checks() {
    assert!(PostDate::parse(b"00-02-1970").is_none());
    assert!(PostDate::parse(b"32-02-1970").is_none());
    assert!(PostDate::parse(b"01-00-1970").is_none());
    assert!(PostDate::parse(b"01-13-1970").is_none());
    assert!(PostDate::parse(b"01-02-1969").is_none());
    assert!(PostDate::parse(b"01-02-10000").is_none());
    assert!(PostDate::parse(b"01-02-1970 ").is_none());
    assert!(PostDate::parse(b"0001-0002-1970").is_some());
}

#[test]
fn error_faults_and_lines() {
    let err = PostMetadataParser::parse(b"   missing colon\n").unwrap_err();
    assert_eq!(err.fault(), ParseFault::MissingColon);
    assert_eq!(err.line(), 1);

    let err = PostMetadataParser::parse(b"date: nonsense\n").unwrap_err();
    assert_eq!(err.fault(), ParseFault::InvalidDate);

    let err = PostMetadataParser::parse(b"startpage: maybe\n").unwrap_err();
    assert_eq!(err.fault(), ParseFault::InvalidBool);

    let err =
        PostMetadataParser::parse(b"date: 01-02-1970\ncategories: a\n\nno hash\n").unwrap_err();
    assert_eq!(err.fault(), ParseFault::NoTitleHash);
    assert_eq!(err.line(), 4);

    let err = PostMetadataParser::parse(b"date: 01-02-1970\n\n# T\n\ncontent").unwrap_err();
    assert_eq!(err.fault(), ParseFault::NoCategories);

    let err = PostMetadataParser::parse(b"categories: a\n\n# T\n\ncontent").unwrap_err();
    assert_eq!(err.fault(), ParseFault::NoDate);

    let err = PostMetadataParser::parse(b"date: 01-02-1970\ncategories: a\n\n# T\n").unwrap_err();
    assert_eq!(err.fault(), ParseFault::NoContent);

    let msg = err.message();
    assert_eq!(msg, "Parsing Error in line 5: No content in post");
}

#[test]
fn mirror_and_startpage() {
    let metadata = PostMetadataParser::parse(
        b"date: 01-02-1970\ncategories: a\nmirror: https://example.org/x\nstartpage: true\n\n# T\n",
    )
    .unwrap();
    assert_eq!(metadata.mirror().unwrap(), "https://example.org/x");
    assert!(metadata.startpage());

    let metadata =
        PostMetadataParser::parse(b"date: 01-02-1970\ncategories: a\n\n# T\n\nbody").unwrap();
    assert!(metadata.mirror().is_none());
    assert!(!metadata.startpage());
    assert_eq!(metadata.start_content(), 37);
}
