use git_fixture::format::{Format, FormatError};

#[test]
fn format_by_extension() {
    assert_eq!(Format::for_extension(Some("yaml")), Ok(Format::Yaml));
    assert_eq!(Format::for_extension(Some("yml")), Ok(Format::Yaml));
    assert_eq!(Format::for_extension(Some("json")), Ok(Format::Json));
    assert_eq!(Format::for_extension(Some("toml")), Ok(Format::Toml));
}

#[test]
fn format_errors() {
    assert_eq!(
        Format::for_extension(Some("txt")),
        Err(FormatError::UnknownExtension(String::from("txt")))
    );
    assert_eq!(
        Format::for_extension(Some("YAML")),
        Err(FormatError::UnknownExtension(String::from("YAML")))
    );
    assert_eq!(Format::for_extension(None), Err(FormatError::NoExtension));
}
