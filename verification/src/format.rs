//! Which serialization a script file uses, chosen by its file extension.

use vstd::prelude::*;

verus! {

/// A serialization of a script.
#[derive(Clone, Copy, Debug, PartialEq, Eq, Structural)]
pub enum Format {
    Yaml,
    Json,
    Toml,
}

/// Why no format could be chosen for a path.
#[derive(Clone, Debug, PartialEq, Eq)]
pub enum FormatError {
    /// The extension names no known format.
    UnknownExtension(String),
    /// The path has no extension (or one that is not valid UTF-8).
    NoExtension,
}

/// The view of a format error.
pub enum FormatErrorView {
    UnknownExtension(Seq<char>),
    NoExtension,
}

impl View for FormatError {
    type V = FormatErrorView;

    open spec fn view(&self) -> FormatErrorView {
        match self {
            FormatError::UnknownExtension(e) => FormatErrorView::UnknownExtension(e@),
            FormatError::NoExtension => FormatErrorView::NoExtension,
        }
    }
}

/// The format that a file extension names.
pub open spec fn format_of(ext: Option<Seq<char>>) -> Result<Format, FormatErrorView> {
    match ext {
        Some(e) => if e == "yaml"@ || e == "yml"@ {
            Ok(Format::Yaml)
        } else if e == "json"@ {
            Ok(Format::Json)
        } else if e == "toml"@ {
            Ok(Format::Toml)
        } else {
            Err(FormatErrorView::UnknownExtension(e))
        },
        None => Err(FormatErrorView::NoExtension),
    }
}

fn same_text(a: &str, b: &str) -> (r: bool)
    ensures
        r == (a@ == b@),
{
    a.to_owned() == b.to_owned()
}

impl Format {
    /// Chooses the format of a script file from its extension.
    pub fn for_extension(ext: Option<&str>) -> (r: Result<Format, FormatError>)
        ensures
            match format_of(
                match ext {
                    Some(e) => Some(e@),
                    None => None,
                },
            ) {
                Ok(f) => r == Ok::<Format, FormatError>(f),
                Err(e) => r matches Err(x) && x@ == e,
            },
    {
        match ext {
            Some(e) => {
                if same_text(e, "yaml") || same_text(e, "yml") {
                    Ok(Format::Yaml)
                } else if same_text(e, "json") {
                    Ok(Format::Json)
                } else if same_text(e, "toml") {
                    Ok(Format::Toml)
                } else {
                    Err(FormatError::UnknownExtension(e.to_owned()))
                }
            },
            None => Err(FormatError::NoExtension),
        }
    }
}

} // verus!
