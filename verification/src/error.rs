//! The errors that the library reports.
use vstd::prelude::*;
use vstd::string::*;

verus! {

/// What went wrong, with a message for the operator where there is one.
#[derive(Debug, PartialEq, Eq)]
pub enum Error {
    /// A mapping names a table or a message in a way that cannot be used.
    InvalidMappingConfig(String),
    /// A text could not be read as what it was expected to be.
    ParseError(String),
    /// A column has no field bound to it.
    NoAvailableColumnBinding(String),
    /// A message lacks a field and nothing stands in for it.
    NoProtoDefault(String),
    /// A setting that the run needs is absent.
    MissingConfig(String),
    /// A value of a kind that the export does not know.
    UnknownValueType,
}

/// The mathematical content of an [`Error`].
pub enum ErrorView {
    InvalidMappingConfig(Seq<char>),
    ParseError(Seq<char>),
    NoAvailableColumnBinding(Seq<char>),
    NoProtoDefault(Seq<char>),
    MissingConfig(Seq<char>),
    UnknownValueType,
}

impl View for Error {
    type V = ErrorView;

    open spec fn view(&self) -> ErrorView {
        match self {
            Error::InvalidMappingConfig(m) => ErrorView::InvalidMappingConfig(m@),
            Error::ParseError(m) => ErrorView::ParseError(m@),
            Error::NoAvailableColumnBinding(m) => ErrorView::NoAvailableColumnBinding(m@),
            Error::NoProtoDefault(m) => ErrorView::NoProtoDefault(m@),
            Error::MissingConfig(m) => ErrorView::MissingConfig(m@),
            Error::UnknownValueType => ErrorView::UnknownValueType,
        }
    }
}

/// The content of an outcome that is a text or an error.
pub open spec fn text_result(r: Result<String, Error>) -> Result<Seq<char>, ErrorView> {
    match r {
        Ok(s) => Ok(s@),
        Err(e) => Err(e@),
    }
}

/// A text as the standard library's `Debug` shows a string: between double
/// quotes, with what needs it escaped.
pub uninterp spec fn debug_text(text: Seq<char>) -> Seq<char>;

/// Shows `text` with the `Debug` of `str`, through `format!`. Nothing is
/// proved of the escaping; the contract gives the outcome its name, which
/// rests on the outcome being a function of the text alone.
#[verifier::external_body]
fn debug_string(text: &str) -> (shown: String)
    ensures
        shown@ == debug_text(text@),
{
    format!("{:?}", text)
}

/// What an error's text begins with.
pub open spec fn headline(e: ErrorView) -> Seq<char> {
    match e {
        ErrorView::InvalidMappingConfig(_) => "Invalid mapping configuration: "@,
        ErrorView::ParseError(_) => "Unable to parse: "@,
        ErrorView::NoAvailableColumnBinding(_) => "No column binding available for column: "@,
        ErrorView::NoProtoDefault(_) => "Could not find field or produce default: "@,
        ErrorView::MissingConfig(_) => "Could not find config: "@,
        ErrorView::UnknownValueType => "Unknown value type"@,
    }
}

/// What an error's text goes on with: the message as it is for a mapping
/// that cannot be used, the message as `Debug` shows it for the others that
/// have one.
pub open spec fn detail(e: ErrorView) -> Seq<char> {
    match e {
        ErrorView::InvalidMappingConfig(m) => m,
        ErrorView::ParseError(m) => debug_text(m),
        ErrorView::NoAvailableColumnBinding(m) => debug_text(m),
        ErrorView::NoProtoDefault(m) => debug_text(m),
        ErrorView::MissingConfig(m) => debug_text(m),
        ErrorView::UnknownValueType => Seq::empty(),
    }
}

impl Error {
    /// The text of this error with `detail` behind its headline.
    pub fn with_detail(&self, detail: &str) -> (text: String)
        ensures
            text@ == headline(self@) + detail@,
    {
        let mut text = match self {
            Error::InvalidMappingConfig(_) => "Invalid mapping configuration: ".to_owned(),
            Error::ParseError(_) => "Unable to parse: ".to_owned(),
            Error::NoAvailableColumnBinding(_) => "No column binding available for column: ".to_owned(),
            Error::NoProtoDefault(_) => "Could not find field or produce default: ".to_owned(),
            Error::MissingConfig(_) => "Could not find config: ".to_owned(),
            Error::UnknownValueType => "Unknown value type".to_owned(),
        };
        text.append(detail);
        text
    }

    /// The text of this error, for the operator.
    pub fn to_string(&self) -> (text: String)
        ensures
            text@ == headline(self@) + detail(self@),
    {
        match self {
            Error::InvalidMappingConfig(m) => self.with_detail(m.as_str()),
            Error::ParseError(m) => self.with_detail(debug_string(m.as_str()).as_str()),
            Error::NoAvailableColumnBinding(m) => self.with_detail(debug_string(m.as_str()).as_str()),
            Error::NoProtoDefault(m) => self.with_detail(debug_string(m.as_str()).as_str()),
            Error::MissingConfig(m) => self.with_detail(debug_string(m.as_str()).as_str()),
            Error::UnknownValueType => {
                proof {
                    reveal_strlit("");
                    assert(""@ =~= Seq::<char>::empty());
                }
                self.with_detail("")
            },
        }
    }


    /// A parse error that carries `message`.
    pub fn parse_error(message: &str) -> (e: Error)
        ensures
            e@ == ErrorView::ParseError(message@),
    {
        Error::ParseError(message.to_owned())
    }
}

} // verus!
