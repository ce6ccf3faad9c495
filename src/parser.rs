use crate::model::{current_section, lemma_error_persists, parse_spec, LocaleView, Section};
use vstd::prelude::*;

verus! {

/// A locale identifier of the form `language[_COUNTRY][.ENCODING][@MODIFIER]`.
#[derive(Debug, PartialEq)]
pub struct Locale {
    pub language: String,
    pub country: Option<String>,
    pub encoding: Option<String>,
    pub modifier: Option<String>,
}

/// Why a text is not a locale identifier.
#[derive(Debug, PartialEq)]
pub enum Error {
    /// A delimiter that came after its section, or after a later one, was opened:
    /// the character, its index counted in characters, and the whole text.
    UnexpectedCharacterRecieved(char, usize, String),
}

pub open spec fn opt_view(o: Option<String>) -> Option<Seq<char>> {
    match o {
        Some(s) => Some(s@),
        None => None,
    }
}

impl View for Locale {
    type V = LocaleView;

    open spec fn view(&self) -> LocaleView {
        LocaleView {
            language: self.language@,
            country: opt_view(self.country),
            encoding: opt_view(self.encoding),
            modifier: opt_view(self.modifier),
        }
    }
}

/// What parsing `text` owes: the locale that `parse_spec` gives, or the error with
/// the offending character, its index and the whole text.
pub open spec fn parses_to(text: Seq<char>, r: Result<Locale, Error>) -> bool {
    match r {
        Ok(l) => parse_spec(text) == Ok::<LocaleView, (char, int)>(l@),
        Err(Error::UnexpectedCharacterRecieved(c, i, t)) => parse_spec(text) == Err::<
            LocaleView,
            (char, int),
        >((c, i as int)) && t@ == text,
    }
}

/// Relies on String::push: appends one character to the end of the string.
#[verifier::external_body]
fn push_char(s: &mut String, c: char)
    ensures
        final(s)@ == old(s)@.push(c),
{
    s.push(c);
}

/// The characters of `text`, in order.
fn chars_of(text: &str) -> (v: Vec<char>)
    ensures
        v@ == text@,
{
    let mut v: Vec<char> = Vec::new();
    for c in it: text.chars()
        invariant
            v@ == it.seq().take(it.index() as int),
    {
        v.push(c);
    }
    assert(v@ == text@);
    v
}

/// The locale that the scan's buffers stand for.
spec fn buffers_view(
    language: String,
    country: String,
    has_country: bool,
    encoding: String,
    has_encoding: bool,
    modifier: String,
    section: Section,
) -> LocaleView {
    LocaleView {
        language: language@,
        country: if has_country {
            Some(country@)
        } else {
            None
        },
        encoding: if has_encoding {
            Some(encoding@)
        } else {
            None
        },
        modifier: if section == Section::Modifier {
            Some(modifier@)
        } else {
            None
        },
    }
}

impl Locale {
    /// Parses `text` in one pass over its characters. A literal character goes to the
    /// most recently opened section; `_`, `.` and `@` open the country, the encoding
    /// and the modifier, each only while no section at or after it is open.
    pub fn parse(text: &str) -> (r: Result<Locale, Error>)
        ensures
            parses_to(text@, r),
    {
        let chars = chars_of(text);
        let mut language = String::new();
        let mut country = String::new();
        let mut encoding = String::new();
        let mut modifier = String::new();
        let mut has_country = false;
        let mut has_encoding = false;
        let mut section = Section::Language;
        let mut i: usize = 0;
        while i < chars.len()
            invariant
                chars@ == text@,
                i <= chars.len(),
                parse_spec(text@.take(i as int)) == Ok::<LocaleView, (char, int)>(
                    buffers_view(
                        language,
                        country,
                        has_country,
                        encoding,
                        has_encoding,
                        modifier,
                        section,
                    ),
                ),
                current_section(
                    buffers_view(
                        language,
                        country,
                        has_country,
                        encoding,
                        has_encoding,
                        modifier,
                        section,
                    ),
                ) == section,
                !has_country ==> country@ == Seq::<char>::empty(),
                !has_encoding ==> encoding@ == Seq::<char>::empty(),
                section != Section::Modifier ==> modifier@ == Seq::<char>::empty(),
            decreases chars.len() - i,
        {
            let c = chars[i];
            let ghost before = text@.take(i as int);
            let ghost upto = text@.take(i + 1);
            assert(upto.drop_last() =~= before);
            assert(upto.last() == c);
            let refused = if c == '_' {
                section != Section::Language
            } else if c == '.' {
                section == Section::Encoding || section == Section::Modifier
            } else if c == '@' {
                section == Section::Modifier
            } else {
                false
            };
            if refused {
                proof {
                    lemma_error_persists(upto, text@.skip(i + 1));
                    assert(upto + text@.skip(i + 1) =~= text@);
                }
                return Err(Error::UnexpectedCharacterRecieved(c, i, text.to_owned()));
            }
            if c == '_' {
                has_country = true;
                section = Section::Country;
            } else if c == '.' {
                has_encoding = true;
                section = Section::Encoding;
            } else if c == '@' {
                section = Section::Modifier;
            } else {
                match section {
                    Section::Language => {
                        let ghost o = language@;
                        push_char(&mut language, c);
                        assert(language@ =~= o + seq![c]);
                    },
                    Section::Country => {
                        let ghost o = country@;
                        push_char(&mut country, c);
                        assert(country@ =~= o + seq![c]);
                    },
                    Section::Encoding => {
                        let ghost o = encoding@;
                        push_char(&mut encoding, c);
                        assert(encoding@ =~= o + seq![c]);
                    },
                    Section::Modifier => {
                        let ghost o = modifier@;
                        push_char(&mut modifier, c);
                        assert(modifier@ =~= o + seq![c]);
                    },
                }
            }
            i = i + 1;
        }
        assert(text@.take(i as int) =~= text@);
        Ok(
            Locale {
                language,
                country: if has_country {
                    Some(country)
                } else {
                    None
                },
                encoding: if has_encoding {
                    Some(encoding)
                } else {
                    None
                },
                modifier: if section == Section::Modifier {
                    Some(modifier)
                } else {
                    None
                },
            },
        )
    }
}

/// `try_from` is described by its own `ensures` over `parses_to`, which speaks of
/// views: no single `Locale` value is singled out as the result.
impl vstd::std_specs::convert::TryFromSpecImpl<String> for Locale {
    open spec fn obeys_try_from_spec() -> bool {
        false
    }

    open spec fn try_from_spec(text: String) -> Result<Locale, Error> {
        arbitrary()
    }
}

impl TryFrom<String> for Locale {
    type Error = Error;

    /// The same as `Locale::parse` on the string's text.
    fn try_from(text: String) -> (r: Result<Locale, Error>)
        ensures
            parses_to(text@, r),
    {
        Locale::parse(text.as_str())
    }
}

/// The mathematical value of a parse result: the locale's view, or the offending
/// character, its index and the text.
pub open spec fn result_view(r: Result<Locale, Error>) -> Result<
    LocaleView,
    (char, int, Seq<char>),
> {
    match r {
        Ok(l) => Ok(l@),
        Err(Error::UnexpectedCharacterRecieved(c, i, t)) => Err((c, i as int, t@)),
    }
}

/// Parsing is a function of the text alone: two parses of the same text give equal
/// results.
pub proof fn lemma_parse_deterministic(
    t1: Seq<char>,
    t2: Seq<char>,
    r1: Result<Locale, Error>,
    r2: Result<Locale, Error>,
)
    requires
        t1 == t2,
        parses_to(t1, r1),
        parses_to(t2, r2),
    ensures
        result_view(r1) == result_view(r2),
{
}

} // verus!
