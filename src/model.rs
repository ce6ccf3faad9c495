use vstd::prelude::*;

verus! {

/// The four sections of a locale identifier, in the order in which they may appear.
#[derive(Clone, Copy, Debug, PartialEq, Eq, Structural)]
pub enum Section {
    Language,
    Country,
    Encoding,
    Modifier,
}

/// The mathematical value of a parsed locale: each section as a sequence of characters.
#[verifier::ext_equal]
pub struct LocaleView {
    pub language: Seq<char>,
    pub country: Option<Seq<char>>,
    pub encoding: Option<Seq<char>>,
    pub modifier: Option<Seq<char>>,
}

/// Whether `c` is one of the three characters that open a section.
pub open spec fn is_delimiter(c: char) -> bool {
    c == '_' || c == '.' || c == '@'
}

/// Whether `s` holds no delimiter.
pub open spec fn is_literal_text(s: Seq<char>) -> bool {
    forall|i: int| 0 <= i < s.len() ==> !is_delimiter(#[trigger] s[i])
}

/// Position of a section in the fixed order language, country, encoding, modifier.
pub open spec fn rank(s: Section) -> nat {
    match s {
        Section::Language => 0,
        Section::Country => 1,
        Section::Encoding => 2,
        Section::Modifier => 3,
    }
}

/// The section that a delimiter opens.
pub open spec fn opened_by(c: char) -> Section
    recommends
        is_delimiter(c),
{
    if c == '_' {
        Section::Country
    } else if c == '.' {
        Section::Encoding
    } else {
        Section::Modifier
    }
}

/// The locale before any character has been read.
pub open spec fn empty_locale() -> LocaleView {
    LocaleView { language: Seq::empty(), country: None, encoding: None, modifier: None }
}

/// The most recently opened section: the one that literal characters go to.
pub open spec fn current_section(l: LocaleView) -> Section {
    if l.modifier is Some {
        Section::Modifier
    } else if l.encoding is Some {
        Section::Encoding
    } else if l.country is Some {
        Section::Country
    } else {
        Section::Language
    }
}

/// `l` with `w` appended to its current section.
pub open spec fn append_literal(l: LocaleView, w: Seq<char>) -> LocaleView {
    match current_section(l) {
        Section::Language => LocaleView { language: l.language + w, ..l },
        Section::Country => LocaleView { country: Some(l.country->0 + w), ..l },
        Section::Encoding => LocaleView { encoding: Some(l.encoding->0 + w), ..l },
        Section::Modifier => LocaleView { modifier: Some(l.modifier->0 + w), ..l },
    }
}

/// `l` with the section `s` opened and empty.
pub open spec fn open_section(l: LocaleView, s: Section) -> LocaleView {
    match s {
        Section::Language => l,
        Section::Country => LocaleView { country: Some(Seq::empty()), ..l },
        Section::Encoding => LocaleView { encoding: Some(Seq::empty()), ..l },
        Section::Modifier => LocaleView { modifier: Some(Seq::empty()), ..l },
    }
}

/// One step of the scan: the locale after reading `c`, or `None` where `c` is a
/// delimiter whose section is not after the current one.
pub open spec fn step(l: LocaleView, c: char) -> Option<LocaleView> {
    if is_delimiter(c) {
        if rank(current_section(l)) < rank(opened_by(c)) {
            Some(open_section(l, opened_by(c)))
        } else {
            None
        }
    } else {
        Some(append_literal(l, seq![c]))
    }
}

/// The result of parsing `s`: the locale, or the first offending character with its
/// index in `s`.
pub open spec fn parse_spec(s: Seq<char>) -> Result<LocaleView, (char, int)>
    decreases s.len(),
{
    if s.len() == 0 {
        Ok(empty_locale())
    } else {
        match parse_spec(s.drop_last()) {
            Err(e) => Err(e),
            Ok(l) => match step(l, s.last()) {
                Some(next) => Ok(next),
                None => Err((s.last(), s.len() - 1)),
            },
        }
    }
}

/// Once a prefix fails, every extension of it fails with the same character at the
/// same index: what follows the offending character is never looked at.
pub proof fn lemma_error_persists(s: Seq<char>, t: Seq<char>)
    requires
        parse_spec(s) is Err,
    ensures
        parse_spec(s + t) == parse_spec(s),
    decreases t.len(),
{
    if t.len() == 0 {
        assert(s + t =~= s);
    } else {
        lemma_error_persists(s, t.drop_last());
        assert((s + t).drop_last() =~= s + t.drop_last());
    }
}

/// `s` with the single character `c` read after it.
proof fn lemma_parse_push(s: Seq<char>, c: char)
    ensures
        parse_spec(s.push(c)) == match parse_spec(s) {
            Err(e) => Err(e),
            Ok(l) => match step(l, c) {
                Some(next) => Ok(next),
                None => Err((c, s.len() as int)),
            },
        },
{
    assert(s.push(c).drop_last() =~= s);
}

/// Reading a run of literal characters after a prefix that parses appends the run to
/// the prefix's current section.
pub proof fn lemma_literal_run(p: Seq<char>, w: Seq<char>)
    requires
        parse_spec(p) is Ok,
        is_literal_text(w),
    ensures
        parse_spec(p + w) == Ok::<LocaleView, (char, int)>(append_literal(parse_spec(p)->Ok_0, w)),
    decreases w.len(),
{
    let l = parse_spec(p)->Ok_0;
    if w.len() == 0 {
        assert(p + w =~= p);
        assert(append_literal(l, w) =~= l);
    } else {
        let w0 = w.drop_last();
        let c = w.last();
        assert(is_literal_text(w0));
        assert(!is_delimiter(w[w.len() - 1]));
        lemma_literal_run(p, w0);
        assert(p + w =~= (p + w0).push(c));
        lemma_parse_push(p + w0, c);
        assert(w0 + seq![c] =~= w);
        assert(append_literal(append_literal(l, w0), seq![c]) =~= append_literal(l, w));
    }
}

/// A text without `_`, `.` or `@` is all language: the other three sections are absent.
pub proof fn lemma_no_delimiters(s: Seq<char>)
    requires
        is_literal_text(s),
    ensures
        parse_spec(s) == Ok::<LocaleView, (char, int)>(
            LocaleView { language: s, country: None, encoding: None, modifier: None },
        ),
{
    lemma_literal_run(Seq::empty(), s);
    assert(Seq::<char>::empty() + s =~= s);
    assert(append_literal(empty_locale(), s) =~= LocaleView {
        language: s,
        country: None,
        encoding: None,
        modifier: None,
    });
}

/// The text of an optional section: its delimiter and its characters, or nothing.
pub open spec fn section_text(d: char, o: Option<Seq<char>>) -> Seq<char> {
    match o {
        Some(w) => seq![d] + w,
        None => Seq::empty(),
    }
}

/// The text `language[_COUNTRY][.ENCODING][@MODIFIER]` of a locale.
pub open spec fn locale_text(l: LocaleView) -> Seq<char> {
    l.language + section_text('_', l.country) + section_text('.', l.encoding) + section_text(
        '@',
        l.modifier,
    )
}

/// Whether no section of `l` holds a delimiter.
pub open spec fn sections_literal(l: LocaleView) -> bool {
    &&& is_literal_text(l.language)
    &&& (l.country is Some ==> is_literal_text(l.country->0))
    &&& (l.encoding is Some ==> is_literal_text(l.encoding->0))
    &&& (l.modifier is Some ==> is_literal_text(l.modifier->0))
}

/// Reading an optional section after a prefix whose parse has no section at or after
/// it open.
proof fn lemma_read_section(p: Seq<char>, d: char, o: Option<Seq<char>>)
    requires
        parse_spec(p) is Ok,
        is_delimiter(d),
        rank(current_section(parse_spec(p)->Ok_0)) < rank(opened_by(d)),
        o is Some ==> is_literal_text(o->0),
    ensures
        parse_spec(p + section_text(d, o)) == Ok::<LocaleView, (char, int)>(
            match o {
                Some(w) => append_literal(open_section(parse_spec(p)->Ok_0, opened_by(d)), w),
                None => parse_spec(p)->Ok_0,
            },
        ),
{
    match o {
        Some(w) => {
            lemma_parse_push(p, d);
            lemma_literal_run(p.push(d), w);
            assert(p + section_text(d, o) =~= p.push(d) + w);
        },
        None => {
            assert(p + section_text(d, o) =~= p);
        },
    }
}

/// A text of the form `language[_COUNTRY][.ENCODING][@MODIFIER]`, each section free
/// of delimiters, parses to exactly those sections.
pub proof fn lemma_well_formed(l: LocaleView)
    requires
        sections_literal(l),
    ensures
        parse_spec(locale_text(l)) == Ok::<LocaleView, (char, int)>(l),
{
    let p0 = l.language;
    let p1 = p0 + section_text('_', l.country);
    let p2 = p1 + section_text('.', l.encoding);
    let p3 = p2 + section_text('@', l.modifier);
    lemma_no_delimiters(p0);
    lemma_read_section(p0, '_', l.country);
    lemma_read_section(p1, '.', l.encoding);
    lemma_read_section(p2, '@', l.modifier);
    assert(parse_spec(p3)->Ok_0 =~= l);
}

/// A delimiter whose section is at or before the current one fails the parse with
/// that character at its index, whatever follows it.
pub proof fn lemma_out_of_order(p: Seq<char>, c: char, rest: Seq<char>)
    requires
        parse_spec(p) is Ok,
        is_delimiter(c),
        rank(opened_by(c)) <= rank(current_section(parse_spec(p)->Ok_0)),
    ensures
        parse_spec(p.push(c) + rest) == Err::<LocaleView, (char, int)>((c, p.len() as int)),
{
    lemma_parse_push(p, c);
    lemma_error_persists(p.push(c), rest);
}

} // verus!
