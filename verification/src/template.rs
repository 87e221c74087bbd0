//! Templates: text with fields in curly brackets, as in `{T} [{l}] {t}: {m}`.
//! A field holds the name of one of the five things that can be written of
//! an event. A curly bracket that stands behind a backslash is text, and so
//! is a field that is never closed.

use vstd::prelude::*;
use crate::text::{chars_of, lemma_run_end, run_end, scan, CharClass};

verus! {

/// What a field stands for.
#[derive(Clone, Copy, Debug, PartialEq, Eq, Structural)]
pub enum Placeholder {
    /// `T`: the time at which the event is written.
    Timestamp,
    /// `t`: the target of the event.
    Target,
    /// `m`: the message of the event.
    Message,
    /// `f`: the fields of the event but the message.
    Fields,
    /// `l`: the level of the event.
    Level,
}

impl Placeholder {
    /// The name by which a template refers to the placeholder.
    pub open spec fn name(self) -> Seq<char> {
        match self {
            Placeholder::Timestamp => seq!['T'],
            Placeholder::Target => seq!['t'],
            Placeholder::Message => seq!['m'],
            Placeholder::Fields => seq!['f'],
            Placeholder::Level => seq!['l'],
        }
    }

    /// The placeholder of a name, if it is one.
    pub open spec fn named(name: Seq<char>) -> Option<Placeholder> {
        if name == seq!['T'] {
            Some(Placeholder::Timestamp)
        } else if name == seq!['t'] {
            Some(Placeholder::Target)
        } else if name == seq!['m'] {
            Some(Placeholder::Message)
        } else if name == seq!['f'] {
            Some(Placeholder::Fields)
        } else if name == seq!['l'] {
            Some(Placeholder::Level)
        } else {
            None
        }
    }

    /// The placeholder that the characters from `a` to `b` name.
    pub(crate) fn from_name(chars: &Vec<char>, a: usize, b: usize) -> (r: Option<Placeholder>)
        requires
            a <= b <= chars.len(),
        ensures
            r == Placeholder::named(chars@.subrange(a as int, b as int)),
    {
        let ghost name = chars@.subrange(a as int, b as int);
        proof {
            assert(seq!['T'].len() == 1 && seq!['T'][0] == 'T');
            assert(seq!['t'].len() == 1 && seq!['t'][0] == 't');
            assert(seq!['m'].len() == 1 && seq!['m'][0] == 'm');
            assert(seq!['f'].len() == 1 && seq!['f'][0] == 'f');
            assert(seq!['l'].len() == 1 && seq!['l'][0] == 'l');
            assert(name.len() == b - a);
        }
        if b - a != 1 {
            return None;
        }
        let c = chars[a];
        proof {
            assert(name[0] == c);
            assert(name =~= seq![c]);
        }
        if c == 'T' {
            Some(Placeholder::Timestamp)
        } else if c == 't' {
            Some(Placeholder::Target)
        } else if c == 'm' {
            Some(Placeholder::Message)
        } else if c == 'f' {
            Some(Placeholder::Fields)
        } else if c == 'l' {
            Some(Placeholder::Level)
        } else {
            None
        }
    }
}

/// A part of a template.
#[derive(Debug, PartialEq, Eq)]
pub enum Segment {
    /// Text that is written as it stands.
    Literal(String),
    /// A field.
    Field(Placeholder),
}

/// A [`Segment`] with its text as a sequence of characters.
pub enum Piece {
    Literal(Seq<char>),
    Field(Placeholder),
}

impl View for Segment {
    type V = Piece;

    open spec fn view(&self) -> Piece {
        match *self {
            Segment::Literal(text) => Piece::Literal(text@),
            Segment::Field(p) => Piece::Field(p),
        }
    }
}

impl Clone for Segment {
    fn clone(&self) -> (r: Self)
        ensures
            r@ == self@,
    {
        match self {
            Segment::Literal(text) => Segment::Literal(text.clone()),
            Segment::Field(p) => Segment::Field(*p),
        }
    }
}

/// Where in a template a character stands.
#[derive(Clone, Copy, Debug, PartialEq, Eq, Structural)]
pub enum Place {
    /// Between the brackets of a field.
    InsideField,
    /// In the text between the fields.
    OutsideField,
}

/// Why a text is no template.
#[derive(Clone, Debug, PartialEq, Eq)]
pub enum TemplateError {
    /// The character may not stand where it does: a `}` that closes nothing,
    /// or a `{` or a backslash inside a field.
    IllegalCharacter(char, Place),
    /// The field holds a name that stands for nothing.
    UnknownField(String),
    /// The field holds no name.
    EmptyField,
}

/// A [`TemplateError`] with its name as a sequence of characters.
pub enum TemplateFault {
    IllegalCharacter(char, Place),
    UnknownField(Seq<char>),
    EmptyField,
}

impl View for TemplateError {
    type V = TemplateFault;

    open spec fn view(&self) -> TemplateFault {
        match *self {
            TemplateError::IllegalCharacter(c, place) => TemplateFault::IllegalCharacter(c, place),
            TemplateError::UnknownField(name) => TemplateFault::UnknownField(name@),
            TemplateError::EmptyField => TemplateFault::EmptyField,
        }
    }
}

/// Whether a curly bracket stands at `at` with no backslash before it.
pub open spec fn is_bare_bracket(text: Seq<char>, at: int) -> bool {
    &&& 0 <= at < text.len()
    &&& (text[at] == '{' || text[at] == '}')
    &&& !(at > 0 && text[at - 1] == '\\')
}

/// The first place from `from` on at which a bare bracket stands; the end of
/// the text where none does.
pub open spec fn text_end(text: Seq<char>, from: int) -> int
    decreases text.len() - from,
{
    if 0 <= from < text.len() && !is_bare_bracket(text, from) {
        text_end(text, from + 1)
    } else {
        from
    }
}

/// The text as a piece: no piece for no text.
pub open spec fn literal(text: Seq<char>) -> Seq<Piece> {
    if text.len() == 0 {
        Seq::empty()
    } else {
        seq![Piece::Literal(text)]
    }
}

/// The pieces `rest` with `first` before them.
pub open spec fn after(first: Seq<Piece>, rest: Result<Seq<Piece>, TemplateFault>) -> Result<
    Seq<Piece>,
    TemplateFault,
> {
    match rest {
        Ok(pieces) => Ok(first + pieces),
        Err(fault) => Err(fault),
    }
}

/// The pieces that the text is made of from `from` on, where `from` is the
/// start of the text or the place behind a field; or what is wrong with the
/// text at the first place where something is.
///
/// The text up to the next bare bracket is taken as it stands, backslashes
/// and all. A bare `}` is a fault. A bare `{` opens a field, which holds a
/// name up to the next `}`; a `{` or a backslash before that is a fault, and
/// so is no name and a name that stands for nothing. Where the text ends
/// before the field is closed, all that is left is text.
pub open spec fn parse_from(text: Seq<char>, from: int) -> Result<Seq<Piece>, TemplateFault>
    decreases text.len() - from,
{
    let open = text_end(text, from);
    if from < 0 || from > text.len() {
        Ok(Seq::empty())
    } else if open >= text.len() {
        Ok(literal(text.subrange(from, text.len() as int)))
    } else if text[open] == '}' {
        Err(TemplateFault::IllegalCharacter('}', Place::OutsideField))
    } else {
        let close = run_end(text, open + 1, CharClass::Name);
        if close >= text.len() {
            Ok(literal(text.subrange(from, text.len() as int)))
        } else if text[close] != '}' {
            Err(TemplateFault::IllegalCharacter(text[close], Place::InsideField))
        } else if close == open + 1 {
            Err(TemplateFault::EmptyField)
        } else {
            let name = text.subrange(open + 1, close);
            match Placeholder::named(name) {
                None => Err(TemplateFault::UnknownField(name)),
                Some(p) => {
                    proof {
                        lemma_text_end(text, from);
                        lemma_run_end(text, open + 1, CharClass::Name);
                    }
                    after(
                        literal(text.subrange(from, open)) + seq![Piece::Field(p)],
                        parse_from(text, close + 1),
                    )
                },
            }
        }
    }
}

/// The pieces that a text is made of, if it is a template.
pub open spec fn parse(text: Seq<char>) -> Result<Seq<Piece>, TemplateFault> {
    parse_from(text, 0)
}

/// The text before a bare bracket ends within the text, holds no bare
/// bracket, and ends at one or at the end of the text.
pub proof fn lemma_text_end(text: Seq<char>, from: int)
    requires
        0 <= from <= text.len(),
    ensures
        from <= text_end(text, from) <= text.len(),
        forall|i: int| from <= i < text_end(text, from) ==> !is_bare_bracket(text, i),
        text_end(text, from) < text.len() ==> is_bare_bracket(text, text_end(text, from)),
    decreases text.len() - from,
{
    if from < text.len() && !is_bare_bracket(text, from) {
        lemma_text_end(text, from + 1);
    }
}

/// The text of a piece as a template writes it.
pub open spec fn piece_source(piece: Piece) -> Seq<char> {
    match piece {
        Piece::Literal(text) => text,
        Piece::Field(p) => seq!['{'] + p.name() + seq!['}'],
    }
}

/// The text of a template that is made of these pieces.
pub open spec fn source(pieces: Seq<Piece>) -> Seq<char>
    decreases pieces.len(),
{
    if pieces.len() == 0 {
        Seq::empty()
    } else {
        piece_source(pieces.first()) + source(pieces.drop_first())
    }
}

/// A name that stands for a placeholder is the name of that placeholder.
pub proof fn lemma_named(name: Seq<char>)
    ensures
        Placeholder::named(name) matches Some(p) ==> p.name() == name,
{
}

/// A placeholder is the one that its name stands for.
pub proof fn lemma_name(p: Placeholder)
    ensures
        Placeholder::named(p.name()) == Some(p),
{
    assert(seq!['T'][0] == 'T');
    assert(seq!['t'][0] == 't');
    assert(seq!['m'][0] == 'm');
    assert(seq!['f'][0] == 'f');
    assert(seq!['l'][0] == 'l');
}

/// The text that some pieces and then some more write is the text of the
/// first and then the text of the others.
pub proof fn lemma_source_append(first: Seq<Piece>, more: Seq<Piece>)
    ensures
        source(first + more) == source(first) + source(more),
    decreases first.len(),
{
    if first.len() == 0 {
        assert(first + more =~= more);
        assert(source(first) + source(more) =~= source(more));
    } else {
        assert((first + more).first() == first.first());
        assert((first + more).drop_first() =~= first.drop_first() + more);
        lemma_source_append(first.drop_first(), more);
        assert(piece_source(first.first()) + (source(first.drop_first()) + source(more))
            =~= (piece_source(first.first()) + source(first.drop_first())) + source(more));
    }
}

/// One piece alone writes its own text.
pub proof fn lemma_source_of_one(piece: Piece)
    ensures
        source(seq![piece]) == piece_source(piece),
{
    let rest = seq![piece].drop_first();
    assert(rest.len() == 0);
    assert(source(rest) =~= Seq::empty());
    assert(piece_source(piece) + Seq::<char>::empty() =~= piece_source(piece));
}

/// The piece that a text is taken as writes that text.
pub proof fn lemma_source_of_literal(text: Seq<char>)
    ensures
        source(literal(text)) == text,
{
    if text.len() == 0 {
        assert(text =~= Seq::empty());
    } else {
        lemma_source_of_one(Piece::Literal(text));
    }
}

/// The pieces that a text is read as from `from` on write the text from
/// `from` on.
pub proof fn lemma_source_of_parsed(text: Seq<char>, from: int)
    requires
        0 <= from <= text.len(),
        parse_from(text, from) is Ok,
    ensures
        source(parse_from(text, from)->Ok_0) == text.skip(from),
    decreases text.len() - from,
{
    let open = text_end(text, from);
    lemma_text_end(text, from);
    let rest = text.subrange(from, text.len() as int);
    assert(rest =~= text.skip(from));
    if open >= text.len() {
        lemma_source_of_literal(rest);
    } else {
        let close = run_end(text, open + 1, CharClass::Name);
        lemma_run_end(text, open + 1, CharClass::Name);
        if close >= text.len() {
            lemma_source_of_literal(rest);
        } else {
            let name = text.subrange(open + 1, close);
            let p = Placeholder::named(name)->Some_0;
            lemma_named(name);
            let tail = parse_from(text, close + 1)->Ok_0;
            lemma_source_of_parsed(text, close + 1);
            let before = text.subrange(from, open);
            lemma_source_of_literal(before);
            lemma_source_append(literal(before), seq![Piece::Field(p)]);
            lemma_source_append(literal(before) + seq![Piece::Field(p)], tail);
            lemma_source_of_one(Piece::Field(p));
            assert(text.skip(from) =~= before + (seq!['{'] + name + seq!['}']) + text.skip(
                close + 1,
            ));
        }
    }
}

/// A template is the text that its pieces write: nothing of the text is
/// lost when it is read, and nothing is added.
pub proof fn lemma_template_round_trip(text: Seq<char>)
    requires
        parse(text) is Ok,
    ensures
        source(parse(text)->Ok_0) == text,
{
    lemma_source_of_parsed(text, 0);
    assert(text.skip(0) =~= text);
}

/// A text without curly brackets is a template, and is its only piece.
pub proof fn lemma_plain_text(text: Seq<char>)
    requires
        forall|i: int| 0 <= i < text.len() ==> text[i] != '{' && text[i] != '}',
    ensures
        parse(text) == Ok::<Seq<Piece>, TemplateFault>(literal(text)),
{
    lemma_text_end(text, 0);
    assert(text.subrange(0, text.len() as int) =~= text);
}

/// A template: the pieces that its text was made of.
#[derive(Debug, PartialEq, Eq)]
pub struct Template {
    pub segments: Vec<Segment>,
}

impl View for Template {
    type V = Seq<Piece>;

    open spec fn view(&self) -> Seq<Piece> {
        Seq::new(self.segments@.len(), |i: int| self.segments@[i]@)
    }
}

impl Clone for Template {
    fn clone(&self) -> (r: Self)
        ensures
            r@ == self@,
    {
        let mut segments: Vec<Segment> = Vec::new();
        let mut i: usize = 0;
        while i < self.segments.len()
            invariant
                i <= self.segments.len(),
                segments@.len() == i,
                forall|j: int| 0 <= j < i ==> segments@[j]@ == self.segments@[j]@,
            decreases self.segments.len() - i,
        {
            segments.push(self.segments[i].clone());
            i = i + 1;
        }
        let r = Template { segments };
        assert(r@ =~= self@);
        r
    }
}

/// The result of reading a template, with the strings as sequences of
/// characters.
pub open spec fn parsed_view(r: Result<Template, TemplateError>) -> Result<
    Seq<Piece>,
    TemplateFault,
> {
    match r {
        Ok(t) => Ok(t@),
        Err(e) => Err(e@),
    }
}

/// The end of the text that begins at `from`: the place of the next bare
/// bracket, or the end of the characters.
fn scan_text(chars: &Vec<char>, from: usize) -> (to: usize)
    requires
        from <= chars.len(),
    ensures
        to == text_end(chars@, from as int),
        from <= to <= chars.len(),
{
    let mut i: usize = from;
    while i < chars.len() && !((chars[i] == '{' || chars[i] == '}') && !(i > 0 && chars[i - 1]
        == '\\'))
        invariant
            from <= i <= chars.len(),
            text_end(chars@, from as int) == text_end(chars@, i as int),
        decreases chars.len() - i,
    {
        i = i + 1;
    }
    i
}

impl Template {
    /// Adds the characters from `a` to `b` to the segments, as text, if there
    /// are any.
    fn push_literal(segments: &mut Vec<Segment>, text: &str, a: usize, b: usize)
        requires
            a <= b <= text@.len(),
        ensures
            Seq::new(final(segments)@.len(), |j: int| final(segments)@[j]@) == Seq::new(
                old(segments)@.len(),
                |j: int| old(segments)@[j]@,
            ) + literal(text@.subrange(a as int, b as int)),
    {
        let ghost before = Seq::new(segments@.len(), |j: int| segments@[j]@);
        if a < b {
            segments.push(Segment::Literal(text.substring_char(a, b).to_owned()));
            assert(Seq::new(segments@.len(), |j: int| segments@[j]@) =~= before + literal(
                text@.subrange(a as int, b as int),
            ));
        } else {
            assert(Seq::new(segments@.len(), |j: int| segments@[j]@) =~= before + literal(
                text@.subrange(a as int, b as int),
            ));
        }
    }

    /// Reads a template.
    pub fn new(text: &str) -> (r: Result<Template, TemplateError>)
        ensures
            parsed_view(r) == parse(text@),
    {
        let chars = chars_of(text);
        let mut segments: Vec<Segment> = Vec::new();
        let mut from: usize = 0;
        loop
            invariant
                chars@ == text@,
                from <= chars.len(),
                parse(text@) == after(
                    Seq::new(segments@.len(), |j: int| segments@[j]@),
                    parse_from(text@, from as int),
                ),
            decreases chars.len() - from,
        {
            let ghost done = Seq::new(segments@.len(), |j: int| segments@[j]@);
            let open = scan_text(&chars, from);
            if open >= chars.len() {
                Self::push_literal(&mut segments, text, from, chars.len());
                return Ok(Template { segments });
            }
            if chars[open] == '}' {
                return Err(TemplateError::IllegalCharacter('}', Place::OutsideField));
            }
            let close = scan(&chars, open + 1, CharClass::Name);
            if close >= chars.len() {
                Self::push_literal(&mut segments, text, from, chars.len());
                return Ok(Template { segments });
            }
            if chars[close] != '}' {
                return Err(TemplateError::IllegalCharacter(chars[close], Place::InsideField));
            }
            if close == open + 1 {
                return Err(TemplateError::EmptyField);
            }
            match Placeholder::from_name(&chars, open + 1, close) {
                None => {
                    return Err(
                        TemplateError::UnknownField(text.substring_char(open + 1, close).to_owned()),
                    );
                },
                Some(p) => {
                    Self::push_literal(&mut segments, text, from, open);
                    let ghost with_text = Seq::new(segments@.len(), |j: int| segments@[j]@);
                    segments.push(Segment::Field(p));
                    proof {
                        let first = literal(text@.subrange(from as int, open as int)) + seq![
                            Piece::Field(p),
                        ];
                        let now = Seq::new(segments@.len(), |j: int| segments@[j]@);
                        assert(now =~= with_text + seq![Piece::Field(p)]);
                        assert(now =~= done + first);
                        let rest = parse_from(text@, close + 1);
                        if rest is Ok {
                            assert(done + (first + rest->Ok_0) =~= now + rest->Ok_0);
                        }
                    }
                    from = close + 1;
                },
            }
        }
    }

    /// Whether the template holds a placeholder.
    pub fn has(&self, placeholder: Placeholder) -> (r: bool)
        ensures
            r == self@.contains(Piece::Field(placeholder)),
    {
        let mut i: usize = 0;
        while i < self.segments.len()
            invariant
                i <= self.segments.len(),
                forall|j: int| 0 <= j < i ==> self@[j] != Piece::Field(placeholder),
            decreases self.segments.len() - i,
        {
            match &self.segments[i] {
                Segment::Field(p) => {
                    if *p == placeholder {
                        assert(self@[i as int] == Piece::Field(placeholder));
                        return true;
                    }
                },
                Segment::Literal(_) => {},
            }
            i = i + 1;
        }
        false
    }
}

} // verus!
