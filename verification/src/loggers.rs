//! Loggers: which events a logger takes, what it makes of an event, and
//! where that goes.

use vstd::prelude::*;
use crate::appenders::{resolved, Appenders, Writer};
use crate::clock::{stamp, UtcOffsetTime};
use crate::config::{AppenderId, Format, LevelFilter, Target};
use crate::event::{
    is_message,
    lines_of,
    message_name,
    others_of,
    pair,
    values_of,
    Event,
    Field,
    Metadata,
    MESSAGE_FIELD_NAME,
};
use crate::template::{parse, Piece, Placeholder, Segment, Template, TemplateError};
use crate::text::starts_with;

verus! {

/// What is written in place of a placeholder, for an event that is written
/// at the time `stamp`.
pub open spec fn placeholder_text(field: Placeholder, event: &Event, stamp: Seq<char>) -> Seq<
    char,
> {
    match field {
        Placeholder::Timestamp => stamp,
        Placeholder::Target => event.metadata.target@,
        Placeholder::Message => values_of(event.fields@, message_name()),
        Placeholder::Fields => others_of(event.fields@, message_name()),
        Placeholder::Level => event.metadata.level.name(),
    }
}

/// What is written for a piece of a template.
pub open spec fn piece_text(piece: Piece, event: &Event, stamp: Seq<char>) -> Seq<char> {
    match piece {
        Piece::Literal(text) => text,
        Piece::Field(field) => placeholder_text(field, event, stamp),
    }
}

/// What a template makes of an event: the text of its pieces, one after the
/// other.
pub open spec fn rendered(pieces: Seq<Piece>, event: &Event, stamp: Seq<char>) -> Seq<char>
    decreases pieces.len(),
{
    if pieces.len() == 0 {
        Seq::empty()
    } else {
        rendered(pieces.drop_last(), event, stamp) + piece_text(pieces.last(), event, stamp)
    }
}

/// The line that a template makes of an event: the text of its pieces, and
/// the end of the line.
pub open spec fn line(pieces: Seq<Piece>, event: &Event, stamp: Seq<char>) -> Seq<char> {
    rendered(pieces, event, stamp) + seq!['\n']
}

/// A template without a placeholder for the time writes the same at every
/// time.
pub proof fn lemma_rendered_without_time(
    pieces: Seq<Piece>,
    event: &Event,
    stamp: Seq<char>,
    other: Seq<char>,
)
    requires
        !pieces.contains(Piece::Field(Placeholder::Timestamp)),
    ensures
        rendered(pieces, event, stamp) == rendered(pieces, event, other),
    decreases pieces.len(),
{
    if pieces.len() > 0 {
        let front = pieces.drop_last();
        assert(!front.contains(Piece::Field(Placeholder::Timestamp))) by {
            if front.contains(Piece::Field(Placeholder::Timestamp)) {
                let i = choose|i: int|
                    0 <= i < front.len() && front[i] == Piece::Field(Placeholder::Timestamp);
                assert(pieces[i] == front[i]);
            }
        }
        lemma_rendered_without_time(front, event, stamp, other);
        assert(pieces[pieces.len() - 1] == pieces.last());
    }
}

/// Writes an event as a template says.
struct CustomValueWriter<'a> {
    fmtr: &'a Template,
    event: &'a Event,
    time: &'a Option<String>,
}

impl<'a> CustomValueWriter<'a> {
    fn write(&self, writer: &mut String)
        ensures
            final(writer)@ == old(writer)@ + line(self.fmtr@, self.event, stamp(self.time)),
    {
        let ghost start = writer@;
        let segments = &self.fmtr.segments;
        let mut i: usize = 0;
        while i < segments.len()
            invariant
                i <= segments.len(),
                segments == &self.fmtr.segments,
                writer@ == start + rendered(self.fmtr@.take(i as int), self.event, stamp(self.time)),
            decreases segments.len() - i,
        {
            proof {
                assert(self.fmtr@.take(i + 1).drop_last() == self.fmtr@.take(i as int));
            }
            match &segments[i] {
                Segment::Literal(text) => writer.append(text.as_str()),
                Segment::Field(field) => self.write_value(writer, *field),
            }
            i = i + 1;
        }
        writer.append("\n");
        proof {
            reveal_strlit("\n");
            assert("\n"@ =~= seq!['\n']);
            assert(self.fmtr@.take(i as int) == self.fmtr@);
            let text = rendered(self.fmtr@, self.event, stamp(self.time));
            assert(start + text + seq!['\n'] =~= start + (text + seq!['\n']));
        }
    }

    fn write_value(&self, writer: &mut String, field: Placeholder)
        ensures
            final(writer)@ == old(writer)@ + placeholder_text(field, self.event, stamp(self.time)),
    {
        let ghost start = writer@;
        let fields = &self.event.fields;
        match field {
            Placeholder::Timestamp => CustomFormatter::format_timestamp(writer, self.time),
            Placeholder::Target => writer.append(self.event.metadata.target.as_str()),
            Placeholder::Message => {
                let mut i: usize = 0;
                while i < fields.len()
                    invariant
                        i <= fields.len(),
                        fields == &self.event.fields,
                        writer@ == start + values_of(fields@.take(i as int), message_name()),
                    decreases fields.len() - i,
                {
                    proof {
                        assert(fields@.take(i + 1).drop_last() == fields@.take(i as int));
                    }
                    if is_message(&fields[i].name) {
                        writer.append(fields[i].value.as_str());
                    }
                    i = i + 1;
                }
                assert(fields@.take(i as int) == fields@);
            },
            Placeholder::Fields => {
                let mut any = false;
                let mut i: usize = 0;
                while i < fields.len()
                    invariant
                        i <= fields.len(),
                        fields == &self.event.fields,
                        writer@ == start + others_of(fields@.take(i as int), message_name()),
                        any == (others_of(fields@.take(i as int), message_name()).len() > 0),
                    decreases fields.len() - i,
                {
                    proof {
                        assert(fields@.take(i + 1).drop_last() == fields@.take(i as int));
                    }
                    if !is_message(&fields[i].name) {
                        if any {
                            writer.append(" ");
                        }
                        writer.append(fields[i].name.as_str());
                        writer.append("=");
                        writer.append(fields[i].value.as_str());
                        any = true;
                        proof {
                            reveal_strlit(" ");
                            reveal_strlit("=");
                            let before = others_of(fields@.take(i as int), message_name());
                            let field = fields@[i as int];
                            assert(" "@ =~= seq![' ']);
                            assert("="@ =~= seq!['=']);
                            assert(pair(field).len() > 0);
                            assert(start + before + seq![' '] + field.name@ + seq!['=']
                                + field.value@ =~= start + (before + seq![' '] + pair(field)));
                            assert(start + before + field.name@ + seq!['='] + field.value@
                                =~= start + (before + pair(field)));
                        }
                    }
                    i = i + 1;
                }
                assert(fields@.take(i as int) == fields@);
            },
            Placeholder::Level => writer.append(self.event.metadata.level.as_str()),
        }
    }
}

/// A formatter that writes an event as a template says.
#[derive(Debug, PartialEq, Eq)]
pub struct CustomFormatter {
    pub fmtr: Template,
}

impl View for CustomFormatter {
    type V = Seq<Piece>;

    open spec fn view(&self) -> Seq<Piece> {
        self.fmtr@
    }
}

impl CustomFormatter {
    /// Whether the template asks for the time.
    pub open spec fn reads_clock(&self) -> bool {
        self@.contains(Piece::Field(Placeholder::Timestamp))
    }

    /// The formatter of a template; an error for a text that is no template.
    pub fn new(fmt_str: &str) -> (r: Result<Self, TemplateError>)
        ensures
            match parse(fmt_str@) {
                Ok(pieces) => r matches Ok(formatter) && formatter@ == pieces,
                Err(fault) => r matches Err(e) && e@ == fault,
            },
    {
        match Template::new(fmt_str) {
            Ok(fmtr) => Ok(Self { fmtr }),
            Err(e) => Err(e),
        }
    }

    /// Writes the time, or the mark of an unknown time where the clock gave
    /// none.
    pub fn format_timestamp(writer: &mut String, time: &Option<String>)
        ensures
            final(writer)@ == old(writer)@ + stamp(time),
    {
        match time {
            Some(text) => writer.append(text.as_str()),
            None => writer.append("<unknown time>"),
        }
    }

    /// What the template makes of the event, when `time` is the time as the
    /// clock gave it.
    pub fn render(&self, event: &Event, time: &Option<String>) -> (r: String)
        ensures
            r@ == line(self@, event, stamp(time)),
    {
        let value_writer = CustomValueWriter { fmtr: &self.fmtr, event, time };
        let mut writer = String::new();
        value_writer.write(&mut writer);
        writer
    }

    /// What the template makes of the event now. The clock is read where the
    /// template asks for the time.
    pub fn format_event(&self, event: &Event) -> (r: String)
        ensures
            exists|stamp: Seq<char>| r@ == line(self@, event, stamp),
            !self.reads_clock() ==> forall|stamp: Seq<char>|
                r@ == #[trigger] line(self@, event, stamp),
    {
        let time = if self.fmtr.has(Placeholder::Timestamp) {
            UtcOffsetTime.format_time()
        } else {
            None
        };
        let r = self.render(event, &time);
        proof {
            assert(r@ == line(self@, event, stamp(&time)));
            if !self.reads_clock() {
                assert forall|other: Seq<char>| r@ == #[trigger] line(self@, event, other) by {
                    lemma_rendered_without_time(self@, event, stamp(&time), other);
                }
            }
        }
        r
    }
}

/// Writes the values of the fields of one name, each on a line of its own.
#[derive(Debug, PartialEq, Eq)]
pub struct SingleFieldVisitor {
    pub writer: String,
    pub field_name: String,
}

impl SingleFieldVisitor {
    pub fn new(writer: String, field_name: &str) -> (r: Self)
        ensures
            r.writer@ == writer@,
            r.field_name@ == field_name@,
    {
        Self { writer, field_name: field_name.to_owned() }
    }

    /// Takes a field: writes its value and ends the line, if the field has
    /// the name that the visitor looks for.
    pub fn record_debug(&mut self, field: &Field)
        ensures
            final(self).field_name@ == old(self).field_name@,
            final(self).writer@ == if field.name@ == old(self).field_name@ {
                old(self).writer@ + field.value@ + seq!['\n']
            } else {
                old(self).writer@
            },
    {
        if field.name == self.field_name {
            self.writer.append(field.value.as_str());
            self.writer.append("\n");
            proof {
                reveal_strlit("\n");
                assert("\n"@ =~= seq!['\n']);
            }
        }
    }
}

impl Event {
    /// Shows the fields to the visitor, one by one.
    pub fn record(&self, visitor: &mut SingleFieldVisitor)
        ensures
            final(visitor).field_name@ == old(visitor).field_name@,
            final(visitor).writer@ == old(visitor).writer@ + lines_of(
                self.fields@,
                old(visitor).field_name@,
            ),
    {
        let ghost start = visitor.writer@;
        let ghost name = visitor.field_name@;
        let mut i: usize = 0;
        while i < self.fields.len()
            invariant
                i <= self.fields.len(),
                visitor.field_name@ == name,
                visitor.writer@ == start + lines_of(self.fields@.take(i as int), name),
            decreases self.fields.len() - i,
        {
            proof {
                assert(self.fields@.take(i + 1).drop_last() == self.fields@.take(i as int));
            }
            visitor.record_debug(&self.fields[i]);
            proof {
                let before = lines_of(self.fields@.take(i as int), name);
                let field = self.fields@[i as int];
                assert(start + before + field.value@ + seq!['\n'] =~= start + (before
                    + field.value@ + seq!['\n']));
            }
            i = i + 1;
        }
        assert(self.fields@.take(i as int) == self.fields@);
    }
}

/// What a formatter makes of an event.
#[derive(Clone, Debug, PartialEq, Eq)]
pub enum Rendering {
    /// The event is to be written as the one line that the fields make with
    /// the time, the level and the target: the one who holds the event in
    /// full writes that line.
    Normal,
    /// The event is written as this text.
    Text(String),
}

/// A [`Rendering`] with its text as a sequence of characters.
pub enum RenderingView {
    Normal,
    Text(Seq<char>),
}

impl View for Rendering {
    type V = RenderingView;

    open spec fn view(&self) -> RenderingView {
        match *self {
            Rendering::Normal => RenderingView::Normal,
            Rendering::Text(text) => RenderingView::Text(text@),
        }
    }
}

/// The three ways in which an event is written.
#[derive(Debug, PartialEq, Eq)]
pub enum EventFormatter {
    Normal,
    MessageOnly,
    Custom(CustomFormatter),
}

impl EventFormatter {
    /// Whether this is the formatter of the format.
    pub open spec fn is_of(&self, format: &Format) -> bool {
        match *format {
            Format::Normal => *self is Normal,
            Format::MessageOnly => *self is MessageOnly,
            Format::Custom(template) => *self matches EventFormatter::Custom(formatter) && parse(
                template@,
            ) == Ok::<Seq<Piece>, crate::template::TemplateFault>(formatter@),
        }
    }

    /// Whether the formatter asks for the time.
    pub open spec fn reads_clock(&self) -> bool {
        *self matches EventFormatter::Custom(formatter) && formatter.reads_clock()
    }

    /// What the formatter makes of an event that is written at the time
    /// `stamp`.
    pub open spec fn rendering(&self, event: &Event, stamp: Seq<char>) -> RenderingView {
        match *self {
            EventFormatter::Normal => RenderingView::Normal,
            EventFormatter::MessageOnly => RenderingView::Text(
                lines_of(event.fields@, message_name()),
            ),
            EventFormatter::Custom(formatter) => RenderingView::Text(
                line(formatter@, event, stamp),
            ),
        }
    }

    /// The formatter of a format. It fails for a custom format whose text is
    /// no template, and for nothing else.
    pub fn from(f: Format) -> (r: Result<Self, TemplateError>)
        ensures
            match r {
                Ok(formatter) => formatter.is_of(&f),
                Err(e) => f matches Format::Custom(template) && parse(template@) == Err::<
                    Seq<Piece>,
                    crate::template::TemplateFault,
                >(e@),
            },
    {
        match f {
            Format::Normal => Ok(Self::Normal),
            Format::MessageOnly => Ok(Self::MessageOnly),
            Format::Custom(s) => match CustomFormatter::new(s.as_str()) {
                Ok(formatter) => Ok(Self::Custom(formatter)),
                Err(e) => Err(e),
            },
        }
    }

    /// What the formatter makes of the event, when `time` is the time as the
    /// clock gave it.
    pub fn render(&self, event: &Event, time: &Option<String>) -> (r: Rendering)
        ensures
            r@ == self.rendering(event, stamp(time)),
    {
        match self {
            Self::Custom(fmtr) => Rendering::Text(fmtr.render(event, time)),
            Self::MessageOnly => {
                let mut vs = SingleFieldVisitor::new(String::new(), MESSAGE_FIELD_NAME);
                event.record(&mut vs);
                proof {
                    reveal_strlit("message");
                    assert(MESSAGE_FIELD_NAME@ =~= message_name());
                    assert(Seq::<char>::empty() + lines_of(event.fields@, message_name())
                        =~= lines_of(event.fields@, message_name()));
                }
                Rendering::Text(vs.writer)
            },
            Self::Normal => Rendering::Normal,
        }
    }

    /// What the formatter makes of the event now.
    pub fn format_event(&self, event: &Event) -> (r: Rendering)
        ensures
            exists|stamp: Seq<char>| r@ == self.rendering(event, stamp),
            !self.reads_clock() ==> forall|stamp: Seq<char>|
                r@ == #[trigger] self.rendering(event, stamp),
    {
        match self {
            Self::Custom(fmtr) => {
                let text = fmtr.format_event(event);
                let r = Rendering::Text(text);
                proof {
                    let stamp = choose|stamp: Seq<char>| text@ == line(fmtr@, event, stamp);
                    assert(r@ == self.rendering(event, stamp));
                    if !self.reads_clock() {
                        assert forall|other: Seq<char>| r@ == #[trigger] self.rendering(
                            event,
                            other,
                        ) by {
                            assert(text@ == line(fmtr@, event, other));
                        }
                    }
                }
                r
            },
            _ => {
                let r = self.render(event, &None);
                assert(r@ == self.rendering(event, stamp(&None)));
                r
            },
        }
    }
}

/// The target test is a test for a prefix. A logger without a target takes
/// the events of every target. A logger with a target takes those whose
/// target holds the logger's own from its first character on, character for
/// character: nothing is asked of what follows.
pub proof fn lemma_target_test(logger: &Logger, target: Seq<char>)
    ensures
        logger.target is None ==> logger.takes_target(target),
        logger.target matches Some(own) ==> (logger.takes_target(target) <==> own@.len()
            <= target.len() && forall|i: int| 0 <= i < own@.len() ==> target[i] == own@[i]),
        logger.target matches Some(own) ==> forall|rest: Seq<char>| #[trigger]
            logger.takes_target(own@ + rest),
{
    match logger.target {
        None => {},
        Some(own) => {
            if own@.len() <= target.len() && (forall|i: int|
                0 <= i < own@.len() ==> target[i] == own@[i]) {
                assert(own@ =~= target.subrange(0, own@.len() as int));
            }
            assert forall|rest: Seq<char>| #[trigger] logger.takes_target(own@ + rest) by {
                assert(own@ =~= (own@ + rest).subrange(0, own@.len() as int));
            }
        },
    }
}

/// The view of what a logger makes of an event.
pub open spec fn outcome_view(r: Option<Rendering>) -> Option<RenderingView> {
    match r {
        Some(rendering) => Some(rendering@),
        None => None,
    }
}

/// A logger at work: it takes the events that are severe enough and come
/// from its target, writes each as its formatter says, and sends that to its
/// destination. Between two events it holds nothing.
#[derive(Debug, PartialEq, Eq)]
pub struct Logger {
    pub level: LevelFilter,
    pub target: Option<Target>,
    pub writer: Writer,
    pub format: EventFormatter,
}

impl Logger {
    /// Whether the logger takes events that come from `target`: one without
    /// a target takes them all, another those whose target begins with its
    /// own.
    pub open spec fn takes_target(&self, target: Seq<char>) -> bool {
        match self.target {
            None => true,
            Some(own) => own@.is_prefix_of(target),
        }
    }

    /// Whether the logger takes an event with this metadata.
    pub open spec fn accepts(&self, meta: &Metadata) -> bool {
        self.level.enables(meta.level) && self.takes_target(meta.target@)
    }

    /// What the logger does with an event that is written at the time
    /// `stamp`: nothing, or what its formatter makes of the event goes to its
    /// destination.
    pub open spec fn outcome(&self, event: &Event, stamp: Seq<char>) -> Option<RenderingView> {
        if self.accepts(&event.metadata) {
            Some(self.format.rendering(event, stamp))
        } else {
            None
        }
    }

    /// Whether `r` is what the logger does with the event at every time.
    pub open spec fn gives(&self, event: &Event, r: Option<Rendering>) -> bool {
        forall|stamp: Seq<char>| outcome_view(r) == #[trigger] self.outcome(event, stamp)
    }

    /// Whether `r` is what the logger does with the event at some time.
    pub open spec fn may_give(&self, event: &Event, r: Option<Rendering>) -> bool {
        exists|stamp: Seq<char>| outcome_view(r) == self.outcome(event, stamp)
    }

    pub fn is_enabled(&self, meta: &Metadata) -> (r: bool)
        ensures
            r == self.accepts(meta),
    {
        let match_level = self.level.is_enabled(meta.level);
        let match_target = match &self.target {
            None => true,
            Some(t) => starts_with(meta.target.as_str(), t.as_str()),
        };
        match_level && match_target
    }

    /// The destination that is made of those of the appenders that are
    /// there; `None` where none of them is.
    pub fn mk_writer(ids: &Vec<AppenderId>, appenders: &Appenders) -> (r: Option<Writer>)
        ensures
            match r {
                Some(writer) => writer@ == resolved(ids@, appenders.ids@) && writer@.len() > 0,
                None => resolved(ids@, appenders.ids@).len() == 0,
            },
    {
        let mut accumulated_makewriter: Option<Writer> = None;
        let mut i: usize = 0;
        while i < ids.len()
            invariant
                i <= ids.len(),
                match accumulated_makewriter {
                    Some(writer) => writer@ == resolved(ids@.take(i as int), appenders.ids@)
                        && writer@.len() > 0,
                    None => resolved(ids@.take(i as int), appenders.ids@).len() == 0,
                },
            decreases ids.len() - i,
        {
            proof {
                assert(ids@.take(i + 1).drop_last() == ids@.take(i as int));
            }
            if let Some(appender) = appenders.get(&ids[i]) {
                accumulated_makewriter = if let Some(acc) = accumulated_makewriter {
                    Some(acc.and(appender))
                } else {
                    assert(resolved(ids@.take(i as int), appenders.ids@).push(appender)
                        =~= seq![appender]);
                    Some(Writer::new(appender))
                };
            }
            i = i + 1;
        }
        assert(ids@.take(i as int) == ids@);
        accumulated_makewriter
    }

    /// A logger. Its destination is made of those of the appenders `ids`
    /// that are there, and is the one that writes nothing where none is.
    pub fn new(
        level: LevelFilter,
        target: Option<Target>,
        ids: &Vec<AppenderId>,
        appenders: &Appenders,
        format: EventFormatter,
    ) -> (r: Self)
        ensures
            r.level == level,
            r.target == target,
            r.writer@ == resolved(ids@, appenders.ids@),
            r.format == format,
    {
        let writer = match Self::mk_writer(ids, appenders) {
            Some(writer) => writer,
            None => Writer::sink(),
        };
        Self { level, target, writer, format }
    }

    /// What the logger does with the event, when `time` is the time as the
    /// clock gave it.
    pub fn process(&self, event: &Event, time: &Option<String>) -> (r: Option<Rendering>)
        ensures
            outcome_view(r) == self.outcome(event, stamp(time)),
    {
        if self.is_enabled(&event.metadata) {
            Some(self.format.render(event, time))
        } else {
            None
        }
    }

    /// What the logger does with the event now. An event that the logger
    /// does not take costs the test and nothing more.
    pub fn on_event(&self, event: &Event) -> (r: Option<Rendering>)
        ensures
            self.may_give(event, r),
            self.gives(event, r) || (self.accepts(&event.metadata) && self.format.reads_clock()),
    {
        if self.is_enabled(&event.metadata) {
            let rendering = self.format.format_event(event);
            proof {
                let stamp = choose|stamp: Seq<char>|
                    rendering@ == self.format.rendering(event, stamp);
                assert(outcome_view(Some(rendering)) == self.outcome(event, stamp));
                if !self.format.reads_clock() {
                    assert forall|other: Seq<char>|
                        outcome_view(Some(rendering)) == #[trigger] self.outcome(event, other) by {
                        assert(rendering@ == self.format.rendering(event, other));
                    }
                }
            }
            Some(rendering)
        } else {
            assert(outcome_view(None) == self.outcome(event, Seq::empty()));
            None
        }
    }
}

} // verus!
