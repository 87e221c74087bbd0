//! The values that a configuration is made of: targets, appenders, loggers,
//! levels and formats.

use vstd::prelude::*;
use crate::error::{result_view, Error};
use crate::size::{factor_of, number_of, parse_size};
use crate::text::{chars_of, compare, lemma_run_end, order_of, scan, scan_back, CharClass, Order};
use std::cmp::Ordering;

verus! {

/// The origin of a log event, a module path for one. A logger with the target
/// `a::b` takes the events whose own target begins with `a::b`. Targets are
/// equal and ordered as their texts are.
#[derive(Debug, Eq, Hash, Ord)]
pub struct Target(pub String);

impl View for Target {
    type V = Seq<char>;

    open spec fn view(&self) -> Seq<char> {
        self.0@
    }
}

impl Target {
    #[must_use]
    pub fn as_str(&self) -> (s: &str)
        ensures
            s@ == self@,
    {
        self.0.as_str()
    }

    pub fn to_string(&self) -> (s: String)
        ensures
            s@ == self@,
    {
        self.0.clone()
    }
}

impl Clone for Target {
    fn clone(&self) -> (r: Self)
        ensures
            r@ == self@,
    {
        Target(self.0.clone())
    }
}

impl From<&str> for Target {
    fn from(s: &str) -> (r: Self)
        ensures
            r@ == s@,
    {
        Target(s.to_owned())
    }
}

impl vstd::std_specs::convert::FromSpecImpl<&str> for Target {
    open spec fn obeys_from_spec() -> bool {
        false
    }

    open spec fn from_spec(s: &str) -> Self {
        choose|t: Target| t@ == s@
    }
}

impl PartialEq for Target {
    fn eq(&self, other: &Self) -> (r: bool) {
        self.0 == other.0
    }
}

impl vstd::std_specs::cmp::PartialEqSpecImpl for Target {
    open spec fn obeys_eq_spec() -> bool {
        true
    }

    open spec fn eq_spec(&self, other: &Self) -> bool {
        self@ == other@
    }
}

impl PartialOrd for Target {
    fn partial_cmp(&self, other: &Self) -> (r: Option<Ordering>) {
        match compare(self.0.as_str(), other.0.as_str()) {
            Order::Before => Some(Ordering::Less),
            Order::Same => Some(Ordering::Equal),
            Order::After => Some(Ordering::Greater),
        }
    }
}

impl vstd::std_specs::cmp::PartialOrdSpecImpl for Target {
    open spec fn obeys_partial_cmp_spec() -> bool {
        true
    }

    open spec fn partial_cmp_spec(&self, other: &Self) -> Option<Ordering> {
        match order_of(self@, other@) {
            Order::Before => Some(Ordering::Less),
            Order::Same => Some(Ordering::Equal),
            Order::After => Some(Ordering::Greater),
        }
    }
}

/// The name of an appender, by which loggers refer to it. Ids are equal and
/// ordered as their texts are.
#[derive(Debug, Eq, Hash, Ord)]
pub struct AppenderId(pub String);

impl View for AppenderId {
    type V = Seq<char>;

    open spec fn view(&self) -> Seq<char> {
        self.0@
    }
}

impl Clone for AppenderId {
    fn clone(&self) -> (r: Self)
        ensures
            r@ == self@,
    {
        AppenderId(self.0.clone())
    }
}

impl From<&str> for AppenderId {
    fn from(s: &str) -> (r: Self)
        ensures
            r@ == s@,
    {
        AppenderId(s.to_owned())
    }
}

impl vstd::std_specs::convert::FromSpecImpl<&str> for AppenderId {
    open spec fn obeys_from_spec() -> bool {
        false
    }

    open spec fn from_spec(s: &str) -> Self {
        choose|a: AppenderId| a@ == s@
    }
}

impl PartialEq for AppenderId {
    fn eq(&self, other: &Self) -> (r: bool) {
        self.0 == other.0
    }
}

impl vstd::std_specs::cmp::PartialEqSpecImpl for AppenderId {
    open spec fn obeys_eq_spec() -> bool {
        true
    }

    open spec fn eq_spec(&self, other: &Self) -> bool {
        self@ == other@
    }
}

impl PartialOrd for AppenderId {
    fn partial_cmp(&self, other: &Self) -> (r: Option<Ordering>) {
        match compare(self.0.as_str(), other.0.as_str()) {
            Order::Before => Some(Ordering::Less),
            Order::Same => Some(Ordering::Equal),
            Order::After => Some(Ordering::Greater),
        }
    }
}

impl vstd::std_specs::cmp::PartialOrdSpecImpl for AppenderId {
    open spec fn obeys_partial_cmp_spec() -> bool {
        true
    }

    open spec fn partial_cmp_spec(&self, other: &Self) -> Option<Ordering> {
        match order_of(self@, other@) {
            Order::Before => Some(Ordering::Less),
            Order::Same => Some(Ordering::Equal),
            Order::After => Some(Ordering::Greater),
        }
    }
}

/// How the events of a logger are written out.
#[derive(Debug, Eq)]
pub enum Format {
    /// One line with the time, the level, the target and the fields.
    Normal,
    /// The message and nothing else.
    MessageOnly,
    /// As the template says.
    Custom(String),
}

impl Format {
    /// Whether two formats are of one kind and, where they are templates, hold
    /// the same text.
    pub open spec fn same(&self, other: &Self) -> bool {
        match (*self, *other) {
            (Format::Normal, Format::Normal) => true,
            (Format::MessageOnly, Format::MessageOnly) => true,
            (Format::Custom(a), Format::Custom(b)) => a@ == b@,
            _ => false,
        }
    }

    pub fn is_normal(&self) -> (r: bool)
        ensures
            r == (*self is Normal),
    {
        matches!(self, Self::Normal)
    }
}

impl Default for Format {
    fn default() -> (r: Self)
        ensures
            r is Normal,
    {
        Format::Normal
    }
}

impl Clone for Format {
    fn clone(&self) -> (r: Self)
        ensures
            r.same(self),
    {
        match self {
            Format::Normal => Format::Normal,
            Format::MessageOnly => Format::MessageOnly,
            Format::Custom(template) => Format::Custom(template.clone()),
        }
    }
}

impl PartialEq for Format {
    fn eq(&self, other: &Self) -> (r: bool) {
        match (self, other) {
            (Format::Normal, Format::Normal) => true,
            (Format::MessageOnly, Format::MessageOnly) => true,
            (Format::Custom(a), Format::Custom(b)) => *a == *b,
            _ => false,
        }
    }
}

impl vstd::std_specs::cmp::PartialEqSpecImpl for Format {
    open spec fn obeys_eq_spec() -> bool {
        true
    }

    open spec fn eq_spec(&self, other: &Self) -> bool {
        self.same(other)
    }
}

/// The six severities, from the one that lets nothing through to the one that
/// lets everything through.
#[derive(Clone, Copy, Debug, PartialEq, Eq, PartialOrd, Ord, Hash, Structural)]
pub enum Severity {
    Off,
    Error,
    Warn,
    Info,
    Debug,
    Trace,
}

/// A severity, as the level of an event or as the threshold of a logger. The
/// order is that of the ranks: `OFF < ERROR < WARN < INFO < DEBUG < TRACE`.
#[derive(Clone, Copy, Debug, PartialEq, Eq, PartialOrd, Ord, Hash, Structural)]
pub struct LevelFilter(pub Severity);

/// `tracing::level_filters::ParseLevelFilterError`, the error of a text that
/// stands for no level. It holds nothing.
#[verifier::external_type_specification]
#[verifier::external_body]
pub struct ExParseLevelFilterError(tracing::level_filters::ParseLevelFilterError);

/// The level that `tracing` reads a text as, if it reads it as one.
pub uninterp spec fn level_filter_of(text: Seq<char>) -> Option<LevelFilter>;

/// `from_str` of `tracing::level_filters::LevelFilter`, which is what
/// `str::parse` calls: the level that the text stands for, or an error where
/// it stands for none. The level depends on the text alone.
#[verifier::external_body]
fn parse_level_filter(s: &str) -> (r: Result<
    LevelFilter,
    tracing::level_filters::ParseLevelFilterError,
>)
    ensures
        match r {
            Ok(level) => level_filter_of(s@) == Some(level),
            Err(_) => level_filter_of(s@) is None,
        },
{
    let filter: tracing::level_filters::LevelFilter = s.parse()?;
    Ok(match filter.into_level() {
        None => LevelFilter(Severity::Off),
        Some(tracing::Level::ERROR) => LevelFilter(Severity::Error),
        Some(tracing::Level::WARN) => LevelFilter(Severity::Warn),
        Some(tracing::Level::INFO) => LevelFilter(Severity::Info),
        Some(tracing::Level::DEBUG) => LevelFilter(Severity::Debug),
        Some(tracing::Level::TRACE) => LevelFilter(Severity::Trace),
    })
}

/// A text that stands for no level.
#[derive(Clone, Copy, Debug, PartialEq, Eq, Structural)]
pub struct UnknownLevel;

impl LevelFilter {
    /// The level that a text stands for.
    pub fn from_str(s: &str) -> (r: Result<Self, UnknownLevel>)
        ensures
            r == match level_filter_of(s@) {
                Some(level) => Ok::<LevelFilter, UnknownLevel>(level),
                None => Err(UnknownLevel),
            },
    {
        match parse_level_filter(s) {
            Ok(level) => Ok(level),
            Err(_) => Err(UnknownLevel),
        }
    }

    pub fn trace() -> (r: Self)
        ensures
            r == LevelFilter(Severity::Trace),
    {
        LevelFilter(Severity::Trace)
    }

    pub fn debug() -> (r: Self)
        ensures
            r == LevelFilter(Severity::Debug),
    {
        LevelFilter(Severity::Debug)
    }

    pub fn info() -> (r: Self)
        ensures
            r == LevelFilter(Severity::Info),
    {
        LevelFilter(Severity::Info)
    }

    pub fn warn() -> (r: Self)
        ensures
            r == LevelFilter(Severity::Warn),
    {
        LevelFilter(Severity::Warn)
    }

    pub fn error() -> (r: Self)
        ensures
            r == LevelFilter(Severity::Error),
    {
        LevelFilter(Severity::Error)
    }

    pub fn off() -> (r: Self)
        ensures
            r == LevelFilter(Severity::Off),
    {
        LevelFilter(Severity::Off)
    }

    /// The threshold that lets every event through.
    #[must_use]
    pub fn maximum() -> (r: Self)
        ensures
            r == LevelFilter(Severity::Trace),
    {
        LevelFilter(Severity::Trace)
    }

    /// The place in the order of severities: 0 for `OFF`, 1 for `ERROR`, up to
    /// 5 for `TRACE`.
    pub open spec fn rank(self) -> nat {
        match self.0 {
            Severity::Off => 0,
            Severity::Error => 1,
            Severity::Warn => 2,
            Severity::Info => 3,
            Severity::Debug => 4,
            Severity::Trace => 5,
        }
    }

    /// Whether a logger with this threshold takes an event of the level
    /// `level`: the event is at least as severe as the threshold. `OFF` is the
    /// level of no event.
    pub open spec fn enables(self, level: LevelFilter) -> bool {
        level.0 != Severity::Off && level.rank() <= self.rank()
    }

    /// The name of the level, in capitals.
    pub open spec fn name(self) -> Seq<char> {
        match self.0 {
            Severity::Off => "OFF"@,
            Severity::Error => "ERROR"@,
            Severity::Warn => "WARN"@,
            Severity::Info => "INFO"@,
            Severity::Debug => "DEBUG"@,
            Severity::Trace => "TRACE"@,
        }
    }

    /// The name of the level, in capitals.
    pub fn as_str(self) -> (r: &'static str)
        ensures
            r@ == self.name(),
    {
        match self.0 {
            Severity::Off => "OFF",
            Severity::Error => "ERROR",
            Severity::Warn => "WARN",
            Severity::Info => "INFO",
            Severity::Debug => "DEBUG",
            Severity::Trace => "TRACE",
        }
    }

    pub fn index(self) -> (r: u8)
        ensures
            r == self.rank(),
    {
        match self.0 {
            Severity::Off => 0,
            Severity::Error => 1,
            Severity::Warn => 2,
            Severity::Info => 3,
            Severity::Debug => 4,
            Severity::Trace => 5,
        }
    }

    pub fn is_enabled(self, level: LevelFilter) -> (r: bool)
        ensures
            r == self.enables(level),
    {
        level.index() != 0 && level.index() <= self.index()
    }
}

/// The level test goes by rank. A threshold lets an event through if and
/// only if the rank of the event's level is at most its own; `OFF` as a
/// threshold lets nothing through; and `OFF`, which is the level of no event,
/// gets through no threshold.
pub proof fn lemma_level_test(filter: LevelFilter, level: LevelFilter)
    ensures
        level != LevelFilter(Severity::Off) ==> (filter.enables(level) <==> level.rank()
            <= filter.rank()),
        filter == LevelFilter(Severity::Off) ==> !filter.enables(level),
        level == LevelFilter(Severity::Off) ==> !filter.enables(level),
{
}

/// The ranks order the levels: two levels of one rank are one level, and the
/// ranks are those from 0 to 5.
pub proof fn lemma_rank_orders(a: LevelFilter, b: LevelFilter)
    ensures
        a.rank() <= 5,
        a.rank() == b.rank() <==> a == b,
{
}

impl std::str::FromStr for LevelFilter {
    type Err = UnknownLevel;

    fn from_str(s: &str) -> (r: Result<Self, Self::Err>)
        ensures
            r == match level_filter_of(s@) {
                Some(level) => Ok::<LevelFilter, UnknownLevel>(level),
                None => Err(UnknownLevel),
            },
    {
        LevelFilter::from_str(s)
    }
}

/// How a rolling file is rolled.
#[derive(Debug, Eq)]
pub struct Policy {
    /// The size above which the file is rolled, as
    /// [`Policy::calculate_maximum_file_size`] reads it.
    pub maximum_file_size: String,
    /// How many rolled files are kept.
    pub max_size_roll_backups: u32,
    /// How the rolled files are named.
    pub pattern: Option<String>,
}

impl Policy {
    /// Whether two policies hold the same values.
    pub open spec fn same(&self, other: &Self) -> bool {
        &&& self.maximum_file_size@ == other.maximum_file_size@
        &&& self.max_size_roll_backups == other.max_size_roll_backups
        &&& match (self.pattern, other.pattern) {
            (Some(a), Some(b)) => a@ == b@,
            (None, None) => true,
            _ => false,
        }
    }

    /// Takes a size like `10kb` and returns the number of bytes.
    ///
    /// ```text
    /// 10, 10b
    /// 10kb 10kib
    /// 10mb 10mib
    /// 10gb 10gib
    /// 10tb 10tib
    /// ```
    pub fn calculate_maximum_file_size(size: &str) -> (r: Result<u64, Error>)
        ensures
            result_view(r) == parse_size(size@),
    {
        let chars = chars_of(size);
        let n = scan(&chars, 0, CharClass::Digit);
        proof {
            lemma_run_end(chars@, 0, CharClass::Digit);
        }
        let number = match number_of(&chars, n) {
            Ok(number) => number,
            Err(e) => {
                return Err(Error::Number(e));
            },
        };
        let start = scan(&chars, n, CharClass::Space);
        let end = scan_back(&chars, chars.len(), CharClass::Space);
        if start >= end {
            return Ok(number);
        }
        let unit = size.substring_char(start, end);
        match factor_of(&chars, start, end) {
            None => Err(Error::UnexpectedUnit(unit.to_owned())),
            Some(factor) => match number.checked_mul(factor) {
                Some(bytes) => Ok(bytes),
                None => Err(Error::Overflow { number, unit: unit.to_owned() }),
            },
        }
    }
}

impl Clone for Policy {
    fn clone(&self) -> (r: Self)
        ensures
            r.same(self),
    {
        Policy {
            maximum_file_size: self.maximum_file_size.clone(),
            max_size_roll_backups: self.max_size_roll_backups,
            pattern: match &self.pattern {
                Some(p) => Some(p.clone()),
                None => None,
            },
        }
    }
}

impl PartialEq for Policy {
    fn eq(&self, other: &Self) -> (r: bool) {
        self.maximum_file_size == other.maximum_file_size && self.max_size_roll_backups
            == other.max_size_roll_backups && match (&self.pattern, &other.pattern) {
            (Some(a), Some(b)) => *a == *b,
            (None, None) => true,
            _ => false,
        }
    }
}

impl vstd::std_specs::cmp::PartialEqSpecImpl for Policy {
    open spec fn obeys_eq_spec() -> bool {
        true
    }

    open spec fn eq_spec(&self, other: &Self) -> bool {
        self.same(other)
    }
}

/// Where events are written to.
#[derive(Debug, Eq)]
pub enum Appender {
    /// Nowhere.
    Null,
    /// The standard output.
    Console,
    /// A file.
    File { path: String },
    /// A file that is rolled when it has grown to a size.
    RollingFile { path: String, policy: Policy },
}

impl Appender {
    /// Whether two appenders are of one kind and hold the same values.
    pub open spec fn same(&self, other: &Self) -> bool {
        match (*self, *other) {
            (Appender::Null, Appender::Null) => true,
            (Appender::Console, Appender::Console) => true,
            (Appender::File { path: a }, Appender::File { path: b }) => a@ == b@,
            (
                Appender::RollingFile { path: a, policy: p },
                Appender::RollingFile { path: b, policy: q },
            ) => a@ == b@ && p.same(&q),
            _ => false,
        }
    }

    pub fn file(path: &str) -> (r: Self)
        ensures
            r matches Appender::File { path: p } && p@ == path@,
    {
        Self::File { path: path.to_owned() }
    }

    pub fn console() -> (r: Self)
        ensures
            r is Console,
    {
        Self::Console
    }
}

impl Clone for Appender {
    fn clone(&self) -> (r: Self)
        ensures
            r.same(self),
    {
        match self {
            Appender::Null => Appender::Null,
            Appender::Console => Appender::Console,
            Appender::File { path } => Appender::File { path: path.clone() },
            Appender::RollingFile { path, policy } => Appender::RollingFile {
                path: path.clone(),
                policy: policy.clone(),
            },
        }
    }
}

impl PartialEq for Appender {
    fn eq(&self, other: &Self) -> (r: bool) {
        match (self, other) {
            (Appender::Null, Appender::Null) => true,
            (Appender::Console, Appender::Console) => true,
            (Appender::File { path: a }, Appender::File { path: b }) => *a == *b,
            (
                Appender::RollingFile { path: a, policy: p },
                Appender::RollingFile { path: b, policy: q },
            ) => *a == *b && *p == *q,
            _ => false,
        }
    }
}

impl vstd::std_specs::cmp::PartialEqSpecImpl for Appender {
    open spec fn obeys_eq_spec() -> bool {
        true
    }

    open spec fn eq_spec(&self, other: &Self) -> bool {
        self.same(other)
    }
}

/// Whether no id stands twice among `ids`.
pub open spec fn distinct(ids: Seq<AppenderId>) -> bool {
    forall|i: int, j: int| 0 <= i < j < ids.len() ==> ids[i]@ != ids[j]@
}

/// Whether `id` stands among `ids`.
pub open spec fn names(ids: Seq<AppenderId>, id: Seq<char>) -> bool {
    exists|i: int| 0 <= i < ids.len() && (#[trigger] ids[i])@ == id
}

/// Whether each of `ids` stands among `others`.
pub open spec fn within(ids: Seq<AppenderId>, others: Seq<AppenderId>) -> bool {
    forall|i: int| 0 <= i < ids.len() ==> names(others, (#[trigger] ids[i])@)
}

fn has_id(ids: &Vec<AppenderId>, id: &AppenderId) -> (r: bool)
    ensures
        r == names(ids@, id@),
{
    let mut i: usize = 0;
    while i < ids.len()
        invariant
            i <= ids.len(),
            forall|j: int| 0 <= j < i ==> (#[trigger] ids@[j])@ != id@,
        decreases ids.len() - i,
    {
        if ids[i] == *id {
            return true;
        }
        i = i + 1;
    }
    false
}

fn all_within(ids: &Vec<AppenderId>, others: &Vec<AppenderId>) -> (r: bool)
    ensures
        r == within(ids@, others@),
{
    let mut i: usize = 0;
    while i < ids.len()
        invariant
            i <= ids.len(),
            forall|j: int| 0 <= j < i ==> names(others@, (#[trigger] ids@[j])@),
        decreases ids.len() - i,
    {
        if !has_id(others, &ids[i]) {
            return false;
        }
        i = i + 1;
    }
    true
}

/// Which events go where, and how they are written. The appenders are a set:
/// their order says nothing.
#[derive(Clone, Debug, Eq)]
pub struct Logger {
    /// The appenders that the events go to. None is named twice.
    pub appenders: Vec<AppenderId>,
    /// How severe an event must be.
    pub level: LevelFilter,
    /// How the events are written.
    pub format: Format,
}

impl PartialEq for Logger {
    fn eq(&self, other: &Self) -> (r: bool) {
        self.level == other.level && self.format == other.format && all_within(
            &self.appenders,
            &other.appenders,
        ) && all_within(&other.appenders, &self.appenders)
    }
}

impl vstd::std_specs::cmp::PartialEqSpecImpl for Logger {
    open spec fn obeys_eq_spec() -> bool {
        true
    }

    open spec fn eq_spec(&self, other: &Self) -> bool {
        self.same(other)
    }
}

impl Logger {
    /// Whether two loggers name the same appenders and have the same level
    /// and format.
    pub open spec fn same(&self, other: &Self) -> bool {
        &&& self.level == other.level
        &&& self.format.same(&other.format)
        &&& within(self.appenders@, other.appenders@)
        &&& within(other.appenders@, self.appenders@)
    }

    /// No appender is named twice.
    pub open spec fn wf(&self) -> bool {
        distinct(self.appenders@)
    }

    pub fn is_valid(&self) -> (r: bool)
        ensures
            r == self.wf(),
    {
        let mut j: usize = 0;
        while j < self.appenders.len()
            invariant
                j <= self.appenders.len(),
                forall|a: int, b: int|
                    0 <= a < b < j ==> self.appenders@[a]@ != self.appenders@[b]@,
            decreases self.appenders.len() - j,
        {
            let mut i: usize = 0;
            while i < j
                invariant
                    i <= j < self.appenders.len(),
                    forall|a: int| 0 <= a < i ==> self.appenders@[a]@ != self.appenders@[j as int]@,
                decreases j - i,
            {
                if self.appenders[i] == self.appenders[j] {
                    return false;
                }
                i = i + 1;
            }
            j = j + 1;
        }
        true
    }
}

/// Whether `appenders` holds the appender under the id.
pub open spec fn holds_appender(
    appenders: Seq<(AppenderId, Appender)>,
    id: Seq<char>,
    appender: &Appender,
) -> bool {
    exists|i: int|
        0 <= i < appenders.len() && (#[trigger] appenders[i]).0@ == id && appenders[i].1.same(
            appender,
        )
}

/// Whether `others` holds each of `appenders` under its id.
pub open spec fn appenders_within(
    appenders: Seq<(AppenderId, Appender)>,
    others: Seq<(AppenderId, Appender)>,
) -> bool {
    forall|i: int|
        0 <= i < appenders.len() ==> holds_appender(
            others,
            (#[trigger] appenders[i]).0@,
            &appenders[i].1,
        )
}

/// Whether `loggers` holds the logger under the target.
pub open spec fn holds_logger(loggers: Seq<(Target, Logger)>, target: Seq<char>, logger: &Logger) -> bool {
    exists|i: int|
        0 <= i < loggers.len() && (#[trigger] loggers[i]).0@ == target && loggers[i].1.same(logger)
}

/// Whether `others` holds each of `loggers` under its target.
pub open spec fn loggers_within(loggers: Seq<(Target, Logger)>, others: Seq<(Target, Logger)>) -> bool {
    forall|i: int|
        0 <= i < loggers.len() ==> holds_logger(others, (#[trigger] loggers[i]).0@, &loggers[i].1)
}

fn has_appender(appenders: &Vec<(AppenderId, Appender)>, id: &AppenderId, appender: &Appender) -> (r:
    bool)
    ensures
        r == holds_appender(appenders@, id@, appender),
{
    let mut i: usize = 0;
    while i < appenders.len()
        invariant
            i <= appenders.len(),
            forall|j: int|
                0 <= j < i ==> !((#[trigger] appenders@[j]).0@ == id@ && appenders@[j].1.same(
                    appender,
                )),
        decreases appenders.len() - i,
    {
        if appenders[i].0 == *id && appenders[i].1 == *appender {
            return true;
        }
        i = i + 1;
    }
    false
}

fn all_appenders_within(
    appenders: &Vec<(AppenderId, Appender)>,
    others: &Vec<(AppenderId, Appender)>,
) -> (r: bool)
    ensures
        r == appenders_within(appenders@, others@),
{
    let mut i: usize = 0;
    while i < appenders.len()
        invariant
            i <= appenders.len(),
            forall|j: int|
                0 <= j < i ==> holds_appender(
                    others@,
                    (#[trigger] appenders@[j]).0@,
                    &appenders@[j].1,
                ),
        decreases appenders.len() - i,
    {
        if !has_appender(others, &appenders[i].0, &appenders[i].1) {
            return false;
        }
        i = i + 1;
    }
    true
}

fn has_logger(loggers: &Vec<(Target, Logger)>, target: &Target, logger: &Logger) -> (r: bool)
    ensures
        r == holds_logger(loggers@, target@, logger),
{
    let mut i: usize = 0;
    while i < loggers.len()
        invariant
            i <= loggers.len(),
            forall|j: int|
                0 <= j < i ==> !((#[trigger] loggers@[j]).0@ == target@ && loggers@[j].1.same(
                    logger,
                )),
        decreases loggers.len() - i,
    {
        if loggers[i].0 == *target && loggers[i].1 == *logger {
            return true;
        }
        i = i + 1;
    }
    false
}

fn all_loggers_within(loggers: &Vec<(Target, Logger)>, others: &Vec<(Target, Logger)>) -> (r: bool)
    ensures
        r == loggers_within(loggers@, others@),
{
    let mut i: usize = 0;
    while i < loggers.len()
        invariant
            i <= loggers.len(),
            forall|j: int|
                0 <= j < i ==> holds_logger(others@, (#[trigger] loggers@[j]).0@, &loggers@[j].1),
        decreases loggers.len() - i,
    {
        if !has_logger(others, &loggers[i].0, &loggers[i].1) {
            return false;
        }
        i = i + 1;
    }
    true
}

/// A configuration: the logger of the events of every target, the appenders
/// by their ids, and the loggers of single targets. The appenders and the
/// loggers are maps: their order says nothing.
#[derive(Clone, Debug, Eq)]
pub struct Config {
    /// The logger that is offered every event.
    pub default: Logger,
    /// The appenders, each under its id. No id stands twice.
    pub appenders: Vec<(AppenderId, Appender)>,
    /// The loggers of single targets. No target stands twice.
    pub loggers: Vec<(Target, Logger)>,
}

impl PartialEq for Config {
    fn eq(&self, other: &Self) -> (r: bool) {
        self.default == other.default && all_appenders_within(&self.appenders, &other.appenders)
            && all_appenders_within(&other.appenders, &self.appenders) && all_loggers_within(
            &self.loggers,
            &other.loggers,
        ) && all_loggers_within(&other.loggers, &self.loggers)
    }
}

impl vstd::std_specs::cmp::PartialEqSpecImpl for Config {
    open spec fn obeys_eq_spec() -> bool {
        true
    }

    open spec fn eq_spec(&self, other: &Self) -> bool {
        self.same(other)
    }
}

impl Config {
    /// Whether two configurations hold the same default logger, the same
    /// appenders under the same ids, and the same loggers under the same
    /// targets.
    pub open spec fn same(&self, other: &Self) -> bool {
        &&& self.default.same(&other.default)
        &&& appenders_within(self.appenders@, other.appenders@)
        &&& appenders_within(other.appenders@, self.appenders@)
        &&& loggers_within(self.loggers@, other.loggers@)
        &&& loggers_within(other.loggers@, self.loggers@)
    }

    /// No appender id and no target stands twice, and no logger names an
    /// appender twice.
    pub open spec fn wf(&self) -> bool {
        &&& self.default.wf()
        &&& forall|i: int, j: int|
            0 <= i < j < self.appenders@.len() ==> self.appenders@[i].0@ != self.appenders@[j].0@
        &&& forall|i: int, j: int|
            0 <= i < j < self.loggers@.len() ==> self.loggers@[i].0@ != self.loggers@[j].0@
        &&& forall|i: int| 0 <= i < self.loggers@.len() ==> (#[trigger] self.loggers@[i]).1.wf()
    }

    /// Whether no appender id and no target stands twice, and no logger
    /// names an appender twice.
    pub fn is_valid(&self) -> (r: bool)
        ensures
            r == self.wf(),
    {
        if !self.default.is_valid() {
            return false;
        }
        let mut j: usize = 0;
        while j < self.appenders.len()
            invariant
                j <= self.appenders.len(),
                forall|a: int, b: int|
                    0 <= a < b < j ==> self.appenders@[a].0@ != self.appenders@[b].0@,
            decreases self.appenders.len() - j,
        {
            let mut i: usize = 0;
            while i < j
                invariant
                    i <= j < self.appenders.len(),
                    forall|a: int|
                        0 <= a < i ==> self.appenders@[a].0@ != self.appenders@[j as int].0@,
                decreases j - i,
            {
                if self.appenders[i].0 == self.appenders[j].0 {
                    return false;
                }
                i = i + 1;
            }
            j = j + 1;
        }
        let mut j: usize = 0;
        while j < self.loggers.len()
            invariant
                j <= self.loggers.len(),
                forall|a: int, b: int|
                    0 <= a < b < j ==> self.loggers@[a].0@ != self.loggers@[b].0@,
                forall|a: int| 0 <= a < j ==> (#[trigger] self.loggers@[a]).1.wf(),
            decreases self.loggers.len() - j,
        {
            if !self.loggers[j].1.is_valid() {
                return false;
            }
            let mut i: usize = 0;
            while i < j
                invariant
                    i <= j < self.loggers.len(),
                    forall|a: int| 0 <= a < i ==> self.loggers@[a].0@ != self.loggers@[j as int].0@,
                decreases j - i,
            {
                if self.loggers[i].0 == self.loggers[j].0 {
                    return false;
                }
                i = i + 1;
            }
            j = j + 1;
        }
        true
    }

    /// Whether this is the configuration that writes the events from `INFO`
    /// on to the standard output, as one line each.
    pub open spec fn is_console_config(&self) -> bool {
        &&& self.default.level == LevelFilter(Severity::Info)
        &&& self.default.format is Normal
        &&& self.default.appenders@.len() == 1
        &&& self.default.appenders@[0]@ == "stdout"@
        &&& self.loggers@.len() == 0
        &&& self.appenders@.len() == 1
        &&& self.appenders@[0].0@ == "stdout"@
        &&& self.appenders@[0].1 is Console
    }

    /// A configuration for `INFO` and above to be logged to stdout.
    pub fn console_config() -> (r: Config)
        ensures
            r.is_console_config(),
            r.wf(),
    {
        let mut ids: Vec<AppenderId> = Vec::new();
        ids.push(AppenderId::from("stdout"));
        let mut appenders: Vec<(AppenderId, Appender)> = Vec::new();
        appenders.push((AppenderId::from("stdout"), Appender::Console));
        Config {
            default: Logger { level: LevelFilter::info(), appenders: ids, format: Format::default() },
            loggers: Vec::new(),
            appenders,
        }
    }
}

impl Default for Config {
    fn default() -> (r: Self)
        ensures
            r.is_console_config(),
            r.wf(),
    {
        Self::console_config()
    }
}

} // verus!
