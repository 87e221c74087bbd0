//! The loggers of a configuration at work together. An event is offered to
//! every logger: none stands before another, and what one does with an event
//! changes nothing for the others.

use vstd::prelude::*;
use crate::appenders::{resolved, Appenders};
use crate::clock::stamp;
use crate::config::{AppenderId, Config, Format, Target};
use crate::event::{Event, Metadata};
use crate::loggers::{outcome_view, EventFormatter, Logger, Rendering};
use crate::template::{parse, TemplateError, TemplateFault};

verus! {

/// What is wrong with a format: the fault in its template, if it has one.
pub open spec fn fault_of(format: &Format) -> Option<TemplateFault> {
    match *format {
        Format::Custom(template) => match parse(template@) {
            Ok(_) => None,
            Err(fault) => Some(fault),
        },
        _ => None,
    }
}

/// The fault of the first logger that has one.
pub open spec fn first_fault(loggers: Seq<(Target, crate::config::Logger)>) -> Option<
    TemplateFault,
>
    decreases loggers.len(),
{
    if loggers.len() == 0 {
        None
    } else if first_fault(loggers.drop_last()) is Some {
        first_fault(loggers.drop_last())
    } else {
        fault_of(&loggers.last().1.format)
    }
}

/// Whether `logger` is what `rule` asks for, for the events of `target`,
/// with the appenders `ids` there.
pub open spec fn is_stage(
    logger: &Logger,
    rule: &crate::config::Logger,
    target: Option<Seq<char>>,
    ids: Seq<AppenderId>,
) -> bool {
    &&& logger.level == rule.level
    &&& match (logger.target, target) {
        (Some(own), Some(wanted)) => own@ == wanted,
        (None, None) => true,
        _ => false,
    }
    &&& logger.writer@ == resolved(rule.appenders@, ids)
    &&& logger.format.is_of(&rule.format)
}

/// The loggers of a configuration: first the one of every target, then
/// those of single targets, in the order of the configuration.
#[derive(Debug)]
pub struct Dispatcher {
    pub stages: Vec<Logger>,
}

impl Dispatcher {
    /// The logger that `rule` asks for.
    fn stage(rule: &crate::config::Logger, target: Option<Target>, appenders: &Appenders) -> (r:
        Result<Logger, TemplateError>)
        ensures
            match r {
                Ok(logger) => fault_of(&rule.format) is None && is_stage(
                    &logger,
                    rule,
                    match target {
                        Some(t) => Some(t@),
                        None => None,
                    },
                    appenders.ids@,
                ),
                Err(e) => fault_of(&rule.format) == Some(e@),
            },
    {
        let format = rule.format.clone();
        match EventFormatter::from(format) {
            Ok(formatter) => Ok(
                Logger::new(rule.level, target, &rule.appenders, appenders, formatter),
            ),
            Err(e) => Err(e),
        }
    }

    /// The loggers of a configuration, each with the destination that the
    /// appenders that are there make for it. It fails where a logger has a
    /// format that is no template, with the fault of the first such logger.
    pub fn new(config: &Config, appenders: &Appenders) -> (r: Result<Self, TemplateError>)
        ensures
            match r {
                Ok(dispatcher) => {
                    &&& fault_of(&config.default.format) is None
                    &&& first_fault(config.loggers@) is None
                    &&& dispatcher.stages@.len() == config.loggers@.len() + 1
                    &&& is_stage(&dispatcher.stages@[0], &config.default, None, appenders.ids@)
                    &&& forall|i: int|
                        0 <= i < config.loggers@.len() ==> is_stage(
                            #[trigger] &dispatcher.stages@[i + 1],
                            &config.loggers@[i].1,
                            Some(config.loggers@[i].0@),
                            appenders.ids@,
                        )
                },
                Err(e) => Some(e@) == if fault_of(&config.default.format) is Some {
                    fault_of(&config.default.format)
                } else {
                    first_fault(config.loggers@)
                },
            },
    {
        let mut stages: Vec<Logger> = Vec::new();
        match Self::stage(&config.default, None, appenders) {
            Ok(logger) => stages.push(logger),
            Err(e) => {
                return Err(e);
            },
        }
        let mut i: usize = 0;
        while i < config.loggers.len()
            invariant
                i <= config.loggers.len(),
                fault_of(&config.default.format) is None,
                first_fault(config.loggers@.take(i as int)) is None,
                stages@.len() == i + 1,
                is_stage(&stages@[0], &config.default, None, appenders.ids@),
                forall|j: int|
                    0 <= j < i ==> is_stage(
                        #[trigger] &stages@[j + 1],
                        &config.loggers@[j].1,
                        Some(config.loggers@[j].0@),
                        appenders.ids@,
                    ),
            decreases config.loggers.len() - i,
        {
            proof {
                assert(config.loggers@.take(i + 1).drop_last() == config.loggers@.take(i as int));
            }
            let target = config.loggers[i].0.clone();
            match Self::stage(&config.loggers[i].1, Some(target), appenders) {
                Ok(logger) => stages.push(logger),
                Err(e) => {
                    proof {
                        lemma_first_fault_stays(config.loggers@, i + 1);
                    }
                    return Err(e);
                },
            }
            i = i + 1;
        }
        assert(config.loggers@.take(i as int) == config.loggers@);
        Ok(Dispatcher { stages })
    }

    /// Whether one of the loggers takes an event with this metadata.
    pub fn is_enabled(&self, meta: &Metadata) -> (r: bool)
        ensures
            r == exists|i: int| 0 <= i < self.stages@.len() && (#[trigger] self.stages@[i]).accepts(meta),
    {
        let mut i: usize = 0;
        while i < self.stages.len()
            invariant
                i <= self.stages.len(),
                forall|j: int| 0 <= j < i ==> !(#[trigger] self.stages@[j]).accepts(meta),
            decreases self.stages.len() - i,
        {
            if self.stages[i].is_enabled(meta) {
                return true;
            }
            i = i + 1;
        }
        false
    }

    /// What each of the loggers does with the event, when `time` is the time
    /// as the clock gave it.
    pub fn process(&self, event: &Event, time: &Option<String>) -> (r: Vec<Option<Rendering>>)
        ensures
            r@.len() == self.stages@.len(),
            forall|i: int|
                0 <= i < r@.len() ==> outcome_view(#[trigger] r@[i]) == self.stages@[i].outcome(
                    event,
                    stamp(time),
                ),
    {
        let mut outcomes: Vec<Option<Rendering>> = Vec::new();
        let mut i: usize = 0;
        while i < self.stages.len()
            invariant
                i <= self.stages.len(),
                outcomes@.len() == i,
                forall|j: int|
                    0 <= j < i ==> outcome_view(#[trigger] outcomes@[j])
                        == self.stages@[j].outcome(event, stamp(time)),
            decreases self.stages.len() - i,
        {
            outcomes.push(self.stages[i].process(event, time));
            i = i + 1;
        }
        outcomes
    }

    /// What each of the loggers does with the event now.
    pub fn on_event(&self, event: &Event) -> (r: Vec<Option<Rendering>>)
        ensures
            r@.len() == self.stages@.len(),
            forall|i: int| 0 <= i < r@.len() ==> self.stages@[i].may_give(event, #[trigger] r@[i]),
            forall|i: int|
                0 <= i < r@.len() ==> self.stages@[i].gives(event, #[trigger] r@[i]) || (
                self.stages@[i].accepts(&event.metadata) && self.stages@[i].format.reads_clock()),
    {
        let mut outcomes: Vec<Option<Rendering>> = Vec::new();
        let mut i: usize = 0;
        while i < self.stages.len()
            invariant
                i <= self.stages.len(),
                outcomes@.len() == i,
                forall|j: int|
                    0 <= j < i ==> self.stages@[j].may_give(event, #[trigger] outcomes@[j]),
                forall|j: int|
                    0 <= j < i ==> self.stages@[j].gives(event, #[trigger] outcomes@[j]) || (
                    self.stages@[j].accepts(&event.metadata)
                        && self.stages@[j].format.reads_clock()),
            decreases self.stages.len() - i,
        {
            outcomes.push(self.stages[i].on_event(event));
            i = i + 1;
        }
        outcomes
    }
}

/// A fault among the first loggers is the fault of them all.
pub proof fn lemma_first_fault_stays(loggers: Seq<(Target, crate::config::Logger)>, n: int)
    requires
        0 <= n <= loggers.len(),
        first_fault(loggers.take(n)) is Some,
    ensures
        first_fault(loggers) == first_fault(loggers.take(n)),
    decreases loggers.len() - n,
{
    if n < loggers.len() {
        assert(loggers.take(n + 1).drop_last() == loggers.take(n));
        lemma_first_fault_stays(loggers, n + 1);
    } else {
        assert(loggers.take(n) == loggers);
    }
}

} // verus!
