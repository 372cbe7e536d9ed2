//! The events that commands are run on, as they are written on a command line or on a
//! line of the config file.

use vstd::prelude::*;

use crate::config::{fresh_timeout, Config, ConfigModel, TimeoutCmd, TimeoutModel};
use crate::number::{parse_i32, spelled_i32};
use crate::text::{join, same_text, texts};

verus! {

/// One event and what is to be done about it.
pub enum Directive {
    Timeout { seconds: int, idle: Seq<char>, resume: Option<Seq<char>> },
    BeforeSleep(Seq<char>),
    AfterResume(Seq<char>),
    Lock(Seq<char>),
    Unlock(Seq<char>),
}

/// The seconds that `text` spells: a number that is not negative.
pub open spec fn seconds_in(text: Seq<char>) -> Option<int> {
    match spelled_i32(text) {
        Some(n) => if n >= 0 {
            Some(n)
        } else {
            None
        },
        None => None,
    }
}

/// The message about a text that does not spell seconds.
pub open spec fn bad_seconds(text: Seq<char>, name: Seq<char>) -> Seq<char> {
    "invalid "@ + name + " value '"@ + text + "', expected seconds"@
}

/// Reads a number of seconds; `name` says in the error what it was for.
pub fn parse_seconds(value: &str, name: &str) -> (r: Result<i32, String>)
    ensures
        match r {
            Ok(n) => seconds_in(value@) == Some(n as int),
            Err(message) => seconds_in(value@) is None && message@ == bad_seconds(value@, name@),
        },
{
    if let Some(seconds) = parse_i32(value) {
        if seconds >= 0 {
            return Ok(seconds);
        }
    }
    let mut message = join("invalid ", name);
    message.append(" value '");
    message.append(value);
    message.append("', expected seconds");
    Err(message)
}

/// The events that take nothing but a command.
pub open spec fn command_event(word: Seq<char>, command: Seq<char>) -> Option<Directive> {
    if word == "before-sleep"@ {
        Some(Directive::BeforeSleep(command))
    } else if word == "after-resume"@ {
        Some(Directive::AfterResume(command))
    } else if word == "lock"@ {
        Some(Directive::Lock(command))
    } else if word == "unlock"@ {
        Some(Directive::Unlock(command))
    } else {
        None
    }
}

/// The event at the front of `args`, with the number of words that it takes up, or what
/// is wrong with it.
pub open spec fn read_directive(args: Seq<Seq<char>>) -> Result<(Directive, int), Seq<char>>
    recommends
        args.len() > 0,
{
    if args[0] == "timeout"@ {
        if args.len() < 3 {
            Err("timeout requires <seconds> <command>"@)
        } else {
            match seconds_in(args[1]) {
                Some(seconds) => if args.len() >= 5 && args[3] == "resume"@ {
                    Ok(
                        (Directive::Timeout { seconds, idle: args[2], resume: Some(args[4]) }, 5),
                    )
                } else {
                    Ok((Directive::Timeout { seconds, idle: args[2], resume: None }, 3))
                },
                None => Err(bad_seconds(args[1], "timeout"@)),
            }
        }
    } else if command_event(args[0], args[0]) is None {
        Err("unsupported command: "@ + args[0])
    } else if args.len() < 2 {
        Err(args[0] + " requires <command>"@)
    } else {
        Ok((command_event(args[0], args[1])->0, 2))
    }
}

/// Whether the milliseconds of a timeout fit in the number that holds them.
pub open spec fn directive_fits(directive: Directive) -> bool {
    match directive {
        Directive::Timeout { seconds, .. } => seconds * 1000 <= i32::MAX,
        _ => true,
    }
}

/// The milliseconds of a timeout of so many seconds. No seconds mean that it never fires.
pub open spec fn milliseconds(seconds: int) -> int {
    if seconds > 0 {
        seconds * 1000
    } else {
        -1
    }
}

/// `config` with one more event. A timeout is added to those that are there; a command
/// takes the place of an earlier one for the same event.
pub open spec fn with_directive(config: ConfigModel, directive: Directive) -> ConfigModel {
    match directive {
        Directive::Timeout { seconds, idle, resume } => ConfigModel {
            timeouts: config.timeouts.push(
                fresh_timeout(milliseconds(seconds), Some(idle), resume),
            ),
            ..config
        },
        Directive::BeforeSleep(command) => ConfigModel {
            before_sleep_cmd: Some(command),
            ..config
        },
        Directive::AfterResume(command) => ConfigModel {
            after_resume_cmd: Some(command),
            ..config
        },
        Directive::Lock(command) => ConfigModel { lock_cmd: Some(command), ..config },
        Directive::Unlock(command) => ConfigModel { unlock_cmd: Some(command), ..config },
    }
}

/// The settings and, where reading stopped early, the error.
pub struct Reading {
    pub config: ConfigModel,
    pub error: Option<Seq<char>>,
}

/// What the events `args` make of `config`. Events ahead of an error still count.
pub open spec fn read_events(config: ConfigModel, args: Seq<Seq<char>>) -> Reading
    decreases args.len(),
{
    if args.len() == 0 {
        Reading { config, error: None }
    } else {
        match read_directive(args) {
            Ok((directive, n)) => read_events(with_directive(config, directive), args.skip(n)),
            Err(message) => Reading { config, error: Some(message) },
        }
    }
}

/// Whether the milliseconds of every timeout that is read from `args` can be held.
pub open spec fn events_in_range(args: Seq<Seq<char>>) -> bool
    decreases args.len(),
{
    if args.len() == 0 {
        true
    } else {
        match read_directive(args) {
            Ok((directive, n)) => directive_fits(directive) && events_in_range(args.skip(n)),
            Err(_) => true,
        }
    }
}

/// How reading events has ended.
pub(crate) enum EventsEnd {
    Done,
    Refused(String),
    /// A timeout has more milliseconds than can be held.
    OutOfRange,
}

/// How reading one event has ended.
enum DirectiveEnd {
    /// The event took up so many words.
    Taken(usize),
    Refused(String),
    OutOfRange,
}

/// What reading the event at the front of `rest` is to make of `before`.
spec fn directive_taken(
    before: ConfigModel,
    rest: Seq<Seq<char>>,
    after: ConfigModel,
    end: DirectiveEnd,
) -> bool {
    match end {
        DirectiveEnd::Taken(n) => match read_directive(rest) {
            Ok((directive, taken)) => n == taken <= rest.len() && directive_fits(directive) && after
                == with_directive(before, directive),
            Err(_) => false,
        },
        DirectiveEnd::Refused(message) => read_directive(rest) == Err::<
            (Directive, int),
            Seq<char>,
        >(message@) && after == before,
        DirectiveEnd::OutOfRange => match read_directive(rest) {
            Ok((directive, _)) => !directive_fits(directive),
            Err(_) => false,
        },
    }
}

/// Reads the timeout at `args[i]` into `config`.
fn take_timeout(config: &mut Config, args: &[String], i: usize) -> (r: DirectiveEnd)
    requires
        i < args@.len(),
        args@[i as int]@ == "timeout"@,
    ensures
        directive_taken(old(config)@, texts(args@).skip(i as int), final(config)@, r),
{
    let ghost rest = texts(args@).skip(i as int);
    let left = args.len() - i;
    assert(rest.len() == left);
    assert(rest[0] == args@[i as int]@);
    if left < 3 {
        return DirectiveEnd::Refused("timeout requires <seconds> <command>".to_string());
    }
    assert(rest[1] == args@[i + 1]@);
    assert(rest[2] == args@[i + 2]@);
    let seconds = match parse_seconds(args[i + 1].as_str(), "timeout") {
        Ok(seconds) => seconds,
        Err(message) => return DirectiveEnd::Refused(message),
    };
    if seconds > i32::MAX / 1000 {
        return DirectiveEnd::OutOfRange;
    }
    let mut cmd = TimeoutCmd {
        timeout_ms: if seconds > 0 {
            seconds * 1000
        } else {
            -1
        },
        registered_timeout_ms: -1,
        idle_cmd: Some(args[i + 2].clone()),
        resume_cmd: None,
        resume_pending: false,
        suppressed_by_fullscreen: false,
        notification: None,
    };
    let mut taken: usize = 3;
    if left >= 5 && same_text(&args[i + 3], "resume") {
        cmd.resume_cmd = Some(args[i + 4].clone());
        taken = 5;
    }
    config.timeouts.push(cmd);
    proof {
        if left >= 5 {
            assert(rest[3] == args@[i + 3]@);
            assert(rest[4] == args@[i + 4]@);
        }
        let (directive, n) = read_directive(rest)->Ok_0;
        assert(config@.timeouts =~= with_directive(old(config)@, directive).timeouts);
    }
    DirectiveEnd::Taken(taken)
}

/// Reads the event at `args[i]`, which is no timeout, into `config`.
fn take_command(config: &mut Config, args: &[String], i: usize) -> (r: DirectiveEnd)
    requires
        i < args@.len(),
        args@[i as int]@ != "timeout"@,
    ensures
        directive_taken(old(config)@, texts(args@).skip(i as int), final(config)@, r),
{
    let ghost rest = texts(args@).skip(i as int);
    let left = args.len() - i;
    assert(rest.len() == left);
    assert(rest[0] == args@[i as int]@);
    let before_sleep = same_text(&args[i], "before-sleep");
    let after_resume = same_text(&args[i], "after-resume");
    let lock = same_text(&args[i], "lock");
    let unlock = same_text(&args[i], "unlock");
    if !before_sleep && !after_resume && !lock && !unlock {
        return DirectiveEnd::Refused(join("unsupported command: ", args[i].as_str()));
    }
    if left < 2 {
        return DirectiveEnd::Refused(join(args[i].as_str(), " requires <command>"));
    }
    assert(rest[1] == args@[i + 1]@);
    let command = Some(args[i + 1].clone());
    if before_sleep {
        config.before_sleep_cmd = command;
    } else if after_resume {
        config.after_resume_cmd = command;
    } else if lock {
        config.lock_cmd = command;
    } else {
        config.unlock_cmd = command;
    }
    DirectiveEnd::Taken(2)
}

/// Reads the events `args` into `config`, up to a timeout that is out of range.
pub(crate) fn take_events(config: &mut Config, args: &[String]) -> (r: EventsEnd)
    ensures
        match r {
            EventsEnd::Done => events_in_range(texts(args@)) && read_events(
                old(config)@,
                texts(args@),
            ) == (Reading { config: final(config)@, error: None }),
            EventsEnd::Refused(message) => events_in_range(texts(args@)) && read_events(
                old(config)@,
                texts(args@),
            ) == (Reading { config: final(config)@, error: Some(message@) }),
            EventsEnd::OutOfRange => !events_in_range(texts(args@)),
        },
{
    let ghost all = texts(args@);
    let mut i: usize = 0;
    assert(all.skip(0) == all);
    while i < args.len()
        invariant
            i <= args@.len(),
            all == texts(args@),
            read_events(old(config)@, all) == read_events(config@, all.skip(i as int)),
            events_in_range(all) == events_in_range(all.skip(i as int)),
        decreases args@.len() - i,
    {
        let ghost rest = all.skip(i as int);
        let end = if same_text(&args[i], "timeout") {
            take_timeout(config, args, i)
        } else {
            take_command(config, args, i)
        };
        match end {
            DirectiveEnd::Taken(n) => {
                assert(rest.skip(n as int) == all.skip(i + n));
                i += n;
            },
            DirectiveEnd::Refused(message) => return EventsEnd::Refused(message),
            DirectiveEnd::OutOfRange => return EventsEnd::OutOfRange,
        }
    }
    EventsEnd::Done
}

/// Reads the events `args` into `config`.
pub fn parse_events(config: &mut Config, args: &[String]) -> (r: Result<(), String>)
    requires
        events_in_range(texts(args@)),
    ensures
        match r {
            Ok(()) => read_events(old(config)@, texts(args@)) == (Reading {
                config: final(config)@,
                error: None,
            }),
            Err(message) => read_events(old(config)@, texts(args@)) == (Reading {
                config: final(config)@,
                error: Some(message@),
            }),
        },
{
    match take_events(config, args) {
        EventsEnd::Refused(message) => Err(message),
        _ => Ok(()),
    }
}

/// Whether the milliseconds of every timeout that is read from `args` can be held.
pub fn events_fit(args: &[String]) -> (r: bool)
    ensures
        r == events_in_range(texts(args@)),
{
    let mut scratch = Config::default();
    match take_events(&mut scratch, args) {
        EventsEnd::OutOfRange => false,
        _ => true,
    }
}

/// Events that are read in two parts are read as the whole is, unless the second part
/// begins with the word that would belong to the last timeout of the first.
pub proof fn law_events_in_two_parts(
    config: ConfigModel,
    first: Seq<Seq<char>>,
    second: Seq<Seq<char>>,
)
    requires
        read_events(config, first).error is None,
        second.len() > 0 ==> second[0] != "resume"@,
    ensures
        read_events(config, first + second) == read_events(
            read_events(config, first).config,
            second,
        ),
        events_in_range(first + second) <==> events_in_range(first) && events_in_range(second),
    decreases first.len(),
{
    let both = first + second;
    if first.len() == 0 {
        assert(both == second);
    } else {
        let (directive, n) = read_directive(first)->Ok_0;
        assert(both[0] == first[0]);
        assert(first.len() >= 2 ==> both[1] == first[1]);
        assert(first.len() >= 3 ==> both[2] == first[2]);
        if first[0] == "timeout"@ && n == 3 {
            if first.len() == 3 {
                assert(both.len() > 3 ==> both[3] == second[0]);
            } else {
                assert(both[3] == first[3]);
                if first.len() == 4 {
                    lemma_resume_begins_no_event(with_directive(config, directive), first.skip(3));
                }
            }
        }
        assert(first.len() >= 5 ==> both[3] == first[3] && both[4] == first[4]);
        assert(read_directive(both) == read_directive(first));
        law_events_in_two_parts(with_directive(config, directive), first.skip(n), second);
        assert(both.skip(n) == first.skip(n) + second);
    }
}

/// The word `resume` begins no event.
pub(crate) proof fn lemma_resume_begins_no_event(config: ConfigModel, args: Seq<Seq<char>>)
    requires
        args.len() > 0,
    ensures
        args[0] == "resume"@ ==> read_events(config, args).error is Some,
{
    reveal_strlit("resume");
    reveal_strlit("timeout");
    reveal_strlit("before-sleep");
    reveal_strlit("after-resume");
    reveal_strlit("lock");
    reveal_strlit("unlock");
    assert("resume"@[0] == 'r');
    assert("unlock"@[0] == 'u');
    if args[0] == "resume"@ {
        assert(command_event(args[0], args[0]) is None);
        assert(read_directive(args) is Err);
    }
}

/// Reading events changes nothing but the timeouts and the commands, and keeps every
/// timeout that was there.
pub proof fn law_events_leave_the_rest_alone(config: ConfigModel, args: Seq<Seq<char>>)
    ensures
        ({
            let after = read_events(config, args).config;
            &&& config.timeouts.is_prefix_of(after.timeouts)
            &&& after == (ConfigModel {
                timeouts: after.timeouts,
                before_sleep_cmd: after.before_sleep_cmd,
                after_resume_cmd: after.after_resume_cmd,
                lock_cmd: after.lock_cmd,
                unlock_cmd: after.unlock_cmd,
                ..config
            })
        }),
    decreases args.len(),
{
    if args.len() > 0 {
        if let Ok((directive, n)) = read_directive(args) {
            let next = with_directive(config, directive);
            law_events_leave_the_rest_alone(next, args.skip(n));
            let after = read_events(next, args.skip(n)).config;
            assert(config.timeouts =~= next.timeouts.take(config.timeouts.len() as int));
            assert(config.timeouts =~= after.timeouts.take(config.timeouts.len() as int));
        }
    }
}

/// A timeout as events describe it: new, with a command, and either with the milliseconds
/// of whole seconds or never to fire.
pub open spec fn timeout_as_read(t: TimeoutModel) -> bool {
    &&& t == fresh_timeout(t.timeout_ms, t.idle_cmd, t.resume_cmd)
    &&& t.idle_cmd is Some
    &&& t.timeout_ms == -1 || (1000 <= t.timeout_ms <= i32::MAX && t.timeout_ms % 1000 == 0)
}

/// Every timeout that is read is sound: it has a command, and its milliseconds are those
/// of whole seconds or say that it never fires.
pub proof fn law_timeouts_are_sound(config: ConfigModel, args: Seq<Seq<char>>)
    requires
        events_in_range(args),
        forall|i: int|
            0 <= i < config.timeouts.len() ==> timeout_as_read(#[trigger] config.timeouts[i]),
    ensures
        ({
            let after = read_events(config, args).config;
            forall|i: int|
                0 <= i < after.timeouts.len() ==> timeout_as_read(#[trigger] after.timeouts[i])
        }),
    decreases args.len(),
{
    if args.len() > 0 {
        if let Ok((directive, n)) = read_directive(args) {
            let next = with_directive(config, directive);
            assert forall|i: int| 0 <= i < next.timeouts.len() implies timeout_as_read(
                #[trigger] next.timeouts[i],
            ) by {
                if i < config.timeouts.len() {
                    assert(next.timeouts[i] == config.timeouts[i]);
                }
            }
            law_timeouts_are_sound(next, args.skip(n));
        }
    }
}

} // verus!
