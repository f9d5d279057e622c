//! The event record, and its assembly from the values of the command line
//! and of the surroundings.

use vstd::prelude::*;
use crate::breadcrumb::{
    crumbs_of,
    crumbs_view,
    extract_breadcrumbs,
    Breadcrumb,
    BreadcrumbView,
    MAX_BREADCRUMBS,
};
use crate::dict::Dict;
use crate::error::{EventError, PairKind};
use crate::level::{derive_level, level_given, Level};
use crate::meta::{derive_extra, derive_tags, extra_given, merged_pairs, ExtraValue, ExtraValueView};
use crate::text::{text_of, texts_of};
use crate::timestamp::{parse_timestamp, timestamp_of, Timestamp};
use crate::user::{derive_user, user_given, user_of, User, UserView};

verus! {

/// A message with the values for its placeholders.
#[derive(Clone, Debug, PartialEq, Eq)]
pub struct LogEntry {
    /// The template: the message fragments, one per line.
    pub message: String,
    /// The positional parameters, in the order given.
    pub params: Vec<String>,
}

/// What a `LogEntry` stands for.
pub struct LogEntryView {
    pub message: Seq<char>,
    pub params: Seq<Seq<char>>,
}

impl View for LogEntry {
    type V = LogEntryView;

    open spec fn view(&self) -> LogEntryView {
        LogEntryView { message: self.message@, params: texts_of(self.params@) }
    }
}

/// Name and version of the program that sends the event.
#[derive(Clone, Debug, PartialEq, Eq)]
pub struct SdkInfo {
    pub name: String,
    pub version: String,
}

/// One diagnostic record, ready to be sent.
#[derive(Debug)]
pub struct Event {
    pub level: Level,
    pub release: Option<String>,
    pub dist: Option<String>,
    pub environment: Option<String>,
    pub platform: String,
    pub message: Option<LogEntry>,
    /// `None` leaves the time to whoever sends the event.
    pub timestamp: Option<Timestamp>,
    pub tags: Dict<String>,
    pub extra: Dict<ExtraValue>,
    pub user: Option<User>,
    /// `None` leaves the grouping to the receiving side.
    pub fingerprint: Option<Vec<String>>,
    pub breadcrumbs: Vec<Breadcrumb>,
    pub sdk: SdkInfo,
}

/// What an `Event` stands for.
pub struct EventView {
    pub level: Level,
    pub release: Option<Seq<char>>,
    pub dist: Option<Seq<char>>,
    pub environment: Option<Seq<char>>,
    pub platform: Seq<char>,
    pub message: Option<LogEntryView>,
    pub timestamp: Option<Timestamp>,
    pub tags: Map<Seq<char>, Seq<char>>,
    pub extra: Map<Seq<char>, ExtraValueView>,
    pub user: Option<UserView>,
    pub fingerprint: Option<Seq<Seq<char>>>,
    pub breadcrumbs: Seq<BreadcrumbView>,
    pub sdk_name: Seq<char>,
    pub sdk_version: Seq<char>,
}

/// What an optional message stands for.
pub open spec fn message_of(message: Option<LogEntry>) -> Option<LogEntryView> {
    match message {
        Some(entry) => Some(entry@),
        None => None,
    }
}

/// What an optional list of texts stands for.
pub open spec fn list_of(list: Option<Vec<String>>) -> Option<Seq<Seq<char>>> {
    match list {
        Some(items) => Some(texts_of(items@)),
        None => None,
    }
}

impl View for Event {
    type V = EventView;

    open spec fn view(&self) -> EventView {
        EventView {
            level: self.level,
            release: text_of(self.release),
            dist: text_of(self.dist),
            environment: text_of(self.environment),
            platform: self.platform@,
            message: message_of(self.message),
            timestamp: self.timestamp,
            tags: self.tags@,
            extra: self.extra@,
            user: user_of(self.user),
            fingerprint: list_of(self.fingerprint),
            breadcrumbs: crumbs_view(self.breadcrumbs@),
            sdk_name: self.sdk.name@,
            sdk_version: self.sdk.version@,
        }
    }
}

/// What holds of every event that is sent: no more breadcrumbs than the
/// limit, and a fingerprint, where there is one, that is not empty.
pub open spec fn well_formed(event: EventView) -> bool {
    &&& event.breadcrumbs.len() <= MAX_BREADCRUMBS
    &&& event.fingerprint matches Some(parts) ==> parts.len() > 0
}

/// The values of the command line that describe one event. A list that
/// is empty stands for an argument that was not given.
#[derive(Clone, Debug)]
pub struct EventArgs {
    pub level: Option<String>,
    pub timestamp: Option<String>,
    pub release: Option<String>,
    pub dist: Option<String>,
    pub environment: Option<String>,
    pub no_environ: bool,
    pub message: Vec<String>,
    pub message_args: Vec<String>,
    pub platform: Option<String>,
    pub tags: Vec<String>,
    pub extra: Vec<String>,
    pub user: Vec<String>,
    pub fingerprint: Vec<String>,
}

/// What the surroundings of the program contribute to an event.
#[derive(Clone, Debug)]
pub struct Context {
    pub sdk: SdkInfo,
    /// The release that was detected, used where none is given.
    pub detected_release: Option<String>,
    /// The name that the operating system reports for the current user.
    pub os_user: Option<String>,
    /// The variables of the process environment, as names and values.
    pub environ: Vec<(String, String)>,
}

/// The first of two optional values that is there.
pub fn first_present<T>(first: Option<T>, second: Option<T>) -> (r: Option<T>)
    ensures
        r == match first {
            Some(_) => first,
            None => second,
        },
{
    match first {
        Some(value) => Some(value),
        None => second,
    }
}

/// The platform of events for which none is given.
pub open spec fn default_platform() -> Seq<char> {
    "other"@
}

/// The platform of an event: the one given, or `other`.
pub fn derive_platform(given: Option<String>) -> (r: String)
    ensures
        r@ == match given {
            Some(platform) => platform@,
            None => default_platform(),
        },
{
    match given {
        Some(platform) => platform,
        None => "other".to_owned(),
    }
}

/// What stands between two fragments of a message: a line feed.
pub open spec fn line_feed() -> Seq<char> {
    seq!['\n']
}

/// The parts of a list put together, with the separator between each two.
pub open spec fn joined(parts: Seq<Seq<char>>, separator: Seq<char>) -> Seq<char>
    decreases parts.len(),
{
    if parts.len() == 0 {
        Seq::empty()
    } else if parts.len() == 1 {
        parts[0]
    } else {
        joined(parts.drop_last(), separator) + separator + parts.last()
    }
}

/// Calls `itertools::Itertools::join` on the iterator over the parts. That
/// function gives the empty text for no part; else it writes the first part
/// and then, for each further part, the separator and the part.
#[verifier::external_body]
fn join(parts: &Vec<String>, separator: &str) -> (r: String)
    ensures
        r@ == joined(texts_of(parts@), separator@),
{
    itertools::Itertools::join(&mut parts.iter(), separator)
}

/// The message of an event: none where no fragment is given; else the
/// fragments, one per line, with all the arguments as parameters.
pub open spec fn message_given(fragments: Seq<Seq<char>>, arguments: Seq<Seq<char>>) -> Option<
    LogEntryView,
> {
    if fragments.len() == 0 {
        None
    } else {
        Some(LogEntryView { message: joined(fragments, line_feed()), params: arguments })
    }
}

/// The message of an event from its fragments and arguments.
pub fn derive_message(fragments: &Vec<String>, arguments: Vec<String>) -> (r: Option<LogEntry>)
    ensures
        message_of(r) == message_given(texts_of(fragments@), texts_of(arguments@)),
{
    if fragments.len() == 0 {
        None
    } else {
        proof {
            reveal_strlit("\n");
            assert("\n"@ =~= line_feed());
        }
        Some(LogEntry { message: join(fragments, "\n"), params: arguments })
    }
}

/// The fingerprint of an event: the values given, where any is given.
pub fn derive_fingerprint(values: Vec<String>) -> (r: Option<Vec<String>>)
    ensures
        r == if values@.len() > 0 {
            Some(values)
        } else {
            None
        },
{
    if values.len() > 0 {
        Some(values)
    } else {
        None
    }
}

/// The timestamp of an event: none where no text is given, else what the
/// text denotes, which has to be a timestamp.
pub open spec fn timestamp_given(text: Option<Seq<char>>) -> Result<Option<Timestamp>, EventError> {
    match text {
        Some(t) => match timestamp_of(t) {
            Ok(moment) => Ok(Some(moment)),
            Err(error) => Err(error),
        },
        None => Ok(None),
    }
}

/// The timestamp of an event from the text that may be given for it.
pub fn derive_timestamp(text: Option<&str>) -> (r: Result<Option<Timestamp>, EventError>)
    ensures
        r == timestamp_given(
            match text {
                Some(t) => Some(t@),
                None => None,
            },
        ),
{
    match text {
        Some(t) => match parse_timestamp(t) {
            Ok(moment) => Ok(Some(moment)),
            Err(error) => Err(error),
        },
        None => Ok(None),
    }
}

/// The event that the arguments and the surroundings describe, or the
/// first validation error, in the order timestamp, tags, extra data, user.
pub open spec fn assembled(args: EventArgs, context: Context) -> Result<EventView, EventError> {
    match timestamp_given(text_of(args.timestamp)) {
        Err(error) => Err(error),
        Ok(timestamp) => match merged_pairs(PairKind::Tag, texts_of(args.tags@)) {
            Err(error) => Err(error),
            Ok(tags) => match extra_given(
                texts_of(args.extra@),
                args.no_environ,
                context.environ@,
            ) {
                Err(error) => Err(error),
                Ok(extra) => match user_given(texts_of(args.user@), text_of(context.os_user)) {
                    Err(error) => Err(error),
                    Ok(user) => Ok(
                        EventView {
                            level: level_given(text_of(args.level)),
                            release: match args.release {
                                Some(release) => Some(release@),
                                None => text_of(context.detected_release),
                            },
                            dist: text_of(args.dist),
                            environment: text_of(args.environment),
                            platform: match args.platform {
                                Some(platform) => platform@,
                                None => default_platform(),
                            },
                            message: message_given(
                                texts_of(args.message@),
                                texts_of(args.message_args@),
                            ),
                            timestamp,
                            tags,
                            extra,
                            user,
                            fingerprint: if args.fingerprint@.len() > 0 {
                                Some(texts_of(args.fingerprint@))
                            } else {
                                None
                            },
                            breadcrumbs: Seq::empty(),
                            sdk_name: context.sdk.name@,
                            sdk_version: context.sdk.version@,
                        },
                    ),
                },
            },
        },
    }
}

/// Assembles one event from the arguments of the command line and from
/// what the surroundings contribute. Fails on the first argument that cannot
/// be read: the timestamp, then a tag, then an extra entry, then a user entry.
/// The event has no breadcrumbs yet.
pub fn assemble_event(args: EventArgs, context: Context) -> (r: Result<Event, EventError>)
    ensures
        match r {
            Ok(event) => assembled(args, context) == Ok::<_, EventError>(event@) && well_formed(
                event@,
            ),
            Err(error) => assembled(args, context) == Err::<EventView, _>(error),
        },
{
    let level = derive_level(
        match &args.level {
            Some(name) => Some(name.as_str()),
            None => None,
        },
    );
    let timestamp = match derive_timestamp(
        match &args.timestamp {
            Some(text) => Some(text.as_str()),
            None => None,
        },
    ) {
        Ok(timestamp) => timestamp,
        Err(error) => {
            return Err(error);
        },
    };
    let tags = match derive_tags(&args.tags) {
        Ok(tags) => tags,
        Err(error) => {
            return Err(error);
        },
    };
    let extra = match derive_extra(&args.extra, args.no_environ, &context.environ) {
        Ok(extra) => extra,
        Err(error) => {
            return Err(error);
        },
    };
    let user = match derive_user(&args.user, context.os_user) {
        Ok(user) => user,
        Err(error) => {
            return Err(error);
        },
    };
    let message = derive_message(&args.message, args.message_args);
    let event =
        Event {
            level,
            release: first_present(args.release, context.detected_release),
            dist: args.dist,
            environment: args.environment,
            platform: derive_platform(args.platform),
            message,
            timestamp,
            tags,
            extra,
            user,
            fingerprint: derive_fingerprint(args.fingerprint),
            breadcrumbs: Vec::new(),
            sdk: context.sdk,
        };
    proof {
        assert(event@.breadcrumbs =~= Seq::<BreadcrumbView>::empty());
    }
    Ok(event)
}

impl Event {
    /// Replaces the breadcrumbs of the event by those of a log: one for
    /// each of its last `MAX_BREADCRUMBS` lines, the oldest first, each with
    /// the given timestamp. Nothing else changes.
    pub fn attach_logfile(&mut self, lines: &Vec<String>, with_categories: bool, stamp: Timestamp)
        ensures
            final(self)@ == (EventView {
                breadcrumbs: crumbs_of(texts_of(lines@), with_categories, stamp),
                ..old(self)@
            }),
            final(self)@.breadcrumbs.len() <= MAX_BREADCRUMBS,
            well_formed(old(self)@) ==> well_formed(final(self)@),
    {
        self.breadcrumbs = extract_breadcrumbs(lines, with_categories, stamp);
    }
}

/// No event without valid pairs: where an event is assembled, every tag,
/// every extra entry and every user entry holds a colon.
pub proof fn lemma_assembled_pairs_split(args: EventArgs, context: Context)
    requires
        assembled(args, context) is Ok,
    ensures
        forall|i: int| 0 <= i < args.tags@.len() ==> (#[trigger] args.tags@[i])@.contains(':'),
        forall|i: int| 0 <= i < args.extra@.len() ==> (#[trigger] args.extra@[i])@.contains(':'),
        forall|i: int| 0 <= i < args.user@.len() ==> (#[trigger] args.user@[i])@.contains(':'),
{
    crate::meta::lemma_merge_fails(PairKind::Tag, texts_of(args.tags@));
    crate::meta::lemma_merge_fails(PairKind::Extra, texts_of(args.extra@));
    assert forall|i: int| 0 <= i < args.tags@.len() implies (#[trigger] args.tags@[i])@.contains(
        ':',
    ) by {
        assert(texts_of(args.tags@)[i] == args.tags@[i]@);
    }
    assert forall|i: int| 0 <= i < args.extra@.len() implies (#[trigger] args.extra@[i])@.contains(
        ':',
    ) by {
        assert(texts_of(args.extra@)[i] == args.extra@[i]@);
    }
    assert forall|i: int| 0 <= i < args.user@.len() implies (#[trigger] args.user@[i])@.contains(
        ':',
    ) by {
        assert(texts_of(args.user@)[i] == args.user@[i]@);
        crate::user::lemma_user_needs_colons(texts_of(args.user@), i);
    }
}

/// Every event that is assembled is well formed, has no breadcrumbs yet,
/// and stays well formed when the breadcrumbs of a log are attached.
pub proof fn lemma_assembled_well_formed(
    args: EventArgs,
    context: Context,
    lines: Seq<Seq<char>>,
    with_categories: bool,
    stamp: Timestamp,
)
    requires
        assembled(args, context) is Ok,
    ensures
        well_formed(assembled(args, context).unwrap()),
        assembled(args, context).unwrap().breadcrumbs.len() == 0,
        well_formed(
            EventView {
                breadcrumbs: crumbs_of(lines, with_categories, stamp),
                ..assembled(args, context).unwrap()
            },
        ),
{
}

} // verus!
