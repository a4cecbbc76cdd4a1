//! Warnings and errors of the transformations between tags and lanes.

use vstd::prelude::*;

use crate::builder::LaneBuilder;
use crate::road::Road;
use crate::metric::{nat_digits, usize_to_string};
use crate::tags::{duplicate_key_text, join_strings, join_with, pair_line, tags_map, DuplicateKeyError, PairView, Tags};

verus! {

/// An issue found while transforming tags to lanes.
#[derive(Clone, Debug)]
pub enum TagsToLanesIssue {
    /// Deprecated OSM tags, with a suggested alternative.
    Deprecated { deprecated_tags: Tags, suggested_tags: Option<Tags> },
    /// A tag combination that is unsupported, and may never be supported.
    Unsupported { description: Option<String>, tags: Option<Tags> },
    /// A tag combination that is known, but has yet to be implemented.
    Unimplemented { description: Option<String>, tags: Option<Tags> },
    /// A tag combination that is ambiguous.
    Ambiguous { description: Option<String>, tags: Option<Tags> },
    /// The default separator was used, which may not match the locale.
    SeparatorLocaleUnused { inside: LaneBuilder, outside: LaneBuilder },
    /// No separator is known between two lanes.
    SeparatorUnknown { inside: LaneBuilder, outside: LaneBuilder },
    /// A key was inserted twice.
    TagsDuplicateKey(DuplicateKeyError),
    /// An internal error.
    Internal(String),
}

/// A message of the transformation from tags to lanes.
#[derive(Clone, Debug)]
pub struct TagsToLanesMsg {
    pub issue: TagsToLanesIssue,
}

/// The kind of an issue.
#[derive(Clone, Copy, Debug, PartialEq, Eq, Structural)]
pub enum IssueKind {
    Deprecated,
    Unsupported,
    Unimplemented,
    Ambiguous,
    SeparatorLocaleUnused,
    SeparatorUnknown,
    TagsDuplicateKey,
    Internal,
}

/// What a message says: its kind, its description, the tags it names (for a
/// deprecation, the deprecated ones), the suggested tags, and the lanes it is
/// about.
pub struct MsgView {
    pub kind: IssueKind,
    pub description: Option<Seq<char>>,
    pub tags: Option<Map<Seq<char>, Seq<char>>>,
    pub suggested: Option<Map<Seq<char>, Seq<char>>>,
    pub lanes: Option<(LaneBuilder, LaneBuilder)>,
}

/// The view of optional tags, as a map.
pub open spec fn opt_tags_view(t: Option<Tags>) -> Option<Map<Seq<char>, Seq<char>>> {
    match t {
        Some(t) => Some(tags_map(t@)),
        None => None,
    }
}

/// The view of an optional string.
pub open spec fn opt_string_view(s: Option<String>) -> Option<Seq<char>> {
    match s {
        Some(s) => Some(s@),
        None => None,
    }
}

/// A message with only a kind, description and tags.
pub open spec fn msg(
    kind: IssueKind,
    description: Option<Seq<char>>,
    tags: Option<Map<Seq<char>, Seq<char>>>,
) -> MsgView {
    MsgView { kind, description, tags, suggested: None, lanes: None }
}

impl View for TagsToLanesMsg {
    type V = MsgView;

    open spec fn view(&self) -> MsgView {
        match self.issue {
            TagsToLanesIssue::Deprecated { deprecated_tags, suggested_tags } => MsgView {
                kind: IssueKind::Deprecated,
                description: None,
                tags: Some(tags_map(deprecated_tags@)),
                suggested: opt_tags_view(suggested_tags),
                lanes: None,
            },
            TagsToLanesIssue::Unsupported { description, tags } => msg(
                IssueKind::Unsupported,
                opt_string_view(description),
                opt_tags_view(tags),
            ),
            TagsToLanesIssue::Unimplemented { description, tags } => msg(
                IssueKind::Unimplemented,
                opt_string_view(description),
                opt_tags_view(tags),
            ),
            TagsToLanesIssue::Ambiguous { description, tags } => msg(
                IssueKind::Ambiguous,
                opt_string_view(description),
                opt_tags_view(tags),
            ),
            TagsToLanesIssue::SeparatorLocaleUnused { inside, outside } => MsgView {
                kind: IssueKind::SeparatorLocaleUnused,
                description: None,
                tags: None,
                suggested: None,
                lanes: Some((inside, outside)),
            },
            TagsToLanesIssue::SeparatorUnknown { inside, outside } => MsgView {
                kind: IssueKind::SeparatorUnknown,
                description: None,
                tags: None,
                suggested: None,
                lanes: Some((inside, outside)),
            },
            TagsToLanesIssue::TagsDuplicateKey(e) => msg(
                IssueKind::TagsDuplicateKey,
                Some(e.key@),
                None,
            ),
            TagsToLanesIssue::Internal(e) => msg(IssueKind::Internal, Some(e@), None),
        }
    }
}

impl TagsToLanesMsg {
    /// Deprecated tags, with the tags to use instead.
    pub fn deprecated(deprecated: Tags, suggested: Tags) -> (r: Self)
        ensures
            r@ == (MsgView {
                kind: IssueKind::Deprecated,
                description: None,
                tags: Some(tags_map(deprecated@)),
                suggested: Some(tags_map(suggested@)),
                lanes: None,
            }),
    {
        TagsToLanesMsg {
            issue: TagsToLanesIssue::Deprecated {
                deprecated_tags: deprecated,
                suggested_tags: Some(suggested),
            },
        }
    }

    /// Deprecated tags.
    pub fn deprecated_tags(tags: Tags) -> (r: Self)
        ensures
            r@ == msg(IssueKind::Deprecated, None, Some(tags_map(tags@))),
    {
        TagsToLanesMsg {
            issue: TagsToLanesIssue::Deprecated { deprecated_tags: tags, suggested_tags: None },
        }
    }

    /// A deprecated tag.
    pub fn deprecated_tag(key: &str, val: &str) -> (r: Self)
        ensures
            r@ == msg(IssueKind::Deprecated, None, Some(map![key@ => val@])),
    {
        Self::deprecated_tags(Tags::from_pair(key, val))
    }

    /// Unsupported tags, with a description.
    pub fn unsupported(description: &str, tags: Tags) -> (r: Self)
        ensures
            r@ == msg(IssueKind::Unsupported, Some(description@), Some(tags_map(tags@))),
    {
        TagsToLanesMsg {
            issue: TagsToLanesIssue::Unsupported {
                description: Some(description.to_owned()),
                tags: Some(tags),
            },
        }
    }

    /// Unsupported tags.
    pub fn unsupported_tags(tags: Tags) -> (r: Self)
        ensures
            r@ == msg(IssueKind::Unsupported, None, Some(tags_map(tags@))),
    {
        TagsToLanesMsg { issue: TagsToLanesIssue::Unsupported { description: None, tags: Some(tags) } }
    }

    /// An unsupported tag.
    pub fn unsupported_tag(key: &str, val: &str) -> (r: Self)
        ensures
            r@ == msg(IssueKind::Unsupported, None, Some(map![key@ => val@])),
    {
        Self::unsupported_tags(Tags::from_pair(key, val))
    }

    /// Something unsupported, described.
    pub fn unsupported_str(description: &str) -> (r: Self)
        ensures
            r@ == msg(IssueKind::Unsupported, Some(description@), None),
    {
        TagsToLanesMsg {
            issue: TagsToLanesIssue::Unsupported {
                description: Some(description.to_owned()),
                tags: None,
            },
        }
    }

    /// Unimplemented tags, with a description.
    pub fn unimplemented(description: &str, tags: Tags) -> (r: Self)
        ensures
            r@ == msg(IssueKind::Unimplemented, Some(description@), Some(tags_map(tags@))),
    {
        TagsToLanesMsg {
            issue: TagsToLanesIssue::Unimplemented {
                description: Some(description.to_owned()),
                tags: Some(tags),
            },
        }
    }

    /// An unimplemented tag.
    pub fn unimplemented_tag(key: &str, val: &str) -> (r: Self)
        ensures
            r@ == msg(IssueKind::Unimplemented, None, Some(map![key@ => val@])),
    {
        Self::unimplemented_tags(Tags::from_pair(key, val))
    }

    /// Unimplemented tags.
    pub fn unimplemented_tags(tags: Tags) -> (r: Self)
        ensures
            r@ == msg(IssueKind::Unimplemented, None, Some(tags_map(tags@))),
    {
        TagsToLanesMsg {
            issue: TagsToLanesIssue::Unimplemented { description: None, tags: Some(tags) },
        }
    }

    /// An ambiguous tag.
    pub fn ambiguous_tag(key: &str, val: &str) -> (r: Self)
        ensures
            r@ == msg(IssueKind::Ambiguous, None, Some(map![key@ => val@])),
    {
        Self::ambiguous_tags(Tags::from_pair(key, val))
    }

    /// Ambiguous tags.
    pub fn ambiguous_tags(tags: Tags) -> (r: Self)
        ensures
            r@ == msg(IssueKind::Ambiguous, None, Some(tags_map(tags@))),
    {
        TagsToLanesMsg { issue: TagsToLanesIssue::Ambiguous { description: None, tags: Some(tags) } }
    }

    /// Something ambiguous, described.
    pub fn ambiguous_str(description: &str) -> (r: Self)
        ensures
            r@ == msg(IssueKind::Ambiguous, Some(description@), None),
    {
        TagsToLanesMsg {
            issue: TagsToLanesIssue::Ambiguous { description: Some(description.to_owned()), tags: None },
        }
    }

    /// The default separator between two lanes, which may not match the locale.
    pub fn separator_locale_unused(inside: LaneBuilder, outside: LaneBuilder) -> (r: Self)
        ensures
            r@ == (MsgView {
                kind: IssueKind::SeparatorLocaleUnused,
                description: None,
                tags: None,
                suggested: None,
                lanes: Some((inside, outside)),
            }),
    {
        TagsToLanesMsg { issue: TagsToLanesIssue::SeparatorLocaleUnused { inside, outside } }
    }

    /// No separator known between two lanes.
    pub fn separator_unknown(inside: LaneBuilder, outside: LaneBuilder) -> (r: Self)
        ensures
            r@ == (MsgView {
                kind: IssueKind::SeparatorUnknown,
                description: None,
                tags: None,
                suggested: None,
                lanes: Some((inside, outside)),
            }),
    {
        TagsToLanesMsg { issue: TagsToLanesIssue::SeparatorUnknown { inside, outside } }
    }

    /// An internal error.
    pub fn internal(e: &str) -> (r: Self)
        ensures
            r@ == msg(IssueKind::Internal, Some(e@), None),
    {
        TagsToLanesMsg { issue: TagsToLanesIssue::Internal(e.to_owned()) }
    }

    /// A key inserted twice.
    pub fn from_duplicate_key(e: DuplicateKeyError) -> (r: Self)
        ensures
            r@ == msg(IssueKind::TagsDuplicateKey, Some(e.key@), None),
    {
        TagsToLanesMsg { issue: TagsToLanesIssue::TagsDuplicateKey(e) }
    }
}

/// The warnings of a transformation.
#[derive(Clone, Debug)]
pub struct RoadWarnings {
    pub msgs: Vec<TagsToLanesMsg>,
}

impl View for RoadWarnings {
    type V = Seq<MsgView>;

    open spec fn view(&self) -> Seq<MsgView> {
        self.msgs@.map_values(|m: TagsToLanesMsg| m@)
    }
}

impl RoadWarnings {
    /// Warnings holding the given messages.
    pub fn new(msgs: Vec<TagsToLanesMsg>) -> (r: Self)
        ensures
            r.msgs@ == msgs@,
    {
        RoadWarnings { msgs }
    }

    /// No warnings.
    pub fn empty() -> (r: Self)
        ensures
            r@ == Seq::<MsgView>::empty(),
    {
        let r = RoadWarnings { msgs: Vec::new() };
        assert(r@ =~= Seq::<MsgView>::empty());
        r
    }

    /// Whether there are no warnings.
    pub fn is_empty(&self) -> (r: bool)
        ensures
            r == (self@.len() == 0),
    {
        self.msgs.len() == 0
    }

    /// The warnings, in the order they were given.
    pub fn as_slice(&self) -> (r: &[TagsToLanesMsg])
        ensures
            r@ == self.msgs@,
    {
        self.msgs.as_slice()
    }

    /// Adds a warning.
    pub fn push(&mut self, msg: TagsToLanesMsg)
        ensures
            final(self)@ == old(self)@.push(msg@),
    {
        self.msgs.push(msg);
        assert(self@ =~= old(self)@.push(msg@));
    }
}

impl Default for RoadWarnings {
    fn default() -> (r: Self)
        ensures
            r@ == Seq::<MsgView>::empty(),
    {
        Self::empty()
    }
}

/// An error of the transformation from tags to lanes.
#[derive(Clone, Debug)]
pub enum RoadError {
    /// A message.
    Msg(TagsToLanesMsg),
    /// Warnings, where they are treated as errors.
    Warnings(RoadWarnings),
    /// Lanes to tags cannot round trip.
    RoundTrip,
}

impl RoadError {
    /// The error of a message.
    pub fn from_msg(msg: TagsToLanesMsg) -> (r: Self)
        ensures
            r matches RoadError::Msg(m) && m@ == msg@,
    {
        RoadError::Msg(msg)
    }

    /// The error of warnings.
    pub fn from_warnings(warnings: RoadWarnings) -> (r: Self)
        ensures
            r matches RoadError::Warnings(w) && w@ == warnings@,
    {
        RoadError::Warnings(warnings)
    }
}

/// A road read from tags, with the warnings found on the way.
#[derive(Debug)]
pub struct RoadFromTags {
    pub road: Road,
    pub warnings: RoadWarnings,
}

/// An issue found while transforming lanes to tags.
#[derive(Clone, Debug)]
pub enum LanesToTagsIssue {
    Unimplemented(String),
    TagsDuplicateKey(DuplicateKeyError),
    Roundtrip(Option<RoadError>),
}

/// A message of the transformation from lanes to tags.
#[derive(Clone, Debug)]
pub struct LanesToTagsMsg {
    pub issue: LanesToTagsIssue,
}

impl LanesToTagsMsg {
    /// Something unimplemented, described.
    pub fn unimplemented(description: &str) -> (r: Self)
        ensures
            r.issue matches LanesToTagsIssue::Unimplemented(d) && d@ == description@,
    {
        LanesToTagsMsg { issue: LanesToTagsIssue::Unimplemented(description.to_owned()) }
    }

    /// The lanes do not come back from their tags.
    pub fn roundtrip() -> (r: Self)
        ensures
            r.issue matches LanesToTagsIssue::Roundtrip(None),
    {
        LanesToTagsMsg { issue: LanesToTagsIssue::Roundtrip(None) }
    }

    /// A key inserted twice.
    pub fn from_duplicate_key(e: DuplicateKeyError) -> (r: Self)
        ensures
            r.issue matches LanesToTagsIssue::TagsDuplicateKey(k) && k.key@ == e.key@,
    {
        LanesToTagsMsg { issue: LanesToTagsIssue::TagsDuplicateKey(e) }
    }

    /// The tags of the lanes could not be read back.
    pub fn from_road_error(e: RoadError) -> (r: Self)
        ensures
            r.issue matches LanesToTagsIssue::Roundtrip(Some(x)) && x == e,
    {
        LanesToTagsMsg { issue: LanesToTagsIssue::Roundtrip(Some(e)) }
    }
}


/// Tags written `key=value` in key order, separated by spaces.
pub open spec fn tags_text(t: Seq<PairView>) -> Seq<char> {
    join_with(t.map_values(|p: PairView| pair_line(p)), ' ')
}

/// The tags of a message as written: `no tags` where there are none.
pub open spec fn msg_tags_text(t: Option<Tags>) -> Option<Seq<char>> {
    match t {
        Some(t) => Some(
            if t@.len() == 0 {
                "no tags"@
            } else {
                tags_text(t@)
            },
        ),
        None => None,
    }
}

/// A kind of issue, with its description and tags where there are any.
pub open spec fn described_text(
    prefix: Seq<char>,
    description: Option<Seq<char>>,
    tags: Option<Seq<char>>,
) -> Seq<char> {
    match (description, tags) {
        (None, None) => prefix,
        (Some(d), None) => prefix + ": '"@ + d + "'"@,
        (None, Some(t)) => prefix + ": '"@ + t + "'"@,
        (Some(d), Some(t)) => prefix + ": '"@ + d + "' - '"@ + t + "'"@,
    }
}

/// An issue of the transformation from tags to lanes, as written.
pub open spec fn issue_text(issue: TagsToLanesIssue) -> Seq<char> {
    match issue {
        TagsToLanesIssue::Deprecated { deprecated_tags, .. } => "deprecated: '"@ + tags_text(
            deprecated_tags@,
        ) + "'"@,
        TagsToLanesIssue::Unsupported { description, tags } => described_text(
            "unsupported"@,
            opt_string_view(description),
            msg_tags_text(tags),
        ),
        TagsToLanesIssue::Unimplemented { description, tags } => described_text(
            "unimplemented"@,
            opt_string_view(description),
            msg_tags_text(tags),
        ),
        TagsToLanesIssue::Ambiguous { description, tags } => described_text(
            "ambiguous"@,
            opt_string_view(description),
            msg_tags_text(tags),
        ),
        TagsToLanesIssue::SeparatorLocaleUnused { .. } => "default separator may not match locale"@,
        TagsToLanesIssue::SeparatorUnknown { .. } => "unknown separator"@,
        TagsToLanesIssue::TagsDuplicateKey(e) => duplicate_key_text(e),
        TagsToLanesIssue::Internal(e) => e@,
    }
}

/// Warnings as written, one per line.
pub open spec fn warnings_text(w: Seq<TagsToLanesMsg>) -> Seq<char> {
    join_with(w.map_values(|m: TagsToLanesMsg| "Warning: "@ + issue_text(m.issue)), '\n')
}

/// An error of the transformation from tags to lanes, as written.
pub open spec fn road_error_text(e: RoadError) -> Seq<char> {
    match e {
        RoadError::Msg(m) => issue_text(m.issue),
        RoadError::Warnings(w) => nat_digits(w.msgs@.len()) + " warnings"@,
        RoadError::RoundTrip => "lanes to tags cannot roundtrip"@,
    }
}

/// A message of the transformation from lanes to tags, as written.
pub open spec fn lanes_to_tags_text(issue: LanesToTagsIssue) -> Seq<char> {
    match issue {
        LanesToTagsIssue::Unimplemented(d) => "unimplemented: '"@ + d@ + "'"@,
        LanesToTagsIssue::TagsDuplicateKey(e) => duplicate_key_text(e),
        LanesToTagsIssue::Roundtrip(None) => "roundtrip"@,
        LanesToTagsIssue::Roundtrip(Some(e)) => "roundtrip: "@ + road_error_text(e),
    }
}

/// Tags written `key=value` in key order, separated by spaces.
fn write_tags(t: &Tags) -> (r: String)
    ensures
        r@ == tags_text(t@),
{
    let lines = t.to_vec();
    let r = join_strings(&lines, ' ');
    assert(lines@.map_values(|s: String| s@) =~= t@.map_values(|p: PairView| pair_line(p)));
    r
}

/// A kind of issue, with its description and tags where there are any.
fn write_described(prefix: &str, description: &Option<String>, tags: &Option<Tags>) -> (r: String)
    ensures
        r@ == described_text(prefix@, opt_string_view(*description), msg_tags_text(*tags)),
{
    let tags_text: Option<String> = match tags {
        Some(t) => {
            if t.is_empty() {
                Some("no tags".to_owned())
            } else {
                Some(write_tags(t))
            }
        },
        None => None,
    };
    let mut out = prefix.to_owned();
    match (description, &tags_text) {
        (None, None) => {},
        (Some(d), None) => {
            out.append(": '");
            out.append(d.as_str());
            out.append("'");
        },
        (None, Some(t)) => {
            out.append(": '");
            out.append(t.as_str());
            out.append("'");
        },
        (Some(d), Some(t)) => {
            out.append(": '");
            out.append(d.as_str());
            out.append("' - '");
            out.append(t.as_str());
            out.append("'");
        },
    }
    out
}

impl TagsToLanesMsg {
    /// The message as written.
    pub fn to_string(&self) -> (r: String)
        ensures
            r@ == issue_text(self.issue),
    {
        match &self.issue {
            TagsToLanesIssue::Deprecated { deprecated_tags, .. } => {
                let mut out = "deprecated: '".to_owned();
                let t = write_tags(deprecated_tags);
                out.append(t.as_str());
                out.append("'");
                out
            },
            TagsToLanesIssue::Unsupported { description, tags } => write_described(
                "unsupported",
                description,
                tags,
            ),
            TagsToLanesIssue::Unimplemented { description, tags } => write_described(
                "unimplemented",
                description,
                tags,
            ),
            TagsToLanesIssue::Ambiguous { description, tags } => write_described(
                "ambiguous",
                description,
                tags,
            ),
            TagsToLanesIssue::SeparatorLocaleUnused { .. } => "default separator may not match locale".to_owned(),
            TagsToLanesIssue::SeparatorUnknown { .. } => "unknown separator".to_owned(),
            TagsToLanesIssue::TagsDuplicateKey(e) => e.to_string(),
            TagsToLanesIssue::Internal(e) => e.clone(),
        }
    }
}

impl RoadWarnings {
    /// Each warning written after `Warning: `, one per line.
    pub fn to_string(&self) -> (r: String)
        ensures
            r@ == warnings_text(self.msgs@),
    {
        let ghost parts = self.msgs@.map_values(|m: TagsToLanesMsg| "Warning: "@ + issue_text(m.issue));
        let mut lines: Vec<String> = Vec::new();
        let mut i: usize = 0;
        while i < self.msgs.len()
            invariant
                i <= self.msgs@.len(),
                parts == self.msgs@.map_values(|m: TagsToLanesMsg| "Warning: "@ + issue_text(m.issue)),
                lines@.len() == i,
                forall|j: int| 0 <= j < i ==> #[trigger] lines@[j]@ == parts[j],
            decreases self.msgs@.len() - i,
        {
            let mut line = "Warning: ".to_owned();
            let text = self.msgs[i].to_string();
            line.append(text.as_str());
            lines.push(line);
            i = i + 1;
        }
        let r = join_strings(&lines, '\n');
        assert(lines@.map_values(|s: String| s@) =~= parts);
        r
    }
}

impl RoadError {
    /// The error as written.
    pub fn to_string(&self) -> (r: String)
        ensures
            r@ == road_error_text(*self),
    {
        match self {
            RoadError::Msg(m) => m.to_string(),
            RoadError::Warnings(w) => {
                let mut out = usize_to_string(w.msgs.len());
                out.append(" warnings");
                out
            },
            RoadError::RoundTrip => "lanes to tags cannot roundtrip".to_owned(),
        }
    }
}

impl LanesToTagsMsg {
    /// The message as written.
    pub fn to_string(&self) -> (r: String)
        ensures
            r@ == lanes_to_tags_text(self.issue),
    {
        match &self.issue {
            LanesToTagsIssue::Unimplemented(d) => {
                let mut out = "unimplemented: '".to_owned();
                out.append(d.as_str());
                out.append("'");
                out
            },
            LanesToTagsIssue::TagsDuplicateKey(e) => e.to_string(),
            LanesToTagsIssue::Roundtrip(None) => "roundtrip".to_owned(),
            LanesToTagsIssue::Roundtrip(Some(e)) => {
                let mut out = "roundtrip: ".to_owned();
                let text = e.to_string();
                out.append(text.as_str());
                out
            },
        }
    }
}

} // verus!
