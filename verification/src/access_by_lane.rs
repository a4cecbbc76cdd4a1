//! Lane dependent access, `KEY=*|*|*` with `KEY:forward` and `KEY:backward`,
//! <https://wiki.openstreetmap.org/wiki/Key:access#Lane_dependent_restrictions>

use vstd::prelude::*;

use crate::tags::{lookup, TagKey, Tags};
use crate::text::{chars_of, split_chars, split_on, str_eq, string_from_chars};

verus! {

/// Access of one lane.
#[derive(Clone, Copy, Debug, PartialEq, Eq, Structural)]
pub enum Access {
    /// Nothing tagged for the lane: the empty value.
    Empty,
    No,
    Yes,
    Designated,
}

/// The access a lane's value names.
pub open spec fn spec_parse_lane_access(s: Seq<char>) -> Option<Access> {
    if s.len() == 0 {
        Some(Access::Empty)
    } else if s == "no"@ {
        Some(Access::No)
    } else if s == "yes"@ {
        Some(Access::Yes)
    } else if s == "designated"@ {
        Some(Access::Designated)
    } else {
        None
    }
}

/// The value that names each lane access, as it is tagged.
pub open spec fn lane_access_name(a: Access) -> Seq<char> {
    match a {
        Access::Empty => Seq::empty(),
        Access::No => "no"@,
        Access::Yes => "yes"@,
        Access::Designated => "designated"@,
    }
}

/// Each lane access is read back from the value that names it: the empty
/// value, `no`, `yes` and `designated`.
pub proof fn lemma_lane_access_name_parses(a: Access)
    ensures
        spec_parse_lane_access(lane_access_name(a)) == Some(a),
{
    reveal_strlit("no");
    reveal_strlit("yes");
    reveal_strlit("designated");
    assert("no"@.len() == 2);
    assert("yes"@.len() == 3);
    assert("designated"@.len() == 10);
}

/// The accesses of `|` separated lanes, if every lane's value is known.
pub open spec fn spec_split_access(s: Seq<char>) -> Option<Seq<Access>> {
    let parts = split_on(s, '|');
    if forall|i: int| 0 <= i < parts.len() ==> #[trigger] spec_parse_lane_access(parts[i]) is Some {
        Some(parts.map_values(|p: Seq<char>| spec_parse_lane_access(p).unwrap()))
    } else {
        None
    }
}

impl Access {
    /// Parses the value of one lane.
    pub fn parse_lane(s: &[char]) -> (r: Option<Self>)
        ensures
            r == spec_parse_lane_access(s@),
    {
        if s.len() == 0 {
            return Some(Access::Empty);
        }
        let t = string_from_chars(s);
        if str_eq(t.as_str(), "no") {
            Some(Access::No)
        } else if str_eq(t.as_str(), "yes") {
            Some(Access::Yes)
        } else if str_eq(t.as_str(), "designated") {
            Some(Access::Designated)
        } else {
            None
        }
    }

    /// Parses `|` separated lanes; `None` if a lane's value is unknown.
    pub fn split(lanes: &str) -> (r: Option<Vec<Self>>)
        ensures
            match r {
                Some(v) => spec_split_access(lanes@) == Some(v@),
                None => spec_split_access(lanes@) is None,
            },
    {
        let cs = chars_of(lanes);
        let parts = split_chars(cs.as_slice(), '|');
        let ghost pv = split_on(lanes@, '|');
        let mut out: Vec<Access> = Vec::new();
        let mut i: usize = 0;
        while i < parts.len()
            invariant
                i <= parts@.len(),
                pv == split_on(lanes@, '|'),
                parts@.map_values(|p: Vec<char>| p@) == pv,
                out@.len() == i,
                forall|j: int| 0 <= j < i ==> #[trigger] spec_parse_lane_access(pv[j]) == Some(out@[j]),
            decreases parts@.len() - i,
        {
            assert(parts@.map_values(|p: Vec<char>| p@)[i as int] == parts@[i as int]@);
            match Self::parse_lane(parts[i].as_slice()) {
                Some(a) => {
                    out.push(a);
                },
                None => {
                    assert(spec_parse_lane_access(pv[i as int]) is None);
                    return None;
                },
            }
            i = i + 1;
        }
        assert(out@ =~= pv.map_values(|p: Seq<char>| spec_parse_lane_access(p).unwrap()));
        Some(out)
    }
}

/// What a lane dependent access tag holds, by its sequences of accesses.
pub enum LaneDependentAccessView {
    LeftToRight(Seq<Access>),
    Forward(Seq<Access>),
    Backward(Seq<Access>),
    ForwardBackward(Seq<Access>, Seq<Access>),
}

/// Lane dependent access.
#[derive(Debug)]
pub enum LaneDependentAccess {
    LeftToRight(Vec<Access>),
    Forward(Vec<Access>),
    Backward(Vec<Access>),
    ForwardBackward { forward: Vec<Access>, backward: Vec<Access> },
}

impl View for LaneDependentAccess {
    type V = LaneDependentAccessView;

    open spec fn view(&self) -> LaneDependentAccessView {
        match self {
            LaneDependentAccess::LeftToRight(v) => LaneDependentAccessView::LeftToRight(v@),
            LaneDependentAccess::Forward(v) => LaneDependentAccessView::Forward(v@),
            LaneDependentAccess::Backward(v) => LaneDependentAccessView::Backward(v@),
            LaneDependentAccess::ForwardBackward { forward, backward } => {
                LaneDependentAccessView::ForwardBackward(forward@, backward@)
            },
        }
    }
}

/// Why lane dependent access could not be read.
#[derive(Debug)]
pub enum LaneDependentAccessError {
    /// An unknown value, with the key that is reported for it.
    Unknown(TagKey, String),
    /// The tags disagree.
    Conflict,
}

impl LaneDependentAccessError {
    /// The error as written.
    pub fn to_string(&self) -> (r: String)
        ensures
            r@ == match self {
                LaneDependentAccessError::Conflict => "conflicting tags"@,
                LaneDependentAccessError::Unknown(k, v) => "unknown tag value "@ + k@ + "="@ + v@,
            },
    {
        match self {
            LaneDependentAccessError::Conflict => "conflicting tags".to_owned(),
            LaneDependentAccessError::Unknown(k, v) => {
                let mut out = "unknown tag value ".to_owned();
                out.append(k.as_str());
                out.append("=");
                out.append(v.as_str());
                out
            },
        }
    }
}

/// The optional accesses under one key: `Err` with the value when a lane is unknown.
pub open spec fn spec_get_access(tags: Seq<(Seq<char>, Seq<char>)>, key: Seq<char>) -> Result<
    Option<Seq<Access>>,
    Seq<char>,
> {
    match lookup(tags, key) {
        None => Ok(None),
        Some(s) => match spec_split_access(s) {
            Some(a) => Ok(Some(a)),
            None => Err(s),
        },
    }
}

/// Forward lanes followed by backward lanes in reverse disagree with the total.
pub open spec fn forward_backward_conflict(t: Seq<Access>, f: Seq<Access>, b: Seq<Access>) -> bool {
    f.len() + b.len() != t.len() || exists|i: int| 0 <= i < t.len() && #[trigger] t[i] != (f
        + b.reverse())[i]
}

/// The total disagrees with the forward lanes, from the left.
pub open spec fn forward_conflict(t: Seq<Access>, f: Seq<Access>) -> bool {
    exists|i: int| 0 <= i < t.len() && i < f.len() && #[trigger] t[i] != f[i]
}

/// The total disagrees with the backward lanes, from the right.
pub open spec fn backward_conflict(t: Seq<Access>, b: Seq<Access>) -> bool {
    exists|i: int| 0 <= i < t.len() && i < b.len() && #[trigger] t[t.len() - 1 - i] != b[b.len() - 1 - i]
}

/// What the three keys together give: `Err(Some(v))` for an unknown value `v`,
/// `Err(None)` for a conflict.
pub open spec fn spec_combine_access(
    total: Option<Seq<Access>>,
    forward: Option<Seq<Access>>,
    backward: Option<Seq<Access>>,
) -> Result<Option<LaneDependentAccessView>, Option<Seq<char>>> {
    match (total, forward, backward) {
        (None, Some(f), None) => Ok(Some(LaneDependentAccessView::Forward(f))),
        (None, None, Some(b)) => Ok(Some(LaneDependentAccessView::Backward(b))),
        (_, Some(f), Some(b)) => {
            if total matches Some(t) && forward_backward_conflict(t, f, b) {
                Err(None)
            } else {
                Ok(Some(LaneDependentAccessView::ForwardBackward(f, b)))
            }
        },
        (Some(t), _, _) => {
            if (forward matches Some(f) && forward_conflict(t, f)) || (backward matches Some(b)
                && backward_conflict(t, b)) {
                Err(None)
            } else {
                Ok(Some(LaneDependentAccessView::LeftToRight(t)))
            }
        },
        (None, None, None) => Ok(None),
    }
}

/// Lane dependent access under `key`, `key:forward` and `key:backward`.
pub open spec fn spec_lane_dependent_access(tags: Seq<(Seq<char>, Seq<char>)>, key: Seq<char>) -> Result<
    Option<LaneDependentAccessView>,
    Option<Seq<char>>,
> {
    match spec_get_access(tags, key) {
        Err(v) => Err(Some(v)),
        Ok(total) => match spec_get_access(tags, key + ":forward"@) {
            Err(v) => Err(Some(v)),
            Ok(forward) => match spec_get_access(tags, key + ":backward"@) {
                Err(v) => Err(Some(v)),
                Ok(backward) => spec_combine_access(total, forward, backward),
            },
        },
    }
}

/// Reads the accesses under one key.
fn get_access(tags: &Tags, key: &TagKey) -> (r: Result<Option<Vec<Access>>, LaneDependentAccessError>)
    ensures
        match (r, spec_get_access(tags@, key@)) {
            (Ok(Some(v)), Ok(Some(a))) => v@ == a,
            (Ok(None), Ok(None)) => true,
            (Err(LaneDependentAccessError::Unknown(k, s)), Err(v)) => k@ == "tracktype"@ && s@ == v,
            _ => false,
        },
{
    match tags.get(key.as_str()) {
        Some(s) => match Access::split(s) {
            Some(access) => Ok(Some(access)),
            None => Err(LaneDependentAccessError::Unknown(TagKey::from_ref("tracktype"), s.to_owned())),
        },
        None => Ok(None),
    }
}

impl LaneDependentAccess {
    /// Parses access given `|` separated lanes under `key`, `key:forward` and
    /// `key:backward`.
    ///
    /// # Errors
    ///
    /// An unknown value (reported under the key `tracktype`), or tags that conflict.
    pub fn from_tags(tags: &Tags, key: &TagKey) -> (r: Result<Option<Self>, LaneDependentAccessError>)
        ensures
            match (r, spec_lane_dependent_access(tags@, key@)) {
                (Ok(Some(a)), Ok(Some(v))) => a@ == v,
                (Ok(None), Ok(None)) => true,
                (Err(LaneDependentAccessError::Unknown(k, s)), Err(Some(v))) => k@ == "tracktype"@
                    && s@ == v,
                (Err(LaneDependentAccessError::Conflict), Err(None)) => true,
                _ => false,
            },
    {
        let key_forward = key.join("forward");
        let key_backward = key.join("backward");
        proof {
            reveal_strlit("forward");
            reveal_strlit("backward");
            reveal_strlit(":forward");
            reveal_strlit(":backward");
            assert(key_forward@ =~= key@ + ":forward"@);
            assert(key_backward@ =~= key@ + ":backward"@);
        }
        let total = match get_access(tags, key) {
            Ok(t) => t,
            Err(e) => return Err(e),
        };
        let forward = match get_access(tags, &key_forward) {
            Ok(t) => t,
            Err(e) => return Err(e),
        };
        let backward = match get_access(tags, &key_backward) {
            Ok(t) => t,
            Err(e) => return Err(e),
        };
        match (total, forward, backward) {
            (None, Some(forward), None) => Ok(Some(Self::Forward(forward))),
            (None, None, Some(backward)) => Ok(Some(Self::Backward(backward))),
            (total, Some(forward), Some(backward)) => {
                if let Some(total) = total {
                    if forward_backward_differs(&total, &forward, &backward) {
                        return Err(LaneDependentAccessError::Conflict);
                    }
                }
                Ok(Some(Self::ForwardBackward { forward, backward }))
            },
            (Some(total), forward, backward) => {
                if let Some(forward) = forward {
                    if forward_differs(&total, &forward) {
                        return Err(LaneDependentAccessError::Conflict);
                    }
                }
                if let Some(backward) = backward {
                    if backward_differs(&total, &backward) {
                        return Err(LaneDependentAccessError::Conflict);
                    }
                }
                Ok(Some(Self::LeftToRight(total)))
            },
            (None, None, None) => Ok(None),
        }
    }
}

/// Whether forward lanes then backward lanes reversed disagree with the total.
fn forward_backward_differs(total: &Vec<Access>, forward: &Vec<Access>, backward: &Vec<Access>) -> (r:
    bool)
    ensures
        r == forward_backward_conflict(total@, forward@, backward@),
{
    let tl = total.len();
    let sum = forward.len().checked_add(backward.len());
    match sum {
        None => {
            assert(forward@.len() + backward@.len() > usize::MAX);
            assert(tl <= usize::MAX);
            return true;
        },
        Some(n) => {
            if n != total.len() {
                return true;
            }
        },
    }
    let ghost joined = forward@ + backward@.reverse();
    let mut i: usize = 0;
    while i < total.len()
        invariant
            forward@.len() + backward@.len() == total@.len(),
            joined == forward@ + backward@.reverse(),
            i <= total@.len(),
            forall|j: int| 0 <= j < i ==> total@[j] == joined[j],
        decreases total@.len() - i,
    {
        let other = if i < forward.len() {
            forward[i]
        } else {
            backward[backward.len() - 1 - (i - forward.len())]
        };
        assert(other == joined[i as int]);
        if total[i] != other {
            assert(total@[i as int] != joined[i as int]);
            return true;
        }
        i = i + 1;
    }
    false
}

/// Whether the total disagrees with the forward lanes, from the left.
fn forward_differs(total: &Vec<Access>, forward: &Vec<Access>) -> (r: bool)
    ensures
        r == forward_conflict(total@, forward@),
{
    let mut i: usize = 0;
    while i < total.len() && i < forward.len()
        invariant
            i <= total@.len(),
            i <= forward@.len(),
            forall|j: int| 0 <= j < i ==> total@[j] == forward@[j],
        decreases total@.len() - i,
    {
        if total[i] != forward[i] {
            return true;
        }
        i = i + 1;
    }
    false
}

/// Whether the total disagrees with the backward lanes, from the right.
fn backward_differs(total: &Vec<Access>, backward: &Vec<Access>) -> (r: bool)
    ensures
        r == backward_conflict(total@, backward@),
{
    let mut i: usize = 0;
    while i < total.len() && i < backward.len()
        invariant
            i <= total@.len(),
            i <= backward@.len(),
            forall|j: int|
                0 <= j < i ==> #[trigger] total@[total@.len() - 1 - j] == backward@[backward@.len() - 1 - j],
        decreases total@.len() - i,
    {
        if total[total.len() - 1 - i] != backward[backward.len() - 1 - i] {
            return true;
        }
        i = i + 1;
    }
    false
}

} // verus!
