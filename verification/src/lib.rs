//! Request dispatch and resource-mutation engine of a WebDAV, CalDAV and
//! CardDAV server, with every decision stated as a contract.

pub mod calendar;
pub mod card;
pub mod common;
pub mod file;
pub mod hierarchy;
pub mod schema;
pub mod status;
pub mod text;
pub mod token;
pub mod vecs;

use crate::schema::{Condition, DavPropertyValue, PropStat, PropStatView, propstat_views};
use crate::text::same_text;
use crate::vecs::reversed;
use hyper::Method;
use vstd::prelude::*;

verus! {

/// A failure status with the precondition element that goes with it.
#[derive(Debug, Clone, Copy, PartialEq, Eq, Structural)]
pub struct DavErrorCondition {
    pub code: u16,
    pub condition: Condition,
}

/// Why a request was not carried out.
#[derive(Debug, Clone, Copy, PartialEq, Eq, Structural)]
pub enum DavError {
    /// The request body or a header was malformed.
    Parse,
    /// The store or another collaborator failed.
    Internal,
    /// A precondition failed.
    Condition(DavErrorCondition),
    /// A plain status.
    Code(u16),
}

impl DavErrorCondition {
    /// A failure status with its precondition element.
    pub fn new(code: u16, condition: Condition) -> (r: DavErrorCondition)
        ensures
            r == (DavErrorCondition { code, condition }),
    {
        DavErrorCondition { code, condition }
    }
}

impl DavError {
    /// The status that the dispatcher answers with.
    pub open spec fn spec_status(self) -> u16 {
        match self {
            DavError::Parse => status::BAD_REQUEST,
            DavError::Internal => status::INTERNAL_SERVER_ERROR,
            DavError::Condition(c) => c.code,
            DavError::Code(code) => code,
        }
    }

    /// The status that the dispatcher answers with.
    pub fn status(self) -> (r: u16)
        ensures
            r == self.spec_status(),
    {
        match self {
            DavError::Parse => status::BAD_REQUEST,
            DavError::Internal => status::INTERNAL_SERVER_ERROR,
            DavError::Condition(c) => c.code,
            DavError::Code(code) => code,
        }
    }
}

/// The request methods that the server dispatches on.
#[derive(Debug, Clone, Copy, PartialEq, Eq, Structural)]
pub enum DavMethod {
    GET,
    PUT,
    POST,
    DELETE,
    HEAD,
    PATCH,
    PROPFIND,
    PROPPATCH,
    REPORT,
    MKCOL,
    MKCALENDAR,
    COPY,
    MOVE,
    LOCK,
    UNLOCK,
    OPTIONS,
    ACL,
}

impl From<DavErrorCondition> for DavError {
    fn from(value: DavErrorCondition) -> (r: DavError) {
        DavError::Condition(value)
    }
}

impl vstd::std_specs::convert::FromSpecImpl<DavErrorCondition> for DavError {
    open spec fn obeys_from_spec() -> bool {
        true
    }

    open spec fn from_spec(value: DavErrorCondition) -> DavError {
        DavError::Condition(value)
    }
}

impl From<Condition> for DavErrorCondition {
    /// A failed precondition is a conflict unless a status is given.
    fn from(value: Condition) -> (r: DavErrorCondition) {
        DavErrorCondition { code: status::CONFLICT, condition: value }
    }
}

impl vstd::std_specs::convert::FromSpecImpl<Condition> for DavErrorCondition {
    open spec fn obeys_from_spec() -> bool {
        true
    }

    open spec fn from_spec(value: Condition) -> DavErrorCondition {
        DavErrorCondition { code: status::CONFLICT, condition: value }
    }
}

/// The request method of the HTTP library.
#[verifier::external_type_specification]
#[verifier::external_body]
pub struct ExMethod(Method);

/// The text of a request method, as it is written in a request line.
pub uninterp spec fn method_text(method: Method) -> Seq<char>;

/// The name of a request method.
///
/// Trusted: `Method::as_str` of `hyper`, which gives the method as it is
/// written in a request line. The result depends on the method alone.
#[verifier::external_body]
fn method_name(method: &Method) -> (name: String)
    ensures
        name@ == method_text(*method),
{
    method.as_str().to_owned()
}

impl DavMethod {
    /// The method that a name of a request line stands for. Names are in
    /// upper case.
    pub open spec fn spec_parse_name(name: Seq<char>) -> Option<DavMethod> {
        if name == "GET"@ {
            Some(DavMethod::GET)
        } else if name == "PUT"@ {
            Some(DavMethod::PUT)
        } else if name == "DELETE"@ {
            Some(DavMethod::DELETE)
        } else if name == "OPTIONS"@ {
            Some(DavMethod::OPTIONS)
        } else if name == "POST"@ {
            Some(DavMethod::POST)
        } else if name == "PATCH"@ {
            Some(DavMethod::PATCH)
        } else if name == "HEAD"@ {
            Some(DavMethod::HEAD)
        } else if name == "PROPFIND"@ {
            Some(DavMethod::PROPFIND)
        } else if name == "PROPPATCH"@ {
            Some(DavMethod::PROPPATCH)
        } else if name == "REPORT"@ {
            Some(DavMethod::REPORT)
        } else if name == "MKCOL"@ {
            Some(DavMethod::MKCOL)
        } else if name == "MKCALENDAR"@ {
            Some(DavMethod::MKCALENDAR)
        } else if name == "COPY"@ {
            Some(DavMethod::COPY)
        } else if name == "MOVE"@ {
            Some(DavMethod::MOVE)
        } else if name == "LOCK"@ {
            Some(DavMethod::LOCK)
        } else if name == "UNLOCK"@ {
            Some(DavMethod::UNLOCK)
        } else if name == "ACL"@ {
            Some(DavMethod::ACL)
        } else {
            None
        }
    }

    /// The method that a name stands for.
    pub fn parse_name(name: &str) -> (r: Option<DavMethod>)
        ensures
            r == Self::spec_parse_name(name@),
    {
        if same_text(name, "GET") {
            Some(DavMethod::GET)
        } else if same_text(name, "PUT") {
            Some(DavMethod::PUT)
        } else if same_text(name, "DELETE") {
            Some(DavMethod::DELETE)
        } else if same_text(name, "OPTIONS") {
            Some(DavMethod::OPTIONS)
        } else if same_text(name, "POST") {
            Some(DavMethod::POST)
        } else if same_text(name, "PATCH") {
            Some(DavMethod::PATCH)
        } else if same_text(name, "HEAD") {
            Some(DavMethod::HEAD)
        } else if same_text(name, "PROPFIND") {
            Some(DavMethod::PROPFIND)
        } else if same_text(name, "PROPPATCH") {
            Some(DavMethod::PROPPATCH)
        } else if same_text(name, "REPORT") {
            Some(DavMethod::REPORT)
        } else if same_text(name, "MKCOL") {
            Some(DavMethod::MKCOL)
        } else if same_text(name, "MKCALENDAR") {
            Some(DavMethod::MKCALENDAR)
        } else if same_text(name, "COPY") {
            Some(DavMethod::COPY)
        } else if same_text(name, "MOVE") {
            Some(DavMethod::MOVE)
        } else if same_text(name, "LOCK") {
            Some(DavMethod::LOCK)
        } else if same_text(name, "UNLOCK") {
            Some(DavMethod::UNLOCK)
        } else if same_text(name, "ACL") {
            Some(DavMethod::ACL)
        } else {
            None
        }
    }

    /// The method of a request, where it is one that the server answers:
    /// the one that the name of the request's method stands for.
    pub fn parse(method: &Method) -> (r: Option<DavMethod>)
        ensures
            r == Self::spec_parse_name(method_text(*method)),
    {
        let name = method_name(method);
        Self::parse_name(name.as_str())
    }

    /// Whether a request with this method carries a body.
    pub open spec fn spec_has_body(self) -> bool {
        self == DavMethod::PUT || self == DavMethod::POST || self == DavMethod::PATCH
            || self == DavMethod::PROPPATCH || self == DavMethod::PROPFIND
            || self == DavMethod::REPORT || self == DavMethod::LOCK || self == DavMethod::ACL
            || self == DavMethod::MKCALENDAR
    }

    /// Whether a request with this method carries a body.
    #[inline]
    pub fn has_body(self) -> (r: bool)
        ensures
            r == self.spec_has_body(),
    {
        matches!(
            self,
            DavMethod::PUT
                | DavMethod::POST
                | DavMethod::PATCH
                | DavMethod::PROPPATCH
                | DavMethod::PROPFIND
                | DavMethod::REPORT
                | DavMethod::LOCK
                | DavMethod::ACL
                | DavMethod::MKCALENDAR
        )
    }
}


/// The properties that were answered alike.
#[derive(Debug)]
pub struct PropStatGroup {
    pub status: u16,
    pub condition: Option<Condition>,
    pub description: Option<String>,
    pub props: Vec<DavPropertyValue>,
}

/// What a group says.
pub struct PropStatGroupView {
    pub status: u16,
    pub condition: Option<Condition>,
    pub description: Option<Seq<char>>,
    pub props: Seq<DavPropertyValue>,
}

impl View for PropStatGroup {
    type V = PropStatGroupView;

    open spec fn view(&self) -> PropStatGroupView {
        PropStatGroupView {
            status: self.status,
            condition: self.condition,
            description: match self.description {
                Some(d) => Some(d@),
                None => None,
            },
            props: self.props@,
        }
    }
}

/// Collects the results for the properties of a resource and groups them
/// by status, precondition and description. The groups are kept in the
/// order in which they began, and no two of them are alike in all three.
#[derive(Debug)]
pub struct PropStatBuilder {
    pub propstats: Vec<PropStatGroup>,
}

/// The position of the first group at or after `from` with this status,
/// precondition and description.
pub open spec fn spec_group_index(
    groups: Seq<PropStatGroupView>,
    status: u16,
    condition: Option<Condition>,
    description: Option<Seq<char>>,
    from: int,
) -> Option<int>
    decreases groups.len() - from,
{
    if from < 0 || from >= groups.len() {
        None
    } else if spec_group_is(groups[from], status, condition, description) {
        Some(from)
    } else {
        spec_group_index(groups, status, condition, description, from + 1)
    }
}

/// The groups after one more result: the property joins the group with
/// its status, precondition and description, or begins such a group behind
/// the others.
pub open spec fn spec_inserted(
    groups: Seq<PropStatGroupView>,
    prop: DavPropertyValue,
    status: u16,
    condition: Option<Condition>,
    description: Option<Seq<char>>,
) -> Seq<PropStatGroupView> {
    match spec_group_index(groups, status, condition, description, 0) {
        Some(i) => groups.update(
            i,
            PropStatGroupView { props: groups[i].props.push(prop), ..groups[i] },
        ),
        None => groups.push(
            PropStatGroupView {
                status: status,
                condition: condition,
                description: description,
                props: seq![prop],
            },
        ),
    }
}

/// The group has this status, precondition and description.
pub open spec fn spec_group_is(
    group: PropStatGroupView,
    status: u16,
    condition: Option<Condition>,
    description: Option<Seq<char>>,
) -> bool {
    group.status == status && group.condition == condition && group.description == description
}

/// No two groups have the same status, precondition and description.
pub open spec fn spec_distinct_groups(groups: Seq<PropStatGroupView>) -> bool {
    forall|i: int, j: int|
        0 <= i < j < groups.len() ==> !spec_group_is(
            #[trigger] groups[i],
            (#[trigger] groups[j]).status,
            groups[j].condition,
            groups[j].description,
        )
}

proof fn lemma_group_index(
    groups: Seq<PropStatGroupView>,
    status: u16,
    condition: Option<Condition>,
    description: Option<Seq<char>>,
    from: int,
)
    requires
        0 <= from,
    ensures
        match spec_group_index(groups, status, condition, description, from) {
            Some(i) => from <= i < groups.len() && spec_group_is(
                groups[i],
                status,
                condition,
                description,
            ),
            None => forall|k: int|
                from <= k < groups.len() ==> !spec_group_is(
                    #[trigger] groups[k],
                    status,
                    condition,
                    description,
                ),
        },
    decreases groups.len() - from,
{
    if from < groups.len() {
        lemma_group_index(groups, status, condition, description, from + 1);
    }
}

/// One more result leaves the groups distinct: it joins the one group that
/// it belongs to, or begins a group that was not there.
pub proof fn lemma_inserted_distinct(
    groups: Seq<PropStatGroupView>,
    prop: DavPropertyValue,
    status: u16,
    condition: Option<Condition>,
    description: Option<Seq<char>>,
)
    requires
        spec_distinct_groups(groups),
    ensures
        spec_distinct_groups(spec_inserted(groups, prop, status, condition, description)),
{
    lemma_group_index(groups, status, condition, description, 0);
    let after = spec_inserted(groups, prop, status, condition, description);
    assert forall|i: int, j: int| 0 <= i < j < after.len() implies !spec_group_is(
        #[trigger] after[i],
        (#[trigger] after[j]).status,
        after[j].condition,
        after[j].description,
    ) by {
        if j < groups.len() {
            assert(!spec_group_is(
                groups[i],
                groups[j].status,
                groups[j].condition,
                groups[j].description,
            ));
        } else {
            assert(!spec_group_is(groups[i], status, condition, description));
        }
    }
}

/// What a description says, where there is one.
pub open spec fn spec_description(description: &Option<String>) -> Option<Seq<char>> {
    match description {
        Some(d) => Some(d@),
        None => None,
    }
}

/// What the result for a group says.
pub open spec fn spec_group_propstat(group: PropStatGroupView) -> PropStatView {
    PropStatView {
        props: group.props,
        status: group.status,
        error: group.condition,
        description: group.description,
    }
}

impl PropStatBuilder {
    /// What the groups say, in the order in which they began.
    pub open spec fn groups(&self) -> Seq<PropStatGroupView> {
        Seq::new(self.propstats@.len(), |i: int| self.propstats@[i]@)
    }

    /// No two groups have the same status, precondition and description.
    pub open spec fn wf(&self) -> bool {
        spec_distinct_groups(self.groups())
    }

    /// A builder without results.
    pub fn new() -> (r: PropStatBuilder)
        ensures
            r.groups().len() == 0,
            r.wf(),
    {
        PropStatBuilder { propstats: Vec::new() }
    }

    fn same_description(a: &Option<String>, b: &Option<String>) -> (r: bool)
        ensures
            r == (match (*a, *b) {
                (Some(x), Some(y)) => x@ == y@,
                (None, None) => true,
                _ => false,
            }),
    {
        match (a, b) {
            (Some(x), Some(y)) => same_text(x.as_str(), y.as_str()),
            (None, None) => true,
            _ => false,
        }
    }

    fn insert(
        &mut self,
        prop: DavPropertyValue,
        status: u16,
        condition: Option<Condition>,
        description: Option<String>,
    )
        ensures
            final(self).groups() == spec_inserted(
                old(self).groups(),
                prop,
                status,
                condition,
                spec_description(&description),
            ),
            old(self).wf() ==> final(self).wf(),
    {
        proof {
            if self.wf() {
                lemma_inserted_distinct(
                    self.groups(),
                    prop,
                    status,
                    condition,
                    spec_description(&description),
                );
            }
        }
        let ghost wanted = spec_description(&description);
        let ghost before = self.groups();
        let mut i: usize = 0;
        while i < self.propstats.len()
            invariant
                i <= self.propstats.len(),
                before == self.groups(),
                self.propstats == old(self).propstats,
                wanted == spec_description(&description),
                spec_group_index(before, status, condition, wanted, 0) == spec_group_index(
                    before,
                    status,
                    condition,
                    wanted,
                    i as int,
                ),
            decreases self.propstats.len() - i,
        {
            let group = &self.propstats[i];
            assert(before[i as int] == group@);
            if group.status == status && group.condition == condition && Self::same_description(
                &group.description,
                &description,
            ) {
                let mut group = self.propstats.remove(i);
                group.props.push(prop);
                self.propstats.insert(i, group);
                assert(self.groups() =~= spec_inserted(before, prop, status, condition, wanted));
                return ;
            }
            i += 1;
        }
        let mut props: Vec<DavPropertyValue> = Vec::new();
        props.push(prop);
        self.propstats.push(PropStatGroup { status, condition, description, props });
        assert(self.groups() =~= spec_inserted(before, prop, status, condition, wanted));
    }

    /// Adds a property that was answered with 200.
    pub fn insert_ok(&mut self, prop: DavPropertyValue) -> (r: &mut Self)
        ensures
            r.groups() == spec_inserted(old(self).groups(), prop, status::OK, None, None),
            *final(self) == *final(r),
            old(self).wf() ==> r.wf(),
    {
        self.insert(prop, status::OK, None, None);
        self
    }

    /// Adds a property that was answered with `status`.
    pub fn insert_with_status(&mut self, prop: DavPropertyValue, status: u16) -> (r: &mut Self)
        ensures
            r.groups() == spec_inserted(old(self).groups(), prop, status, None, None),
            *final(self) == *final(r),
            old(self).wf() ==> r.wf(),
    {
        self.insert(prop, status, None, None);
        self
    }

    /// Adds a property that was refused, with the reason in words.
    pub fn insert_error_with_description(
        &mut self,
        prop: DavPropertyValue,
        status: u16,
        description: String,
    ) -> (r: &mut Self)
        ensures
            r.groups() == spec_inserted(
                old(self).groups(),
                prop,
                status,
                None,
                Some(description@),
            ),
            *final(self) == *final(r),
            old(self).wf() ==> r.wf(),
    {
        self.insert(prop, status, None, Some(description));
        self
    }

    /// Adds a property that was refused because a precondition failed.
    pub fn insert_precondition_failed(
        &mut self,
        prop: DavPropertyValue,
        status: u16,
        condition: Condition,
    ) -> (r: &mut Self)
        ensures
            r.groups() == spec_inserted(
                old(self).groups(),
                prop,
                status,
                Some(condition),
                None,
            ),
            *final(self) == *final(r),
            old(self).wf() ==> r.wf(),
    {
        self.insert(prop, status, Some(condition), None);
        self
    }

    /// Adds a property that was refused because a precondition failed,
    /// with the reason in words.
    pub fn insert_precondition_failed_with_description(
        &mut self,
        prop: DavPropertyValue,
        status: u16,
        condition: Condition,
        description: String,
    ) -> (r: &mut Self)
        ensures
            r.groups() == spec_inserted(
                old(self).groups(),
                prop,
                status,
                Some(condition),
                Some(description@),
            ),
            *final(self) == *final(r),
            old(self).wf() ==> r.wf(),
    {
        self.insert(prop, status, Some(condition), Some(description));
        self
    }

    /// One result for each group, in the order in which the groups began.
    pub fn build(self) -> (r: Vec<PropStat>)
        ensures
            propstat_views(r@) == Seq::new(
                self.groups().len(),
                |i: int| spec_group_propstat(self.groups()[i]),
            ),
    {
        let ghost groups = self.groups();
        let ghost all = self.propstats@;
        let n = self.propstats.len();
        let mut rest = reversed(self.propstats);
        let mut out: Vec<PropStat> = Vec::new();
        let mut i: usize = 0;
        while i < n
            invariant
                i <= n,
                n == all.len(),
                groups == Seq::new(all.len(), |k: int| all[k]@),
                rest@ == all.skip(i as int).reverse(),
                out@.len() == i,
                forall|k: int|
                    0 <= k < i ==> (#[trigger] out@[k])@ == spec_group_propstat(groups[k]),
            decreases n - i,
        {
            let group = rest.pop().unwrap();
            assert(group == all[i as int]);
            assert(rest@ =~= all.skip(i + 1).reverse());
            out.push(
                PropStat {
                    props: group.props,
                    status: group.status,
                    error: group.condition,
                    response_description: group.description,
                },
            );
            i += 1;
        }
        assert(propstat_views(out@) =~= Seq::new(
            groups.len(),
            |k: int| spec_group_propstat(groups[k]),
        ));
        out
    }
}

impl Default for PropStatBuilder {
    fn default() -> (r: PropStatBuilder)
        ensures
            r.groups().len() == 0,
            r.wf(),
    {
        PropStatBuilder::new()
    }
}

} // verus!
