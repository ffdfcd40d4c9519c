//! Which issues are listed.

use crate::model::{IssueType, IssueTypeModel, Status, StatusModel};
use crate::sorting::views;
use vstd::prelude::*;

verus! {

/// What is asked of the issues that are listed. Closed and deferred issues and templates are
/// left out unless they are asked for.
#[derive(Debug)]
pub struct ListFilters {
    pub statuses: Option<Vec<Status>>,
    pub types: Option<Vec<IssueType>>,
    pub include_closed: bool,
    pub include_deferred: bool,
    pub include_templates: bool,
}

/// What [`ListFilters`] say.
#[verifier::ext_equal]
pub struct FiltersModel {
    pub statuses: Option<Seq<StatusModel>>,
    pub types: Option<Seq<IssueTypeModel>>,
    pub include_closed: bool,
    pub include_deferred: bool,
    pub include_templates: bool,
}

impl View for ListFilters {
    type V = FiltersModel;

    open spec fn view(&self) -> FiltersModel {
        FiltersModel {
            statuses: match self.statuses {
                Some(v) => Some(views(v@)),
                None => None,
            },
            types: match self.types {
                Some(v) => Some(views(v@)),
                None => None,
            },
            include_closed: self.include_closed,
            include_deferred: self.include_deferred,
            include_templates: self.include_templates,
        }
    }
}

/// Filters that ask for nothing.
pub open spec fn no_filters() -> FiltersModel {
    FiltersModel {
        statuses: None,
        types: None,
        include_closed: false,
        include_deferred: false,
        include_templates: false,
    }
}

impl Default for ListFilters {
    fn default() -> (r: ListFilters)
        ensures
            r@ == no_filters(),
    {
        ListFilters {
            statuses: None,
            types: None,
            include_closed: false,
            include_deferred: false,
            include_templates: false,
        }
    }
}

/// One status alone.
pub fn only_status(status: Status) -> (r: Option<Vec<Status>>)
    ensures
        r is Some,
        views(r->0@) == seq![status@],
{
    let mut out: Vec<Status> = Vec::new();
    out.push(status);
    assert(views(out@) =~= seq![status@]);
    Some(out)
}

/// One type alone.
pub fn only_type(issue_type: IssueType) -> (r: Option<Vec<IssueType>>)
    ensures
        r is Some,
        views(r->0@) == seq![issue_type@],
{
    let mut out: Vec<IssueType> = Vec::new();
    out.push(issue_type);
    assert(views(out@) =~= seq![issue_type@]);
    Some(out)
}

} // verus!
