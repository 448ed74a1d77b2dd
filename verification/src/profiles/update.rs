//! The checks of a profile update, in the order the update makes them, before anything
//! is written.
use vstd::prelude::*;

use crate::profiles::template_settings::{
    list_contains, normalize_routing_template_source_id, normalized_source_id,
};
use crate::text::{chars_of, string_from, trim, trimmed};

verus! {

/// What an update reads and writes of a stored profile: its name, description, sources
/// and routing template source.
#[derive(Debug)]
pub struct ProfileFields {
    pub name: String,
    pub description: Option<String>,
    pub source_ids: Vec<String>,
    pub template_source_id: Option<String>,
}

/// The abstract value of [`ProfileFields`].
pub struct FieldsView {
    pub name: Seq<char>,
    pub description: Option<Seq<char>>,
    pub source_ids: Seq<Seq<char>>,
    pub template_source_id: Option<Seq<char>>,
}

impl View for ProfileFields {
    type V = FieldsView;

    open spec fn view(&self) -> FieldsView {
        FieldsView {
            name: self.name@,
            description: self.description.deep_view(),
            source_ids: self.source_ids.deep_view(),
            template_source_id: self.template_source_id.deep_view(),
        }
    }
}

/// An update of a profile: each field, when given, replaces the stored one; a given
/// description or template source may be `None`, which clears it.
#[derive(Debug)]
pub struct ProfileUpdateRequest {
    pub name: Option<String>,
    pub description: Option<Option<String>>,
    pub source_ids: Option<Vec<String>>,
    pub template_source_id: Option<Option<String>>,
}

/// The abstract value of [`ProfileUpdateRequest`].
pub struct RequestView {
    pub name: Option<Seq<char>>,
    pub description: Option<Option<Seq<char>>>,
    pub source_ids: Option<Seq<Seq<char>>>,
    pub template_source_id: Option<Option<Seq<char>>>,
}

impl View for ProfileUpdateRequest {
    type V = RequestView;

    open spec fn view(&self) -> RequestView {
        RequestView {
            name: self.name.deep_view(),
            description: self.description.deep_view(),
            source_ids: self.source_ids.deep_view(),
            template_source_id: self.template_source_id.deep_view(),
        }
    }
}

/// Why an update is refused.
#[derive(Debug)]
pub enum ProfileUpdateError {
    /// No profile has the id.
    NotFound,
    /// These requested sources do not exist.
    UnknownSources(Vec<String>),
    /// The routing template source is not one of the profile's sources.
    TemplateOutOfScope,
    /// The requested name is blank.
    BlankName,
}

/// The abstract value of [`ProfileUpdateError`].
pub enum UpdateErrorView {
    NotFound,
    UnknownSources(Seq<Seq<char>>),
    TemplateOutOfScope,
    BlankName,
}

impl View for ProfileUpdateError {
    type V = UpdateErrorView;

    open spec fn view(&self) -> UpdateErrorView {
        match self {
            ProfileUpdateError::NotFound => UpdateErrorView::NotFound,
            ProfileUpdateError::UnknownSources(ids) => UpdateErrorView::UnknownSources(ids.deep_view()),
            ProfileUpdateError::TemplateOutOfScope => UpdateErrorView::TemplateOutOfScope,
            ProfileUpdateError::BlankName => UpdateErrorView::BlankName,
        }
    }
}

/// The message the API answers an error with; the message of unknown sources comes
/// from the database's source check, not from here.
pub open spec fn update_error_message(e: UpdateErrorView) -> Option<Seq<char>> {
    match e {
        UpdateErrorView::NotFound => Some("Profile 不存在"@),
        UpdateErrorView::UnknownSources(_) => None,
        UpdateErrorView::TemplateOutOfScope => Some(
            "routing_template_source_id 必须包含在 profile.source_ids 中"@,
        ),
        UpdateErrorView::BlankName => Some("profile.name 不能为空"@),
    }
}

impl ProfileUpdateError {
    /// The message of this error (see [`update_error_message`]).
    pub fn message(&self) -> (r: Option<String>)
        ensures
            r.deep_view() == update_error_message(self@),
    {
        match self {
            ProfileUpdateError::NotFound => Some("Profile 不存在".to_owned()),
            ProfileUpdateError::UnknownSources(_) => None,
            ProfileUpdateError::TemplateOutOfScope => Some(
                "routing_template_source_id 必须包含在 profile.source_ids 中".to_owned(),
            ),
            ProfileUpdateError::BlankName => Some("profile.name 不能为空".to_owned()),
        }
    }
}

/// The ids of `ids` that are not among `known`, in order.
pub open spec fn unknown_ids(ids: Seq<Seq<char>>, known: Seq<Seq<char>>) -> Seq<Seq<char>>
    decreases ids.len(),
{
    if ids.len() == 0 {
        Seq::empty()
    } else {
        let rest = unknown_ids(ids.drop_last(), known);
        if known.contains(ids.last()) {
            rest
        } else {
            rest.push(ids.last())
        }
    }
}

/// What an update of the profile `current` (`None` when no profile has the id) gives,
/// given the ids of the existing sources. In order: the profile must exist; requested
/// sources must all exist; the routing template source (the requested one normalized,
/// else the stored one) must exist and be one of the profile's sources; a requested name
/// must not be blank. Then the name and description are trimmed, and the flag says
/// whether the profile's sources are to be replaced.
pub open spec fn profile_update(
    current: Option<FieldsView>,
    request: RequestView,
    known: Seq<Seq<char>>,
) -> Result<(FieldsView, bool), UpdateErrorView> {
    match current {
        None => Err(UpdateErrorView::NotFound),
        Some(cur) => {
            let ids_checked = match request.source_ids {
                Some(ids) => if unknown_ids(ids, known).len() > 0 {
                    Err(UpdateErrorView::UnknownSources(unknown_ids(ids, known)))
                } else {
                    Ok(ids)
                },
                None => Ok(cur.source_ids),
            };
            match ids_checked {
                Err(e) => Err(e),
                Ok(ids) => {
                    let template = match request.template_source_id {
                        None => cur.template_source_id,
                        Some(v) => normalized_source_id(v),
                    };
                    if template matches Some(t) && !known.contains(t) {
                        Err(UpdateErrorView::UnknownSources(seq![template->0]))
                    } else if template matches Some(t) && !ids.contains(t) {
                        Err(UpdateErrorView::TemplateOutOfScope)
                    } else if request.name matches Some(n) && trim(n).len() == 0 {
                        Err(UpdateErrorView::BlankName)
                    } else {
                        Ok(
                            (
                                FieldsView {
                                    name: match request.name {
                                        Some(n) => trim(n),
                                        None => cur.name,
                                    },
                                    description: match request.description {
                                        Some(d) => match d {
                                            Some(x) => Some(trim(x)),
                                            None => None,
                                        },
                                        None => cur.description,
                                    },
                                    source_ids: ids,
                                    template_source_id: template,
                                },
                                request.source_ids is Some,
                            ),
                        )
                    }
                },
            }
        },
    }
}

fn collect_unknown(ids: &Vec<String>, known: &Vec<String>) -> (r: Vec<String>)
    ensures
        r.deep_view() == unknown_ids(ids.deep_view(), known.deep_view()),
{
    let mut out: Vec<String> = Vec::new();
    let mut i: usize = 0;
    while i < ids.len()
        invariant
            i <= ids@.len(),
            out.deep_view() == unknown_ids(ids.deep_view().take(i as int), known.deep_view()),
        decreases ids@.len() - i,
    {
        proof {
            assert(ids.deep_view().take(i + 1).drop_last() =~= ids.deep_view().take(i as int));
            assert(ids.deep_view().take(i + 1).last() == ids@[i as int]@);
        }
        if !list_contains(known, ids[i].as_str()) {
            let ghost prev = out.deep_view();
            out.push(ids[i].clone());
            assert(out.deep_view() =~= prev.push(ids@[i as int]@));
        }
        i += 1;
    }
    assert(ids.deep_view().take(ids@.len() as int) =~= ids.deep_view());
    out
}

fn trimmed_string(s: &str) -> (r: String)
    ensures
        r@ == trim(s@),
{
    let t = trimmed(chars_of(s).as_slice());
    string_from(t.as_slice())
}

/// Checks an update of a profile and gives its new fields (see [`profile_update`]);
/// nothing is written here.
pub fn plan_profile_update(
    current: Option<ProfileFields>,
    request: ProfileUpdateRequest,
    known_source_ids: &Vec<String>,
) -> (r: Result<(ProfileFields, bool), ProfileUpdateError>)
    ensures
        match r {
            Ok(p) => profile_update(
                match current {
                    Some(c) => Some(c@),
                    None => None,
                },
                request@,
                known_source_ids.deep_view(),
            ) == Ok::<(FieldsView, bool), UpdateErrorView>((p.0@, p.1)),
            Err(e) => profile_update(
                match current {
                    Some(c) => Some(c@),
                    None => None,
                },
                request@,
                known_source_ids.deep_view(),
            ) == Err::<(FieldsView, bool), UpdateErrorView>(e@),
        },
{
    let cur = match current {
        None => {
            return Err(ProfileUpdateError::NotFound);
        },
        Some(c) => c,
    };
    let replace_sources = request.source_ids.is_some();
    let ids = match request.source_ids {
        Some(ids) => {
            let missing = collect_unknown(&ids, known_source_ids);
            if missing.len() > 0 {
                return Err(ProfileUpdateError::UnknownSources(missing));
            }
            ids
        },
        None => cur.source_ids,
    };
    let template = match request.template_source_id {
        None => cur.template_source_id,
        Some(v) => match v {
            Some(s) => normalize_routing_template_source_id(Some(s.as_str())),
            None => normalize_routing_template_source_id(None),
        },
    };
    match &template {
        Some(t) => {
            if !list_contains(known_source_ids, t.as_str()) {
                let mut missing: Vec<String> = Vec::new();
                missing.push(t.clone());
                assert(missing.deep_view() =~= seq![t@]);
                return Err(ProfileUpdateError::UnknownSources(missing));
            }
            if !list_contains(&ids, t.as_str()) {
                return Err(ProfileUpdateError::TemplateOutOfScope);
            }
        },
        None => {},
    }
    let name = match request.name {
        Some(n) => {
            let t = trimmed(chars_of(n.as_str()).as_slice());
            if t.len() == 0 {
                return Err(ProfileUpdateError::BlankName);
            }
            string_from(t.as_slice())
        },
        None => cur.name,
    };
    let description = match request.description {
        Some(d) => match d {
            Some(x) => Some(trimmed_string(x.as_str())),
            None => None,
        },
        None => cur.description,
    };
    Ok((ProfileFields { name, description, source_ids: ids, template_source_id: template }, replace_sources))
}

} // verus!
