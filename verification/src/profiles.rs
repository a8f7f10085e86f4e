//! Named provider profiles and the document that stores them.
//!
//! The document is read from and written to disk by the caller; every rule
//! about what a profile operation does to it is here.

use vstd::prelude::*;
use crate::endpoint::{UrlView, parse_url, parsed_url, parts_view};
use crate::text::{
    chars_equal, from_chars, push_str, is_blank, str_blank, str_equals, to_chars, trim, trim_end_char,
    trim_end_chars, trimmed,
};

verus! {

/// A named provider endpoint and model.
#[derive(Debug)]
pub struct ProviderProfile {
    pub id: String,
    pub name: String,
    pub endpoint: String,
    pub model: String,
}

/// A profile in specifications.
pub struct ProfileView {
    pub id: Seq<char>,
    pub name: Seq<char>,
    pub endpoint: Seq<char>,
    pub model: Seq<char>,
}

impl View for ProviderProfile {
    type V = ProfileView;

    open spec fn view(&self) -> ProfileView {
        ProfileView {
            id: self.id@,
            name: self.name@,
            endpoint: self.endpoint@,
            model: self.model@,
        }
    }
}

impl ProviderProfile {
    /// A copy of the profile.
    pub fn duplicate(&self) -> (result: Self)
        ensures
            result@ == self@,
    {
        ProviderProfile {
            id: self.id.clone(),
            name: self.name.clone(),
            endpoint: self.endpoint.clone(),
            model: self.model.clone(),
        }
    }
}

/// Why a profile operation was refused.
#[derive(Debug)]
pub enum ProfileError {
    DataDirectoryUnavailable,
    EmptyName,
    EmptyModel,
    DuplicateName(String),
    NotFound(String),
    InvalidEndpoint,
    Io(String),
    Json(String),
}

/// The text of a profile error.
pub open spec fn profile_error_text(e: ProfileError) -> Seq<char> {
    match e {
        ProfileError::DataDirectoryUnavailable => "the operating-system local data directory is unavailable"@,
        ProfileError::EmptyName => "provider profile name cannot be empty"@,
        ProfileError::EmptyModel => "provider model ID cannot be empty"@,
        ProfileError::DuplicateName(n) => "a provider profile named `"@ + n@ + "` already exists"@,
        ProfileError::NotFound(n) => "provider profile `"@ + n@ + "` does not exist"@,
        ProfileError::InvalidEndpoint => "provider endpoint must be an HTTPS URL without credentials, query, or fragment"@,
        ProfileError::Io(_) => "local provider-profile storage could not be read or written"@,
        ProfileError::Json(_) => "local provider-profile storage contains invalid structured data"@,
    }
}

impl ProfileError {
    /// The error's text.
    pub fn message(&self) -> (result: String)
        ensures
            result@ == profile_error_text(*self),
    {
        let mut out: Vec<char> = Vec::new();
        match self {
            ProfileError::DataDirectoryUnavailable => push_str(&mut out, "the operating-system local data directory is unavailable"),
            ProfileError::EmptyName => push_str(&mut out, "provider profile name cannot be empty"),
            ProfileError::EmptyModel => push_str(&mut out, "provider model ID cannot be empty"),
            ProfileError::DuplicateName(n) => {
                push_str(&mut out, "a provider profile named `");
                push_str(&mut out, n.as_str());
                push_str(&mut out, "` already exists");
            },
            ProfileError::NotFound(n) => {
                push_str(&mut out, "provider profile `");
                push_str(&mut out, n.as_str());
                push_str(&mut out, "` does not exist");
            },
            ProfileError::InvalidEndpoint => push_str(&mut out, "provider endpoint must be an HTTPS URL without credentials, query, or fragment"),
            ProfileError::Io(_) => push_str(&mut out, "local provider-profile storage could not be read or written"),
            ProfileError::Json(_) => push_str(&mut out, "local provider-profile storage contains invalid structured data"),
        }
        from_chars(out.as_slice())
    }
}

/// Views of a list of profiles.
pub open spec fn profile_views(v: Seq<ProviderProfile>) -> Seq<ProfileView> {
    v.map_values(|p: ProviderProfile| p@)
}

/// The stored set of profiles and the selected default.
#[derive(Debug)]
pub struct ProfileDocument {
    pub profiles: Vec<ProviderProfile>,
    pub default_profile_id: Option<String>,
}

/// The document in specifications.
pub struct DocumentView {
    pub profiles: Seq<ProfileView>,
    pub default_id: Option<Seq<char>>,
}

impl View for ProfileDocument {
    type V = DocumentView;

    open spec fn view(&self) -> DocumentView {
        DocumentView {
            profiles: profile_views(self.profiles@),
            default_id: match self.default_profile_id {
                Some(id) => Some(id@),
                None => None,
            },
        }
    }
}

/// The first position of a profile with `id`, if any.
pub open spec fn index_of_id(profiles: Seq<ProfileView>, id: Seq<char>) -> Option<int> {
    if exists|i: int| 0 <= i < profiles.len() && profiles[i].id == id {
        Some(choose|i: int|
            0 <= i < profiles.len() && profiles[i].id == id && forall|j: int|
                0 <= j < i ==> profiles[j].id != id)
    } else {
        None
    }
}

/// `i` is the first position of a profile with `id`.
pub open spec fn first_with_id(profiles: Seq<ProfileView>, id: Seq<char>, i: int) -> bool {
    0 <= i < profiles.len() && profiles[i].id == id && forall|j: int|
        0 <= j < i ==> profiles[j].id != id
}

/// Whether any profile has `id`.
pub open spec fn has_id(profiles: Seq<ProfileView>, id: Seq<char>) -> bool {
    exists|i: int| 0 <= i < profiles.len() && profiles[i].id == id
}

/// Whether any profile has `name`.
pub open spec fn has_name(profiles: Seq<ProfileView>, name: Seq<char>) -> bool {
    exists|i: int| 0 <= i < profiles.len() && profiles[i].name == name
}

/// The default profile: the first profile whose ID is the selected default.
pub open spec fn default_of(doc: DocumentView) -> Option<ProfileView> {
    match doc.default_id {
        None => None,
        Some(id) => if has_id(doc.profiles, id) {
            Some(
                doc.profiles[choose|i: int| first_with_id(doc.profiles, id, i)],
            )
        } else {
            None
        },
    }
}

/// No two profiles share a name.
pub open spec fn names_unique(profiles: Seq<ProfileView>) -> bool {
    forall|i: int, j: int|
        0 <= i < j < profiles.len() ==> #[trigger] profiles[i].name != #[trigger] profiles[j].name
}

/// There is only one first position holding an ID.
pub proof fn lemma_first_with_id_unique(profiles: Seq<ProfileView>, id: Seq<char>, i: int, k: int)
    requires
        first_with_id(profiles, id, i),
        first_with_id(profiles, id, k),
    ensures
        i == k,
{
}

/// The normalized form of an endpoint that profile storage accepts.
pub open spec fn endpoint_acceptable(u: UrlView) -> bool {
    &&& u.scheme == "https"@
    &&& u.host is Some
    &&& u.username.len() == 0
    &&& u.password is None
    &&& u.query is None
    &&& u.fragment is None
}

/// What `normalize_endpoint` yields for `value`.
pub open spec fn normalized_endpoint(value: Seq<char>) -> Option<Seq<char>> {
    match parsed_url(trim(value)) {
        None => None,
        Some(u) => if endpoint_acceptable(u) {
            Some(trim_end_char(u.serialization, '/'))
        } else {
            None
        },
    }
}

/// An HTTPS endpoint with a host and without credentials, query or fragment,
/// serialized by the URL parser and without trailing slashes.
pub fn normalize_endpoint(value: &str) -> (result: Result<String, ProfileError>)
    ensures
        match result {
            Ok(e) => normalized_endpoint(value@) == Some(e@),
            Err(err) => normalized_endpoint(value@) is None && err is InvalidEndpoint,
        },
{
    let trimmed_value = trimmed(value);
    let parts = parse_url(trimmed_value.as_str());
    match parts {
        None => Err(ProfileError::InvalidEndpoint),
        Some(u) => {
            let scheme = to_chars(u.scheme.as_str());
            let ok = str_equals(&scheme, "https") && u.host.is_some() && u.username.as_str().is_empty()
                && u.password.is_none() && u.query.is_none() && u.fragment.is_none();
            proof {
                assert(parts_view(Some(u)) == Some(u@));
            }
            if !ok {
                return Err(ProfileError::InvalidEndpoint);
            }
            let serialization = to_chars(u.serialization.as_str());
            let normalized = trim_end_chars(&serialization, '/');
            Ok(from_chars(normalized.as_slice()))
        },
    }
}

/// Outcome of a [`ProfileDocument::create`] request, in specifications.
pub open spec fn create_error(
    doc: DocumentView,
    name: Seq<char>,
    endpoint: Seq<char>,
    model: Seq<char>,
) -> Option<ProfileErrorKind> {
    if is_blank(name) {
        Some(ProfileErrorKind::EmptyName)
    } else if is_blank(model) {
        Some(ProfileErrorKind::EmptyModel)
    } else if normalized_endpoint(endpoint) is None {
        Some(ProfileErrorKind::InvalidEndpoint)
    } else if has_name(doc.profiles, trim(name)) {
        Some(ProfileErrorKind::DuplicateName)
    } else {
        None
    }
}

/// The kind of a [`ProfileError`].
#[derive(Debug, Clone, Copy, PartialEq, Eq)]
pub enum ProfileErrorKind {
    DataDirectoryUnavailable,
    EmptyName,
    EmptyModel,
    DuplicateName,
    NotFound,
    InvalidEndpoint,
    Io,
    Json,
}

/// The kind of an error.
pub open spec fn error_kind(e: ProfileError) -> ProfileErrorKind {
    match e {
        ProfileError::DataDirectoryUnavailable => ProfileErrorKind::DataDirectoryUnavailable,
        ProfileError::EmptyName => ProfileErrorKind::EmptyName,
        ProfileError::EmptyModel => ProfileErrorKind::EmptyModel,
        ProfileError::DuplicateName(_) => ProfileErrorKind::DuplicateName,
        ProfileError::NotFound(_) => ProfileErrorKind::NotFound,
        ProfileError::InvalidEndpoint => ProfileErrorKind::InvalidEndpoint,
        ProfileError::Io(_) => ProfileErrorKind::Io,
        ProfileError::Json(_) => ProfileErrorKind::Json,
    }
}

/// A fresh profile identifier: a UUID version 7 (`uuid::Uuid::now_v7`) in
/// hyphenated form. It depends on the clock and on randomness, so nothing is
/// claimed of its characters.
#[verifier::external_body]
pub(crate) fn new_profile_id() -> (result: String) {
    uuid::Uuid::now_v7().to_string()
}

impl ProfileDocument {
    /// An empty document: no profiles and no default.
    pub fn empty() -> (result: Self)
        ensures
            result@.profiles.len() == 0,
            result@.default_id is None,
    {
        ProfileDocument { profiles: Vec::new(), default_profile_id: None }
    }

    /// Copies of the profiles, in order.
    pub fn list(&self) -> (result: Vec<ProviderProfile>)
        ensures
            profile_views(result@) == self@.profiles,
    {
        let mut result: Vec<ProviderProfile> = Vec::new();
        let mut i: usize = 0;
        while i < self.profiles.len()
            invariant
                i <= self.profiles.len(),
                profile_views(result@) =~= profile_views(self.profiles@).take(i as int),
            decreases self.profiles.len() - i,
        {
            let ghost before = result@;
            result.push(self.profiles[i].duplicate());
            i = i + 1;
            assert(profile_views(result@) =~= profile_views(before).push(self.profiles@[i - 1]@));
        }
        assert(profile_views(self.profiles@).take(i as int) =~= profile_views(self.profiles@));
        result
    }

    /// The position of the first profile with `id`.
    pub fn position_of(&self, id: &str) -> (result: Option<usize>)
        ensures
            match result {
                Some(i) => first_with_id(self@.profiles, id@, i as int),
                None => !has_id(self@.profiles, id@),
            },
    {
        let target = to_chars(id);
        let mut i: usize = 0;
        while i < self.profiles.len()
            invariant
                i <= self.profiles.len(),
                target@ == id@,
                forall|j: int| 0 <= j < i ==> self@.profiles[j].id != id@,
            decreases self.profiles.len() - i,
        {
            let candidate = to_chars(self.profiles[i].id.as_str());
            if chars_equal(&candidate, &target) {
                return Some(i);
            }
            i = i + 1;
        }
        None
    }

    fn has_profile_name(&self, name: &Vec<char>) -> (result: bool)
        ensures
            result == has_name(self@.profiles, name@),
    {
        let mut i: usize = 0;
        while i < self.profiles.len()
            invariant
                i <= self.profiles.len(),
                forall|j: int| 0 <= j < i ==> self@.profiles[j].name != name@,
            decreases self.profiles.len() - i,
        {
            let candidate = to_chars(self.profiles[i].name.as_str());
            if chars_equal(&candidate, name) {
                assert(self@.profiles[i as int].name == name@);
                return true;
            }
            i = i + 1;
        }
        false
    }

    /// The selected default profile, if it still exists.
    pub fn default_profile(&self) -> (result: Option<ProviderProfile>)
        ensures
            match result {
                Some(p) => default_of(self@) == Some(p@),
                None => default_of(self@) is None,
            },
    {
        match &self.default_profile_id {
            None => None,
            Some(id) => match self.position_of(id.as_str()) {
                Some(i) => {
                    proof {
                        let k = choose|k: int| first_with_id(self@.profiles, id@, k);
                        lemma_first_with_id_unique(self@.profiles, id@, i as int, k);
                    }
                    Some(self.profiles[i].duplicate())
                },
                None => None,
            },
        }
    }

    /// Adds a profile with the trimmed name and model and the normalized
    /// endpoint; the first profile becomes the default.
    pub fn create(&mut self, name: &str, endpoint: &str, model: &str) -> (result: Result<
        ProviderProfile,
        ProfileError,
    >)
        ensures
            match result {
                Ok(p) => {
                    &&& create_error(old(self)@, name@, endpoint@, model@) is None
                    &&& p@.name == trim(name@)
                    &&& p@.model == trim(model@)
                    &&& normalized_endpoint(endpoint@) == Some(p@.endpoint)
                    &&& final(self)@.profiles == old(self)@.profiles.push(p@)
                    &&& final(self)@.default_id == match old(self)@.default_id {
                        Some(id) => Some(id),
                        None => Some(p@.id),
                    }
                },
                Err(e) => {
                    &&& create_error(old(self)@, name@, endpoint@, model@) == Some(error_kind(e))
                    &&& final(self)@ == old(self)@
                },
            },
    {
        let name_text = trimmed(name);
        if name_text.as_str().is_empty() {
            return Err(ProfileError::EmptyName);
        }
        let model_text = trimmed(model);
        if model_text.as_str().is_empty() {
            return Err(ProfileError::EmptyModel);
        }
        let normalized = match normalize_endpoint(endpoint) {
            Ok(e) => e,
            Err(e) => return Err(e),
        };
        let name_chars = to_chars(name_text.as_str());
        if self.has_profile_name(&name_chars) {
            return Err(ProfileError::DuplicateName(name_text));
        }
        let profile = ProviderProfile {
            id: new_profile_id(),
            name: name_text,
            endpoint: normalized,
            model: model_text,
        };
        if self.default_profile_id.is_none() {
            self.default_profile_id = Some(profile.id.clone());
        }
        let result = profile.duplicate();
        let ghost before = self.profiles@;
        self.profiles.push(profile);
        assert(profile_views(self.profiles@) =~= profile_views(before).push(result@));
        Ok(result)
    }

    /// Selects the profile with `id` as the default.
    pub fn set_default(&mut self, id: &str) -> (result: Result<(), ProfileError>)
        ensures
            match result {
                Ok(()) => has_id(old(self)@.profiles, id@) && final(self)@.profiles == old(
                    self,
                )@.profiles && final(self)@.default_id == Some(id@),
                Err(e) => !has_id(old(self)@.profiles, id@) && e is NotFound && final(self)@
                    == old(self)@,
            },
    {
        match self.position_of(id) {
            None => Err(ProfileError::NotFound(crate::text::owned(id))),
            Some(_) => {
                self.default_profile_id = Some(crate::text::owned(id));
                Ok(())
            },
        }
    }

    /// Switches the model of the profile with `id` and selects it as default.
    pub fn switch_model_and_default(&mut self, id: &str, model: &str) -> (result: Result<
        ProviderProfile,
        ProfileError,
    >)
        ensures
            match result {
                Ok(p) => {
                    &&& !is_blank(model@)
                    &&& exists|i: int|
                        first_with_id(old(self)@.profiles, id@, i) && p@ == ProfileView {
                            model: trim(model@),
                            ..old(self)@.profiles[i]
                        } && final(self)@.profiles == old(self)@.profiles.update(i, p@)
                    &&& final(self)@.default_id == Some(id@)
                },
                Err(e) => {
                    &&& final(self)@ == old(self)@
                    &&& if is_blank(model@) {
                        e is EmptyModel
                    } else {
                        !has_id(old(self)@.profiles, id@) && e is NotFound
                    }
                },
            },
    {
        let model_text = trimmed(model);
        if model_text.as_str().is_empty() {
            return Err(ProfileError::EmptyModel);
        }
        let i = match self.position_of(id) {
            None => return Err(ProfileError::NotFound(crate::text::owned(id))),
            Some(i) => i,
        };
        let old_profile = self.profiles.remove(i);
        let updated = ProviderProfile {
            id: old_profile.id,
            name: old_profile.name,
            endpoint: old_profile.endpoint,
            model: model_text,
        };
        let result = updated.duplicate();
        let ghost removed = self.profiles@;
        self.profiles.insert(i, updated);
        self.default_profile_id = Some(crate::text::owned(id));
        proof {
            assert(profile_views(self.profiles@) =~= profile_views(old(self).profiles@).update(
                i as int,
                result@,
            ));
        }
        Ok(result)
    }

    /// Removes the profile with `id`, clearing the default if it was that one.
    pub fn remove(&mut self, id: &str) -> (result: Result<ProviderProfile, ProfileError>)
        ensures
            match result {
                Ok(p) => exists|i: int|
                    {
                        &&& first_with_id(old(self)@.profiles, id@, i)
                        &&& p@ == old(self)@.profiles[i]
                        &&& final(self)@.profiles == old(self)@.profiles.remove(i)
                        &&& final(self)@.default_id == if old(self)@.default_id == Some(id@) {
                            None
                        } else {
                            old(self)@.default_id
                        }
                    },
                Err(e) => !has_id(old(self)@.profiles, id@) && e is NotFound && final(self)@
                    == old(self)@,
            },
    {
        let i = match self.position_of(id) {
            None => return Err(ProfileError::NotFound(crate::text::owned(id))),
            Some(i) => i,
        };
        let profile = self.profiles.remove(i);
        assert(profile_views(self.profiles@) =~= profile_views(old(self).profiles@).remove(
            i as int,
        ));
        let clear = match &self.default_profile_id {
            Some(current) => {
                let c = to_chars(current.as_str());
                str_equals(&c, id)
            },
            None => false,
        };
        if clear {
            self.default_profile_id = None;
        }
        Ok(profile)
    }
}

/// Profile names stay unique: a profile that creation accepted has a name
/// no stored profile has.
pub proof fn law_created_names_stay_unique(
    doc: DocumentView,
    name: Seq<char>,
    endpoint: Seq<char>,
    model: Seq<char>,
    created: ProfileView,
)
    requires
        names_unique(doc.profiles),
        create_error(doc, name, endpoint, model) is None,
        created.name == trim(name),
    ensures
        names_unique(doc.profiles.push(created)),
{
    let ps = doc.profiles.push(created);
    assert forall|i: int, j: int| 0 <= i < j < ps.len() implies #[trigger] ps[i].name != #[trigger] ps[j].name by {
        if j == doc.profiles.len() {
            assert(doc.profiles[i].name == ps[i].name);
        } else {
            assert(doc.profiles[i].name != doc.profiles[j].name);
        }
    }
}

/// Removing a profile keeps the other names unique.
pub proof fn law_removal_keeps_names_unique(profiles: Seq<ProfileView>, i: int)
    requires
        names_unique(profiles),
        0 <= i < profiles.len(),
    ensures
        names_unique(profiles.remove(i)),
{
    let ps = profiles.remove(i);
    assert forall|a: int, b: int| 0 <= a < b < ps.len() implies #[trigger] ps[a].name != #[trigger] ps[b].name by {
        let a0 = if a < i { a } else { a + 1 };
        let b0 = if b < i { b } else { b + 1 };
        assert(ps[a] == profiles[a0]);
        assert(ps[b] == profiles[b0]);
        assert(profiles[a0].name != profiles[b0].name);
    }
}

/// Selecting a stored profile as the default makes it the default profile:
/// the one whose ID was selected.
pub proof fn law_selected_default_is_used(profiles: Seq<ProfileView>, id: Seq<char>)
    requires
        has_id(profiles, id),
    ensures
        default_of(DocumentView { profiles, default_id: Some(id) }) matches Some(p) && p.id == id,
{
    let k = choose|k: int| 0 <= k < profiles.len() && profiles[k].id == id;
    let first = first_index_with_id(profiles, id, k);
    assert(first_with_id(profiles, id, first));
}

/// The first position holding `id`, found from a known one at `k`.
proof fn first_index_with_id(profiles: Seq<ProfileView>, id: Seq<char>, k: int) -> (first: int)
    requires
        0 <= k < profiles.len(),
        profiles[k].id == id,
    ensures
        first_with_id(profiles, id, first),
    decreases k,
{
    if exists|j: int| 0 <= j < k && profiles[j].id == id {
        let j = choose|j: int| 0 <= j < k && profiles[j].id == id;
        first_index_with_id(profiles, id, j)
    } else {
        k
    }
}

/// The first profile created in an empty document becomes the default.
pub proof fn law_first_profile_becomes_default(created: ProfileView)
    ensures
        default_of(DocumentView { profiles: seq![created], default_id: Some(created.id) }) == Some(created),
{
    let ps = seq![created];
    assert(ps[0].id == created.id);
    assert(first_with_id(ps, created.id, 0));
    let c = choose|i: int| first_with_id(ps, created.id, i);
    lemma_first_with_id_unique(ps, created.id, 0, c);
}

} // verus!
