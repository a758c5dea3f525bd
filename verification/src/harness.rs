//! The harness catalog and the state of each harness's auth secrets.
//!
//! There is no account and no harness endpoint to query, so the catalog is a fixed
//! client-side list: the built-in agent plus every harness that can run as a local child
//! process. Gemini is deliberately absent: it hangs the orchestration flow.
//!
//! Auth secrets are fetched lazily per harness. A failed fetch may only be retried after a
//! cooldown; the time is handed in by the caller, in milliseconds.

use vstd::prelude::*;
use crate::text::str_eq;

verus! {

/// How long a failed auth-secret fetch blocks a retry, in milliseconds.
pub const AUTH_SECRET_FETCH_FAILURE_COOLDOWN_MS: u64 = 60_000;

/// An agent harness.
#[derive(Debug, Clone, Copy, PartialEq, Eq, Structural, Hash)]
pub enum Harness {
    Oz,
    Claude,
    OpenCode,
    Codex,
    Gemini,
    Unknown,
}

/// The harness as the secrets service names it.
#[derive(Debug, Clone, Copy, PartialEq, Eq, Structural)]
pub enum AgentHarness {
    Oz,
    ClaudeCode,
    Gemini,
    Codex,
}

/// A model a harness can be launched with.
#[derive(Clone, Debug, PartialEq)]
pub struct HarnessModelInfo {
    pub id: String,
    pub display_name: String,
    pub reasoning_level: Option<String>,
}

/// A catalog entry.
#[derive(Clone, Debug, PartialEq)]
pub struct HarnessAvailability {
    pub harness: Harness,
    pub display_name: String,
    pub enabled: bool,
    pub available_models: Vec<HarnessModelInfo>,
}

/// Who owns a managed secret.
#[derive(Clone, Debug, PartialEq)]
pub enum SecretOwner {
    Team { team_uid: String },
    CurrentUser,
}

/// The kind of space an object lives in.
#[derive(Clone, Copy, Debug, PartialEq, Eq, Structural)]
pub enum SpaceType {
    Team,
    User,
}

/// The space a secret was reported in.
#[derive(Clone, Debug)]
pub struct Space {
    pub type_: SpaceType,
    pub uid: String,
}

/// One auth secret of a harness.
#[derive(Debug, Clone)]
pub struct AuthSecretEntry {
    pub name: String,
    pub owner: SecretOwner,
}

/// Where the auth secrets of a harness stand.
#[derive(Debug, Clone)]
pub enum AuthSecretFetchState {
    NotFetched,
    Loading,
    Loaded(Vec<AuthSecretEntry>),
    Failed(String),
}

/// What the model announces to its subscribers.
#[derive(Debug, Clone)]
pub enum HarnessAvailabilityEvent {
    AuthSecretsLoaded,
    AuthSecretsFetchFailed,
    AuthSecretCreated { harness: Harness, name: String },
    AuthSecretCreationFailed { error: String },
    AuthSecretDeleted { harness: Harness, name: String, owner: SecretOwner },
    AuthSecretDeletionFailed { harness: Harness, name: String, owner: SecretOwner, error: String },
}

/// The harnesses of the catalog, in order: the built-in agent, then every harness that can
/// run as a local child process.
pub open spec fn catalog_harnesses() -> Seq<Harness> {
    seq![Harness::Oz, Harness::Claude, Harness::OpenCode, Harness::Codex]
}

/// The model choices for a local child of the Anthropic CLI, as `(id, display name)`: the CLI's
/// own aliases, which the CLI resolves at run time.
pub open spec fn claude_local_models() -> Seq<(Seq<char>, Seq<char>)> {
    seq![("opus"@, "Opus"@), ("sonnet"@, "Sonnet"@), ("haiku"@, "Haiku"@)]
}

/// The models offered for `h`, as `(id, display name)`. Only the Anthropic CLI harness gets a list: it is the
/// only harness whose child process receives a model selection.
pub open spec fn local_models_spec(h: Harness) -> Seq<(Seq<char>, Seq<char>)> {
    if h == Harness::Claude {
        claude_local_models()
    } else {
        Seq::empty()
    }
}

/// Whether `models` are the local model choices for `h`, without a reasoning level.
pub open spec fn models_match(models: Seq<HarnessModelInfo>, h: Harness) -> bool {
    &&& models.len() == local_models_spec(h).len()
    &&& forall|i: int|
        0 <= i < models.len() ==> (#[trigger] models[i]).id@ == local_models_spec(h)[i].0
            && models[i].display_name@ == local_models_spec(h)[i].1
            && models[i].reasoning_level is None
}

/// Models offered for `harness`, derived client-side.
fn local_models_for(harness: Harness) -> (r: Vec<HarnessModelInfo>)
    ensures
        models_match(r@, harness),
{
    let mut models: Vec<HarnessModelInfo> = Vec::new();
    match harness {
        Harness::Claude => {
            models.push(
                HarnessModelInfo {
                    id: "opus".to_owned(),
                    display_name: "Opus".to_owned(),
                    reasoning_level: None,
                },
            );
            models.push(
                HarnessModelInfo {
                    id: "sonnet".to_owned(),
                    display_name: "Sonnet".to_owned(),
                    reasoning_level: None,
                },
            );
            models.push(
                HarnessModelInfo {
                    id: "haiku".to_owned(),
                    display_name: "Haiku".to_owned(),
                    reasoning_level: None,
                },
            );
        },
        _ => {},
    }
    models
}

/// Whether `catalog` is the local catalog, with display names given by `display_name`.
pub open spec fn is_local_catalog<F: Fn(Harness) -> &'static str>(
    catalog: Seq<HarnessAvailability>,
    display_name: F,
) -> bool {
    &&& catalog.len() == catalog_harnesses().len()
    &&& forall|i: int|
        #![trigger catalog[i]]
        0 <= i < catalog.len() ==> {
            &&& catalog[i].harness == catalog_harnesses()[i]
            &&& catalog[i].enabled
            &&& models_match(catalog[i].available_models@, catalog[i].harness)
            &&& exists|name: &'static str|
                #[trigger] call_ensures(display_name, (catalog[i].harness,), name)
                    && catalog[i].display_name@ == name@
        }
}

/// The catalog entry for `harness`.
fn catalog_entry<F: Fn(Harness) -> &'static str>(harness: Harness, display_name: &F) -> (r:
    HarnessAvailability)
    requires
        forall|h: Harness| call_requires(*display_name, (h,)),
    ensures
        r.harness == harness,
        r.enabled,
        models_match(r.available_models@, harness),
        exists|name: &'static str|
            #[trigger] call_ensures(*display_name, (harness,), name) && r.display_name@ == name@,
{
    let name = display_name(harness);
    let r = HarnessAvailability {
        harness,
        display_name: name.to_owned(),
        // With no server there is no policy to deny anything; local readiness is the
        // picker's job.
        enabled: true,
        available_models: local_models_for(harness),
    };
    assert(call_ensures(*display_name, (harness,), name) && r.display_name@ == name@);
    r
}

/// The harness catalog, derived entirely from local facts: the built-in agent plus every
/// harness that can run as a local child process, each enabled, with the display name
/// `display_name` gives it.
pub fn local_harness_catalog<F: Fn(Harness) -> &'static str>(display_name: &F) -> (r: Vec<
    HarnessAvailability,
>)
    requires
        forall|h: Harness| call_requires(*display_name, (h,)),
    ensures
        is_local_catalog(r@, *display_name),
{
    let mut catalog: Vec<HarnessAvailability> = Vec::new();
    catalog.push(catalog_entry(Harness::Oz, display_name));
    catalog.push(catalog_entry(Harness::Claude, display_name));
    catalog.push(catalog_entry(Harness::OpenCode, display_name));
    catalog.push(catalog_entry(Harness::Codex, display_name));
    assert forall|i: int|
        #![trigger catalog@[i]]
        0 <= i < catalog@.len() implies {
            &&& catalog@[i].harness == catalog_harnesses()[i]
            &&& catalog@[i].enabled
            &&& models_match(catalog@[i].available_models@, catalog@[i].harness)
            &&& exists|name: &'static str|
                #[trigger] call_ensures(*display_name, (catalog@[i].harness,), name)
                    && catalog@[i].display_name@ == name@
        } by {}
    catalog
}

/// The name the secrets service uses for `h`, if it knows the harness.
pub open spec fn graphql_harness_spec(h: Harness) -> Option<AgentHarness> {
    match h {
        Harness::Oz => Some(AgentHarness::Oz),
        Harness::Claude => Some(AgentHarness::ClaudeCode),
        Harness::Gemini => Some(AgentHarness::Gemini),
        Harness::Codex => Some(AgentHarness::Codex),
        Harness::OpenCode => None,
        Harness::Unknown => None,
    }
}

/// The name the secrets service uses for `harness`, if it knows the harness.
pub fn harness_to_graphql_harness(harness: Harness) -> (r: Option<AgentHarness>)
    ensures
        r == graphql_harness_spec(harness),
{
    match harness {
        Harness::Oz => Some(AgentHarness::Oz),
        Harness::Claude => Some(AgentHarness::ClaudeCode),
        Harness::Gemini => Some(AgentHarness::Gemini),
        Harness::Codex => Some(AgentHarness::Codex),
        Harness::OpenCode | Harness::Unknown => None,
    }
}

/// The owner a secret reported in `space` belongs to: the team for a team space, the
/// current user otherwise.
pub fn secret_owner_from_space(space: &Space) -> (r: SecretOwner)
    ensures
        match space.type_ {
            SpaceType::Team => r matches SecretOwner::Team { team_uid } && team_uid@ == space.uid@,
            SpaceType::User => r is CurrentUser,
        },
{
    match space.type_ {
        SpaceType::Team => SecretOwner::Team { team_uid: space.uid.clone() },
        SpaceType::User => SecretOwner::CurrentUser,
    }
}

/// An owner, as plain values: whether it is a team, and the team's id.
pub open spec fn owner_view(o: SecretOwner) -> (bool, Seq<char>) {
    match o {
        SecretOwner::Team { team_uid } => (true, team_uid@),
        SecretOwner::CurrentUser => (false, Seq::empty()),
    }
}

/// Whether two owners are the same.
fn same_owner(a: &SecretOwner, b: &SecretOwner) -> (r: bool)
    ensures
        r == (owner_view(*a) == owner_view(*b)),
{
    match (a, b) {
        (SecretOwner::Team { team_uid: x }, SecretOwner::Team { team_uid: y }) => str_eq(
            x.as_str(),
            y.as_str(),
        ),
        (SecretOwner::CurrentUser, SecretOwner::CurrentUser) => true,
        _ => false,
    }
}

/// Whether an entry is the secret named `name` owned by `owner`.
pub open spec fn is_deleted_entry(e: AuthSecretEntry, name: Seq<char>, owner: SecretOwner) -> bool {
    e.name@ == name && owner_view(e.owner) == owner_view(owner)
}

/// The entries that remain after the secret named `name` owned by `owner` was deleted.
pub open spec fn entries_after_deletion(
    s: Seq<AuthSecretEntry>,
    name: Seq<char>,
    owner: SecretOwner,
) -> Seq<AuthSecretEntry>
    decreases s.len(),
{
    if s.len() == 0 {
        s
    } else if is_deleted_entry(s.last(), name, owner) {
        entries_after_deletion(s.drop_last(), name, owner)
    } else {
        entries_after_deletion(s.drop_last(), name, owner).push(s.last())
    }
}

/// Drops the deleted secret from `entries`, keeping the others in order.
fn remove_deleted_auth_secret_entry(
    entries: &mut Vec<AuthSecretEntry>,
    name: &str,
    owner: &SecretOwner,
)
    ensures
        final(entries)@ == entries_after_deletion(old(entries)@, name@, *owner),
{
    let ghost orig = entries@;
    let mut kept: Vec<AuthSecretEntry> = Vec::new();
    let mut rest: Vec<AuthSecretEntry> = Vec::new();
    std::mem::swap(&mut rest, entries);
    let total = rest.len();
    let mut i: usize = 0;
    while rest.len() > 0
        invariant
            total == orig.len(),
            i <= orig.len(),
            rest@.len() + i == orig.len(),
            rest@ == orig.subrange(i as int, orig.len() as int),
            kept@ == entries_after_deletion(orig.take(i as int), name@, *owner),
        decreases rest.len(),
    {
        assert(orig.take(i + 1).drop_last() =~= orig.take(i as int));
        let entry = rest.remove(0);
        assert(orig.take(i + 1).last() == entry);
        let matches = str_eq(entry.name.as_str(), name) && same_owner(&entry.owner, owner);
        if !matches {
            kept.push(entry);
        }
        i = i + 1;
        assert(rest@ =~= orig.subrange(i as int, orig.len() as int));
    }
    assert(orig.take(i as int) =~= orig);
    *entries = kept;
}

/// The storage slot of a harness.
pub open spec fn harness_index(h: Harness) -> int {
    match h {
        Harness::Oz => 0,
        Harness::Claude => 1,
        Harness::OpenCode => 2,
        Harness::Codex => 3,
        Harness::Gemini => 4,
        Harness::Unknown => 5,
    }
}

/// The storage slot of `h`.
fn harness_slot(h: Harness) -> (r: usize)
    ensures
        r == harness_index(h),
        r < 6,
{
    match h {
        Harness::Oz => 0,
        Harness::Claude => 1,
        Harness::OpenCode => 2,
        Harness::Codex => 3,
        Harness::Gemini => 4,
        Harness::Unknown => 5,
    }
}

/// One `NotFetched` state per harness.
fn unfetched_states() -> (r: Vec<AuthSecretFetchState>)
    ensures
        r@.len() == 6,
        forall|j: int| 0 <= j < 6 ==> #[trigger] r@[j] is NotFetched,
{
    let mut states: Vec<AuthSecretFetchState> = Vec::new();
    let mut i: usize = 0;
    while i < 6
        invariant
            i <= 6,
            states@.len() == i,
            forall|j: int| 0 <= j < i ==> #[trigger] states@[j] is NotFetched,
        decreases 6 - i,
    {
        states.push(AuthSecretFetchState::NotFetched);
        i = i + 1;
    }
    states
}

/// No retry deadline for any harness.
fn no_deadlines() -> (r: Vec<Option<u64>>)
    ensures
        r@.len() == 6,
        forall|j: int| 0 <= j < 6 ==> #[trigger] r@[j] is None,
{
    let mut deadlines: Vec<Option<u64>> = Vec::new();
    let mut i: usize = 0;
    while i < 6
        invariant
            i <= 6,
            deadlines@.len() == i,
            forall|j: int| 0 <= j < i ==> #[trigger] deadlines@[j] is None,
        decreases 6 - i,
    {
        deadlines.push(None);
        i = i + 1;
    }
    deadlines
}

/// The harness catalog and the auth-secret state of every harness.
pub struct HarnessAvailabilityModel {
    harnesses: Vec<HarnessAvailability>,
    auth_secrets: Vec<AuthSecretFetchState>,
    auth_secret_retry_after: Vec<Option<u64>>,
}

impl HarnessAvailabilityModel {
    #[verifier::type_invariant]
    closed spec fn inv(self) -> bool {
        self.auth_secrets@.len() == 6 && self.auth_secret_retry_after@.len() == 6
    }

    /// The catalog.
    pub closed spec fn catalog(self) -> Seq<HarnessAvailability> {
        self.harnesses@
    }

    /// Where the auth secrets of `h` stand.
    pub closed spec fn fetch_state(self, h: Harness) -> AuthSecretFetchState {
        self.auth_secrets@[harness_index(h)]
    }

    /// Until when a failed fetch for `h` blocks a retry, if it does.
    pub closed spec fn retry_after(self, h: Harness) -> Option<u64> {
        self.auth_secret_retry_after@[harness_index(h)]
    }

    /// A model over the local catalog, with no auth secrets fetched.
    pub fn new<F: Fn(Harness) -> &'static str>(display_name: &F) -> (r: Self)
        requires
            forall|h: Harness| call_requires(*display_name, (h,)),
        ensures
            is_local_catalog(r.catalog(), *display_name),
            forall|h: Harness| #[trigger] r.fetch_state(h) is NotFetched,
            forall|h: Harness| #[trigger] r.retry_after(h) is None,
    {
        let auth_secrets = unfetched_states();
        let retry = no_deadlines();
        HarnessAvailabilityModel {
            harnesses: local_harness_catalog(display_name),
            auth_secrets,
            auth_secret_retry_after: retry,
        }
    }

    /// The catalog.
    pub fn available_harnesses(&self) -> (r: &[HarnessAvailability])
        ensures
            r@ == self.catalog(),
    {
        self.harnesses.as_slice()
    }

    /// The position of the first catalog entry for `harness`.
    fn position_of(&self, harness: Harness) -> (r: Option<usize>)
        ensures
            match r {
                Some(i) => i < self.catalog().len() && self.catalog()[i as int].harness == harness
                    && forall|j: int| 0 <= j < i ==> #[trigger] self.catalog()[j].harness != harness,
                None => forall|j: int|
                    0 <= j < self.catalog().len() ==> #[trigger] self.catalog()[j].harness
                        != harness,
            },
    {
        let mut i: usize = 0;
        while i < self.harnesses.len()
            invariant
                i <= self.harnesses@.len(),
                forall|j: int| 0 <= j < i ==> #[trigger] self.harnesses@[j].harness != harness,
            decreases self.harnesses.len() - i,
        {
            if self.harnesses[i].harness == harness {
                return Some(i);
            }
            i = i + 1;
        }
        None
    }

    /// The display name of `harness`: the catalog's, or `fallback`'s when the catalog does
    /// not list it.
    pub fn display_name_for<F: Fn(Harness) -> &'static str>(&self, harness: Harness, fallback: &F) -> (r: String)
        requires
            forall|h: Harness| call_requires(*fallback, (h,)),
        ensures
            match first_entry_for(self.catalog(), harness) {
                Some(i) => r@ == self.catalog()[i].display_name@,
                None => exists|name: &'static str|
                    #[trigger] call_ensures(*fallback, (harness,), name) && r@ == name@,
            },
    {
        match self.position_of(harness) {
            Some(i) => {
                proof {
                    lemma_first_entry_for(self.catalog(), harness, i as int);
                }
                self.harnesses[i].display_name.clone()
            },
            None => {
                proof {
                    lemma_no_entry_for(self.catalog(), harness);
                }
                let name = fallback(harness);
                assert(call_ensures(*fallback, (harness,), name));
                name.to_owned()
            },
        }
    }

    /// Whether the harness selector should be shown: the feature is on and the catalog
    /// knows more than one harness, disabled ones included.
    pub fn should_show_harness_selector(&self, agent_harness_enabled: bool) -> (r: bool)
        ensures
            r == (agent_harness_enabled && self.catalog().len() > 1),
    {
        agent_harness_enabled && self.harnesses.len() > 1
    }

    /// Whether any harness is available at all (at least one enabled).
    pub fn has_any_enabled_harness(&self) -> (r: bool)
        ensures
            r == exists|i: int| 0 <= i < self.catalog().len() && (#[trigger] self.catalog()[i]).enabled,
    {
        let mut i: usize = 0;
        while i < self.harnesses.len()
            invariant
                i <= self.harnesses@.len(),
                forall|j: int| 0 <= j < i ==> !(#[trigger] self.harnesses@[j]).enabled,
            decreases self.harnesses.len() - i,
        {
            if self.harnesses[i].enabled {
                assert(self.catalog()[i as int].enabled);
                return true;
            }
            i = i + 1;
        }
        false
    }

    /// Whether a harness is both known and enabled.
    pub fn is_harness_enabled(&self, harness: Harness) -> (r: bool)
        ensures
            r == exists|i: int|
                0 <= i < self.catalog().len() && (#[trigger] self.catalog()[i]).harness == harness
                    && self.catalog()[i].enabled,
    {
        let mut i: usize = 0;
        while i < self.harnesses.len()
            invariant
                i <= self.harnesses@.len(),
                forall|j: int|
                    0 <= j < i ==> !((#[trigger] self.harnesses@[j]).harness == harness
                        && self.harnesses@[j].enabled),
            decreases self.harnesses.len() - i,
        {
            if self.harnesses[i].harness == harness && self.harnesses[i].enabled {
                assert(self.catalog()[i as int].harness == harness);
                return true;
            }
            i = i + 1;
        }
        false
    }

    /// The models offered for `harness`: those of its first catalog entry, unless that
    /// list is empty or the catalog does not list the harness.
    pub fn models_for(&self, harness: Harness) -> (r: Option<&[HarnessModelInfo]>)
        ensures
            match first_entry_for(self.catalog(), harness) {
                Some(i) => if self.catalog()[i].available_models@.len() > 0 {
                    r matches Some(m) && m@ == self.catalog()[i].available_models@
                } else {
                    r is None
                },
                None => r is None,
            },
    {
        match self.position_of(harness) {
            Some(i) => {
                proof {
                    lemma_first_entry_for(self.catalog(), harness, i as int);
                }
                let models = self.harnesses[i].available_models.as_slice();
                if models.len() == 0 {
                    None
                } else {
                    Some(models)
                }
            },
            None => {
                proof {
                    lemma_no_entry_for(self.catalog(), harness);
                }
                None
            },
        }
    }

    /// Where the auth secrets of `harness` stand.
    pub fn auth_secrets_for(&self, harness: Harness) -> (r: &AuthSecretFetchState)
        ensures
            *r == self.fetch_state(harness),
    {
        proof {
            use_type_invariant(self);
        }
        &self.auth_secrets[harness_slot(harness)]
    }

    /// Whether a failed fetch for `harness` may be retried at time `now`: when no cooldown
    /// is pending, or the cooldown has passed.
    pub fn can_retry_auth_secret_fetch(&self, harness: Harness, now: u64) -> (r: bool)
        ensures
            r == match self.retry_after(harness) {
                Some(t) => now >= t,
                None => true,
            },
    {
        proof {
            use_type_invariant(self);
        }
        match self.auth_secret_retry_after[harness_slot(harness)] {
            Some(retry_after) => now >= retry_after,
            None => true,
        }
    }

    /// Replaces the state of `harness` with `state`, returning the state it had and leaving
    /// every other harness alone.
    fn replace_state(&mut self, harness: Harness, state: AuthSecretFetchState) -> (r:
        AuthSecretFetchState)
        ensures
            r == old(self).fetch_state(harness),
            final(self).fetch_state(harness) == state,
            forall|h: Harness| h != harness ==> #[trigger] final(self).fetch_state(h) == old(
                self,
            ).fetch_state(h),
            forall|h: Harness| #[trigger] final(self).retry_after(h) == old(self).retry_after(h),
            final(self).catalog() == old(self).catalog(),
    {
        proof {
            use_type_invariant(&*self);
        }
        let slot = harness_slot(harness);
        let mut states = unfetched_states();
        std::mem::swap(&mut states, &mut self.auth_secrets);
        let ghost before = states@;
        let previous = states.remove(slot);
        states.insert(slot, state);
        assert forall|i: int| 0 <= i < 6 && i != slot implies states@[i] == before[i] by {}
        self.auth_secrets = states;
        assert forall|h: Harness| h != harness implies #[trigger] self.fetch_state(h) == old(
            self,
        ).fetch_state(h) by {
            assert(harness_index(h) != harness_index(harness));
        }
        previous
    }

    /// Sets the state of `harness`, leaving every other harness alone.
    fn set_state(&mut self, harness: Harness, state: AuthSecretFetchState)
        ensures
            final(self).fetch_state(harness) == state,
            forall|h: Harness| h != harness ==> #[trigger] final(self).fetch_state(h) == old(
                self,
            ).fetch_state(h),
            forall|h: Harness| #[trigger] final(self).retry_after(h) == old(self).retry_after(h),
            final(self).catalog() == old(self).catalog(),
    {
        let _ = self.replace_state(harness, state);
    }

    /// Sets the retry deadline of `harness`, leaving every other harness alone.
    fn set_retry_after(&mut self, harness: Harness, deadline: Option<u64>)
        ensures
            final(self).retry_after(harness) == deadline,
            forall|h: Harness| h != harness ==> #[trigger] final(self).retry_after(h) == old(
                self,
            ).retry_after(h),
            forall|h: Harness| #[trigger] final(self).fetch_state(h) == old(self).fetch_state(h),
            final(self).catalog() == old(self).catalog(),
    {
        proof {
            use_type_invariant(&*self);
        }
        let slot = harness_slot(harness);
        let mut deadlines = no_deadlines();
        std::mem::swap(&mut deadlines, &mut self.auth_secret_retry_after);
        deadlines.set(slot, deadline);
        self.auth_secret_retry_after = deadlines;
        assert forall|h: Harness| h != harness implies #[trigger] self.retry_after(h) == old(
            self,
        ).retry_after(h) by {
            assert(harness_index(h) != harness_index(harness));
        }
    }

    /// Starts a fetch of the auth secrets of `harness` when the service knows the harness
    /// and the user is logged in: the harness becomes `Loading` and any cooldown is
    /// dropped. Returns the harness to request the secrets of, or `None` when no request
    /// is to be made, in which case nothing changes.
    fn fetch_auth_secrets(&mut self, harness: Harness, logged_in: bool) -> (r: Option<AgentHarness>)
        ensures
            r == (if logged_in { graphql_harness_spec(harness) } else { None }),
            r is Some ==> final(self).fetch_state(harness) is Loading && final(self).retry_after(
                harness,
            ) is None,
            r is None ==> *final(self) == *old(self),
            forall|h: Harness|
                h != harness ==> #[trigger] final(self).fetch_state(h) == old(self).fetch_state(h)
                    && final(self).retry_after(h) == old(self).retry_after(h),
            final(self).catalog() == old(self).catalog(),
    {
        let agent_harness = match harness_to_graphql_harness(harness) {
            Some(agent_harness) => agent_harness,
            None => return None,
        };
        if !logged_in {
            return None;
        }
        self.set_state(harness, AuthSecretFetchState::Loading);
        self.set_retry_after(harness, None);
        Some(agent_harness)
    }

    /// Makes sure the auth secrets of `harness` are fetched: a fetch starts when they were
    /// never fetched, or when the last fetch failed and its cooldown has passed at `now`.
    /// Returns the harness to request the secrets of, or `None` when no request is to be
    /// made, in which case nothing changes.
    pub fn ensure_auth_secrets_fetched(&mut self, harness: Harness, now: u64, logged_in: bool) -> (r:
        Option<AgentHarness>)
        ensures
            ({
                let wanted = match old(self).fetch_state(harness) {
                    AuthSecretFetchState::NotFetched => true,
                    AuthSecretFetchState::Failed(_) => match old(self).retry_after(harness) {
                        Some(t) => now >= t,
                        None => true,
                    },
                    _ => false,
                };
                r == (if wanted && logged_in { graphql_harness_spec(harness) } else { None })
            }),
            r is Some ==> final(self).fetch_state(harness) is Loading && final(self).retry_after(
                harness,
            ) is None,
            r is None ==> *final(self) == *old(self),
            forall|h: Harness|
                h != harness ==> #[trigger] final(self).fetch_state(h) == old(self).fetch_state(h)
                    && final(self).retry_after(h) == old(self).retry_after(h),
            final(self).catalog() == old(self).catalog(),
    {
        let wanted = match self.auth_secrets_for(harness) {
            AuthSecretFetchState::NotFetched => true,
            AuthSecretFetchState::Failed(_) => self.can_retry_auth_secret_fetch(harness, now),
            AuthSecretFetchState::Loading | AuthSecretFetchState::Loaded(_) => false,
        };
        if wanted {
            self.fetch_auth_secrets(harness, logged_in)
        } else {
            None
        }
    }

    /// Records the secrets a fetch returned: the harness is `Loaded` and its cooldown is
    /// dropped.
    pub fn auth_secrets_loaded(&mut self, harness: Harness, entries: Vec<AuthSecretEntry>) -> (r:
        HarnessAvailabilityEvent)
        ensures
            final(self).fetch_state(harness) == AuthSecretFetchState::Loaded(entries),
            final(self).retry_after(harness) is None,
            forall|h: Harness|
                h != harness ==> #[trigger] final(self).fetch_state(h) == old(self).fetch_state(h)
                    && final(self).retry_after(h) == old(self).retry_after(h),
            final(self).catalog() == old(self).catalog(),
            r is AuthSecretsLoaded,
    {
        self.set_state(harness, AuthSecretFetchState::Loaded(entries));
        self.set_retry_after(harness, None);
        HarnessAvailabilityEvent::AuthSecretsLoaded
    }

    /// Records a failed fetch at time `now`: the harness is `Failed` with `message`, and a
    /// retry is blocked until the cooldown has passed.
    pub fn auth_secrets_fetch_failed(&mut self, harness: Harness, message: String, now: u64) -> (r:
        HarnessAvailabilityEvent)
        requires
            now <= u64::MAX - AUTH_SECRET_FETCH_FAILURE_COOLDOWN_MS,
        ensures
            final(self).fetch_state(harness) == AuthSecretFetchState::Failed(message),
            final(self).retry_after(harness) == Some((now + AUTH_SECRET_FETCH_FAILURE_COOLDOWN_MS) as u64),
            forall|h: Harness|
                h != harness ==> #[trigger] final(self).fetch_state(h) == old(self).fetch_state(h)
                    && final(self).retry_after(h) == old(self).retry_after(h),
            final(self).catalog() == old(self).catalog(),
            r is AuthSecretsFetchFailed,
    {
        self.set_state(harness, AuthSecretFetchState::Failed(message));
        self.set_retry_after(harness, Some(now + AUTH_SECRET_FETCH_FAILURE_COOLDOWN_MS));
        HarnessAvailabilityEvent::AuthSecretsFetchFailed
    }

    /// Forgets what is known of the auth secrets of `harness`, cooldown included.
    pub fn invalidate_auth_secrets(&mut self, harness: Harness)
        ensures
            final(self).fetch_state(harness) is NotFetched,
            final(self).retry_after(harness) is None,
            forall|h: Harness|
                h != harness ==> #[trigger] final(self).fetch_state(h) == old(self).fetch_state(h)
                    && final(self).retry_after(h) == old(self).retry_after(h),
            final(self).catalog() == old(self).catalog(),
    {
        self.set_state(harness, AuthSecretFetchState::NotFetched);
        self.set_retry_after(harness, None);
    }

    /// Forgets the auth secrets of every harness, as when the user has just authenticated.
    pub fn invalidate_all_auth_secrets(&mut self)
        ensures
            forall|h: Harness| #[trigger] final(self).fetch_state(h) is NotFetched,
            forall|h: Harness| #[trigger] final(self).retry_after(h) is None,
            final(self).catalog() == old(self).catalog(),
    {
        proof {
            use_type_invariant(&*self);
        }
        let mut states = unfetched_states();
        std::mem::swap(&mut states, &mut self.auth_secrets);
        let mut deadlines = no_deadlines();
        std::mem::swap(&mut deadlines, &mut self.auth_secret_retry_after);
    }

    /// Records a secret that was just created: appended to the loaded list, or the only
    /// entry of a new list when none was loaded.
    pub fn auth_secret_created(&mut self, harness: Harness, entry: AuthSecretEntry) -> (r:
        HarnessAvailabilityEvent)
        ensures
            match old(self).fetch_state(harness) {
                AuthSecretFetchState::Loaded(v) => final(self).fetch_state(harness) matches AuthSecretFetchState::Loaded(w)
                    && w@ == v@.push(entry),
                _ => final(self).fetch_state(harness) matches AuthSecretFetchState::Loaded(w)
                    && w@ == seq![entry],
            },
            forall|h: Harness|
                h != harness ==> #[trigger] final(self).fetch_state(h) == old(self).fetch_state(h),
            forall|h: Harness| #[trigger] final(self).retry_after(h) == old(self).retry_after(h),
            final(self).catalog() == old(self).catalog(),
            r matches HarnessAvailabilityEvent::AuthSecretCreated { harness: h, name } && h
                == harness && name@ == entry.name@,
    {
        let name = entry.name.clone();
        let previous = self.replace_state(harness, AuthSecretFetchState::NotFetched);
        let entries = match previous {
            AuthSecretFetchState::Loaded(mut entries) => {
                entries.push(entry);
                entries
            },
            _ => {
                let mut entries: Vec<AuthSecretEntry> = Vec::new();
                entries.push(entry);
                entries
            },
        };
        self.set_state(harness, AuthSecretFetchState::Loaded(entries));
        HarnessAvailabilityEvent::AuthSecretCreated { harness, name }
    }

    /// Records a secret that was just deleted: dropped from the loaded list, if one is
    /// loaded.
    pub fn auth_secret_deleted(&mut self, harness: Harness, name: String, owner: SecretOwner) -> (r:
        HarnessAvailabilityEvent)
        ensures
            match old(self).fetch_state(harness) {
                AuthSecretFetchState::Loaded(v) => final(self).fetch_state(harness) matches AuthSecretFetchState::Loaded(w)
                    && w@ == entries_after_deletion(v@, name@, owner),
                _ => final(self).fetch_state(harness) == old(self).fetch_state(harness),
            },
            forall|h: Harness|
                h != harness ==> #[trigger] final(self).fetch_state(h) == old(self).fetch_state(h),
            forall|h: Harness| #[trigger] final(self).retry_after(h) == old(self).retry_after(h),
            final(self).catalog() == old(self).catalog(),
            r matches HarnessAvailabilityEvent::AuthSecretDeleted { harness: h, name: n, owner: o }
                && h == harness && n == name && o == owner,
    {
        let previous = self.replace_state(harness, AuthSecretFetchState::NotFetched);
        let restored = match previous {
            AuthSecretFetchState::Loaded(mut entries) => {
                remove_deleted_auth_secret_entry(&mut entries, name.as_str(), &owner);
                AuthSecretFetchState::Loaded(entries)
            },
            other => other,
        };
        self.set_state(harness, restored);
        HarnessAvailabilityEvent::AuthSecretDeleted { harness, name, owner }
    }
}

/// The position of the first entry of `catalog` for `h`, if any.
pub open spec fn first_entry_for(catalog: Seq<HarnessAvailability>, h: Harness) -> Option<int> {
    if exists|i: int| 0 <= i < catalog.len() && (#[trigger] catalog[i]).harness == h {
        Some(
            choose|i: int|
                0 <= i < catalog.len() && (#[trigger] catalog[i]).harness == h && forall|j: int|
                    0 <= j < i ==> (#[trigger] catalog[j]).harness != h,
        )
    } else {
        None
    }
}

/// The first entry for `h` is the one a forward scan stops at.
proof fn lemma_first_entry_for(catalog: Seq<HarnessAvailability>, h: Harness, i: int)
    requires
        0 <= i < catalog.len(),
        catalog[i].harness == h,
        forall|j: int| 0 <= j < i ==> (#[trigger] catalog[j]).harness != h,
    ensures
        first_entry_for(catalog, h) == Some(i),
{
    let k = choose|k: int|
        0 <= k < catalog.len() && (#[trigger] catalog[k]).harness == h && forall|j: int|
            0 <= j < k ==> (#[trigger] catalog[j]).harness != h;
    assert(0 <= k < catalog.len() && catalog[k].harness == h);
    if k < i {
        assert(catalog[k].harness != h);
    }
    if k > i {
        assert(catalog[i].harness != h);
    }
}

/// A catalog without an entry for `h` has no first entry for it.
proof fn lemma_no_entry_for(catalog: Seq<HarnessAvailability>, h: Harness)
    requires
        forall|j: int| 0 <= j < catalog.len() ==> (#[trigger] catalog[j]).harness != h,
    ensures
        first_entry_for(catalog, h) is None,
{
}

/// Law: the local catalog never offers Gemini or an unknown harness, and offers more than
/// the built-in agent, so the harness selector has something to select.
pub proof fn lemma_catalog_offers_local_children_only()
    ensures
        !catalog_harnesses().contains(Harness::Gemini),
        !catalog_harnesses().contains(Harness::Unknown),
        catalog_harnesses().contains(Harness::Claude),
        catalog_harnesses().contains(Harness::OpenCode),
        catalog_harnesses().contains(Harness::Codex),
        catalog_harnesses().len() > 1,
{
    let c = catalog_harnesses();
    assert(c[1] == Harness::Claude);
    assert(c[2] == Harness::OpenCode);
    assert(c[3] == Harness::Codex);
}

/// Law: only a harness whose child process receives a model selection offers models, and
/// the Anthropic CLI's model ids are aliases the CLI resolves, never dated version ids.
pub proof fn lemma_models_only_for_claude(h: Harness)
    ensures
        h != Harness::Claude ==> local_models_spec(h).len() == 0,
        h == Harness::Claude ==> local_models_spec(h).len() == 3,
{
}

} // verus!
