//! The models that can be asked for, and what the upstream calls them.

use crate::errors::ThreadlineError;
use crate::json::{json_text, member, object_get, object_view, text_of, Json};
use crate::text::{same_text, starts_with_text};
use serde_json::Value;
use vstd::prelude::*;

verus! {

/// Which kind of turns a listener serves.
#[derive(Clone, Copy, Debug, Eq, PartialEq, Structural)]
pub enum RouteProfile {
    Main,
    Utility,
}

/// The name of a profile.
pub open spec fn profile_name(profile: RouteProfile) -> Seq<char> {
    match profile {
        RouteProfile::Main => "main"@,
        RouteProfile::Utility => "utility"@,
    }
}

impl RouteProfile {
    /// The name of the profile.
    pub fn as_str(self) -> (name: &'static str)
        ensures
            name@ == profile_name(self),
    {
        match self {
            RouteProfile::Main => "main",
            RouteProfile::Utility => "utility",
        }
    }

    /// The profile with a name.
    pub fn from_name(name: &str) -> (profile: Option<Self>)
        ensures
            match profile {
                Some(found) => profile_name(found) == name@,
                None => name@ != profile_name(RouteProfile::Main) && name@ != profile_name(
                    RouteProfile::Utility,
                ),
            },
    {
        if same_text(name, "main") {
            Some(RouteProfile::Main)
        } else if same_text(name, "utility") {
            Some(RouteProfile::Utility)
        } else {
            None
        }
    }
}

/// A model that can be asked for.
#[derive(Clone, Copy, Debug, PartialEq, Eq)]
pub struct ModelAlias {
    pub alias_id: &'static str,
    pub upstream_model_id: &'static str,
    pub profile: RouteProfile,
    pub advertised: bool,
    pub persistent_reasoning_eligible: bool,
    pub supports_reasoning_all_turns: bool,
}

/// The contents of a [`ModelAlias`].
#[verifier::ext_equal]
pub struct Alias {
    pub alias_id: Seq<char>,
    pub upstream_model_id: Seq<char>,
    pub profile: RouteProfile,
    pub advertised: bool,
    pub persistent_reasoning_eligible: bool,
    pub supports_reasoning_all_turns: bool,
}

impl View for ModelAlias {
    type V = Alias;

    open spec fn view(&self) -> Alias {
        alias(
            self.alias_id,
            self.upstream_model_id,
            self.profile,
            self.advertised,
            self.persistent_reasoning_eligible,
            self.supports_reasoning_all_turns,
        )
    }
}

/// A model, field by field.
pub open spec fn alias(
    alias_id: &str,
    upstream_model_id: &str,
    profile: RouteProfile,
    advertised: bool,
    persistent_reasoning_eligible: bool,
    supports_reasoning_all_turns: bool,
) -> Alias {
    Alias {
        alias_id: alias_id@,
        upstream_model_id: upstream_model_id@,
        profile,
        advertised,
        persistent_reasoning_eligible,
        supports_reasoning_all_turns,
    }
}

/// All models. The first part is advertised; the rest are accepted without being advertised: the
/// upstream's own names, and models that are there for those who ask for them by name.
#[verifier::opaque]
pub open spec fn catalog() -> Seq<Alias> {
    seq![
        alias("threadline-main-gpt-5.6-sol", "gpt-5.6-sol", RouteProfile::Main, true, true, true),
        alias(
            "threadline-main-gpt-5.6-terra",
            "gpt-5.6-terra",
            RouteProfile::Main,
            true,
            true,
            true,
        ),
        alias("threadline-main-gpt-5.6-luna", "gpt-5.6-luna", RouteProfile::Main, true, true, true),
        alias("threadline-main-gpt-5.5", "gpt-5.5", RouteProfile::Main, true, false, true),
        alias("threadline-main-gpt-5.4", "gpt-5.4", RouteProfile::Main, true, false, true),
        alias(
            "threadline-utility-gpt-5.4-mini",
            "gpt-5.4-mini",
            RouteProfile::Utility,
            true,
            false,
            true,
        ),
        alias(
            "threadline-utility-gpt-5.3-codex-spark",
            "gpt-5.3-codex-spark",
            RouteProfile::Utility,
            true,
            false,
            false,
        ),
        alias("gpt-5.6-sol", "gpt-5.6-sol", RouteProfile::Main, false, false, false),
        alias("gpt-5.6-terra", "gpt-5.6-terra", RouteProfile::Main, false, false, false),
        alias("gpt-5.6-luna", "gpt-5.6-luna", RouteProfile::Main, false, false, false),
        alias("gpt-5.5", "gpt-5.5", RouteProfile::Main, false, false, false),
        alias("gpt-5.4", "gpt-5.4", RouteProfile::Main, false, false, false),
        alias("gpt-5.4-mini", "gpt-5.4-mini", RouteProfile::Main, false, false, false),
        alias(
            "gpt-5.3-codex-spark",
            "gpt-5.3-codex-spark",
            RouteProfile::Main,
            false,
            false,
            false,
        ),
        alias(
            "threadline-main-gpt-6-astra",
            "gpt-6-astra",
            RouteProfile::Main,
            false,
            true,
            true,
        ),
        alias(
            "gpt-6-astra",
            "gpt-6-astra",
            RouteProfile::Main,
            false,
            true,
            true,
        ),
        alias(
            "threadline-utility-gpt-5.6-luna",
            "gpt-5.6-luna",
            RouteProfile::Utility,
            false,
            false,
            true,
        ),
    ]
}

/// The views of a list of models.
pub open spec fn aliases_view(aliases: Seq<ModelAlias>) -> Seq<Alias> {
    aliases.map_values(|entry: ModelAlias| entry@)
}

fn model_alias(
    alias_id: &'static str,
    upstream_model_id: &'static str,
    profile: RouteProfile,
    advertised: bool,
    persistent_reasoning_eligible: bool,
    supports_reasoning_all_turns: bool,
) -> (entry: ModelAlias)
    ensures
        entry@ == alias(
            alias_id,
            upstream_model_id,
            profile,
            advertised,
            persistent_reasoning_eligible,
            supports_reasoning_all_turns,
        ),
{
    ModelAlias {
        alias_id,
        upstream_model_id,
        profile,
        advertised,
        persistent_reasoning_eligible,
        supports_reasoning_all_turns,
    }
}

/// All models.
pub fn model_alias_catalog() -> (aliases: Vec<ModelAlias>)
    ensures
        aliases_view(aliases@) == catalog(),
{
    let aliases = vec![
        model_alias(
            "threadline-main-gpt-5.6-sol",
            "gpt-5.6-sol",
            RouteProfile::Main,
            true,
            true,
            true,
        ),
        model_alias(
            "threadline-main-gpt-5.6-terra",
            "gpt-5.6-terra",
            RouteProfile::Main,
            true,
            true,
            true,
        ),
        model_alias(
            "threadline-main-gpt-5.6-luna",
            "gpt-5.6-luna",
            RouteProfile::Main,
            true,
            true,
            true,
        ),
        model_alias("threadline-main-gpt-5.5", "gpt-5.5", RouteProfile::Main, true, false, true),
        model_alias("threadline-main-gpt-5.4", "gpt-5.4", RouteProfile::Main, true, false, true),
        model_alias(
            "threadline-utility-gpt-5.4-mini",
            "gpt-5.4-mini",
            RouteProfile::Utility,
            true,
            false,
            true,
        ),
        model_alias(
            "threadline-utility-gpt-5.3-codex-spark",
            "gpt-5.3-codex-spark",
            RouteProfile::Utility,
            true,
            false,
            false,
        ),
        model_alias("gpt-5.6-sol", "gpt-5.6-sol", RouteProfile::Main, false, false, false),
        model_alias("gpt-5.6-terra", "gpt-5.6-terra", RouteProfile::Main, false, false, false),
        model_alias("gpt-5.6-luna", "gpt-5.6-luna", RouteProfile::Main, false, false, false),
        model_alias("gpt-5.5", "gpt-5.5", RouteProfile::Main, false, false, false),
        model_alias("gpt-5.4", "gpt-5.4", RouteProfile::Main, false, false, false),
        model_alias("gpt-5.4-mini", "gpt-5.4-mini", RouteProfile::Main, false, false, false),
        model_alias(
            "gpt-5.3-codex-spark",
            "gpt-5.3-codex-spark",
            RouteProfile::Main,
            false,
            false,
            false,
        ),
        model_alias(
            "threadline-main-gpt-6-astra",
            "gpt-6-astra",
            RouteProfile::Main,
            false,
            true,
            true,
        ),
        model_alias(
            "gpt-6-astra",
            "gpt-6-astra",
            RouteProfile::Main,
            false,
            true,
            true,
        ),
        model_alias(
            "threadline-utility-gpt-5.6-luna",
            "gpt-5.6-luna",
            RouteProfile::Utility,
            false,
            false,
            true,
        ),
    ];
    proof {
        reveal(catalog);
        assert(aliases_view(aliases@) =~= catalog());
    }
    aliases
}

/// The model with an id in a list.
pub open spec fn alias_in(aliases: Seq<Alias>, model_id: Seq<char>) -> Option<Alias>
    decreases aliases.len(),
{
    if aliases.len() == 0 {
        None
    } else if aliases.first().alias_id == model_id {
        Some(aliases.first())
    } else {
        alias_in(aliases.drop_first(), model_id)
    }
}

/// The model with an id.
pub open spec fn alias_of(model_id: Seq<char>) -> Option<Alias> {
    alias_in(catalog(), model_id)
}

/// The model that a request asks for, when the profile serves it.
pub open spec fn requested_alias(
    members: Map<Seq<char>, Json>,
    profile: RouteProfile,
) -> Option<Alias> {
    match json_text(member(members, "model"@)) {
        Some(model_id) => match alias_of(model_id) {
            Some(found) if found.profile == profile => Some(found),
            _ => None,
        },
        None => None,
    }
}

/// The ids of a list of models that are advertised for a profile, in order.
pub open spec fn advertised_in(aliases: Seq<Alias>, profile: RouteProfile) -> Seq<Seq<char>>
    decreases aliases.len(),
{
    if aliases.len() == 0 {
        Seq::empty()
    } else {
        let earlier = advertised_in(aliases.drop_last(), profile);
        let last = aliases.last();
        if last.profile == profile && last.advertised {
            earlier.push(last.alias_id)
        } else {
            earlier
        }
    }
}

/// The views of a list of string slices.
pub open spec fn strs(list: Seq<&'static str>) -> Seq<Seq<char>> {
    list.map_values(|text: &'static str| text@)
}

fn model_alias_by_id(model_id: &str) -> (found: Option<ModelAlias>)
    ensures
        match found {
            Some(entry) => alias_of(model_id@) == Some(entry@),
            None => alias_of(model_id@) is None,
        },
{
    let aliases = model_alias_catalog();
    let ghost all = aliases_view(aliases@);
    let mut i: usize = 0;
    assert(all.skip(0) =~= all);
    while i < aliases.len()
        invariant
            i <= aliases@.len(),
            all == aliases_view(aliases@),
            all == catalog(),
            alias_of(model_id@) == alias_in(all.skip(i as int), model_id@),
        decreases aliases@.len() - i,
    {
        proof {
            assert(all.skip(i as int).first() == aliases@[i as int]@);
            assert(all.skip(i as int).drop_first() =~= all.skip(i + 1));
        }
        if same_text(aliases[i].alias_id, model_id) {
            return Some(aliases[i]);
        }
        i += 1;
    }
    None
}

/// The ids that are advertised for primary turns.
pub fn supported_model_ids() -> (ids: Vec<&'static str>)
    ensures
        strs(ids@) == advertised_in(catalog(), RouteProfile::Main),
{
    advertised_model_ids_for_profile(RouteProfile::Main)
}

/// The ids that are advertised for a profile.
pub fn advertised_model_ids_for_profile(profile: RouteProfile) -> (ids: Vec<&'static str>)
    ensures
        strs(ids@) == advertised_in(catalog(), profile),
{
    let aliases = model_alias_catalog();
    let ghost all = aliases_view(aliases@);
    let mut ids: Vec<&'static str> = Vec::new();
    assert(all.take(0) =~= Seq::empty());
    assert(strs(ids@) =~= advertised_in(all.take(0), profile));
    let mut i: usize = 0;
    while i < aliases.len()
        invariant
            i <= aliases@.len(),
            all == aliases_view(aliases@),
            strs(ids@) == advertised_in(all.take(i as int), profile),
        decreases aliases@.len() - i,
    {
        let entry = aliases[i];
        proof {
            assert(all.take(i + 1).drop_last() =~= all.take(i as int));
            assert(all.take(i + 1).last() == entry@);
        }
        if entry.profile == profile && entry.advertised {
            let ghost listed = strs(ids@);
            ids.push(entry.alias_id);
            assert(strs(ids@) =~= listed.push(entry.alias_id@));
        }
        i += 1;
    }
    assert(all.take(i as int) =~= all);
    ids
}

/// Whether a model with this id exists.
pub fn is_supported_model(model_id: &str) -> (supported: bool)
    ensures
        supported == alias_of(model_id@) is Some,
{
    model_alias_by_id(model_id).is_some()
}

/// The id of the model that a request for a primary turn asks for.
pub fn validate_request_model(payload: &serde_json::Map<String, Value>) -> (model: Result<
    &'static str,
    ThreadlineError,
>)
    ensures
        match model {
            Ok(model_id) => requested_alias(object_view(*payload), RouteProfile::Main) matches Some(
                found,
            ) && found.alias_id == model_id@,
            Err(error) => error == ThreadlineError::InvalidModel && requested_alias(
                object_view(*payload),
                RouteProfile::Main,
            ) is None,
        },
{
    match resolve_request_model_for_profile(payload, RouteProfile::Main) {
        Ok(found) => Ok(found.alias_id),
        Err(error) => Err(error),
    }
}

/// The model that a request asks for, when the profile serves it.
pub fn resolve_request_model_for_profile(
    payload: &serde_json::Map<String, Value>,
    profile: RouteProfile,
) -> (model: Result<ModelAlias, ThreadlineError>)
    ensures
        match model {
            Ok(found) => requested_alias(object_view(*payload), profile) == Some(found@),
            Err(error) => error == ThreadlineError::InvalidModel && requested_alias(
                object_view(*payload),
                profile,
            ) is None,
        },
{
    let model_id = match text_of(object_get(payload, "model")) {
        Some(model_id) => model_id,
        None => return Err(ThreadlineError::InvalidModel),
    };
    match model_alias_by_id(model_id) {
        Some(found) => if found.profile == profile {
            Ok(found)
        } else {
            Err(ThreadlineError::InvalidModel)
        },
        None => Err(ThreadlineError::InvalidModel),
    }
}

spec fn length_and_end(text: Seq<char>) -> (nat, char) {
    (text.len(), text.last())
}

proof fn lemma_catalog_ids_differ(i: int, j: int)
    requires
        0 <= i < catalog().len(),
        0 <= j < catalog().len(),
        i != j,
    ensures
        catalog()[i].alias_id != catalog()[j].alias_id,
{
    reveal(catalog);
    reveal_strlit("threadline-main-gpt-5.6-sol");
    assert(length_and_end(catalog()[0].alias_id) == (27nat, 'l'));
    reveal_strlit("threadline-main-gpt-5.6-terra");
    assert(length_and_end(catalog()[1].alias_id) == (29nat, 'a'));
    reveal_strlit("threadline-main-gpt-5.6-luna");
    assert(length_and_end(catalog()[2].alias_id) == (28nat, 'a'));
    reveal_strlit("threadline-main-gpt-5.5");
    assert(length_and_end(catalog()[3].alias_id) == (23nat, '5'));
    reveal_strlit("threadline-main-gpt-5.4");
    assert(length_and_end(catalog()[4].alias_id) == (23nat, '4'));
    reveal_strlit("threadline-utility-gpt-5.4-mini");
    assert(length_and_end(catalog()[5].alias_id) == (31nat, 'i'));
    reveal_strlit("threadline-utility-gpt-5.3-codex-spark");
    assert(length_and_end(catalog()[6].alias_id) == (38nat, 'k'));
    reveal_strlit("gpt-5.6-sol");
    assert(length_and_end(catalog()[7].alias_id) == (11nat, 'l'));
    reveal_strlit("gpt-5.6-terra");
    assert(length_and_end(catalog()[8].alias_id) == (13nat, 'a'));
    reveal_strlit("gpt-5.6-luna");
    assert(length_and_end(catalog()[9].alias_id) == (12nat, 'a'));
    reveal_strlit("gpt-5.5");
    assert(length_and_end(catalog()[10].alias_id) == (7nat, '5'));
    reveal_strlit("gpt-5.4");
    assert(length_and_end(catalog()[11].alias_id) == (7nat, '4'));
    reveal_strlit("gpt-5.4-mini");
    assert(length_and_end(catalog()[12].alias_id) == (12nat, 'i'));
    reveal_strlit("gpt-5.3-codex-spark");
    assert(length_and_end(catalog()[13].alias_id) == (19nat, 'k'));
    reveal_strlit("threadline-main-gpt-6-astra");
    assert(length_and_end(catalog()[14].alias_id) == (27nat, 'a'));
    reveal_strlit("gpt-6-astra");
    assert(length_and_end(catalog()[15].alias_id) == (11nat, 'a'));
    reveal_strlit("threadline-utility-gpt-5.6-luna");
    assert(length_and_end(catalog()[16].alias_id) == (31nat, 'a'));
    assert(i == 0 || i == 1 || i == 2 || i == 3 || i == 4 || i == 5 || i == 6 || i == 7
        || i == 8 || i == 9 || i == 10 || i == 11 || i == 12 || i == 13 || i == 14 || i == 15 || i == 16);
    assert(j == 0 || j == 1 || j == 2 || j == 3 || j == 4 || j == 5 || j == 6 || j == 7
        || j == 8 || j == 9 || j == 10 || j == 11 || j == 12 || j == 13 || j == 14 || j == 15 || j == 16);
    assert(length_and_end(catalog()[i].alias_id) != length_and_end(catalog()[j].alias_id));
}

proof fn lemma_alias_in(aliases: Seq<Alias>, index: int)
    requires
        0 <= index < aliases.len(),
        forall|i: int|
            0 <= i < index ==> (#[trigger] aliases[i]).alias_id != aliases[index].alias_id,
    ensures
        alias_in(aliases, aliases[index].alias_id) == Some(aliases[index]),
    decreases aliases.len(),
{
    if index > 0 {
        let rest = aliases.drop_first();
        assert(rest[index - 1] == aliases[index]);
        assert(aliases[0].alias_id != aliases[index].alias_id);
        assert forall|i: int| 0 <= i < index - 1 implies (#[trigger] rest[i]).alias_id
            != rest[index - 1].alias_id by {
            assert(rest[i] == aliases[i + 1]);
        }
        lemma_alias_in(rest, index - 1);
    }
}

spec fn is_prefixed(entry: Alias) -> bool {
    entry.alias_id == (match entry.profile {
        RouteProfile::Main => "threadline-main-"@,
        RouteProfile::Utility => "threadline-utility-"@,
    }) + entry.upstream_model_id
}

proof fn lemma_prefixed_ids()
    ensures
        is_prefixed(catalog()[0]),
        is_prefixed(catalog()[1]),
        is_prefixed(catalog()[2]),
        is_prefixed(catalog()[3]),
        is_prefixed(catalog()[4]),
        is_prefixed(catalog()[5]),
        is_prefixed(catalog()[6]),
        is_prefixed(catalog()[14]),
        is_prefixed(catalog()[16]),
{
    reveal(catalog);
    reveal_strlit("threadline-main-");
    reveal_strlit("threadline-utility-");
    reveal_strlit("threadline-main-gpt-5.6-sol");
    reveal_strlit("gpt-5.6-sol");
    reveal_strlit("threadline-main-gpt-5.6-terra");
    reveal_strlit("gpt-5.6-terra");
    reveal_strlit("threadline-main-gpt-5.6-luna");
    reveal_strlit("gpt-5.6-luna");
    reveal_strlit("threadline-main-gpt-5.5");
    reveal_strlit("gpt-5.5");
    reveal_strlit("threadline-main-gpt-5.4");
    reveal_strlit("gpt-5.4");
    reveal_strlit("threadline-utility-gpt-5.4-mini");
    reveal_strlit("gpt-5.4-mini");
    reveal_strlit("threadline-utility-gpt-5.3-codex-spark");
    reveal_strlit("gpt-5.3-codex-spark");
    reveal_strlit("threadline-main-gpt-6-astra");
    reveal_strlit("gpt-6-astra");
    reveal_strlit("threadline-utility-gpt-5.6-luna");
    assert("threadline-main-gpt-5.6-sol"@ =~= "threadline-main-"@ + "gpt-5.6-sol"@);
    assert("threadline-main-gpt-5.6-terra"@ =~= "threadline-main-"@ + "gpt-5.6-terra"@);
    assert("threadline-main-gpt-5.6-luna"@ =~= "threadline-main-"@ + "gpt-5.6-luna"@);
    assert("threadline-main-gpt-5.5"@ =~= "threadline-main-"@ + "gpt-5.5"@);
    assert("threadline-main-gpt-5.4"@ =~= "threadline-main-"@ + "gpt-5.4"@);
    assert("threadline-utility-gpt-5.4-mini"@ =~= "threadline-utility-"@ + "gpt-5.4-mini"@);
    assert("threadline-utility-gpt-5.3-codex-spark"@ =~= "threadline-utility-"@ + "gpt-5.3-codex-spark"@);
    assert("threadline-main-gpt-6-astra"@ =~= "threadline-main-"@ + "gpt-6-astra"@);
    assert("threadline-utility-gpt-5.6-luna"@ =~= "threadline-utility-"@ + "gpt-5.6-luna"@);
}

proof fn lemma_found_alias_is_listed(aliases: Seq<Alias>, model_id: Seq<char>)
    ensures
        match alias_in(aliases, model_id) {
            Some(found) => aliases.contains(found) && found.alias_id == model_id,
            None => forall|i: int|
                0 <= i < aliases.len() ==> (#[trigger] aliases[i]).alias_id != model_id,
        },
    decreases aliases.len(),
{
    if aliases.len() > 0 {
        let rest = aliases.drop_first();
        lemma_found_alias_is_listed(rest, model_id);
        if aliases.first().alias_id == model_id {
            assert(aliases[0] == aliases.first());
        } else {
            match alias_in(rest, model_id) {
                Some(found) => {
                    let i = choose|i: int| 0 <= i < rest.len() && rest[i] == found;
                    assert(aliases[i + 1] == found);
                },
                None => {
                    assert forall|i: int| 0 <= i < aliases.len() implies (
                    #[trigger] aliases[i]).alias_id != model_id by {
                        if i > 0 {
                            assert(rest[i - 1] == aliases[i]);
                        }
                    }
                },
            }
        }
    }
}

proof fn lemma_found_index(model_id: Seq<char>) -> (index: int)
    requires
        alias_of(model_id) is Some,
    ensures
        0 <= index < catalog().len(),
        catalog().len() == 17,
        catalog()[index] == alias_of(model_id)->0,
        catalog()[index].alias_id == model_id,
{
    lemma_found_alias_is_listed(catalog(), model_id);
    reveal(catalog);
    choose|i: int| 0 <= i < catalog().len() && catalog()[i] == alias_of(model_id)->0
}

/// The id under which a model is asked for says what the upstream is asked for: the upstream's own
/// name for the model, behind the prefix of the profile that serves it or, for primary turns, alone.
/// Only ids with a prefix are advertised.
pub proof fn law_model_ids_name_the_upstream_model(
    members: Map<Seq<char>, Json>,
    profile: RouteProfile,
)
    ensures
        requested_alias(members, profile) matches Some(found) ==> {
            let prefix = match profile {
                RouteProfile::Main => "threadline-main-"@,
                RouteProfile::Utility => "threadline-utility-"@,
            };
            &&& found.profile == profile
            &&& member(members, "model"@) == Some(Json::Str(found.alias_id))
            &&& found.alias_id == prefix + found.upstream_model_id || (profile == RouteProfile::Main
                && found.alias_id == found.upstream_model_id)
            &&& found.advertised ==> found.alias_id == prefix + found.upstream_model_id
        },
{
    if let Some(found) = requested_alias(members, profile) {
        let model_id = json_text(member(members, "model"@))->0;
        let index = lemma_found_index(model_id);
        lemma_prefixed_ids();
        reveal(catalog);
    }
}

/// An id made of a profile's prefix and a name is served by that profile only, and the upstream is
/// asked for the model of that name.
pub proof fn law_prefixed_id_reaches_the_model_behind_the_prefix(
    model: Seq<char>,
    prefix: Seq<char>,
    profile: RouteProfile,
)
    requires
        prefix == (match profile {
            RouteProfile::Main => "threadline-main-"@,
            RouteProfile::Utility => "threadline-utility-"@,
        }),
    ensures
        alias_of(prefix + model) matches Some(found) ==> found.upstream_model_id == model
            && found.profile == profile,
{
    if let Some(found) = alias_of(prefix + model) {
        let index = lemma_found_index(prefix + model);
        lemma_prefixed_ids();
        reveal_strlit("threadline-main-");
        reveal_strlit("threadline-utility-");
        assert("threadline-main-"@.len() == 16 && "threadline-main-"@[11] == 'm');
        assert("threadline-utility-"@.len() == 19 && "threadline-utility-"@[11] == 'u');
        assert((prefix + model)[0] == 't' && (prefix + model)[11] == prefix[11]);
        let id = found.alias_id;
        if is_prefixed(found) {
            let own = match found.profile {
                RouteProfile::Main => "threadline-main-"@,
                RouteProfile::Utility => "threadline-utility-"@,
            };
            assert(id[11] == own[11]);
            assert(own == prefix);
            assert(model =~= (prefix + model).skip(prefix.len() as int));
            assert(found.upstream_model_id =~= id.skip(prefix.len() as int));
        } else {
            lemma_own_names_start_with_g(index);
            assert(false);
        }
    }
}

proof fn lemma_own_names_start_with_g(index: int)
    requires
        0 <= index < catalog().len(),
        !is_prefixed(catalog()[index]),
    ensures
        catalog()[index].alias_id == catalog()[index].upstream_model_id,
        catalog()[index].alias_id[0] == 'g',
{
    lemma_prefixed_ids();
    reveal(catalog);
    reveal_strlit("gpt-5.6-sol");
    reveal_strlit("gpt-5.6-terra");
    reveal_strlit("gpt-5.6-luna");
    reveal_strlit("gpt-5.5");
    reveal_strlit("gpt-5.4");
    reveal_strlit("gpt-5.4-mini");
    reveal_strlit("gpt-5.3-codex-spark");
    reveal_strlit("gpt-6-astra");
}

/// Every model that can be asked for under a prefix can also be asked for under the upstream's own
/// name, in primary turns.
pub proof fn law_upstream_names_are_accepted(model_id: Seq<char>)
    requires
        alias_of(model_id) is Some,
    ensures
        ({
            let own = alias_of(alias_of(model_id)->0.upstream_model_id);
            &&& own is Some
            &&& own->0.upstream_model_id == alias_of(model_id)->0.upstream_model_id
            &&& own->0.profile == RouteProfile::Main
            &&& !own->0.advertised
        }),
{
    let index = lemma_found_index(model_id);
    reveal(catalog);
    let raw: int = if index < 7 {
        index + 7
    } else if index == 14 {
        15
    } else if index == 16 {
        9
    } else {
        index
    };
    assert forall|i: int| 0 <= i < raw implies (#[trigger] catalog()[i]).alias_id
        != catalog()[raw].alias_id by {
        lemma_catalog_ids_differ(i, raw);
    }
    lemma_alias_in(catalog(), raw);
}

proof fn lemma_families()
    ensures
        starts_with_text("gpt-5.6-sol"@, "gpt-5.6-"@),
        starts_with_text("gpt-5.6-terra"@, "gpt-5.6-"@),
        starts_with_text("gpt-5.6-luna"@, "gpt-5.6-"@),
        !starts_with_text("gpt-5.5"@, "gpt-5.6-"@),
        !starts_with_text("gpt-5.4"@, "gpt-5.6-"@),
        !starts_with_text("gpt-5.4-mini"@, "gpt-5.6-"@),
        !starts_with_text("gpt-5.3-codex-spark"@, "gpt-5.6-"@),
        !starts_with_text("gpt-6-astra"@, "gpt-5.6-"@),
        "gpt-5.3-codex-spark"@.len() == 19,
        "gpt-6-astra"@.len() == 11,
        "gpt-6-astra"@.last() == 'a',
        "gpt-5.6-sol"@.last() == 'l',
        "gpt-5.6-sol"@.len() == 11,
        "gpt-5.6-terra"@.len() == 13,
        "gpt-5.6-luna"@.len() == 12,
        "gpt-5.5"@.len() == 7,
        "gpt-5.4"@.len() == 7,
        "gpt-5.4-mini"@.len() == 12,
{
    reveal_strlit("gpt-5.6-");
    reveal_strlit("gpt-5.6-sol");
    reveal_strlit("gpt-5.6-terra");
    reveal_strlit("gpt-5.6-luna");
    reveal_strlit("gpt-5.5");
    reveal_strlit("gpt-5.4");
    reveal_strlit("gpt-5.4-mini");
    reveal_strlit("gpt-5.3-codex-spark");
    reveal_strlit("gpt-6-astra");
    let family = "gpt-5.6-"@;
    assert("gpt-5.6-sol"@.subrange(0, 8) =~= family);
    assert("gpt-5.6-terra"@.subrange(0, 8) =~= family);
    assert("gpt-5.6-luna"@.subrange(0, 8) =~= family);
    assert("gpt-5.4-mini"@.subrange(0, 8)[6] == '4' && family[6] == '6');
    assert("gpt-5.3-codex-spark"@.subrange(0, 8)[6] == '3');
    assert("gpt-6-astra"@.subrange(0, 8)[4] == '6' && family[4] == '5');
}

/// Reasoning is kept over the turns by the bridge only for primary turns: for the Astra model, and
/// for the advertised models of the 5.6 family. A client may ask for it itself with those, and with
/// every other id that has a prefix except that of the Spark model.
pub proof fn law_reasoning_policy_follows_the_model(model_id: Seq<char>)
    requires
        alias_of(model_id) is Some,
    ensures
        ({
            let found = alias_of(model_id)->0;
            let astra = found.upstream_model_id == "gpt-6-astra"@;
            &&& found.persistent_reasoning_eligible <==> found.profile == RouteProfile::Main && (
            astra || (found.advertised && starts_with_text(found.upstream_model_id, "gpt-5.6-"@)))
            &&& found.supports_reasoning_all_turns <==> astra || (model_id
                != found.upstream_model_id && found.upstream_model_id != "gpt-5.3-codex-spark"@)
        }),
{
    let index = lemma_found_index(model_id);
    lemma_families();
    lemma_prefixed_ids();
    reveal_strlit("threadline-main-");
    reveal_strlit("threadline-utility-");
    assert("threadline-main-"@.len() == 16);
    assert("threadline-utility-"@.len() == 19);
    if is_prefixed(catalog()[index]) {
        assert(model_id.len() > catalog()[index].upstream_model_id.len());
    } else {
        lemma_own_names_start_with_g(index);
    }
    reveal(catalog);
}

spec fn marks_as_advertised(aliases: Seq<Alias>, profile: RouteProfile, id: Seq<char>) -> bool {
    exists|k: int|
        0 <= k < aliases.len() && (#[trigger] aliases[k]).alias_id == id && aliases[k].profile
            == profile && aliases[k].advertised
}

proof fn lemma_advertised(aliases: Seq<Alias>, profile: RouteProfile)
    ensures
        forall|i: int|
            0 <= i < advertised_in(aliases, profile).len() ==> marks_as_advertised(
                aliases,
                profile,
                #[trigger] advertised_in(aliases, profile)[i],
            ),
        forall|k: int|
            0 <= k < aliases.len() && (#[trigger] aliases[k]).profile == profile
                && aliases[k].advertised ==> advertised_in(aliases, profile).contains(
                aliases[k].alias_id,
            ),
    decreases aliases.len(),
{
    if aliases.len() > 0 {
        let rest = aliases.drop_last();
        let earlier = advertised_in(rest, profile);
        let all = advertised_in(aliases, profile);
        lemma_advertised(rest, profile);
        assert forall|i: int| 0 <= i < all.len() implies marks_as_advertised(
            aliases,
            profile,
            #[trigger] all[i],
        ) by {
            if i < earlier.len() {
                assert(all[i] == earlier[i]);
                let k = choose|k: int|
                    0 <= k < rest.len() && (#[trigger] rest[k]).alias_id == earlier[i]
                        && rest[k].profile == profile && rest[k].advertised;
                assert(aliases[k] == rest[k]);
            } else {
                assert(aliases[aliases.len() - 1].alias_id == all[i]);
            }
        }
        assert forall|k: int|
            0 <= k < aliases.len() && (#[trigger] aliases[k]).profile == profile
                && aliases[k].advertised implies all.contains(aliases[k].alias_id) by {
            if k < rest.len() {
                assert(rest[k] == aliases[k]);
                let i = choose|i: int| 0 <= i < earlier.len() && earlier[i] == rest[k].alias_id;
                assert(all[i] == aliases[k].alias_id);
            } else {
                assert(all[all.len() - 1] == aliases[k].alias_id);
            }
        }
    }
}

/// What is advertised for a profile can be asked for there, and only models marked as advertised
/// are listed, each of them for its own profile.
pub proof fn law_advertised_models_are_served(model_id: Seq<char>, profile: RouteProfile)
    ensures
        advertised_in(catalog(), profile).contains(model_id) <==> (alias_of(model_id) matches Some(
            found,
        ) && found.alias_id == model_id && found.profile == profile && found.advertised),
{
    let listed = advertised_in(catalog(), profile);
    lemma_advertised(catalog(), profile);
    if listed.contains(model_id) {
        let i = choose|i: int| 0 <= i < listed.len() && listed[i] == model_id;
        let k = choose|k: int|
            0 <= k < catalog().len() && (#[trigger] catalog()[k]).alias_id == listed[i]
                && catalog()[k].profile == profile && catalog()[k].advertised;
        assert forall|j: int| 0 <= j < k implies (#[trigger] catalog()[j]).alias_id
            != catalog()[k].alias_id by {
            lemma_catalog_ids_differ(j, k);
        }
        lemma_alias_in(catalog(), k);
    }
    if alias_of(model_id) is Some {
        let index = lemma_found_index(model_id);
    }
}

/// Every model can be asked for under its id, and by its own profile only.
pub proof fn law_models_are_found_by_their_id(
    members: Map<Seq<char>, Json>,
    index: int,
    profile: RouteProfile,
)
    requires
        0 <= index < catalog().len(),
        member(members, "model"@) == Some(Json::Str(catalog()[index].alias_id)),
    ensures
        requested_alias(members, profile) == if catalog()[index].profile == profile {
            Some(catalog()[index])
        } else {
            None
        },
{
    assert forall|i: int| 0 <= i < index implies (#[trigger] catalog()[i]).alias_id
        != catalog()[index].alias_id by {
        lemma_catalog_ids_differ(i, index);
    }
    lemma_alias_in(catalog(), index);
}

} // verus!
