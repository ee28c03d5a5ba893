//! API keys: who may publish and who may subscribe.

use crate::errors::ApiError;
use crate::text::{
    self, is_blank, is_run_between, is_white_space, law_pieces_are_what_is_between,
    law_pieces_have_no_separator, law_trimmed, law_trimmed_is_the_core, pieces, trimmed,
};
use crate::token_map::{self, cached, TokenCache};
use std::sync::Arc;
use vstd::hash_map::StringHashMap;
use vstd::hash_set::StringHashSet;
use vstd::prelude::*;

verus! {

/// The number of tokens that the cache has room for at first.
pub const TOKEN_CACHE_CAPACITY: usize = 100;

/// The keys that grant access.
pub struct ApiKeys {
    /// The keys to publish with.
    pub emit_keys: Arc<StringHashSet>,
    /// The keys to subscribe with.
    pub subscribe_keys: Arc<StringHashSet>,
}

impl Clone for ApiKeys {
    fn clone(&self) -> (copy: Self)
        ensures
            copy == *self,
    {
        ApiKeys { emit_keys: self.emit_keys.clone(), subscribe_keys: self.subscribe_keys.clone() }
    }
}

/// The keys that a comma-separated list names: its pieces without the white space around them, but
/// for those that nothing is left of.
pub open spec fn listed_keys(list: Seq<char>) -> Set<Seq<char>> {
    Set::new(
        |key: Seq<char>|
            key.len() > 0 && exists|i: int|
                0 <= i < pieces(list, ',').len() && trimmed(#[trigger] pieces(list, ',')[i]) == key,
    )
}

/// The keys that a variable of the environment names, if it is set.
pub open spec fn keys_of_variable(variable: Option<&str>) -> Set<Seq<char>> {
    match variable {
        Some(list) => listed_keys(list@),
        None => Set::empty(),
    }
}

/// The keys that are in force: those of the variable; outside production, where it names none, the
/// development keys.
pub open spec fn keys_in_force(
    variable: Option<&str>,
    production: bool,
    development: Set<Seq<char>>,
) -> Set<Seq<char>> {
    if keys_of_variable(variable) == Set::<Seq<char>>::empty() && !production {
        development
    } else {
        keys_of_variable(variable)
    }
}

/// The keys to publish with during development.
pub open spec fn development_emit_keys() -> Set<Seq<char>> {
    set!["emit-dev-key-1"@, "emit-dev-key-2"@]
}

/// The keys to subscribe with during development.
pub open spec fn development_subscribe_keys() -> Set<Seq<char>> {
    set!["subscribe-dev-key-1"@, "subscribe-dev-key-2"@]
}

/// The cache that holds exactly `tokens`.
pub open spec fn cache_of(tokens: Set<Seq<char>>) -> Map<Seq<char>, bool> {
    Map::new(|token: Seq<char>| tokens.contains(token), |token: Seq<char>| true)
}

/// The strings in a list.
spec fn strings(list: Seq<String>) -> Set<Seq<char>> {
    Set::new(|s: Seq<char>| exists|i: int| 0 <= i < list.len() && (#[trigger] list[i])@ == s)
}

proof fn lemma_strings_push(list: Seq<String>, last: String)
    ensures
        strings(list.push(last)) =~= strings(list).insert(last@),
{
    assert forall|s: Seq<char>| strings(list).insert(last@).contains(s) implies strings(
        list.push(last),
    ).contains(s) by {
        if s == last@ {
            assert(list.push(last)[list.len() as int]@ == s);
        } else {
            let i = choose|i: int| 0 <= i < list.len() && (#[trigger] list[i])@ == s;
            assert(list.push(last)[i]@ == s);
        }
    }
    assert forall|s: Seq<char>| strings(list.push(last)).contains(s) implies strings(list).insert(
        last@,
    ).contains(s) by {
        let i = choose|i: int|
            0 <= i < list.push(last).len() && (#[trigger] list.push(last)[i])@ == s;
        if i < list.len() {
            assert(list[i]@ == s);
        }
    }
}

proof fn lemma_no_strings(list: Seq<String>)
    ensures
        strings(list) == Set::<Seq<char>>::empty() <==> list.len() == 0,
{
    if list.len() > 0 {
        assert(strings(list).contains(list[0]@));
    } else {
        assert(strings(list) =~= Set::empty());
    }
}

/// The keys that a variable of the environment names, in order.
fn parse_keys(variable: Option<&str>) -> (keys: Vec<String>)
    ensures
        strings(keys@) == keys_of_variable(variable),
{
    let mut keys: Vec<String> = Vec::new();
    if let Some(list) = variable {
        let parts = text::split(list, ',');
        for i in 0..parts.len()
            invariant
                parts@.len() == pieces(list@, ',').len(),
                forall|j: int|
                    0 <= j < parts@.len() ==> (#[trigger] parts@[j])@ == pieces(list@, ',')[j],
                forall|key: Seq<char>| #[trigger]
                    strings(keys@).contains(key) <==> key.len() > 0 && exists|j: int|
                        0 <= j < i && trimmed(#[trigger] pieces(list@, ',')[j]) == key,
        {
            let key = text::trim(parts[i]);
            let ghost before = keys@;
            if !key.is_empty() {
                keys.push(key.to_owned());
                proof {
                    lemma_strings_push(before, keys@.last());
                    assert(keys@ == before.push(keys@.last()));
                }
            }
            assert(trimmed(pieces(list@, ',')[i as int]) == key@);
        }
        assert(strings(keys@) =~= listed_keys(list@));
    } else {
        assert(strings(keys@) =~= Set::empty());
    }
    keys
}

/// The set of the keys in a list.
fn key_set(keys: &Vec<String>) -> (set: StringHashSet)
    ensures
        set@ == strings(keys@),
{
    let mut set = StringHashSet::new();
    assert(strings(keys@.take(0)) =~= Set::empty());
    for i in 0..keys.len()
        invariant
            set@ == strings(keys@.take(i as int)),
    {
        set.insert(keys[i].clone());
        proof {
            lemma_strings_push(keys@.take(i as int), keys@[i as int]);
            assert(keys@.take(i + 1) =~= keys@.take(i as int).push(keys@[i as int]));
        }
    }
    assert(keys@.take(keys@.len() as int) =~= keys@);
    set
}

/// The keys of a variable or, outside production, the development keys in place of none.
fn effective_keys(variable: Option<&str>, production: bool, first: &str, second: &str) -> (keys:
    Vec<String>)
    ensures
        strings(keys@) == keys_in_force(variable, production, set![first@, second@]),
{
    let keys = parse_keys(variable);
    proof {
        lemma_no_strings(keys@);
    }
    if keys.len() == 0 && !production {
        let mut defaults: Vec<String> = Vec::new();
        defaults.push(first.to_owned());
        defaults.push(second.to_owned());
        proof {
            let empty = Seq::<String>::empty();
            lemma_strings_push(empty, defaults@[0]);
            lemma_strings_push(empty.push(defaults@[0]), defaults@[1]);
            assert(defaults@ =~= empty.push(defaults@[0]).push(defaults@[1]));
            assert(strings(empty) =~= Set::empty());
            assert(strings(defaults@) =~= set![first@, second@]);
        }
        defaults
    } else {
        keys
    }
}

/// Whether development keys are in force, for publishers or for subscribers.
pub fn uses_development_keys(
    emit_variable: Option<&str>,
    subscribe_variable: Option<&str>,
    production: bool,
) -> (used: bool)
    ensures
        used == (!production && (keys_of_variable(emit_variable) == Set::<Seq<char>>::empty()
            || keys_of_variable(subscribe_variable) == Set::<Seq<char>>::empty())),
{
    let emit_keys = parse_keys(emit_variable);
    let subscribe_keys = parse_keys(subscribe_variable);
    proof {
        lemma_no_strings(emit_keys@);
        lemma_no_strings(subscribe_keys@);
    }
    !production && (emit_keys.len() == 0 || subscribe_keys.len() == 0)
}

/// A cache without tokens.
pub fn new_token_cache() -> (cache: TokenCache)
    ensures
        cached(cache) == Map::<Seq<char>, bool>::empty(),
{
    token_map::with_capacity(TOKEN_CACHE_CAPACITY)
}

/// Sets up the keys from the variables of the environment, and fills the cache with the keys to
/// subscribe with in place of what it held.
pub fn load_api_keys(
    emit_variable: Option<&str>,
    subscribe_variable: Option<&str>,
    production: bool,
    cache: &mut TokenCache,
) -> (keys: ApiKeys)
    ensures
        keys.emit_keys@ == keys_in_force(emit_variable, production, development_emit_keys()),
        keys.subscribe_keys@ == keys_in_force(
            subscribe_variable,
            production,
            development_subscribe_keys(),
        ),
        cached(*final(cache)) == cache_of(keys.subscribe_keys@),
{
    let emit_keys = effective_keys(
        emit_variable,
        production,
        "emit-dev-key-1",
        "emit-dev-key-2",
    );
    let subscribe_keys = effective_keys(
        subscribe_variable,
        production,
        "subscribe-dev-key-1",
        "subscribe-dev-key-2",
    );
    token_map::clear(cache);
    assert(strings(subscribe_keys@.take(0)) =~= Set::empty());
    assert(cached(*cache) =~= cache_of(strings(subscribe_keys@.take(0))));
    for i in 0..subscribe_keys.len()
        invariant
            cached(*cache) == cache_of(strings(subscribe_keys@.take(i as int))),
    {
        token_map::insert(cache, subscribe_keys[i].clone(), true);
        proof {
            let earlier = subscribe_keys@.take(i as int);
            lemma_strings_push(earlier, subscribe_keys@[i as int]);
            assert(subscribe_keys@.take(i + 1) =~= earlier.push(subscribe_keys@[i as int]));
            assert(cached(*cache) =~= cache_of(strings(subscribe_keys@.take(i + 1))));
        }
    }
    assert(subscribe_keys@.take(subscribe_keys@.len() as int) =~= subscribe_keys@);
    ApiKeys {
        emit_keys: Arc::new(key_set(&emit_keys)),
        subscribe_keys: Arc::new(key_set(&subscribe_keys)),
    }
}

/// Whether a token grants a subscription.
pub open spec fn may_subscribe(
    token: Seq<char>,
    subscribe_keys: Set<Seq<char>>,
    cache: Map<Seq<char>, bool>,
) -> bool {
    cache.contains_key(token) || subscribe_keys.contains(token)
}

/// Admits a subscriber whose query string carries a valid token, and caches the token.
pub fn validate_token(
    query: &StringHashMap<String>,
    api_keys: &ApiKeys,
    cache: &mut TokenCache,
) -> (verdict: Result<(), ApiError>)
    ensures
        verdict is Ok <==> query@.contains_key("token"@) && may_subscribe(
            query@["token"@]@,
            api_keys.subscribe_keys@,
            cached(*old(cache)),
        ),
        verdict matches Err(error) ==> error is Unauthorized,
        cached(*final(cache)) == if verdict is Ok && !cached(*old(cache)).contains_key(
            query@["token"@]@,
        ) {
            cached(*old(cache)).insert(query@["token"@]@, true)
        } else {
            cached(*old(cache))
        },
{
    let token = match query.get("token") {
        Some(token) => token,
        None => {
            return Err(ApiError::Unauthorized);
        },
    };
    if token_map::contains_key(cache, token.as_str()) || api_keys.subscribe_keys.contains(
        token.as_str(),
    ) {
        token_map::or_insert(cache, token.clone(), true);
        Ok(())
    } else {
        Err(ApiError::Unauthorized)
    }
}

/// The token in an `Authorization` header: what follows the scheme, or all of it without one.
pub open spec fn bearer_token(header: Seq<char>) -> Seq<char> {
    if "Bearer "@.is_prefix_of(header) {
        header.skip("Bearer "@.len() as int)
    } else {
        header
    }
}

/// Admits a publisher whose `Authorization` header carries a valid token.
pub fn check_token(token: &str, api_keys: &ApiKeys) -> (verdict: Result<(), ApiError>)
    ensures
        verdict is Ok <==> api_keys.emit_keys@.contains(bearer_token(token@)),
        verdict matches Err(error) ==> error is Unauthorized,
{
    let token = match text::strip_prefix(token, "Bearer ") {
        Some(rest) => rest,
        None => token,
    };
    if api_keys.emit_keys.contains(token) {
        Ok(())
    } else {
        Err(ApiError::Unauthorized)
    }
}

/// Every cached token is a key to subscribe with.
pub open spec fn cache_sound(cache: Map<Seq<char>, bool>, subscribe_keys: Set<Seq<char>>) -> bool {
    forall|token: Seq<char>| #[trigger]
        cache.contains_key(token) ==> subscribe_keys.contains(token)
}

/// The cache that keys are set up with is sound.
pub proof fn law_loaded_cache_is_sound(subscribe_keys: Set<Seq<char>>)
    ensures
        cache_sound(cache_of(subscribe_keys), subscribe_keys),
{
}

/// A sound cache grants nothing that the keys do not grant: a token is accepted if and only if it
/// is a key to subscribe with.
pub proof fn law_sound_cache_grants_keys_only(
    token: Seq<char>,
    subscribe_keys: Set<Seq<char>>,
    cache: Map<Seq<char>, bool>,
)
    requires
        cache_sound(cache, subscribe_keys),
    ensures
        may_subscribe(token, subscribe_keys, cache) <==> subscribe_keys.contains(token),
{
}

/// A sound cache stays sound when an accepted token is added to it.
pub proof fn law_cache_stays_sound(
    token: Seq<char>,
    subscribe_keys: Set<Seq<char>>,
    cache: Map<Seq<char>, bool>,
)
    requires
        cache_sound(cache, subscribe_keys),
        may_subscribe(token, subscribe_keys, cache),
    ensures
        cache_sound(cache.insert(token, true), subscribe_keys),
{
}

/// A key is never empty, has no white space around it and no comma in it, when it comes from a
/// variable of the environment.
pub proof fn law_listed_keys_are_clean(list: Seq<char>, key: Seq<char>)
    requires
        listed_keys(list).contains(key),
    ensures
        key.len() > 0,
        !is_white_space(key.first()),
        !is_white_space(key.last()),
        !key.contains(','),
{
    let i = choose|i: int|
        0 <= i < pieces(list, ',').len() && trimmed(#[trigger] pieces(list, ',')[i]) == key;
    let piece = pieces(list, ',')[i];
    law_trimmed(piece);
    law_pieces_have_no_separator(list, ',', i);
    let (from, to) = choose|from: int, to: int|
        0 <= from <= to <= piece.len() && is_blank(piece, 0, from) && is_blank(
            piece,
            to,
            piece.len() as int,
        ) && key == #[trigger] piece.subrange(from, to);
    assert forall|j: int| 0 <= j < key.len() implies #[trigger] key[j] != ',' by {
        assert(piece.contains(piece[from + j]));
    }
}

/// The characters of `list` from `a` on, and before `b`, are an entry of the list: they neither start
/// nor end with white space, and nothing but white space stands between them and the commas, or the
/// ends of the list, around them.
pub open spec fn is_entry(list: Seq<char>, a: int, b: int) -> bool {
    exists|i: int, j: int| #[trigger]
        is_run_between(list, ',', i, j) && i <= a < b <= j && is_blank(list, i, a) && is_blank(
            list,
            b,
            j,
        ) && !is_white_space(list[a]) && !is_white_space(list[b - 1])
}

/// The keys that a list names are its entries: all of them, however long and however many, and nothing
/// else.
pub proof fn law_listed_keys_are_the_entries(list: Seq<char>)
    ensures
        forall|a: int, b: int|
            #![trigger list.subrange(a, b)]
            is_entry(list, a, b) ==> listed_keys(list).contains(list.subrange(a, b)),
        forall|key: Seq<char>| #[trigger]
            listed_keys(list).contains(key) ==> exists|a: int, b: int|
                is_entry(list, a, b) && key == #[trigger] list.subrange(a, b),
{
    law_pieces_are_what_is_between(list, ',');
    assert forall|a: int, b: int|
        #![trigger list.subrange(a, b)]
        is_entry(list, a, b) implies listed_keys(list).contains(list.subrange(a, b)) by {
        let (i, j) = choose|i: int, j: int| #[trigger]
            is_run_between(list, ',', i, j) && i <= a < b <= j && is_blank(list, i, a) && is_blank(
                list,
                b,
                j,
            ) && !is_white_space(list[a]) && !is_white_space(list[b - 1]);
        let piece = list.subrange(i, j);
        law_trimmed_is_the_core(piece, a - i, b - i);
        assert(piece.subrange(a - i, b - i) =~= list.subrange(a, b));
        let p = choose|p: int| 0 <= p < pieces(list, ',').len() && pieces(list, ',')[p] == piece;
        assert(trimmed(pieces(list, ',')[p]) == list.subrange(a, b));
    }
    assert forall|key: Seq<char>| #[trigger] listed_keys(list).contains(key) implies exists|
        a: int,
        b: int,
    | is_entry(list, a, b) && key == #[trigger] list.subrange(a, b) by {
        let p = choose|p: int|
            0 <= p < pieces(list, ',').len() && trimmed(#[trigger] pieces(list, ',')[p]) == key;
        let piece = pieces(list, ',')[p];
        assert(pieces(list, ',').contains(piece));
        let (i, j) = choose|i: int, j: int|
            is_run_between(list, ',', i, j) && piece == #[trigger] list.subrange(i, j);
        law_trimmed(piece);
        let (from, to) = choose|from: int, to: int|
            0 <= from <= to <= piece.len() && is_blank(piece, 0, from) && is_blank(
                piece,
                to,
                piece.len() as int,
            ) && key == #[trigger] piece.subrange(from, to);
        assert(key =~= list.subrange(i + from, i + to));
        assert forall|k: int| i <= k < i + from implies is_white_space(#[trigger] list[k]) by {
            assert(piece[k - i] == list[k]);
        }
        assert forall|k: int| i + to <= k < j implies is_white_space(#[trigger] list[k]) by {
            assert(piece[k - i] == list[k]);
        }
        assert(is_entry(list, i + from, i + to));
    }
}

/// Outside production there is always a key.
pub proof fn law_development_has_keys(variable: Option<&str>, development: Set<Seq<char>>)
    requires
        development != Set::<Seq<char>>::empty(),
    ensures
        keys_in_force(variable, false, development) != Set::<Seq<char>>::empty(),
{
}

/// In production the development keys are never in force by themselves: only what the variable
/// names is.
pub proof fn law_production_has_listed_keys_only(
    variable: Option<&str>,
    development: Set<Seq<char>>,
)
    ensures
        keys_in_force(variable, true, development) == keys_of_variable(variable),
{
}

/// A token is read the same with the scheme before it and without, unless it starts with the scheme
/// itself.
pub proof fn law_scheme_is_optional(token: Seq<char>)
    requires
        !"Bearer "@.is_prefix_of(token),
    ensures
        bearer_token("Bearer "@ + token) == token,
        bearer_token(token) == token,
{
    assert("Bearer "@.is_prefix_of("Bearer "@ + token));
    assert(("Bearer "@ + token).skip("Bearer "@.len() as int) =~= token);
}

} // verus!
