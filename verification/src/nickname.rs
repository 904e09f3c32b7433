//! Nickname normalization, collision resolution, and team assignment.
//!
//! The server owns canonical nicknames: the name in a `Connect` is advisory only.
pub use vstd::hash_set::StringHashSet as TakenNicks;
use vstd::prelude::*;
use vstd::string::*;

use crate::protocol::Team;
use crate::random;
use crate::text;

verus! {

/// The longest nickname before a suffix is appended, in characters.
pub const NICK_LEN: usize = 20;

/// How many suffixes are tried before the fallback.
pub const SUFFIX_TRIES: usize = 10;

/// Suffixes run from zero up to this number, without it.
pub const SUFFIX_RANGE: u32 = 10_000;

// ── Normalization ─────────────────────────────────────────────────────────────

/// The nickname that a raw, client-supplied name stands for.
pub open spec fn normalized(raw: Seq<char>) -> Seq<char> {
    let name = text::trimmed(raw);
    if name.len() == 0 {
        "guest"@
    } else if name.len() > NICK_LEN {
        name.take(NICK_LEN as int)
    } else {
        name
    }
}

/// Normalizes a raw client-supplied nickname.
///
/// White space at either end is trimmed; an empty rest becomes `guest`; a longer one is cut to 20
/// characters.
pub fn normalize_nick(raw: &str) -> (r: String)
    ensures
        r@ == normalized(raw@),
{
    let chars = text::chars_of(raw);
    let (from, to) = text::trim_bounds(&chars);
    if from == to {
        return "guest".to_owned();
    }
    let end: usize = if to - from > NICK_LEN {
        from + NICK_LEN
    } else {
        to
    };
    assert(chars@.subrange(from as int, to as int).take(end - from) =~= chars@.subrange(
        from as int,
        end as int,
    ));
    text::string_of(&chars, from, end)
}

// ── Collision resolution ──────────────────────────────────────────────────────

/// `base#NNNN`.
pub open spec fn suffixed(base: Seq<char>, n: u32) -> Seq<char> {
    base + "#"@ + text::four_digits(n as nat)
}

/// Draws enough for every try and for the fallback.
pub open spec fn are_draws(draws: Seq<u32>) -> bool {
    &&& draws.len() == SUFFIX_TRIES + 1
    &&& forall|i: int| 0 <= i < draws.len() ==> #[trigger] draws[i] < SUFFIX_RANGE
}

/// The first of the suffixed names from try `k` on that is not taken; the fallback after the last
/// try.
pub open spec fn first_free(
    base: Seq<char>,
    taken: Set<Seq<char>>,
    draws: Seq<u32>,
    k: int,
) -> Seq<char>
    decreases SUFFIX_TRIES - k,
{
    if k >= SUFFIX_TRIES {
        suffixed("guest"@, draws[SUFFIX_TRIES as int])
    } else if !taken.contains(suffixed(base, draws[k])) {
        suffixed(base, draws[k])
    } else {
        first_free(base, taken, draws, k + 1)
    }
}

/// The nickname for `requested` beside the names in `taken`, with the given suffixes.
pub open spec fn nick_for(
    requested: Seq<char>,
    taken: Set<Seq<char>>,
    draws: Seq<u32>,
) -> Seq<char> {
    let base = normalized(requested);
    if !taken.contains(base) {
        base
    } else {
        first_free(base, taken, draws, 0)
    }
}

/// `base#NNNN`.
pub fn with_suffix(base: &str, n: u32) -> (r: String)
    requires
        n < SUFFIX_RANGE,
    ensures
        r@ == suffixed(base@, n),
{
    let mut r = base.to_owned();
    r.append("#");
    text::push_four_digits(&mut r, n);
    r
}

/// Assigns a nickname beside the names already taken, with the suffixes in `draws`.
pub fn assign_nick_from(requested: &str, taken: &TakenNicks, draws: &Vec<u32>) -> (r: String)
    requires
        are_draws(draws@),
    ensures
        r@ == nick_for(requested@, taken@, draws@),
{
    let base = normalize_nick(requested);
    if !taken.contains(base.as_str()) {
        return base;
    }
    let mut k: usize = 0;
    while k < SUFFIX_TRIES
        invariant
            k <= SUFFIX_TRIES,
            are_draws(draws@),
            base@ == normalized(requested@),
            taken@.contains(base@),
            first_free(base@, taken@, draws@, k as int) == nick_for(requested@, taken@, draws@),
        decreases SUFFIX_TRIES - k,
    {
        let candidate = with_suffix(base.as_str(), draws[k]);
        if !taken.contains(candidate.as_str()) {
            return candidate;
        }
        k += 1;
    }
    with_suffix("guest", draws[SUFFIX_TRIES])
}

/// Draws the suffixes for one assignment.
pub fn draw_suffixes() -> (draws: Vec<u32>)
    ensures
        are_draws(draws@),
{
    let mut draws: Vec<u32> = Vec::new();
    while draws.len() < SUFFIX_TRIES + 1
        invariant
            draws@.len() <= SUFFIX_TRIES + 1,
            forall|i: int| 0 <= i < draws@.len() ==> #[trigger] draws@[i] < SUFFIX_RANGE,
        decreases SUFFIX_TRIES + 1 - draws@.len(),
    {
        draws.push(random::random_below(SUFFIX_RANGE));
    }
    draws
}

/// Assigns a unique nickname given the names already taken.
///
/// The normalized name where it is free; else that name with a random suffix `#NNNN`, tried ten
/// times; else `guest#NNNN`.
pub fn assign_nick(requested: &str, taken: &TakenNicks) -> (r: String)
    ensures
        exists|draws: Seq<u32>|
            are_draws(draws) && r@ == #[trigger] nick_for(requested@, taken@, draws),
{
    let draws = draw_suffixes();
    assign_nick_from(requested, taken, &draws)
}

/// The assigned nickname is not in use, unless every suffix that was tried is: then it is `guest`
/// with a suffix.
pub proof fn lemma_nick_unique(requested: Seq<char>, taken: Set<Seq<char>>, draws: Seq<u32>)
    ensures
        !taken.contains(nick_for(requested, taken, draws)) || {
            &&& taken.contains(normalized(requested))
            &&& forall|k: int|
                0 <= k < SUFFIX_TRIES ==> taken.contains(
                    suffixed(normalized(requested), #[trigger] draws[k]),
                )
            &&& nick_for(requested, taken, draws) == suffixed(
                "guest"@,
                draws[SUFFIX_TRIES as int],
            )
        },
{
    if taken.contains(normalized(requested)) {
        lemma_first_free(normalized(requested), taken, draws, 0);
    }
}

/// A name that is taken is not given again, unless it is itself the fallback that was drawn.
pub proof fn lemma_taken_name_is_not_given_again(
    requested: Seq<char>,
    taken: Set<Seq<char>>,
    draws: Seq<u32>,
)
    requires
        taken.contains(normalized(requested)),
        normalized(requested) != suffixed("guest"@, draws[SUFFIX_TRIES as int]),
    ensures
        nick_for(requested, taken, draws) != normalized(requested),
{
    lemma_nick_unique(requested, taken, draws);
}

proof fn lemma_first_free(base: Seq<char>, taken: Set<Seq<char>>, draws: Seq<u32>, k: int)
    requires
        0 <= k <= SUFFIX_TRIES,
        forall|j: int| 0 <= j < k ==> taken.contains(suffixed(base, #[trigger] draws[j])),
    ensures
        !taken.contains(first_free(base, taken, draws, k)) || {
            &&& forall|j: int|
                0 <= j < SUFFIX_TRIES ==> taken.contains(suffixed(base, #[trigger] draws[j]))
            &&& first_free(base, taken, draws, k) == suffixed("guest"@, draws[SUFFIX_TRIES as int])
        },
    decreases SUFFIX_TRIES - k,
{
    if k < SUFFIX_TRIES && taken.contains(suffixed(base, draws[k])) {
        lemma_first_free(base, taken, draws, k + 1);
    }
}

/// A normalized nickname is never empty and has at most 20 characters.
pub proof fn lemma_normalized_length(raw: Seq<char>)
    ensures
        0 < normalized(raw).len() <= NICK_LEN,
{
    reveal_strlit("guest");
}

// ── Team assignment ───────────────────────────────────────────────────────────

/// The team that a coin flip stands for.
pub fn team_for(heads: bool) -> (team: Team)
    ensures
        team == if heads {
            Team::Red
        } else {
            Team::Blue
        },
{
    if heads {
        Team::Red
    } else {
        Team::Blue
    }
}

/// Randomly assigns a team, red or blue.
pub fn assign_team() -> (team: Team)
    ensures
        team == Team::Red || team == Team::Blue,
{
    team_for(random::random_flip())
}

// ── What a nickname is ────────────────────────────────────────────────────────

/// A nickname is the trimmed name, or its first 20 characters if it is longer; where nothing is left
/// after trimming, it is `guest`.
pub proof fn lemma_normalized(raw: Seq<char>)
    ensures
        ({
            let name = text::trimmed(raw);
            let nick = normalized(raw);
            &&& name.len() == 0 ==> nick == seq!['g', 'u', 'e', 's', 't']
            &&& 0 < name.len() <= 20 ==> nick == name
            &&& name.len() > 20 ==> nick.len() == 20
            &&& name.len() > 0 ==> forall|i: int|
                0 <= i < nick.len() ==> #[trigger] nick[i] == name[i]
        }),
{
    reveal_strlit("guest");
    assert("guest"@ =~= seq!['g', 'u', 'e', 's', 't']);
}

/// A suffixed name is the base, a `#` and four digits.
pub proof fn lemma_suffixed(base: Seq<char>, n: u32)
    ensures
        suffixed(base, n).len() == base.len() + 5,
        suffixed(base, n).take(base.len() as int) == base,
        suffixed(base, n)[base.len() as int] == '#',
        suffixed(base, n).skip(base.len() + 1int) == text::four_digits(n as nat),
{
    reveal_strlit("#");
    assert(suffixed(base, n).take(base.len() as int) =~= base);
    assert(suffixed(base, n).skip(base.len() + 1int) =~= text::four_digits(n as nat));
}

/// There are ten draws for the tries and one for the fallback, each of at most four digits.
pub proof fn lemma_draws(draws: Seq<u32>)
    ensures
        are_draws(draws) <==> draws.len() == 11 && forall|i: int|
            0 <= i < 11 ==> #[trigger] draws[i] < 10_000,
{
}

/// A name that is free is given as it is. One that is taken gets the first of the suffixes, in the
/// order of the draws, with which it is free: the `k`-th, if all before are taken and this is not.
/// With none of the ten it is `guest` and the eleventh.
pub proof fn lemma_nick_for(requested: Seq<char>, taken: Set<Seq<char>>, draws: Seq<u32>, k: int)
    ensures
        ({
            let base = normalized(requested);
            &&& !taken.contains(base) ==> nick_for(requested, taken, draws) == base
            &&& taken.contains(base) && 0 <= k < 10 && !taken.contains(suffixed(base, draws[k]))
                && (forall|j: int|
                0 <= j < k ==> taken.contains(suffixed(base, #[trigger] draws[j]))) ==> nick_for(
                requested,
                taken,
                draws,
            ) == suffixed(base, draws[k])
            &&& taken.contains(base) && (forall|j: int|
                0 <= j < 10 ==> taken.contains(suffixed(base, #[trigger] draws[j]))) ==> nick_for(
                requested,
                taken,
                draws,
            ) == suffixed("guest"@, draws[10])
        }),
{
    let base = normalized(requested);
    if taken.contains(base) {
        if 0 <= k < 10 && (forall|j: int|
            0 <= j < k ==> taken.contains(suffixed(base, #[trigger] draws[j]))) {
            lemma_passed_over(base, taken, draws, k);
        }
        if forall|j: int| 0 <= j < 10 ==> taken.contains(suffixed(base, #[trigger] draws[j])) {
            lemma_passed_over(base, taken, draws, 10);
        }
    }
}

proof fn lemma_passed_over(base: Seq<char>, taken: Set<Seq<char>>, draws: Seq<u32>, k: int)
    requires
        0 <= k <= SUFFIX_TRIES,
        forall|j: int| 0 <= j < k ==> taken.contains(suffixed(base, #[trigger] draws[j])),
    ensures
        first_free(base, taken, draws, 0) == first_free(base, taken, draws, k),
    decreases k,
{
    if k > 0 {
        lemma_passed_over(base, taken, draws, k - 1);
    }
}

} // verus!
