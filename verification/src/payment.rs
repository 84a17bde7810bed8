use vstd::prelude::*;
use crate::card::Cost;
use crate::gem_type::GemType;
use crate::memo::{memo_entries, memo_new, memo_peek, memo_set, Counts, MemoKey};
use crate::token::{excess, Tokens};

verus! {

/// Whether surrendering `payment` out of `gems` covers `cost` exactly.
///
/// A payment holds no more of any colour than `gems` does and no more of a
/// standard colour than `cost` asks of it, and it holds as many tokens in
/// all as `cost` asks. So each standard colour is covered by tokens of its
/// own colour as far as the payment holds them, and every unit left over,
/// of whatever colour, by one wildcard.
pub open spec fn is_payment(cost: Tokens, gems: Tokens, payment: Tokens) -> bool {
    &&& payment.spec_legal()
    &&& payment.within(gems)
    &&& payment.onyx <= cost.onyx
    &&& payment.sapphire <= cost.sapphire
    &&& payment.emerald <= cost.emerald
    &&& payment.ruby <= cost.ruby
    &&& payment.diamond <= cost.diamond
    &&& payment.spec_total() == cost.spec_total()
}

/// Whether `total` is the payment `running` made so far, completed by a
/// payment of `cost` out of `gems`.
pub open spec fn is_completion(cost: Tokens, gems: Tokens, running: Tokens, total: Tokens) -> bool {
    &&& total.can_sub(running)
    &&& is_payment(cost, gems, total.spec_minus(running))
}

/// `found` lists every completion of `running` once, and nothing else.
pub open spec fn lists_completions(
    found: Seq<Tokens>,
    cost: Tokens,
    gems: Tokens,
    running: Tokens,
) -> bool {
    &&& found.no_duplicates()
    &&& forall|p: Tokens|
        #![trigger found.contains(p)]
        #![trigger is_completion(cost, gems, running, p)]
        found.contains(p) <==> is_completion(cost, gems, running, p)
}

/// `found` lists every payment of `cost` out of `gems` once, and nothing
/// else.
pub open spec fn lists_payments(found: Seq<Tokens>, cost: Tokens, gems: Tokens) -> bool {
    &&& found.no_duplicates()
    &&& forall|p: Tokens|
        #![trigger found.contains(p)]
        #![trigger is_payment(cost, gems, p)]
        found.contains(p) <==> is_payment(cost, gems, p)
}

fn list_contains(list: &Vec<Tokens>, item: Tokens) -> (present: bool)
    ensures
        present == list@.contains(item),
{
    let mut i: usize = 0;
    while i < list.len()
        invariant
            0 <= i <= list.len(),
            forall|j: int| 0 <= j < i ==> list@[j] != item,
        decreases list.len() - i,
    {
        if list[i] == item {
            return true;
        }
        i += 1;
    }
    false
}

/// Appends to `found` each item of `more` that it does not hold yet.
fn append_unique(found: &mut Vec<Tokens>, more: &Vec<Tokens>)
    requires
        old(found)@.no_duplicates(),
    ensures
        final(found)@.no_duplicates(),
        forall|p: Tokens|
            #![trigger final(found)@.contains(p)]
            final(found)@.contains(p) <==> (old(found)@.contains(p) || more@.contains(p)),
{
    let mut i: usize = 0;
    while i < more.len()
        invariant
            0 <= i <= more.len(),
            found@.no_duplicates(),
            forall|p: Tokens|
                #![trigger found@.contains(p)]
                found@.contains(p) <==> (old(found)@.contains(p) || more@.take(i as int).contains(p)),
        decreases more.len() - i,
    {
        let item = more[i];
        let ghost before = found@;
        assert(more@.take(i + 1) =~= more@.take(i as int).push(item));
        if !list_contains(found, item) {
            found.push(item);
            assert forall|p: Tokens| #![trigger found@.contains(p)]
                found@.contains(p) <==> (before.contains(p) || p == item) by {
                if before.contains(p) {
                    let j = choose|j: int| 0 <= j < before.len() && before[j] == p;
                    assert(found@[j] == p);
                }
                if p == item {
                    assert(found@[before.len() as int] == p);
                }
            }
        }
        assert forall|p: Tokens| #![trigger found@.contains(p)]
            found@.contains(p) <==> (old(found)@.contains(p) || more@.take(i + 1).contains(p)) by {
            let prefix = more@.take(i as int);
            if prefix.contains(p) {
                let j = choose|j: int| 0 <= j < prefix.len() && prefix[j] == p;
                assert(more@.take(i + 1)[j] == p);
            }
            assert(more@.take(i + 1)[i as int] == item);
            assert(found@.contains(p) <==> (before.contains(p) || p == item));
        }
        i += 1;
    }
    assert(more@.take(more.len() as int) =~= more@);
}

/// The counters of a token vector as a tuple of integers.
pub open spec fn spec_counts(tokens: Tokens) -> Counts {
    (tokens.onyx, tokens.sapphire, tokens.emerald, tokens.ruby, tokens.diamond, tokens.gold)
}

/// The token vector with the given counters.
pub open spec fn tokens_of(counts: Counts) -> Tokens {
    Tokens {
        onyx: counts.0,
        sapphire: counts.1,
        emerald: counts.2,
        ruby: counts.3,
        diamond: counts.4,
        gold: counts.5,
    }
}

/// The key under which the search state `(cost, gems, running)` is filed.
pub open spec fn spec_memo_key(cost: Tokens, gems: Tokens, running: Tokens) -> MemoKey {
    (spec_counts(cost), spec_counts(gems), spec_counts(running))
}

fn counts(tokens: Tokens) -> (counts: Counts)
    ensures
        counts == spec_counts(tokens),
{
    (tokens.onyx, tokens.sapphire, tokens.emerald, tokens.ruby, tokens.diamond, tokens.gold)
}

fn memo_key(cost: Tokens, gems: Tokens, running: Tokens) -> (key: MemoKey)
    ensures
        key == spec_memo_key(cost, gems, running),
{
    (counts(cost), counts(gems), counts(running))
}

/// Every list filed in the table is the full answer for the state it is
/// filed under.
pub open spec fn memo_sound(entries: Map<MemoKey, Seq<Tokens>>) -> bool {
    forall|key: MemoKey| #[trigger]
        entries.contains_key(key) ==> lists_completions(
            entries[key],
            tokens_of(key.0),
            tokens_of(key.1),
            tokens_of(key.2),
        )
}

/// `total` is reached by paying one unit of `color` with a token of that
/// colour and completing the rest.
pub open spec fn pays_own(
    cost: Tokens,
    gems: Tokens,
    running: Tokens,
    color: GemType,
    total: Tokens,
) -> bool {
    &&& cost.spec_get(color) > 0
    &&& gems.spec_get(color) > 0
    &&& is_completion(
        cost.spec_minus(Tokens::spec_one(color)),
        gems.spec_minus(Tokens::spec_one(color)),
        running.spec_plus(Tokens::spec_one(color)),
        total,
    )
}

/// `total` is reached by paying one unit of `color` with a wildcard and
/// completing the rest.
pub open spec fn pays_wild(
    cost: Tokens,
    gems: Tokens,
    running: Tokens,
    color: GemType,
    total: Tokens,
) -> bool {
    &&& cost.spec_get(color) > 0
    &&& gems.gold > 0
    &&& is_completion(
        cost.spec_minus(Tokens::spec_one(color)),
        gems.spec_minus(Tokens::spec_one(GemType::Gold)),
        running.spec_plus(Tokens::spec_one(GemType::Gold)),
        total,
    )
}

/// `total` is reached by paying one unit of `color`, either way.
pub open spec fn pays_unit(
    cost: Tokens,
    gems: Tokens,
    running: Tokens,
    color: GemType,
    total: Tokens,
) -> bool {
    pays_own(cost, gems, running, color, total) || pays_wild(cost, gems, running, color, total)
}

/// `total` is reached by paying one unit of one of the first `k` colours.
pub open spec fn pays_unit_before(
    k: int,
    cost: Tokens,
    gems: Tokens,
    running: Tokens,
    total: Tokens,
) -> bool
    decreases k,
{
    if k <= 0 || k > 6 {
        false
    } else {
        pays_unit_before(k - 1, cost, gems, running, total) || pays_unit(
            cost,
            gems,
            running,
            GemType::spec_all()[k - 1],
            total,
        )
    }
}

/// With nothing owed, the payment made so far is the one completion.
pub proof fn lemma_nothing_owed(cost: Tokens, gems: Tokens, running: Tokens, total: Tokens)
    requires
        cost.spec_legal(),
        gems.spec_legal(),
        cost.spec_total() == 0,
    ensures
        is_completion(cost, gems, running, total) <==> total == running,
{
}

/// With something owed and nothing at hand, there is no completion.
pub proof fn lemma_nothing_at_hand(cost: Tokens, gems: Tokens, running: Tokens, total: Tokens)
    requires
        cost.spec_legal(),
        gems.spec_legal(),
        cost.spec_total() > 0,
        gems.spec_total() == 0,
    ensures
        !is_completion(cost, gems, running, total),
{
}

/// Paying one unit with a token of its own colour and completing the
/// rest completes the whole.
pub proof fn lemma_own_sound(
    cost: Tokens,
    gems: Tokens,
    running: Tokens,
    color: GemType,
    total: Tokens,
)
    requires
        cost.spec_legal(),
        gems.spec_legal(),
        running.can_add(gems),
        pays_own(cost, gems, running, color, total),
    ensures
        is_completion(cost, gems, running, total),
{
}

/// Paying one unit with a wildcard and completing the rest completes the
/// whole.
pub proof fn lemma_wild_sound(
    cost: Tokens,
    gems: Tokens,
    running: Tokens,
    color: GemType,
    total: Tokens,
)
    requires
        cost.spec_legal(),
        gems.spec_legal(),
        running.can_add(gems),
        pays_wild(cost, gems, running, color, total),
    ensures
        is_completion(cost, gems, running, total),
{
}

/// A completion that holds a token of the standard colour `color` beyond
/// the payment made so far is reached by paying one unit of `color` with
/// such a token.
pub proof fn lemma_own_complete(
    cost: Tokens,
    gems: Tokens,
    running: Tokens,
    color: GemType,
    total: Tokens,
)
    requires
        cost.spec_legal(),
        gems.spec_legal(),
        running.can_add(gems),
        is_completion(cost, gems, running, total),
        color != GemType::Gold,
        total.spec_get(color) > running.spec_get(color),
    ensures
        pays_own(cost, gems, running, color, total),
{
}

/// A completion that adds no token of a standard colour to the payment
/// made so far is reached by paying one unit of any colour that is owed
/// with a wildcard.
pub proof fn lemma_wild_complete(
    cost: Tokens,
    gems: Tokens,
    running: Tokens,
    color: GemType,
    total: Tokens,
)
    requires
        cost.spec_legal(),
        gems.spec_legal(),
        running.can_add(gems),
        is_completion(cost, gems, running, total),
        cost.spec_get(color) > 0,
        total.onyx == running.onyx,
        total.sapphire == running.sapphire,
        total.emerald == running.emerald,
        total.ruby == running.ruby,
        total.diamond == running.diamond,
    ensures
        pays_wild(cost, gems, running, color, total),
{
}

/// With something owed, the completions are exactly what is reached by
/// paying one unit of some colour, with a token of that colour or with a
/// wildcard, and completing the rest.
pub proof fn lemma_one_unit(cost: Tokens, gems: Tokens, running: Tokens, total: Tokens)
    requires
        cost.spec_legal(),
        gems.spec_legal(),
        running.can_add(gems),
        cost.spec_total() > 0,
    ensures
        is_completion(cost, gems, running, total) <==> pays_unit_before(
            6,
            cost,
            gems,
            running,
            total,
        ),
{
    reveal_with_fuel(pays_unit_before, 7);
    let all = GemType::spec_all();
    assert(all[0] == GemType::Onyx && all[1] == GemType::Sapphire && all[2] == GemType::Emerald);
    assert(all[3] == GemType::Ruby && all[4] == GemType::Diamond && all[5] == GemType::Gold);
    if pays_unit_before(6, cost, gems, running, total) {
        let color = choose|color: GemType| pays_unit(cost, gems, running, color, total);
        if pays_own(cost, gems, running, color, total) {
            lemma_own_sound(cost, gems, running, color, total);
        } else {
            lemma_wild_sound(cost, gems, running, color, total);
        }
    }
    if is_completion(cost, gems, running, total) {
        if total.onyx > running.onyx {
            lemma_own_complete(cost, gems, running, GemType::Onyx, total);
        } else if total.sapphire > running.sapphire {
            lemma_own_complete(cost, gems, running, GemType::Sapphire, total);
        } else if total.emerald > running.emerald {
            lemma_own_complete(cost, gems, running, GemType::Emerald, total);
        } else if total.ruby > running.ruby {
            lemma_own_complete(cost, gems, running, GemType::Ruby, total);
        } else if total.diamond > running.diamond {
            lemma_own_complete(cost, gems, running, GemType::Diamond, total);
        } else if cost.onyx > 0 {
            lemma_wild_complete(cost, gems, running, GemType::Onyx, total);
        } else if cost.sapphire > 0 {
            lemma_wild_complete(cost, gems, running, GemType::Sapphire, total);
        } else if cost.emerald > 0 {
            lemma_wild_complete(cost, gems, running, GemType::Emerald, total);
        } else if cost.ruby > 0 {
            lemma_wild_complete(cost, gems, running, GemType::Ruby, total);
        } else if cost.diamond > 0 {
            lemma_wild_complete(cost, gems, running, GemType::Diamond, total);
        } else {
            lemma_wild_complete(cost, gems, running, GemType::Gold, total);
        }
    }
}

/// The search itself, with the table of states already answered handed
/// through. One outstanding unit of the cost is paid, either with a token
/// of its own colour or with a wildcard, and the rest is searched in turn;
/// what different orders of paying reach alike is listed once.
fn token_match_memo(
    cost: Tokens,
    gems: Tokens,
    running_payment: Tokens,
    memo: &mut cached::UnboundCache<MemoKey, Vec<Tokens>>,
) -> (found: Vec<Tokens>)
    requires
        cost.spec_legal(),
        gems.spec_legal(),
        running_payment.can_add(gems),
        memo_sound(memo_entries(old(memo))),
    ensures
        memo_sound(memo_entries(final(memo))),
        lists_completions(found@, cost, gems, running_payment),
    decreases cost.spec_total(),
{
    let key = memo_key(cost, gems, running_payment);
    if let Some(known) = memo_peek(memo, &key) {
        return known;
    }
    let mut found: Vec<Tokens> = Vec::new();
    if cost.total() == 0 {
        found.push(running_payment);
        proof {
            assert forall|p: Tokens| #![trigger found@.contains(p)]
                found@.contains(p) <==> is_completion(cost, gems, running_payment, p) by {
                lemma_nothing_owed(cost, gems, running_payment, p);
                assert(found@[0] == running_payment);
            }
        }
    } else if gems.total() == 0 {
        proof {
            assert forall|p: Tokens| !is_completion(cost, gems, running_payment, p) by {
                lemma_nothing_at_hand(cost, gems, running_payment, p);
            }
        }
    } else {
        let colors = GemType::all();
        let mut k: usize = 0;
        while k < 6
            invariant
                0 <= k <= 6,
                colors@ == GemType::spec_all(),
                cost.spec_legal(),
                gems.spec_legal(),
                running_payment.can_add(gems),
                memo_sound(memo_entries(memo)),
                found@.no_duplicates(),
                forall|p: Tokens|
                    #![trigger found@.contains(p)]
                    found@.contains(p) <==> pays_unit_before(
                        k as int,
                        cost,
                        gems,
                        running_payment,
                        p,
                    ),
            decreases 6 - k,
        {
            let color = colors[k];
            let ghost before = found@;
            let ghost mut own: Seq<Tokens> = Seq::empty();
            let ghost mut wild: Seq<Tokens> = Seq::empty();
            if cost.get(color) > 0 {
                let new_cost = cost.minus(Tokens::one(color));
                if gems.get(color) > 0 {
                    let new_gems = gems.minus(Tokens::one(color));
                    let more = token_match_memo(
                        new_cost,
                        new_gems,
                        running_payment.plus(Tokens::one(color)),
                        memo,
                    );
                    append_unique(&mut found, &more);
                    proof {
                        own = more@;
                    }
                }
                let ghost between = found@;
                if gems.gold > 0 {
                    let new_gems = gems.minus(Tokens::one(GemType::Gold));
                    let more = token_match_memo(
                        new_cost,
                        new_gems,
                        running_payment.plus(Tokens::one(GemType::Gold)),
                        memo,
                    );
                    append_unique(&mut found, &more);
                    proof {
                        wild = more@;
                    }
                }
            }
            proof {
                assert forall|p: Tokens| #![trigger found@.contains(p)]
                    found@.contains(p) <==> pays_unit_before(
                        k + 1,
                        cost,
                        gems,
                        running_payment,
                        p,
                    ) by {
                    assert(found@.contains(p) <==> (before.contains(p) || own.contains(p)
                        || wild.contains(p)));
                    assert(own.contains(p) <==> pays_own(cost, gems, running_payment, color, p));
                    assert(wild.contains(p) <==> pays_wild(cost, gems, running_payment, color, p));
                }
            }
            k += 1;
        }
        proof {
            assert forall|p: Tokens| #![trigger found@.contains(p)]
                found@.contains(p) <==> is_completion(cost, gems, running_payment, p) by {
                lemma_one_unit(cost, gems, running_payment, p);
            }
        }
    }
    memo_set(memo, key, found.clone());
    found
}

/// Every way to complete `running_payment` by paying `cost` out of
/// `gems`, each listed once.
///
/// Any unit of the cost may be paid with a token of its own colour or with
/// a wildcard. States already answered are kept in a table for the length
/// of the call, so that a state reached along several orders of paying is
/// searched once.
pub fn token_match(cost: Tokens, gems: Tokens, running_payment: Tokens) -> (found: Vec<Tokens>)
    requires
        cost.spec_legal(),
        gems.spec_legal(),
        running_payment.can_add(gems),
    ensures
        lists_completions(found@, cost, gems, running_payment),
{
    let mut memo = memo_new();
    token_match_memo(cost, gems, running_payment, &mut memo)
}

/// How many units of `cost` the tokens of their own colour leave
/// uncovered: over the standard colours, the sum of what `cost` asks
/// beyond what `gems` holds. Only wildcards can cover these.
pub open spec fn spec_shortfall(cost: Cost, gems: Tokens) -> int {
    excess(cost.onyx, gems.onyx) + excess(cost.sapphire, gems.sapphire) + excess(
        cost.emerald,
        gems.emerald,
    ) + excess(cost.ruby, gems.ruby) + excess(cost.diamond, gems.diamond)
}

/// The payment of `cost` out of `gems` that spends the fewest wildcards:
/// of each standard colour as many tokens as are asked and held, and one
/// wildcard for each unit of the shortfall.
pub open spec fn thriftiest_payment(cost: Cost, gems: Tokens) -> Tokens {
    Tokens {
        onyx: if cost.onyx <= gems.onyx { cost.onyx } else { gems.onyx },
        sapphire: if cost.sapphire <= gems.sapphire { cost.sapphire } else { gems.sapphire },
        emerald: if cost.emerald <= gems.emerald { cost.emerald } else { gems.emerald },
        ruby: if cost.ruby <= gems.ruby { cost.ruby } else { gems.ruby },
        diamond: if cost.diamond <= gems.diamond { cost.diamond } else { gems.diamond },
        gold: spec_shortfall(cost, gems) as i8,
    }
}

/// Every payment spends at least as many wildcards as the shortfall.
pub proof fn lemma_payment_covers_shortfall(cost: Cost, gems: Tokens, payment: Tokens)
    requires
        is_payment(cost.spec_to_tokens(), gems, payment),
    ensures
        payment.gold >= spec_shortfall(cost, gems),
{
}

/// Where the wildcards at hand cover the shortfall, there is a payment.
pub proof fn lemma_thriftiest_payment(cost: Cost, gems: Tokens)
    requires
        cost.spec_legal(),
        gems.spec_legal(),
        spec_shortfall(cost, gems) <= gems.gold,
    ensures
        is_payment(cost.spec_to_tokens(), gems, thriftiest_payment(cost, gems)),
{
}

/// Where the wildcards at hand just cover the shortfall, or no standard
/// colour is both asked and held, there is no choice: the thriftiest
/// payment is the only one.
pub proof fn lemma_forced_payment(cost: Cost, gems: Tokens, payment: Tokens)
    requires
        cost.spec_legal(),
        gems.spec_legal(),
        spec_shortfall(cost, gems) == gems.gold || thriftiest_payment(cost, gems).spec_total()
            == thriftiest_payment(cost, gems).gold,
        is_payment(cost.spec_to_tokens(), gems, payment),
    ensures
        payment == thriftiest_payment(cost, gems),
{
}

/// Where wildcards are left beyond the shortfall and some standard colour
/// is both asked and held, there is a choice: a wildcard can stand in for
/// a token of that colour, which gives a second payment.
pub proof fn lemma_ambiguous_payment(cost: Cost, gems: Tokens) -> (other: Tokens)
    requires
        cost.spec_legal(),
        gems.spec_legal(),
        spec_shortfall(cost, gems) < gems.gold,
        thriftiest_payment(cost, gems).spec_total() > thriftiest_payment(cost, gems).gold,
    ensures
        is_payment(cost.spec_to_tokens(), gems, thriftiest_payment(cost, gems)),
        is_payment(cost.spec_to_tokens(), gems, other),
        other != thriftiest_payment(cost, gems),
{
    let first = thriftiest_payment(cost, gems);
    let gold = (first.gold + 1) as i8;
    if first.onyx > 0 {
        Tokens { onyx: (first.onyx - 1) as i8, gold, ..first }
    } else if first.sapphire > 0 {
        Tokens { sapphire: (first.sapphire - 1) as i8, gold, ..first }
    } else if first.emerald > 0 {
        Tokens { emerald: (first.emerald - 1) as i8, gold, ..first }
    } else if first.ruby > 0 {
        Tokens { ruby: (first.ruby - 1) as i8, gold, ..first }
    } else {
        Tokens { diamond: (first.diamond - 1) as i8, gold, ..first }
    }
}

/// What is left of `gems` after a payment is a legal holding.
pub proof fn lemma_payment_leaves_legal(cost: Tokens, gems: Tokens, payment: Tokens)
    requires
        is_payment(cost, gems, payment),
    ensures
        gems.can_sub(payment),
        gems.spec_minus(payment).spec_legal(),
{
}

fn lack(asked: i8, held: i8) -> (lacking: i32)
    ensures
        lacking == excess(asked, held),
{
    let asked: i32 = asked as i32;
    let held: i32 = held as i32;
    if asked - held > 0 {
        asked - held
    } else {
        0
    }
}

/// How many units of `cost` only wildcards can cover.
pub fn shortfall(cost: &Cost, gems: &Tokens) -> (lacking: i32)
    ensures
        lacking == spec_shortfall(*cost, *gems),
{
    lack(cost.onyx, gems.onyx) + lack(cost.sapphire, gems.sapphire) + lack(
        cost.emerald,
        gems.emerald,
    ) + lack(cost.ruby, gems.ruby) + lack(cost.diamond, gems.diamond)
}

/// Every legal payment of `cost` out of `gems`, each listed once; the
/// list is empty where `gems` cannot pay.
///
/// Where the shortfall exceeds the wildcards at hand, nothing is searched.
pub fn payment_options(cost: &Cost, gems: &Tokens) -> (found: Vec<Tokens>)
    requires
        cost.spec_legal(),
        gems.spec_legal(),
    ensures
        lists_payments(found@, cost.spec_to_tokens(), *gems),
        found@.len() > 0 <==> spec_shortfall(*cost, *gems) <= gems.gold,
        cost.spec_total() == 0 ==> found@ == seq![Tokens::spec_empty()],
        gems.spec_total() == 0 && cost.spec_total() > 0 ==> found@.len() == 0,
        forall|i: int|
            0 <= i < found@.len() ==> gems.can_sub(#[trigger] found@[i]) && gems.spec_minus(
                found@[i],
            ).spec_legal(),
{
    let owed = cost.to_tokens();
    if shortfall(cost, gems) > gems.gold as i32 {
        let found: Vec<Tokens> = Vec::new();
        proof {
            assert forall|p: Tokens| !is_payment(owed, *gems, p) by {
                if is_payment(owed, *gems, p) {
                    lemma_payment_covers_shortfall(*cost, *gems, p);
                }
            }
        }
        return found;
    }
    let found = token_match(owed, *gems, Tokens::empty());
    proof {
        assert forall|p: Tokens| #![trigger found@.contains(p)] #![trigger is_payment(owed, *gems, p)]
            found@.contains(p) <==> is_payment(owed, *gems, p) by {
            assert(is_completion(owed, *gems, Tokens::spec_empty(), p) <==> is_payment(
                owed,
                *gems,
                p,
            ));
        }
        lemma_thriftiest_payment(*cost, *gems);
        assert(found@.contains(thriftiest_payment(*cost, *gems)));
        assert forall|i: int| 0 <= i < found@.len() implies gems.can_sub(#[trigger] found@[i])
            && gems.spec_minus(found@[i]).spec_legal() by {
            assert(found@.contains(found@[i]));
            lemma_payment_leaves_legal(owed, *gems, found@[i]);
        }
        if cost.spec_total() == 0 {
            assert forall|i: int| 0 <= i < found@.len() implies #[trigger] found@[i]
                == Tokens::spec_empty() by {
                assert(found@.contains(found@[i]));
            }
            if found@.len() > 1 {
                assert(found@[0] == found@[1]);
            }
            assert(found@ =~= seq![Tokens::spec_empty()]);
        }
    }
    found
}

} // verus!
