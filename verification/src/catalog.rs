use vstd::prelude::*;

use crate::api::{LevelItem, SpecialLevelItem};
use crate::entities::{Approval, spec_same_scope, same_scope};
use crate::errors::AppError;

verus! {

/// Whether `c` is a decimal digit.
pub open spec fn spec_is_digit(c: char) -> bool {
    '0' <= c && c <= '9'
}

/// Whether `s` is a non-empty run of decimal digits.
pub open spec fn spec_all_digits(s: Seq<char>) -> bool {
    s.len() > 0 && forall|i: int| 0 <= i < s.len() ==> spec_is_digit(#[trigger] s[i])
}

/// The number denoted by a run of decimal digits, most significant first.
pub open spec fn spec_digits_value(s: Seq<char>) -> int
    decreases s.len(),
{
    if s.len() == 0 {
        0
    } else {
        spec_digits_value(s.drop_last()) * 10 + (s.last() as int - '0' as int)
    }
}

proof fn lemma_digits_value_nonneg(s: Seq<char>)
    requires
        forall|i: int| 0 <= i < s.len() ==> spec_is_digit(#[trigger] s[i]),
    ensures
        spec_digits_value(s) >= 0,
    decreases s.len(),
{
    if s.len() > 0 {
        lemma_digits_value_nonneg(s.drop_last());
    }
}

proof fn lemma_digits_value_prefix(s: Seq<char>, n: int)
    requires
        forall|i: int| 0 <= i < s.len() ==> spec_is_digit(#[trigger] s[i]),
        0 <= n <= s.len(),
    ensures
        spec_digits_value(s.take(n)) <= spec_digits_value(s),
    decreases s.len() - n,
{
    if n == s.len() {
        assert(s.take(n) =~= s);
    } else {
        lemma_digits_value_prefix(s, n + 1);
        let t = s.take(n + 1);
        assert(t.drop_last() =~= s.take(n));
        lemma_digits_value_nonneg(s.take(n));
        assert(spec_digits_value(t) == spec_digits_value(s.take(n)) * 10 + (s[n] as int
            - '0' as int));
    }
}

/// Parses a non-negative decimal amount.  Returns the denoted number exactly
/// when the text is a non-empty run of digits whose value fits an `i32`;
/// returns `None` on any other text.
pub fn parse_amount(s: &str) -> (r: Option<i32>)
    ensures
        r is Some <==> spec_all_digits(s@) && spec_digits_value(s@) <= i32::MAX,
        r matches Some(v) ==> v == spec_digits_value(s@),
{
    let len = s.unicode_len();
    if len == 0 {
        return None;
    }
    let mut acc: u64 = 0;
    let mut i: usize = 0;
    while i < len
        invariant
            0 < len == s@.len(),
            0 <= i <= len,
            forall|j: int| 0 <= j < i ==> spec_is_digit(#[trigger] s@[j]),
            acc == spec_digits_value(s@.take(i as int)),
            acc <= i32::MAX,
        decreases len - i,
    {
        let c = s.get_char(i);
        if c < '0' || c > '9' {
            return None;
        }
        let d: u64 = (c as u32 as u64) - 48;
        proof {
            assert(s@.take(i + 1).drop_last() =~= s@.take(i as int));
        }
        acc = acc * 10 + d;
        i = i + 1;
        if acc > i32::MAX as u64 {
            proof {
                assert(forall|j: int| 0 <= j < i ==> spec_is_digit(#[trigger] s@[j]));
                if spec_all_digits(s@) {
                    lemma_digits_value_prefix(s@, i as int);
                }
            }
            return None;
        }
    }
    proof {
        assert(s@.take(len as int) =~= s@);
    }
    Some(acc as i32)
}

/// Which ladder the chain resolution walks when a ticket carries a company
/// scope: the company's own rungs when it has any, else the tenant-wide
/// default ladder — or the default ladder unconditionally.
#[derive(Debug, Clone, Copy, PartialEq, Eq, Structural)]
pub enum ScopePolicy {
    SpecificElseDefault,
    DefaultAlways,
}

/// Whether the tenant `sys` defines any level scoped to `company`.
pub open spec fn spec_has_scope_level(levels: Seq<Approval>, sys: i32, company: Option<String>) -> bool {
    exists|i: int|
        0 <= i < levels.len() && (#[trigger] levels[i]).system_id == sys && spec_same_scope(
            levels[i].company,
            company,
        )
}

/// The scope whose rungs the resolution walks for `company` under `policy`.
pub open spec fn spec_effective_scope(
    levels: Seq<Approval>,
    sys: i32,
    company: Option<String>,
    policy: ScopePolicy,
) -> Option<String> {
    match policy {
        ScopePolicy::DefaultAlways => None,
        ScopePolicy::SpecificElseDefault => if company is Some && spec_has_scope_level(
            levels,
            sys,
            company,
        ) {
            company
        } else {
            None
        },
    }
}

/// Whether `levels[i]` is a candidate next rung: owned by tenant `sys`,
/// scoped to `scope`, and strictly above the threshold `cur`.
pub open spec fn level_matches(
    levels: Seq<Approval>,
    sys: i32,
    scope: Option<String>,
    cur: i32,
    i: int,
) -> bool {
    &&& 0 <= i < levels.len()
    &&& (#[trigger] levels[i]).system_id == sys
    &&& spec_same_scope(levels[i].company, scope)
    &&& levels[i].amount > cur
}

/// The candidate with the smallest threshold among the first `n` levels,
/// earliest rung winning a tie.
pub open spec fn spec_best_idx(
    levels: Seq<Approval>,
    sys: i32,
    scope: Option<String>,
    cur: i32,
    n: int,
) -> Option<int>
    decreases n,
{
    if n <= 0 {
        None
    } else {
        let prev = spec_best_idx(levels, sys, scope, cur, n - 1);
        if level_matches(levels, sys, scope, cur, n - 1) {
            match prev {
                None => Some(n - 1),
                Some(b) => if levels[n - 1].amount < levels[b].amount {
                    Some(n - 1)
                } else {
                    Some(b)
                },
            }
        } else {
            prev
        }
    }
}

/// The next approval rung above threshold `cur` for `company` under
/// `policy`: the smallest-threshold candidate in the effective scope,
/// earliest rung winning a tie; `None` when the ladder is exhausted.
pub open spec fn spec_next_level(
    levels: Seq<Approval>,
    sys: i32,
    company: Option<String>,
    cur: i32,
    policy: ScopePolicy,
) -> Option<int> {
    spec_best_idx(
        levels,
        sys,
        spec_effective_scope(levels, sys, company, policy),
        cur,
        levels.len() as int,
    )
}

/// What `spec_best_idx` returns: a candidate of minimal threshold (earliest
/// on a tie), or `None` exactly when no candidate exists among the first `n`.
pub proof fn lemma_best_idx_props(
    levels: Seq<Approval>,
    sys: i32,
    scope: Option<String>,
    cur: i32,
    n: int,
)
    requires
        0 <= n <= levels.len(),
    ensures
        spec_best_idx(levels, sys, scope, cur, n) matches Some(b) ==> 0 <= b < n && level_matches(
            levels,
            sys,
            scope,
            cur,
            b,
        ) && forall|j: int|
            0 <= j < n && level_matches(levels, sys, scope, cur, j) ==> levels[b].amount
                <= (#[trigger] levels[j]).amount && (levels[b].amount == levels[j].amount ==> b
                <= j),
        spec_best_idx(levels, sys, scope, cur, n) is None ==> forall|j: int|
            0 <= j < n ==> !level_matches(levels, sys, scope, cur, j),
    decreases n,
{
    if n > 0 {
        lemma_best_idx_props(levels, sys, scope, cur, n - 1);
    }
}

/// Whether tenant `sys` defines any level scoped to `company`.
fn has_scope_level(levels: &Vec<Approval>, sys: i32, company: &Option<String>) -> (r: bool)
    ensures
        r == spec_has_scope_level(levels@, sys, *company),
{
    let mut i: usize = 0;
    while i < levels.len()
        invariant
            0 <= i <= levels@.len(),
            forall|j: int|
                0 <= j < i ==> !((#[trigger] levels@[j]).system_id == sys && spec_same_scope(
                    levels@[j].company,
                    *company,
                )),
        decreases levels@.len() - i,
    {
        if levels[i].system_id == sys && same_scope(&levels[i].company, company) {
            return true;
        }
        i = i + 1;
    }
    false
}

/// Resolves the next approval rung above `cur_money_limit` for a ticket of
/// `company`, walking the scope that `policy` selects.  Returns the index of
/// the chosen level, or `None` when the amount already clears every rung of
/// the effective scope.
pub fn next_level(
    levels: &Vec<Approval>,
    system_id: i32,
    company: &Option<String>,
    cur_money_limit: i32,
    policy: ScopePolicy,
) -> (r: Option<usize>)
    ensures
        r matches Some(u) ==> u < levels@.len() && spec_next_level(
            levels@,
            system_id,
            *company,
            cur_money_limit,
            policy,
        ) == Some(u as int),
        r is None ==> spec_next_level(levels@, system_id, *company, cur_money_limit, policy)
            is None,
{
    let none_scope: Option<String> = None;
    let scope: &Option<String> = match policy {
        ScopePolicy::DefaultAlways => &none_scope,
        ScopePolicy::SpecificElseDefault => {
            if company.is_some() && has_scope_level(levels, system_id, company) {
                company
            } else {
                &none_scope
            }
        },
    };
    proof {
        assert(*scope == spec_effective_scope(levels@, system_id, *company, policy));
    }
    let mut best: Option<usize> = None;
    let mut i: usize = 0;
    while i < levels.len()
        invariant
            0 <= i <= levels@.len(),
            *scope == spec_effective_scope(levels@, system_id, *company, policy),
            match best {
                Some(b) => b < i && spec_best_idx(levels@, system_id, *scope, cur_money_limit, i as int)
                    == Some(b as int),
                None => spec_best_idx(levels@, system_id, *scope, cur_money_limit, i as int) is None,
            },
        decreases levels@.len() - i,
    {
        if levels[i].system_id == system_id && same_scope(&levels[i].company, scope)
            && levels[i].amount > cur_money_limit {
            match best {
                None => {
                    best = Some(i);
                },
                Some(b) => {
                    if levels[i].amount < levels[b].amount {
                        best = Some(i);
                    }
                },
            }
        }
        i = i + 1;
    }
    best
}

/// Whether `levels[i]` belongs to tenant `sys` and scope `scope`.
pub open spec fn level_in_scope(levels: Seq<Approval>, sys: i32, scope: Option<String>, i: int) -> bool {
    &&& 0 <= i < levels.len()
    &&& (#[trigger] levels[i]).system_id == sys
    &&& spec_same_scope(levels[i].company, scope)
}

/// The indices, in rung order, of the levels a company's chain walks:
/// the company's own rungs when it has any, else the default ladder.
pub fn levels_in_scope(levels: &Vec<Approval>, sys: i32, company: &Option<String>) -> (r: Vec<
    usize,
>)
    ensures
        forall|k: int|
            0 <= k < r@.len() ==> level_in_scope(
                levels@,
                sys,
                spec_effective_scope(levels@, sys, *company, ScopePolicy::SpecificElseDefault),
                #[trigger] r@[k] as int,
            ),
        forall|k1: int, k2: int| 0 <= k1 < k2 < r@.len() ==> r@[k1] < r@[k2],
        forall|j: int|
            level_in_scope(
                levels@,
                sys,
                spec_effective_scope(levels@, sys, *company, ScopePolicy::SpecificElseDefault),
                j,
            ) ==> exists|k: int| 0 <= k < r@.len() && #[trigger] r@[k] as int == j,
{
    let none_scope: Option<String> = None;
    let scope: &Option<String> = if company.is_some() && has_scope_level(levels, sys, company) {
        company
    } else {
        &none_scope
    };
    proof {
        assert(*scope == spec_effective_scope(
            levels@,
            sys,
            *company,
            ScopePolicy::SpecificElseDefault,
        ));
    }
    let mut r: Vec<usize> = Vec::new();
    let mut i: usize = 0;
    while i < levels.len()
        invariant
            0 <= i <= levels@.len(),
            *scope == spec_effective_scope(levels@, sys, *company, ScopePolicy::SpecificElseDefault),
            forall|k: int|
                0 <= k < r@.len() ==> #[trigger] r@[k] < i && level_in_scope(
                    levels@,
                    sys,
                    *scope,
                    r@[k] as int,
                ),
            forall|k1: int, k2: int| 0 <= k1 < k2 < r@.len() ==> r@[k1] < r@[k2],
            forall|j: int|
                0 <= j < i && level_in_scope(levels@, sys, *scope, j) ==> exists|k: int|
                    0 <= k < r@.len() && #[trigger] r@[k] as int == j,
        decreases levels@.len() - i,
    {
        let ghost prev = r@;
        if levels[i].system_id == sys && same_scope(&levels[i].company, scope) {
            r.push(i);
        }
        i = i + 1;
        proof {
            assert forall|j: int| 0 <= j < i && level_in_scope(levels@, sys, *scope, j)
                implies exists|k: int| 0 <= k < r@.len() && #[trigger] r@[k] as int == j by {
                if j == i - 1 {
                    assert(r@[r@.len() - 1] as int == j);
                } else {
                    let k = choose|k: int| 0 <= k < prev.len() && #[trigger] prev[k] as int == j;
                    assert(r@[k] as int == j);
                }
            }
        }
    }
    r
}

/// Copies out the display names of the levels at `idx`.
pub fn names_of(levels: &Vec<Approval>, idx: &Vec<usize>) -> (r: Vec<String>)
    requires
        forall|k: int| 0 <= k < idx@.len() ==> #[trigger] idx@[k] < levels@.len(),
    ensures
        r@.len() == idx@.len(),
        forall|k: int| 0 <= k < idx@.len() ==> #[trigger] r@[k] == levels@[idx@[k] as int].approval_name,
{
    let mut r: Vec<String> = Vec::new();
    let mut k: usize = 0;
    while k < idx.len()
        invariant
            0 <= k <= idx@.len(),
            forall|j: int| 0 <= j < idx@.len() ==> #[trigger] idx@[j] < levels@.len(),
            r@.len() == k,
            forall|j: int| 0 <= j < k ==> #[trigger] r@[j] == levels@[idx@[j] as int].approval_name,
        decreases idx@.len() - k,
    {
        r.push(levels[idx[k]].approval_name.clone());
        k = k + 1;
    }
    r
}

/// Finds the first level with id `id`.
pub fn level_by_id(levels: &Vec<Approval>, id: i32) -> (r: Option<usize>)
    ensures
        r matches Some(u) ==> u < levels@.len() && levels@[u as int].id == id && forall|j: int|
            0 <= j < u ==> (#[trigger] levels@[j]).id != id,
        r is None ==> forall|j: int| 0 <= j < levels@.len() ==> (#[trigger] levels@[j]).id != id,
{
    let mut i: usize = 0;
    while i < levels.len()
        invariant
            0 <= i <= levels@.len(),
            forall|j: int| 0 <= j < i ==> (#[trigger] levels@[j]).id != id,
        decreases levels@.len() - i,
    {
        if levels[i].id == id {
            return Some(i);
        }
        i = i + 1;
    }
    None
}

/// Finds the first level of tenant `sys` whose display name is `name`.
pub fn level_by_name(levels: &Vec<Approval>, sys: i32, name: &String) -> (r: Option<usize>)
    ensures
        r matches Some(u) ==> u < levels@.len() && levels@[u as int].system_id == sys
            && levels@[u as int].approval_name@ == name@ && forall|j: int|
            0 <= j < u ==> !((#[trigger] levels@[j]).system_id == sys && levels@[j].approval_name@
                == name@),
        r is None ==> forall|j: int|
            0 <= j < levels@.len() ==> !((#[trigger] levels@[j]).system_id == sys
                && levels@[j].approval_name@ == name@),
{
    let mut i: usize = 0;
    while i < levels.len()
        invariant
            0 <= i <= levels@.len(),
            forall|j: int|
                0 <= j < i ==> !((#[trigger] levels@[j]).system_id == sys
                    && levels@[j].approval_name@ == name@),
        decreases levels@.len() - i,
    {
        if levels[i].system_id == sys && levels[i].approval_name == *name {
            return Some(i);
        }
        i = i + 1;
    }
    None
}

/// Whether one configured rung is well-formed: its threshold text denotes a
/// number that fits the threshold field.
pub open spec fn spec_level_item_ok(it: LevelItem) -> bool {
    spec_all_digits(it.money_limit@) && spec_digits_value(it.money_limit@) <= i32::MAX
}

/// Whether every rung of a ladder is well-formed.
pub open spec fn spec_level_items_ok(items: Seq<LevelItem>) -> bool {
    forall|i: int| 0 <= i < items.len() ==> spec_level_item_ok(#[trigger] items[i])
}

/// Whether every rung of every company ladder is well-formed.
pub open spec fn spec_specials_ok(specials: Seq<SpecialLevelItem>) -> bool {
    forall|i: int| 0 <= i < specials.len() ==> spec_level_items_ok((#[trigger] specials[i]).special_level@)
}

/// How many rungs the company ladders define in total.
pub open spec fn spec_special_count(specials: Seq<SpecialLevelItem>) -> int
    decreases specials.len(),
{
    if specials.len() == 0 {
        0
    } else {
        spec_special_count(specials.drop_last()) + specials.last().special_level@.len()
    }
}

proof fn lemma_special_count_nonneg(specials: Seq<SpecialLevelItem>)
    ensures
        spec_special_count(specials) >= 0,
    decreases specials.len(),
{
    if specials.len() > 0 {
        lemma_special_count_nonneg(specials.drop_last());
    }
}

/// The levels a ladder of well-formed rungs configures, scoped to `company`,
/// with ids numbered from `first`.
pub open spec fn spec_build_scoped(
    items: Seq<LevelItem>,
    company: Option<String>,
    sys: i32,
    first: int,
) -> Seq<Approval> {
    Seq::new(
        items.len(),
        |i: int|
            Approval {
                approval_name: items[i].name,
                amount: spec_digits_value(items[i].money_limit@) as i32,
                company: company,
                system_id: sys,
                id: (first + i) as i32,
            },
    )
}

/// The levels the company ladders configure, flattened in order, with ids
/// numbered from `first`.
pub open spec fn spec_build_specials(
    specials: Seq<SpecialLevelItem>,
    sys: i32,
    first: int,
) -> Seq<Approval>
    decreases specials.len(),
{
    if specials.len() == 0 {
        Seq::empty()
    } else {
        spec_build_specials(specials.drop_last(), sys, first) + spec_build_scoped(
            specials.last().special_level@,
            Some(specials.last().name),
            sys,
            first + spec_special_count(specials.drop_last()),
        )
    }
}

/// How many rungs the company ladders from position `n` on define.
pub open spec fn spec_special_count_rest(specials: Seq<SpecialLevelItem>, n: int) -> int
    decreases specials.len() - n,
{
    if n < 0 || n >= specials.len() {
        0
    } else {
        specials[n].special_level@.len() + spec_special_count_rest(specials, n + 1)
    }
}

proof fn lemma_special_count_rest_nonneg(specials: Seq<SpecialLevelItem>, n: int)
    ensures
        spec_special_count_rest(specials, n) >= 0,
    decreases specials.len() - n,
{
    if 0 <= n < specials.len() {
        lemma_special_count_rest_nonneg(specials, n + 1);
    }
}

/// The rung count of a prefix of the company ladders stays within the total.
proof fn lemma_special_count_prefix(specials: Seq<SpecialLevelItem>, n: int)
    requires
        0 <= n <= specials.len(),
    ensures
        spec_special_count(specials.take(n)) + spec_special_count_rest(specials, n)
            == spec_special_count(specials),
        spec_special_count(specials.take(n)) <= spec_special_count(specials),
    decreases specials.len() - n,
{
    if n == specials.len() {
        assert(specials.take(n) =~= specials);
        lemma_special_count_rest_nonneg(specials, n);
    } else {
        lemma_special_count_prefix(specials, n + 1);
        let t = specials.take(n + 1);
        assert(t.drop_last() =~= specials.take(n));
        lemma_special_count_rest_nonneg(specials, n);
    }
}

/// Builds a tenant's approval-level catalog from its initialization request:
/// the default ladder first, then each company ladder in order, ids numbered
/// consecutively from `first_id`.  Rejects, before any effect, a
/// configuration with no default rung or with a threshold that is not a
/// number — a tenant must define at least one default level before it can
/// accept tickets.
pub fn build_catalog(
    levels: &Vec<LevelItem>,
    special_levels: &Vec<SpecialLevelItem>,
    system_id: i32,
    first_id: i32,
) -> (r: Result<Vec<Approval>, AppError>)
    requires
        0 <= first_id,
        first_id + levels@.len() + spec_special_count(special_levels@) <= i32::MAX,
    ensures
        r is Ok <==> levels@.len() > 0 && spec_level_items_ok(levels@) && spec_specials_ok(
            special_levels@,
        ),
        r is Err ==> r == Err::<Vec<Approval>, AppError>(AppError::Validation),
        r matches Ok(cat) ==> cat@ == spec_build_scoped(
            levels@,
            None,
            system_id,
            first_id as int,
        ) + spec_build_specials(special_levels@, system_id, first_id as int + levels@.len()),
{
    proof {
        lemma_special_count_nonneg(special_levels@);
    }
    if levels.len() == 0 {
        return Err(AppError::Validation);
    }
    let ghost defaults = spec_build_scoped(levels@, None, system_id, first_id as int);
    let mut cat: Vec<Approval> = Vec::new();
    let mut next_id: i32 = first_id;
    let mut i: usize = 0;
    while i < levels.len()
        invariant
            0 <= i <= levels@.len(),
            0 <= first_id,
            first_id + levels@.len() + spec_special_count(special_levels@) <= i32::MAX,
            spec_special_count(special_levels@) >= 0,
            next_id as int == first_id + i,
            defaults == spec_build_scoped(levels@, None, system_id, first_id as int),
            forall|j: int| 0 <= j < i ==> spec_level_item_ok(#[trigger] levels@[j]),
            cat@ =~= defaults.take(i as int),
        decreases levels@.len() - i,
    {
        let amount = match parse_amount(levels[i].money_limit.as_str()) {
            Some(a) => a,
            None => {
                return Err(AppError::Validation);
            },
        };
        cat.push(
            Approval {
                approval_name: levels[i].name.clone(),
                amount,
                company: None,
                system_id,
                id: next_id,
            },
        );
        next_id = next_id + 1;
        i = i + 1;
        proof {
            assert(cat@ =~= defaults.take(i as int));
        }
    }
    proof {
        assert(defaults.take(levels@.len() as int) =~= defaults);
    }
    let ghost base = first_id as int + levels@.len();
    let mut k: usize = 0;
    while k < special_levels.len()
        invariant
            0 <= k <= special_levels@.len(),
            0 <= first_id,
            first_id + levels@.len() + spec_special_count(special_levels@) <= i32::MAX,
            base == first_id as int + levels@.len(),
            levels@.len() > 0,
            defaults == spec_build_scoped(levels@, None, system_id, first_id as int),
            spec_level_items_ok(levels@),
            next_id as int == base + spec_special_count(special_levels@.take(k as int)),
            forall|j: int|
                0 <= j < k ==> spec_level_items_ok((#[trigger] special_levels@[j]).special_level@),
            cat@ =~= defaults + spec_build_specials(special_levels@.take(k as int), system_id, base),
        decreases special_levels@.len() - k,
    {
        proof {
            lemma_special_count_prefix(special_levels@, k as int + 1);
            lemma_special_count_nonneg(special_levels@.take(k as int));
            assert(special_levels@.take(k as int + 1).drop_last() =~= special_levels@.take(
                k as int,
            ));
        }
        let ghost id0 = base + spec_special_count(special_levels@.take(k as int));
        let ghost scoped = spec_build_scoped(
            special_levels@[k as int].special_level@,
            Some(special_levels@[k as int].name),
            system_id,
            id0,
        );
        let items = &special_levels[k].special_level;
        let mut j: usize = 0;
        while j < items.len()
            invariant
                0 <= j <= items@.len(),
                items@ == special_levels@[k as int].special_level@,
                0 <= k < special_levels@.len(),
                next_id as int == id0 + j,
                id0 == base + spec_special_count(special_levels@.take(k as int)),
                0 <= base,
                0 <= id0,
                id0 + items@.len() <= i32::MAX,
                scoped == spec_build_scoped(
                    special_levels@[k as int].special_level@,
                    Some(special_levels@[k as int].name),
                    system_id,
                    id0,
                ),
                forall|m: int| 0 <= m < j ==> spec_level_item_ok(#[trigger] items@[m]),
                cat@ =~= defaults + spec_build_specials(
                    special_levels@.take(k as int),
                    system_id,
                    base,
                ) + scoped.take(j as int),
            decreases items@.len() - j,
        {
            let amount = match parse_amount(items[j].money_limit.as_str()) {
                Some(a) => a,
                None => {
                    return Err(AppError::Validation);
                },
            };
            cat.push(
                Approval {
                    approval_name: items[j].name.clone(),
                    amount,
                    company: Some(special_levels[k].name.clone()),
                    system_id,
                    id: next_id,
                },
            );
            next_id = next_id + 1;
            j = j + 1;
            proof {
                assert(cat@ =~= defaults + spec_build_specials(
                    special_levels@.take(k as int),
                    system_id,
                    base,
                ) + scoped.take(j as int));
            }
        }
        k = k + 1;
        proof {
            let taken = special_levels@.take(k as int);
            assert(taken.drop_last() =~= special_levels@.take(k as int - 1));
            assert(scoped.take(items@.len() as int) =~= scoped);
            assert(cat@ =~= defaults + spec_build_specials(taken, system_id, base));
        }
    }
    proof {
        assert(special_levels@.take(special_levels@.len() as int) =~= special_levels@);
    }
    Ok(cat)
}

/// Whether the catalog's level ids are pairwise distinct, as a store with a
/// unique id column guarantees.
pub open spec fn spec_ids_distinct(levels: Seq<Approval>) -> bool {
    forall|i: int, j: int|
        0 <= i < j < levels.len() ==> (#[trigger] levels[i]).id != (#[trigger] levels[j]).id
}

/// The company-ladder part of a built catalog has one rung per configured
/// item, with ids running on consecutively from `first`.
proof fn lemma_specials_ids(specials: Seq<SpecialLevelItem>, sys: i32, first: int)
    ensures
        spec_build_specials(specials, sys, first).len() == spec_special_count(specials),
        forall|i: int|
            0 <= i < spec_build_specials(specials, sys, first).len() ==> (#[trigger] spec_build_specials(
                specials,
                sys,
                first,
            )[i]).id == (first + i) as i32,
    decreases specials.len(),
{
    if specials.len() > 0 {
        lemma_specials_ids(specials.drop_last(), sys, first);
        lemma_special_count_nonneg(specials.drop_last());
    }
}

/// A catalog built from an initialization request numbers its rungs
/// consecutively from `first_id`, so within the id space its level ids are
/// pairwise distinct — the hypothesis the approval-chain laws rest on.
pub proof fn lemma_built_catalog_ids_distinct(
    levels: Seq<LevelItem>,
    specials: Seq<SpecialLevelItem>,
    sys: i32,
    first: int,
)
    requires
        0 <= first,
        first + levels.len() + spec_special_count(specials) <= i32::MAX,
    ensures
        spec_ids_distinct(
            spec_build_scoped(levels, None, sys, first) + spec_build_specials(
                specials,
                sys,
                first + levels.len(),
            ),
        ),
{
    let cat = spec_build_scoped(levels, None, sys, first) + spec_build_specials(
        specials,
        sys,
        first + levels.len(),
    );
    lemma_specials_ids(specials, sys, first + levels.len());
    lemma_special_count_nonneg(specials);
    assert forall|i: int| 0 <= i < cat.len() implies (#[trigger] cat[i]).id == (first + i) as i32 by {
        if i >= levels.len() {
            assert(cat[i] == spec_build_specials(specials, sys, first + levels.len())[i - levels.len()]);
        }
    }
    assert forall|i: int, j: int|
        0 <= i < j < cat.len() implies (#[trigger] cat[i]).id != (#[trigger] cat[j]).id by {
        assert(cat[i].id == (first + i) as i32);
        assert(cat[j].id == (first + j) as i32);
    }
}

} // verus!
