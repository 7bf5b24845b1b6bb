//! The resolver: one weights document plus one randomness source gives one
//! fully resolved configuration, as a pure function of the draw sequence.

use vstd::prelude::*;
use crate::draws::raw_at;
use crate::draws::next_pos;
use crate::draws::RandomSource;
use crate::draws::spec_geometric;
use crate::draws::geometric;
use crate::draws::spec_uniform_in;
use crate::draws::uniform_in;
use crate::icons::HashIcon;
use crate::icons::spec_icon_of;
use crate::rules::TableModel;
use crate::rules::Conditional;
use crate::rules::ConditionalModel;
use crate::rules::WeightsRule;
use crate::rules::RuleModel;
use crate::rules::Distribution;
use crate::rules::ItemPools;
use crate::rules::PoolsModel;
use crate::rules::Weights;
use crate::rules::WeightsModel;
use crate::rules::spec_rule_wf;
use crate::rules::spec_weights_wf;
use crate::rules::spec_rule_setting;
use crate::settings::SettingsMap;
use crate::settings::EntryModel;
use crate::settings::spec_insert;
use crate::settings::spec_lookup;
use crate::settings::spec_has_key;
use crate::values::SettingValue;
use crate::values::ValueModel;
use crate::values::spec_coerce;
use crate::values::coerce_token;

verus! {

/// Resolution failure: the table drawn from has no positive-weight entry.
#[derive(Debug, Clone, Copy, PartialEq, Eq, Structural)]
pub enum ResolutionError {
    AllWeightsZero,
}

impl ResolutionError {
    /// A one-line description of the failure.
    pub fn message(&self) -> (r: String)
        ensures
            r@ == "all weights are zero"@,
    {
        String::from_str("all weights are zero")
    }
}

/// The sum of all weights of `t`.
pub open spec fn spec_total_weight(t: TableModel) -> int
    decreases t.len(),
{
    if t.len() == 0 {
        0
    } else {
        t[0].1 + spec_total_weight(t.drop_first())
    }
}

/// The sum of the weights of the first `i` entries of `t`.
pub open spec fn spec_cum_weight(t: TableModel, i: int) -> int
    decreases i,
{
    if i <= 0 {
        0
    } else {
        spec_cum_weight(t, i - 1) + t[i - 1].1
    }
}

/// Splitting the cumulative sum at the first entry.
proof fn lemma_cum_weight_shift(t: TableModel, i: int)
    requires
        0 <= i <= t.len() - 1,
        t.len() > 0,
    ensures
        spec_cum_weight(t, i + 1) == t[0].1 + spec_cum_weight(t.drop_first(), i),
    decreases i,
{
    if i == 0 {
        assert(spec_cum_weight(t, 0) == 0);
        assert(spec_cum_weight(t.drop_first(), 0) == 0);
        assert(spec_cum_weight(t, 1) == spec_cum_weight(t, 0) + t[0].1);
    } else {
        lemma_cum_weight_shift(t, i - 1);
        assert(spec_cum_weight(t, i + 1) == spec_cum_weight(t, i) + t[i].1);
        assert(spec_cum_weight(t.drop_first(), i) == spec_cum_weight(t.drop_first(), i - 1)
            + t.drop_first()[i - 1].1);
    }
}

/// The total weight is the cumulative weight over the whole table.
pub proof fn lemma_total_is_cum(t: TableModel)
    ensures
        spec_total_weight(t) == spec_cum_weight(t, t.len() as int),
    decreases t.len(),
{
    if t.len() > 0 {
        lemma_total_is_cum(t.drop_first());
        lemma_cum_weight_shift(t, t.len() - 1);
    }
}

/// The token selected by the point `x` of the weight line: the first entry
/// whose cumulative weight range contains `x`.
pub open spec fn spec_pick(t: TableModel, x: int) -> Seq<char>
    decreases t.len(),
{
    if t.len() == 0 {
        Seq::empty()
    } else if x < t[0].1 {
        t[0].0
    } else {
        spec_pick(t.drop_first(), x - t[0].1)
    }
}

/// Weight proportionality at the level of single draws: entry `i` is
/// selected exactly by the points of the weight line in
/// `[cum(i), cum(i) + weight(i))`, a range of size `weight(i)` — so over
/// uniformly distributed points each entry is selected with frequency
/// proportional to its weight, and a zero-weight entry is never selected.
pub proof fn lemma_pick_proportional(t: TableModel, x: int, i: int)
    requires
        0 <= i < t.len(),
        spec_cum_weight(t, i) <= x < spec_cum_weight(t, i + 1),
    ensures
        spec_pick(t, x) == t[i].0,
        t[i].1 > 0,
    decreases i,
{
    if i == 0 {
        assert(spec_cum_weight(t, 0) == 0);
        assert(spec_cum_weight(t, 1) == spec_cum_weight(t, 0) + t[0].1);
    } else {
        lemma_cum_weight_shift(t, i - 1);
        lemma_cum_weight_shift(t, i);
        assert(spec_cum_weight(t, 1) == spec_cum_weight(t, 0) + t[0].1);
        assert(spec_cum_weight(t, i) >= spec_cum_weight(t, 1)) by {
            lemma_cum_weight_mono(t, 1, i);
        }
        lemma_pick_proportional(t.drop_first(), x - t[0].1, i - 1);
    }
}

/// Cumulative weights grow with the index.
pub proof fn lemma_cum_weight_mono(t: TableModel, i: int, j: int)
    requires
        0 <= i <= j <= t.len(),
    ensures
        spec_cum_weight(t, i) <= spec_cum_weight(t, j),
    decreases j - i,
{
    if i < j {
        lemma_cum_weight_mono(t, i, j - 1);
    }
}

/// A point below the total weight always selects some positive-weight entry.
pub proof fn lemma_pick_hits_positive(t: TableModel, x: int)
    requires
        0 <= x < spec_total_weight(t),
    ensures
        exists|i: int| 0 <= i < t.len() && t[i].0 == spec_pick(t, x) && t[i].1 > 0,
    decreases t.len(),
{
    if t.len() > 0 {
        if x < t[0].1 {
            assert(t[0].0 == spec_pick(t, x) && t[0].1 > 0);
        } else {
            lemma_pick_hits_positive(t.drop_first(), x - t[0].1);
            let j = choose|j: int|
                0 <= j < t.drop_first().len() && t.drop_first()[j].0 == spec_pick(
                    t.drop_first(),
                    x - t[0].1,
                ) && t.drop_first()[j].1 > 0;
            assert(t[j + 1].0 == spec_pick(t, x) && t[j + 1].1 > 0);
        }
    }
}

/// The outcome of one weighted draw from `t` at cursor `pos`: an error when
/// no entry has positive weight, else the coerced token selected by the raw
/// draw reduced to the weight line, and the advanced cursor.
pub open spec fn spec_table_draw(t: TableModel, s: Seq<u64>, pos: int) -> Result<
    (ValueModel, int),
    ResolutionError,
> {
    let total = spec_total_weight(t);
    if total <= 0 {
        Err(ResolutionError::AllWeightsZero)
    } else {
        Ok(
            (
                spec_coerce(spec_pick(t, raw_at(s, pos) as int % total)),
                next_pos(s, pos),
            ),
        )
    }
}

/// Draws one value from the table `t`, exactly as [`spec_table_draw`]
/// states. A table with no positive-weight entry fails without consuming a
/// draw.
fn table_draw(t: &Vec<(String, u64)>, rng: &mut RandomSource) -> (r: Result<
    SettingValue,
    ResolutionError,
>)
    requires
        old(rng).wf(),
    ensures
        final(rng).wf(),
        final(rng).seq() == old(rng).seq(),
        match spec_table_draw(t.deep_view(), old(rng).seq(), old(rng).position()) {
            Ok((v, p2)) => r matches Ok(sv) && sv.deep_view() == v && final(rng).position() == p2,
            Err(e) => r == Err::<SettingValue, ResolutionError>(e) && final(rng).position() == old(
                rng,
            ).position(),
        },
{
    let ghost td = t.deep_view();
    let mut total: u128 = 0;
    let mut i: usize = 0;
    while i < t.len()
        invariant
            0 <= i <= t@.len(),
            td == t.deep_view(),
            td.len() == t@.len(),
            total == spec_cum_weight(td, i as int),
            total <= (i as int) * (u64::MAX as int),
        decreases t@.len() - i,
    {
        proof {
            assert(td[i as int].1 == t@[i as int].1);
            assert((i as int) * (u64::MAX as int) + (u64::MAX as int) == ((i + 1) as int) * (
            u64::MAX as int)) by (nonlinear_arith);
        }
        total = total + (t[i].1 as u128);
        i = i + 1;
    }
    proof {
        lemma_total_is_cum(td);
    }
    if total == 0 {
        return Err(ResolutionError::AllWeightsZero);
    }
    let raw = rng.next();
    let mut x: u128 = (raw as u128) % total;
    let ghost x0 = x as int;
    proof {
        assert(x0 == raw as int % spec_total_weight(td));
        assert(td.skip(0) =~= td);
        lemma_total_skip(td, 0);
    }
    let mut j: usize = 0;
    while j < t.len()
        invariant
            0 <= j <= t@.len(),
            td == t.deep_view(),
            td.len() == t@.len(),
            rng.wf(),
            rng.seq() == old(rng).seq(),
            rng.position() == next_pos(old(rng).seq(), old(rng).position()),
            spec_total_weight(td) > 0,
            x0 == raw_at(old(rng).seq(), old(rng).position()) as int % spec_total_weight(td),
            0 <= x < spec_total_weight(td.skip(j as int)),
            spec_pick(td, x0) == spec_pick(td.skip(j as int), x as int),
        decreases t@.len() - j,
    {
        proof {
            assert(td.skip(j as int)[0] == td[j as int]);
            assert(td.skip(j as int).drop_first() =~= td.skip(j + 1));
        }
        let w = t[j].1;
        if x < w as u128 {
            let tok = t[j].0.clone();
            proof {
                assert(spec_pick(td.skip(j as int), x as int) == td[j as int].0);
            }
            return Ok(coerce_token(tok));
        }
        x = x - (w as u128);
        j = j + 1;
    }
    proof {
        assert(td.skip(td.len() as int) =~= Seq::<(Seq<char>, u64)>::empty());
        assert(false);
    }
    Err(ResolutionError::AllWeightsZero)
}

/// A copy of a string list, value for value.
fn clone_strings(v: &Vec<String>) -> (r: Vec<String>)
    ensures
        r.deep_view() == v.deep_view(),
{
    let mut r: Vec<String> = Vec::new();
    let mut i: usize = 0;
    while i < v.len()
        invariant
            0 <= i <= v@.len(),
            r@.len() == i,
            r.deep_view() =~= v.deep_view().subrange(0, i as int),
        decreases v@.len() - i,
    {
        r.push(v[i].clone());
        proof {
            assert(r.deep_view() =~= v.deep_view().subrange(0, i + 1));
        }
        i = i + 1;
    }
    proof {
        assert(v.deep_view().subrange(0, v@.len() as int) =~= v.deep_view());
    }
    r
}

/// Whether the list `v` holds the text `x`.
fn vec_contains_string(v: &Vec<String>, x: &String) -> (r: bool)
    ensures
        r == v.deep_view().contains(x@),
{
    let mut i: usize = 0;
    while i < v.len()
        invariant
            0 <= i <= v@.len(),
            forall|k: int| 0 <= k < i ==> v.deep_view()[k] != x@,
        decreases v@.len() - i,
    {
        if v[i] == *x {
            proof {
                assert(v.deep_view()[i as int] == x@);
            }
            return true;
        }
        i = i + 1;
    }
    proof {
        assert(!v.deep_view().contains(x@));
    }
    false
}

/// The `n` distinct positions of `pool` selected by successive raw draws:
/// each step takes the draw modulo the remaining pool size and removes the
/// selected element before the next step.
pub open spec fn spec_sample(pool: Seq<Seq<char>>, n: nat, s: Seq<u64>, pos: int) -> (
    Seq<Seq<char>>,
    int,
)
    decreases n,
{
    if n == 0 || pool.len() == 0 {
        (Seq::empty(), pos)
    } else {
        let j = raw_at(s, pos) as int % pool.len() as int;
        let (rest, p2) = spec_sample(pool.remove(j), (n - 1) as nat, s, next_pos(s, pos));
        (seq![pool[j]] + rest, p2)
    }
}

/// One random starting-pool draw: a geometric count clamped to the pool
/// size, then that many distinct elements.
pub open spec fn spec_pool_draw(pool: Seq<Seq<char>>, s: Seq<u64>, pos: int) -> (Seq<Seq<char>>, int) {
    let g = spec_geometric(raw_at(s, pos), 0);
    let n = if g < pool.len() {
        g as nat
    } else {
        pool.len()
    };
    spec_sample(pool, n, s, next_pos(s, pos))
}

/// `acc` extended by every element of `rest` not already present, in order.
pub open spec fn spec_dedup_into(acc: Seq<Seq<char>>, rest: Seq<Seq<char>>) -> Seq<Seq<char>>
    decreases rest.len(),
{
    if rest.len() == 0 {
        acc
    } else {
        let acc2 = if acc.contains(rest[0]) {
            acc
        } else {
            acc.push(rest[0])
        };
        spec_dedup_into(acc2, rest.drop_first())
    }
}

/// The final starting list: the drawn elements and then the forced ones,
/// each value kept once.
pub open spec fn spec_starting_list(drawn: Seq<Seq<char>>, forced: Seq<Seq<char>>) -> Seq<
    Seq<char>,
> {
    spec_dedup_into(spec_dedup_into(Seq::empty(), drawn), forced)
}

/// No value occurs twice.
pub open spec fn spec_no_dup(s: Seq<Seq<char>>) -> bool {
    forall|i: int, j: int| 0 <= i < j < s.len() ==> s[i] != s[j]
}

/// Extending with only absent values keeps a list duplicate-free, and the
/// result holds exactly the values of either input.
pub proof fn lemma_dedup_no_dup(acc: Seq<Seq<char>>, rest: Seq<Seq<char>>)
    requires
        spec_no_dup(acc),
    ensures
        spec_no_dup(spec_dedup_into(acc, rest)),
        forall|x: Seq<char>|
            #[trigger] spec_dedup_into(acc, rest).contains(x) <==> acc.contains(x)
                || rest.contains(x),
    decreases rest.len(),
{
    if rest.len() == 0 {
        assert forall|x: Seq<char>|
            #[trigger] spec_dedup_into(acc, rest).contains(x) <==> acc.contains(x)
                || rest.contains(x) by {
            if rest.contains(x) {
                let i = choose|i: int| 0 <= i < rest.len() && rest[i] == x;
            }
        }
    } else {
        let acc2 = if acc.contains(rest[0]) {
            acc
        } else {
            acc.push(rest[0])
        };
        assert(spec_no_dup(acc2)) by {
            if !acc.contains(rest[0]) {
                assert forall|i: int, j: int| 0 <= i < j < acc2.len() implies acc2[i]
                    != acc2[j] by {
                    if j == acc.len() {
                        assert(acc.contains(acc[i]));
                    }
                }
            }
        }
        lemma_dedup_no_dup(acc2, rest.drop_first());
        assert forall|x: Seq<char>|
            #[trigger] spec_dedup_into(acc, rest).contains(x) <==> acc.contains(x)
                || rest.contains(x) by {
            assert(spec_dedup_into(acc, rest) == spec_dedup_into(acc2, rest.drop_first()));
            if acc2.contains(x) && !acc.contains(x) {
                let i = choose|i: int| 0 <= i < acc2.len() && acc2[i] == x;
                if i < acc.len() {
                    assert(acc.contains(x));
                } else {
                    assert(x == rest[0]);
                    assert(rest.contains(rest[0]));
                }
            }
            if acc.contains(x) {
                let i = choose|i: int| 0 <= i < acc.len() && acc[i] == x;
                assert(acc2[i] == x);
                assert(acc2.contains(x));
            }
            if rest.contains(x) {
                let i = choose|i: int| 0 <= i < rest.len() && rest[i] == x;
                if i == 0 {
                    if acc.contains(rest[0]) {
                        let k = choose|k: int| 0 <= k < acc.len() && acc[k] == x;
                        assert(acc2[k] == x);
                    } else {
                        assert(acc2[acc.len() as int] == x);
                    }
                    assert(acc2.contains(x));
                } else {
                    assert(rest.drop_first()[i - 1] == x);
                    assert(rest.drop_first().contains(x));
                }
            }
            if rest.drop_first().contains(x) {
                let i = choose|i: int| 0 <= i < rest.drop_first().len() && rest.drop_first()[i]
                    == x;
                assert(rest[i + 1] == x);
                assert(rest.contains(x));
            }
        }
    }
}

/// A starting list never holds a value twice: in particular a drawn item
/// that is also forced appears exactly once.
pub proof fn lemma_starting_list_no_dup(drawn: Seq<Seq<char>>, forced: Seq<Seq<char>>)
    ensures
        spec_no_dup(spec_starting_list(drawn, forced)),
        forall|x: Seq<char>|
            #[trigger] spec_starting_list(drawn, forced).contains(x) <==> drawn.contains(x)
                || forced.contains(x),
{
    let base = spec_dedup_into(Seq::empty(), drawn);
    lemma_dedup_no_dup(Seq::empty(), drawn);
    lemma_dedup_no_dup(base, forced);
    assert forall|x: Seq<char>| Seq::<Seq<char>>::empty().contains(x) implies false by {
        let i = choose|i: int| 0 <= i < 0 && Seq::<Seq<char>>::empty()[i] == x;
    }
}

/// Extends `acc` with the elements of `items` it does not hold yet, exactly
/// as [`spec_dedup_into`] states.
fn dedup_extend(acc: &mut Vec<String>, items: &Vec<String>)
    ensures
        final(acc).deep_view() == spec_dedup_into(old(acc).deep_view(), items.deep_view()),
{
    let ghost acc0 = old(acc).deep_view();
    let ghost itd = items.deep_view();
    proof {
        assert(itd.skip(0) =~= itd);
    }
    let mut i: usize = 0;
    while i < items.len()
        invariant
            0 <= i <= items@.len(),
            itd == items.deep_view(),
            itd.len() == items@.len(),
            spec_dedup_into(acc0, itd) == spec_dedup_into(acc.deep_view(), itd.skip(i as int)),
        decreases items@.len() - i,
    {
        proof {
            assert(itd.skip(i as int)[0] == itd[i as int]);
            assert(itd.skip(i as int).drop_first() =~= itd.skip(i + 1));
        }
        let ghost pre = acc.deep_view();
        if !vec_contains_string(acc, &items[i]) {
            acc.push(items[i].clone());
            proof {
                assert(acc.deep_view() =~= pre.push(itd[i as int]));
            }
        }
        i = i + 1;
    }
    proof {
        assert(itd.skip(itd.len() as int) =~= Seq::<Seq<char>>::empty());
    }
}

/// Draws `n` distinct elements of `pool` (a geometric count clamped to the
/// pool size), exactly as [`spec_pool_draw`] states.
fn sample_pool(pool: &Vec<String>, rng: &mut RandomSource) -> (r: Vec<String>)
    requires
        old(rng).wf(),
    ensures
        final(rng).wf(),
        final(rng).seq() == old(rng).seq(),
        ({
            let (drawn, p2) = spec_pool_draw(pool.deep_view(), old(rng).seq(), old(rng).position());
            r.deep_view() == drawn && final(rng).position() == p2
        }),
{
    let ghost s = old(rng).seq();
    let ghost pos0 = old(rng).position();
    let raw = rng.next();
    let g = geometric(raw);
    let pool_len = pool.len();
    let n: usize = if (g as usize) < pool_len {
        g as usize
    } else {
        pool_len
    };
    let mut remaining = clone_strings(pool);
    let mut r: Vec<String> = Vec::new();
    let ghost pd = pool.deep_view();
    proof {
        assert(r.deep_view() =~= Seq::<Seq<char>>::empty());
        assert(Seq::<Seq<char>>::empty() + spec_sample(pd, n as nat, s, rng.position()).0
            =~= spec_sample(pd, n as nat, s, rng.position()).0);
    }
    let mut k: usize = 0;
    while k < n
        invariant
            0 <= k <= n,
            n <= pd.len(),
            rng.wf(),
            rng.seq() == s,
            remaining@.len() == pd.len() - k,
            spec_pool_draw(pd, s, pos0).0 == r.deep_view() + spec_sample(
                remaining.deep_view(),
                (n - k) as nat,
                s,
                rng.position(),
            ).0,
            spec_pool_draw(pd, s, pos0).1 == spec_sample(
                remaining.deep_view(),
                (n - k) as nat,
                s,
                rng.position(),
            ).1,
        decreases n - k,
    {
        let ghost remd = remaining.deep_view();
        let ghost rd = r.deep_view();
        let ghost pc = rng.position();
        let raw2 = rng.next();
        let len_now = remaining.len();
        let j = (raw2 % (len_now as u64)) as usize;
        proof {
            assert(remd.len() == len_now);
            assert(j as int == raw_at(s, pc) as int % remd.len() as int);
        }
        let item = remaining.remove(j);
        r.push(item);
        proof {
            assert(remaining.deep_view() =~= remd.remove(j as int));
            assert(item.deep_view() == remd[j as int]);
            assert(r.deep_view() =~= rd.push(remd[j as int]));
            assert(rd + (seq![remd[j as int]] + spec_sample(
                remaining.deep_view(),
                (n - k - 1) as nat,
                s,
                rng.position(),
            ).0) =~= r.deep_view() + spec_sample(
                remaining.deep_view(),
                (n - k - 1) as nat,
                s,
                rng.position(),
            ).0);
        }
        k = k + 1;
    }
    proof {
        assert(spec_sample(remaining.deep_view(), 0nat, s, rng.position()).0
            =~= Seq::<Seq<char>>::empty());
        assert(r.deep_view() + Seq::<Seq<char>>::empty() =~= r.deep_view());
    }
    r
}

/// Whether the list holds a value equal to `v`.
fn values_contain(list: &Vec<SettingValue>, v: &SettingValue) -> (r: bool)
    ensures
        r == list.deep_view().contains(v.deep_view()),
{
    let mut i: usize = 0;
    while i < list.len()
        invariant
            0 <= i <= list@.len(),
            forall|k: int| 0 <= k < i ==> list.deep_view()[k] != v.deep_view(),
        decreases list@.len() - i,
    {
        if list[i].value_eq(v) {
            proof {
                assert(list.deep_view()[i as int] == v.deep_view());
            }
            return true;
        }
        i = i + 1;
    }
    proof {
        assert(!list.deep_view().contains(v.deep_view()));
    }
    false
}

/// The table one choice rule draws from: the first conditional whose
/// setting is already resolved to one of its trigger values supplies its
/// table; with no such conditional the default table is used. A setting
/// resolved later, or not at all, never triggers a conditional.
pub open spec fn spec_active_table(
    conds: Seq<ConditionalModel>,
    m: EntryModel,
    default: TableModel,
) -> TableModel
    decreases conds.len(),
{
    if conds.len() == 0 {
        default
    } else {
        let c = conds[0];
        match spec_lookup(m, c.setting) {
            Some(v) => if c.conditions.contains(v) {
                c.values
            } else {
                spec_active_table(conds.drop_first(), m, default)
            },
            None => spec_active_table(conds.drop_first(), m, default),
        }
    }
}

/// Selects the active table, exactly as [`spec_active_table`] states.
fn active_table<'a>(
    conds: &'a Vec<Conditional>,
    map: &SettingsMap,
    default: &'a Vec<(String, u64)>,
) -> (r: &'a Vec<(String, u64)>)
    ensures
        r.deep_view() == spec_active_table(conds.deep_view(), map.deep_view(), default.deep_view()),
{
    let ghost cd = conds.deep_view();
    let ghost md = map.deep_view();
    let ghost dd = default.deep_view();
    proof {
        assert(cd.skip(0) =~= cd);
    }
    let mut i: usize = 0;
    while i < conds.len()
        invariant
            0 <= i <= conds@.len(),
            cd == conds.deep_view(),
            md == map.deep_view(),
            dd == default.deep_view(),
            cd.len() == conds@.len(),
            spec_active_table(cd, md, dd) == spec_active_table(cd.skip(i as int), md, dd),
        decreases conds@.len() - i,
    {
        proof {
            assert(cd.skip(i as int)[0] == cd[i as int]);
            assert(cd.skip(i as int).drop_first() =~= cd.skip(i + 1));
        }
        let c = &conds[i];
        match map.get(&c.setting) {
            Some(v) => {
                if values_contain(&c.conditions, v) {
                    return &c.values;
                }
            },
            None => {},
        }
        i = i + 1;
    }
    proof {
        assert(cd.skip(cd.len() as int) =~= Seq::<ConditionalModel>::empty());
    }
    default
}

/// The integer one range rule resolves to from one raw draw: a uniform
/// reduction to `[min, max]`, or `min` plus a geometric count clamped to
/// `max - min`.
pub open spec fn spec_range_value(distribution: Distribution, min: u64, max: u64, raw: u64) -> u64 {
    match distribution {
        Distribution::Uniform => spec_uniform_in(raw, min, max),
        Distribution::Geometric => {
            let g = spec_geometric(raw, 0) as int;
            let span = max as int - min as int;
            let k = if g < span {
                g
            } else {
                span
            };
            (min as int + k) as u64
        },
    }
}

/// A well-formed range rule always resolves within its bounds, and a
/// degenerate range `min == max` always resolves to exactly that value.
pub proof fn lemma_range_value_bounds(distribution: Distribution, min: u64, max: u64, raw: u64)
    requires
        min <= max,
    ensures
        min <= spec_range_value(distribution, min, max, raw) <= max,
        min == max ==> spec_range_value(distribution, min, max, raw) == min,
{
}

/// The effect of one rule on the settings map at cursor `pos`: the rule's
/// setting is bound to the drawn value (overwriting any earlier binding in
/// place), or the draw fails on an all-zero table.
pub open spec fn spec_eval_rule(r: RuleModel, m: EntryModel, s: Seq<u64>, pos: int) -> Result<
    (EntryModel, int),
    ResolutionError,
> {
    match r {
        RuleModel::Custom { setting, conditionals, values } => {
            match spec_table_draw(spec_active_table(conditionals, m, values), s, pos) {
                Ok(vp) => Ok((spec_insert(m, setting, vp.0), vp.1)),
                Err(e) => Err(e),
            }
        },
        RuleModel::Range { setting, distribution, min, max } => {
            Ok(
                (
                    spec_insert(
                        m,
                        setting,
                        ValueModel::Int(spec_range_value(distribution, min, max, raw_at(s, pos))),
                    ),
                    next_pos(s, pos),
                ),
            )
        },
    }
}

/// The rules evaluated in document order, threading the settings map and
/// the cursor; the first all-zero table aborts the whole resolution.
pub open spec fn spec_eval_rules(rules: Seq<RuleModel>, m: EntryModel, s: Seq<u64>, pos: int) -> Result<
    (EntryModel, int),
    ResolutionError,
>
    decreases rules.len(),
{
    if rules.len() == 0 {
        Ok((m, pos))
    } else {
        match spec_eval_rule(rules[0], m, s, pos) {
            Ok(mp) => spec_eval_rules(rules.drop_first(), mp.0, s, mp.1),
            Err(e) => Err(e),
        }
    }
}

/// Applies one rule to the settings map, exactly as [`spec_eval_rule`]
/// states.
fn eval_rule(rule: &WeightsRule, map: &mut SettingsMap, rng: &mut RandomSource) -> (r: Result<
    (),
    ResolutionError,
>)
    requires
        old(rng).wf(),
        spec_rule_wf(rule.deep_view()),
    ensures
        final(rng).wf(),
        final(rng).seq() == old(rng).seq(),
        match spec_eval_rule(
            rule.deep_view(),
            old(map).deep_view(),
            old(rng).seq(),
            old(rng).position(),
        ) {
            Ok(mp) => r is Ok && final(map).deep_view() == mp.0 && final(rng).position() == mp.1,
            Err(e) => r == Err::<(), ResolutionError>(e) && final(map).deep_view() == old(
                map,
            ).deep_view() && final(rng).position() == old(rng).position(),
        },
{
    match rule {
        WeightsRule::Custom { setting, conditionals, values } => {
            let table = active_table(conditionals, map, values);
            match table_draw(table, rng) {
                Ok(v) => {
                    map.insert(setting.clone(), v);
                    Ok(())
                },
                Err(e) => Err(e),
            }
        },
        WeightsRule::Range { setting, distribution, min, max } => {
            let raw = rng.next();
            let value = match distribution {
                Distribution::Uniform => uniform_in(raw, *min, *max),
                Distribution::Geometric => {
                    let g = geometric(raw);
                    let span = *max - *min;
                    let k = if g < span {
                        g
                    } else {
                        span
                    };
                    *min + k
                },
            };
            map.insert(setting.clone(), SettingValue::Int(value));
            Ok(())
        },
    }
}

/// One starting list: the drawn pool subset (when sampling is enabled) and
/// then the forced elements, each value kept once.
pub open spec fn spec_starting_entry(
    enabled: bool,
    pool: Seq<Seq<char>>,
    forced: Seq<Seq<char>>,
    s: Seq<u64>,
    pos: int,
) -> (Seq<Seq<char>>, int) {
    if enabled {
        let dp = spec_pool_draw(pool, s, pos);
        (spec_starting_list(dp.0, forced), dp.1)
    } else {
        (spec_starting_list(Seq::empty(), forced), pos)
    }
}

/// Builds one starting list, exactly as [`spec_starting_entry`] states.
fn starting_list(enabled: bool, pool: &Vec<String>, forced: &Vec<String>, rng: &mut RandomSource) -> (r:
    Vec<String>)
    requires
        old(rng).wf(),
    ensures
        final(rng).wf(),
        final(rng).seq() == old(rng).seq(),
        ({
            let e = spec_starting_entry(
                enabled,
                pool.deep_view(),
                forced.deep_view(),
                old(rng).seq(),
                old(rng).position(),
            );
            r.deep_view() == e.0 && final(rng).position() == e.1
        }),
{
    let mut acc: Vec<String> = Vec::new();
    proof {
        assert(acc.deep_view() =~= Seq::<Seq<char>>::empty());
    }
    if enabled {
        let drawn = sample_pool(pool, rng);
        dedup_extend(&mut acc, &drawn);
    } else {
        proof {
            assert(spec_dedup_into(Seq::<Seq<char>>::empty(), Seq::<Seq<char>>::empty())
                == Seq::<Seq<char>>::empty());
        }
    }
    dedup_extend(&mut acc, forced);
    acc
}

/// One fully resolved configuration: five hash icons and the settings map.
#[derive(Debug, Clone)]
pub struct Plando {
    /// Two fixed icons from the document, then three freshly drawn ones.
    pub file_hash: Vec<HashIcon>,
    /// Setting name to resolved value, in insertion order.
    pub settings: SettingsMap,
}

/// The mathematical shape of a [`Plando`].
#[verifier::ext_equal]
pub struct PlandoModel {
    pub file_hash: Seq<HashIcon>,
    pub settings: EntryModel,
}

impl DeepView for Plando {
    type V = PlandoModel;

    open spec fn deep_view(&self) -> PlandoModel {
        PlandoModel { file_hash: self.file_hash.deep_view(), settings: self.settings.deep_view() }
    }
}

/// The settings map a resolution starts from, and the cursor after the
/// starting draws: the two verbatim name lists, then the three starting
/// lists in pool order.
pub open spec fn spec_seed(w: WeightsModel, pools: PoolsModel, s: Seq<u64>, pos: int) -> (
    EntryModel,
    int,
) {
    let e1 = spec_starting_entry(w.random_starting_items, pools.inventory, w.starting_items, s, pos);
    let e2 = spec_starting_entry(w.random_starting_items, pools.songs, w.starting_songs, s, e1.1);
    let e3 = spec_starting_entry(
        w.random_starting_items,
        pools.equipment,
        w.starting_equipment,
        s,
        e2.1,
    );
    (
        seq![
            ("disabled_locations"@, ValueModel::List(w.disabled_locations)),
            ("allowed_tricks"@, ValueModel::List(w.allowed_tricks)),
            ("starting_items"@, ValueModel::List(e1.0)),
            ("starting_songs"@, ValueModel::List(e2.0)),
            ("starting_equipment"@, ValueModel::List(e3.0)),
        ],
        e3.1,
    )
}

/// One whole resolution as a pure function of the document, the item pools
/// and the draw sequence: seed the map, evaluate the rules in order, then
/// draw the three fresh hash icons.
pub open spec fn spec_gen(w: WeightsModel, pools: PoolsModel, s: Seq<u64>, pos: int) -> Result<
    (PlandoModel, int),
    ResolutionError,
> {
    let seeded = spec_seed(w, pools, s, pos);
    match spec_eval_rules(w.weights, seeded.0, s, seeded.1) {
        Err(e) => Err(e),
        Ok(mp) => {
            let p1 = next_pos(s, mp.1);
            let p2 = next_pos(s, p1);
            let p3 = next_pos(s, p2);
            Ok(
                (
                    PlandoModel {
                        file_hash: seq![
                            w.hash[0],
                            w.hash[1],
                            spec_icon_of(raw_at(s, mp.1)),
                            spec_icon_of(raw_at(s, p1)),
                            spec_icon_of(raw_at(s, p2)),
                        ],
                        settings: mp.0,
                    },
                    p3,
                ),
            )
        },
    }
}

impl Weights {
    /// Resolves this document against the given item pools and randomness
    /// source into one concrete configuration, exactly as [`spec_gen`]
    /// states; it fails if and only if a table drawn from has no
    /// positive-weight entry.
    pub fn gen(&self, pools: &ItemPools, rng: &mut RandomSource) -> (r: Result<
        Plando,
        ResolutionError,
    >)
        requires
            old(rng).wf(),
            spec_weights_wf(self.deep_view()),
        ensures
            final(rng).wf(),
            final(rng).seq() == old(rng).seq(),
            match spec_gen(
                self.deep_view(),
                pools.deep_view(),
                old(rng).seq(),
                old(rng).position(),
            ) {
                Ok(pp) => r matches Ok(pl) && pl.deep_view() == pp.0 && final(rng).position()
                    == pp.1,
                Err(e) => r == Err::<Plando, ResolutionError>(e),
            },
    {
        let ghost w = self.deep_view();
        let ghost poolsd = pools.deep_view();
        let ghost s = old(rng).seq();
        let ghost pos0 = old(rng).position();
        let items = starting_list(
            self.random_starting_items,
            &pools.inventory,
            &self.starting_items,
            rng,
        );
        let songs = starting_list(
            self.random_starting_items,
            &pools.songs,
            &self.starting_songs,
            rng,
        );
        let equipment = starting_list(
            self.random_starting_items,
            &pools.equipment,
            &self.starting_equipment,
            rng,
        );
        let ghost seeded = spec_seed(w, poolsd, s, pos0);
        proof {
            assert(items.deep_view() == spec_starting_entry(
                w.random_starting_items,
                poolsd.inventory,
                w.starting_items,
                s,
                pos0,
            ).0);
        }
        let mut map = SettingsMap::new();
        proof {
            reveal_strlit("disabled_locations");
            reveal_strlit("allowed_tricks");
            reveal_strlit("starting_items");
            reveal_strlit("starting_songs");
            reveal_strlit("starting_equipment");
        }
        let k1 = String::from_str("disabled_locations");
        let k2 = String::from_str("allowed_tricks");
        let k3 = String::from_str("starting_items");
        let k4 = String::from_str("starting_songs");
        let k5 = String::from_str("starting_equipment");
        let v1 = SettingValue::List(clone_strings(&self.disabled_locations));
        let v2 = SettingValue::List(clone_strings(&self.allowed_tricks));
        let ghost e1 = (k1@, v1.deep_view());
        let ghost e2 = (k2@, v2.deep_view());
        proof {
            assert(k2@ != k1@) by {
                assert(k2@[0] == 'a' && k1@[0] == 'd');
            }
            assert(k3@ != k1@) by {
                assert(k3@[0] == 's' && k1@[0] == 'd');
            }
            assert(k3@ != k2@) by {
                assert(k3@[0] == 's' && k2@[0] == 'a');
            }
            assert(k4@ != k1@) by {
                assert(k4@[0] == 's' && k1@[0] == 'd');
            }
            assert(k4@ != k2@) by {
                assert(k4@[0] == 's' && k2@[0] == 'a');
            }
            assert(k4@ != k3@) by {
                assert(k4@[9] == 's' && k3@[9] == 'i');
            }
            assert(k5@ != k1@) by {
                assert(k5@[0] == 's' && k1@[0] == 'd');
            }
            assert(k5@ != k2@) by {
                assert(k5@[0] == 's' && k2@[0] == 'a');
            }
            assert(k5@ != k3@) by {
                assert(k5@[9] == 'e' && k3@[9] == 'i');
            }
            assert(k5@ != k4@) by {
                assert(k5@[9] == 'e' && k4@[9] == 's');
            }
        }
        map.insert(k1, v1);
        proof {
            assert(map.deep_view() =~= seq![e1]);
        }
        map.insert(k2, v2);
        proof {
            crate::settings::lemma_insert_fresh(seq![e1], e2.0, e2.1);
            assert(map.deep_view() =~= seq![e1, e2]);
        }
        let v3 = SettingValue::List(items);
        let ghost e3 = (k3@, v3.deep_view());
        map.insert(k3, v3);
        proof {
            crate::settings::lemma_insert_fresh(seq![e1, e2], e3.0, e3.1);
            assert(map.deep_view() =~= seq![e1, e2, e3]);
        }
        let v4 = SettingValue::List(songs);
        let ghost e4 = (k4@, v4.deep_view());
        map.insert(k4, v4);
        proof {
            crate::settings::lemma_insert_fresh(seq![e1, e2, e3], e4.0, e4.1);
            assert(map.deep_view() =~= seq![e1, e2, e3, e4]);
        }
        let v5 = SettingValue::List(equipment);
        let ghost e5 = (k5@, v5.deep_view());
        map.insert(k5, v5);
        proof {
            crate::settings::lemma_insert_fresh(seq![e1, e2, e3, e4], e5.0, e5.1);
            assert(map.deep_view() =~= seq![e1, e2, e3, e4, e5]);
            assert(map.deep_view() =~= seeded.0);
        }
        let ghost m0 = map.deep_view();
        let ghost p0 = rng.position();
        let ghost rulesd = w.weights;
        proof {
            assert(p0 == seeded.1);
            assert(rulesd.skip(0) =~= rulesd);
        }
        let mut idx: usize = 0;
        while idx < self.weights.len()
            invariant
                0 <= idx <= self.weights@.len(),
                w == self.deep_view(),
                poolsd == pools.deep_view(),
                s == old(rng).seq(),
                pos0 == old(rng).position(),
                spec_weights_wf(self.deep_view()),
                rulesd == w.weights,
                rulesd.len() == self.weights@.len(),
                m0 == spec_seed(w, poolsd, s, pos0).0,
                p0 == spec_seed(w, poolsd, s, pos0).1,
                rng.wf(),
                rng.seq() == s,
                spec_eval_rules(rulesd, m0, s, p0) == spec_eval_rules(
                    rulesd.skip(idx as int),
                    map.deep_view(),
                    s,
                    rng.position(),
                ),
            decreases self.weights@.len() - idx,
        {
            proof {
                assert(rulesd.skip(idx as int)[0] == rulesd[idx as int]);
                assert(rulesd.skip(idx as int).drop_first() =~= rulesd.skip(idx + 1));
                assert(spec_rule_wf(rulesd[idx as int]));
            }
            let rule = &self.weights[idx];
            proof {
                assert(rule.deep_view() == rulesd[idx as int]);
            }
            match eval_rule(rule, &mut map, rng) {
                Ok(()) => {},
                Err(e) => {
                    proof {
                        assert(spec_eval_rules(rulesd, m0, s, p0) == Err::<
                            (EntryModel, int),
                            ResolutionError,
                        >(e));
                    }
                    return Err(e);
                },
            }
            idx = idx + 1;
        }
        proof {
            assert(rulesd.skip(rulesd.len() as int) =~= Seq::<RuleModel>::empty());
        }
        let i1 = HashIcon::random(rng);
        let i2 = HashIcon::random(rng);
        let i3 = HashIcon::random(rng);
        let mut file_hash: Vec<HashIcon> = Vec::new();
        file_hash.push(self.hash[0]);
        file_hash.push(self.hash[1]);
        file_hash.push(i1);
        file_hash.push(i2);
        file_hash.push(i3);
        let result = Plando { file_hash, settings: map };
        proof {
            let pp = spec_gen(w, poolsd, s, pos0)->Ok_0;
            assert(result.file_hash.deep_view() =~= pp.0.file_hash);
            assert(result.deep_view() =~= pp.0);
        }
        Ok(result)
    }
}

/// Resolution is deterministic: a fixed document, fixed pools and a fixed
/// draw sequence always give the identical result.
pub proof fn lemma_gen_deterministic(
    w1: WeightsModel,
    w2: WeightsModel,
    pools1: PoolsModel,
    pools2: PoolsModel,
    s1: Seq<u64>,
    s2: Seq<u64>,
    pos1: int,
    pos2: int,
)
    requires
        w1 == w2,
        pools1 == pools2,
        s1 == s2,
        pos1 == pos2,
    ensures
        spec_gen(w1, pools1, s1, pos1) == spec_gen(w2, pools2, s2, pos2),
{
}

/// A weighted draw fails exactly when no entry of its table has positive
/// weight; it never silently selects an entry.
pub proof fn lemma_table_draw_zero(t: TableModel, s: Seq<u64>, pos: int)
    ensures
        spec_table_draw(t, s, pos) is Err <==> spec_total_weight(t) <= 0,
{
}

/// Whether some rule of `rules` targets the setting `k`.
pub open spec fn spec_some_rule_targets(rules: Seq<RuleModel>, k: Seq<char>) -> bool {
    exists|i: int| 0 <= i < rules.len() && spec_rule_setting(#[trigger] rules[i]) == k
}

/// Looking up after an insert finds the inserted value under its key, and
/// leaves every other key exactly as it was.
proof fn lemma_insert_lookup(m: EntryModel, k: Seq<char>, v: ValueModel, k2: Seq<char>)
    ensures
        spec_lookup(spec_insert(m, k, v), k2) == if k2 == k {
            Some(v)
        } else {
            spec_lookup(m, k2)
        },
    decreases m.len(),
{
    if m.len() == 0 {
        assert(seq![(k, v)].drop_first().len() == 0);
        assert(spec_lookup(seq![(k, v)].drop_first(), k2) is None);
    } else if m[0].0 == k {
        let r = seq![(k, v)] + m.drop_first();
        assert(r[0] == (k, v));
        assert(r.drop_first() =~= m.drop_first());
    } else {
        lemma_insert_lookup(m.drop_first(), k, v, k2);
        let r = seq![m[0]] + spec_insert(m.drop_first(), k, v);
        assert(r[0] == m[0]);
        assert(r.drop_first() =~= spec_insert(m.drop_first(), k, v));
    }
}

/// Inserting binds exactly the inserted key, leaving every other key as it
/// was.
proof fn lemma_insert_keys(m: EntryModel, k: Seq<char>, v: ValueModel, k2: Seq<char>)
    ensures
        spec_has_key(spec_insert(m, k, v), k2) <==> k2 == k || spec_has_key(m, k2),
{
    lemma_insert_lookup(m, k, v, k2);
}

/// Evaluating rules binds exactly the settings the rules target, on top of
/// what was already bound.
pub proof fn lemma_eval_rules_keys(
    rules: Seq<RuleModel>,
    m: EntryModel,
    s: Seq<u64>,
    pos: int,
    k: Seq<char>,
)
    requires
        spec_eval_rules(rules, m, s, pos) is Ok,
    ensures
        spec_has_key(spec_eval_rules(rules, m, s, pos)->Ok_0.0, k) <==> spec_has_key(m, k)
            || spec_some_rule_targets(rules, k),
    decreases rules.len(),
{
    if rules.len() == 0 {
        assert(!spec_some_rule_targets(rules, k));
    } else {
        let step = spec_eval_rule(rules[0], m, s, pos);
        let m2 = step->Ok_0.0;
        match rules[0] {
            RuleModel::Custom { setting, conditionals, values } => {
                lemma_insert_keys(m, setting, arbitrary(), k);
                assert(spec_has_key(m2, k) <==> k == setting || spec_has_key(m, k)) by {
                    match spec_table_draw(spec_active_table(conditionals, m, values), s, pos) {
                        Ok(vp) => {
                            lemma_insert_keys(m, setting, vp.0, k);
                        },
                        Err(_) => {},
                    }
                }
            },
            RuleModel::Range { setting, distribution, min, max } => {
                lemma_insert_keys(
                    m,
                    setting,
                    ValueModel::Int(spec_range_value(distribution, min, max, raw_at(s, pos))),
                    k,
                );
            },
        }
        lemma_eval_rules_keys(rules.drop_first(), m2, s, step->Ok_0.1, k);
        assert(spec_some_rule_targets(rules, k) <==> spec_rule_setting(rules[0]) == k
            || spec_some_rule_targets(rules.drop_first(), k)) by {
            if spec_some_rule_targets(rules.drop_first(), k) {
                let i = choose|i: int|
                    0 <= i < rules.drop_first().len() && spec_rule_setting(
                        #[trigger] rules.drop_first()[i],
                    ) == k;
                assert(spec_rule_setting(rules[i + 1]) == k);
            }
            if spec_some_rule_targets(rules, k) {
                let i = choose|i: int|
                    0 <= i < rules.len() && spec_rule_setting(#[trigger] rules[i]) == k;
                if i > 0 {
                    assert(spec_rule_setting(rules.drop_first()[i - 1]) == k);
                }
            }
        }
    }
}

/// Conditionals see only strictly earlier results: while the rules
/// evaluated so far never targeted the setting `k`, and the seeds did not
/// bind it, `k` is absent from the map — so a conditional naming a setting
/// that is only resolved later looks it up in vain and never matches,
/// whatever value that setting eventually takes.
pub proof fn lemma_conditional_sees_only_prior(
    prior: Seq<RuleModel>,
    m0: EntryModel,
    s: Seq<u64>,
    pos: int,
    k: Seq<char>,
)
    requires
        !spec_has_key(m0, k),
        !spec_some_rule_targets(prior, k),
        spec_eval_rules(prior, m0, s, pos) is Ok,
    ensures
        !spec_has_key(spec_eval_rules(prior, m0, s, pos)->Ok_0.0, k),
{
    lemma_eval_rules_keys(prior, m0, s, pos, k);
}

/// Rules that never target `k` leave its binding untouched.
proof fn lemma_eval_rules_preserve(
    rules: Seq<RuleModel>,
    m: EntryModel,
    s: Seq<u64>,
    pos: int,
    k: Seq<char>,
)
    requires
        spec_eval_rules(rules, m, s, pos) is Ok,
        forall|j: int| 0 <= j < rules.len() ==> spec_rule_setting(#[trigger] rules[j]) != k,
    ensures
        spec_lookup(spec_eval_rules(rules, m, s, pos)->Ok_0.0, k) == spec_lookup(m, k),
    decreases rules.len(),
{
    if rules.len() > 0 {
        let step = spec_eval_rule(rules[0], m, s, pos);
        let m2 = step->Ok_0.0;
        assert(spec_rule_setting(rules[0]) != k);
        match rules[0] {
            RuleModel::Custom { setting, conditionals, values } => {
                match spec_table_draw(spec_active_table(conditionals, m, values), s, pos) {
                    Ok(vp) => {
                        lemma_insert_lookup(m, setting, vp.0, k);
                    },
                    Err(_) => {},
                }
            },
            RuleModel::Range { setting, distribution, min, max } => {
                lemma_insert_lookup(
                    m,
                    setting,
                    ValueModel::Int(spec_range_value(distribution, min, max, raw_at(s, pos))),
                    k,
                );
            },
        }
        assert(forall|j: int|
            0 <= j < rules.drop_first().len() ==> spec_rule_setting(
                #[trigger] rules.drop_first()[j],
            ) != k);
        lemma_eval_rules_preserve(rules.drop_first(), m2, s, step->Ok_0.1, k);
    }
}

/// The stored value of a well-formed range rule survives the rest of the
/// evaluation within the rule's bounds, provided no later rule targets the
/// same setting again.
proof fn lemma_eval_rules_range_bounds(
    rules: Seq<RuleModel>,
    m: EntryModel,
    s: Seq<u64>,
    pos: int,
    i: int,
)
    requires
        spec_eval_rules(rules, m, s, pos) is Ok,
        0 <= i < rules.len(),
        rules[i] matches RuleModel::Range { .. },
        spec_rule_wf(rules[i]),
        forall|j: int|
            i < j < rules.len() ==> spec_rule_setting(#[trigger] rules[j]) != spec_rule_setting(
                rules[i],
            ),
    ensures
        match rules[i] {
            RuleModel::Range { setting, min, max, .. } => spec_lookup(
                spec_eval_rules(rules, m, s, pos)->Ok_0.0,
                setting,
            ) matches Some(v) && v matches ValueModel::Int(n) && min <= n <= max,
            _ => true,
        },
    decreases i,
{
    let step = spec_eval_rule(rules[0], m, s, pos);
    let m2 = step->Ok_0.0;
    let p2 = step->Ok_0.1;
    if i == 0 {
        match rules[0] {
            RuleModel::Range { setting, distribution, min, max } => {
                let v0 = spec_range_value(distribution, min, max, raw_at(s, pos));
                lemma_range_value_bounds(distribution, min, max, raw_at(s, pos));
                lemma_insert_lookup(m, setting, ValueModel::Int(v0), setting);
                assert(forall|j: int|
                    0 <= j < rules.drop_first().len() ==> spec_rule_setting(
                        #[trigger] rules.drop_first()[j],
                    ) != setting);
                lemma_eval_rules_preserve(rules.drop_first(), m2, s, p2, setting);
            },
            _ => {},
        }
    } else {
        assert(rules.drop_first()[i - 1] == rules[i]);
        assert(forall|j: int|
            i - 1 < j < rules.drop_first().len() ==> spec_rule_setting(
                #[trigger] rules.drop_first()[j],
            ) != spec_rule_setting(rules.drop_first()[i - 1]));
        lemma_eval_rules_range_bounds(rules.drop_first(), m2, s, p2, i - 1);
    }
}

/// Range bounds, end to end: when a well-formed range rule targets a
/// setting that no later rule targets again, the resolved configuration
/// binds that setting to an integer within the rule's closed interval — in
/// particular a degenerate interval always resolves to exactly its one
/// value. A later rule for the same setting deliberately overwrites the
/// earlier result, so the proviso cannot be dropped.
pub proof fn lemma_range_setting_bounds(
    w: WeightsModel,
    pools: PoolsModel,
    s: Seq<u64>,
    pos: int,
    i: int,
)
    requires
        spec_gen(w, pools, s, pos) is Ok,
        0 <= i < w.weights.len(),
        w.weights[i] matches RuleModel::Range { .. },
        spec_rule_wf(w.weights[i]),
        forall|j: int|
            i < j < w.weights.len() ==> spec_rule_setting(#[trigger] w.weights[j])
                != spec_rule_setting(w.weights[i]),
    ensures
        match w.weights[i] {
            RuleModel::Range { setting, min, max, .. } => spec_lookup(
                spec_gen(w, pools, s, pos)->Ok_0.0.settings,
                setting,
            ) matches Some(v) && v matches ValueModel::Int(n) && min <= n <= max,
            _ => true,
        },
{
    let seeded = spec_seed(w, pools, s, pos);
    lemma_eval_rules_range_bounds(w.weights, seeded.0, s, seeded.1, i);
}

/// An absent setting never triggers a conditional: the table in use is then
/// decided by the remaining conditionals and the default alone.
pub proof fn lemma_absent_setting_never_triggers(
    conds: Seq<ConditionalModel>,
    m: EntryModel,
    default: TableModel,
    i: int,
)
    requires
        0 <= i < conds.len(),
        !spec_has_key(m, conds[i].setting),
        forall|j: int|
            0 <= j < i ==> match spec_lookup(m, (#[trigger] conds[j]).setting) {
                Some(v) => !conds[j].conditions.contains(v),
                None => true,
            },
    ensures
        spec_active_table(conds, m, default) == spec_active_table(
            conds.remove(i),
            m,
            default,
        ),
    decreases conds.len(),
{
    if i == 0 {
        assert(conds.remove(0) =~= conds.drop_first());
    } else {
        assert(conds.remove(i).drop_first() =~= conds.drop_first().remove(i - 1));
        assert(conds.remove(i)[0] == conds[0]);
        assert(forall|j: int|
            0 <= j < i - 1 ==> conds.drop_first()[j] == conds[j + 1]);
        lemma_absent_setting_never_triggers(conds.drop_first(), m, default, i - 1);
    }
}

/// Both halves of one starting list are kept, each value once: a drawn item
/// that is also forced appears exactly once in the result.
pub proof fn lemma_starting_entry_no_dup(
    enabled: bool,
    pool: Seq<Seq<char>>,
    forced: Seq<Seq<char>>,
    s: Seq<u64>,
    pos: int,
)
    ensures
        spec_no_dup(spec_starting_entry(enabled, pool, forced, s, pos).0),
        forall|x: Seq<char>|
            #[trigger] spec_starting_entry(enabled, pool, forced, s, pos).0.contains(x) <==> (
            enabled && spec_pool_draw(pool, s, pos).0.contains(x)) || forced.contains(x),
{
    if enabled {
        lemma_starting_list_no_dup(spec_pool_draw(pool, s, pos).0, forced);
    } else {
        lemma_starting_list_no_dup(Seq::empty(), forced);
        assert forall|x: Seq<char>| !(Seq::<Seq<char>>::empty().contains(x)) by {
            if Seq::<Seq<char>>::empty().contains(x) {
                let i = choose|i: int| 0 <= i < 0 && Seq::<Seq<char>>::empty()[i] == x;
            }
        }
    }
}

/// Splitting the total weight at a suffix: the suffix total never exceeds
/// the whole total.
proof fn lemma_total_skip(t: TableModel, i: int)
    requires
        0 <= i <= t.len(),
    ensures
        spec_total_weight(t.skip(i)) <= spec_total_weight(t),
    decreases i,
{
    if i > 0 {
        assert(t.skip(i - 1).drop_first() =~= t.skip(i));
        assert(t.skip(i - 1)[0] == t[i - 1]);
        assert(spec_total_weight(t.skip(i - 1)) == t[i - 1].1 + spec_total_weight(t.skip(i)));
        lemma_total_skip(t, i - 1);
    } else {
        assert(t.skip(0) =~= t);
    }
}

} // verus!
