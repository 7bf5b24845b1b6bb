//! The rule model: weighted-choice tables, conditional dispatch, numeric
//! ranges, the root weights document, and the override composer.

use vstd::prelude::*;
use crate::icons::HashIcon;
use crate::values::SettingValue;
use crate::values::ValueModel;

verus! {

/// How a numeric range rule draws its value.
#[derive(Debug, Clone, Copy, PartialEq, Eq, Structural)]
pub enum Distribution {
    Uniform,
    Geometric,
}

impl Distribution {
    /// The display name of the distribution.
    pub fn name(&self) -> (r: &'static str)
        ensures
            *self is Uniform ==> r@ == "Uniform"@,
            *self is Geometric ==> r@ == "Geometric"@,
    {
        match self {
            Distribution::Uniform => "Uniform",
            Distribution::Geometric => "Geometric",
        }
    }
}

/// A weighted-choice table: value token to non-negative weight.
pub type TableModel = Seq<(Seq<char>, u64)>;

/// A table branch taken when an earlier-resolved setting holds one of the
/// trigger values.
#[derive(Debug, Clone)]
pub struct Conditional {
    /// Name of the earlier-resolved setting this branch looks at.
    pub setting: String,
    /// Values of that setting which select this branch.
    pub conditions: Vec<SettingValue>,
    /// The table drawn from when this branch is selected.
    pub values: Vec<(String, u64)>,
}

/// The mathematical shape of a [`Conditional`].
#[verifier::ext_equal]
pub struct ConditionalModel {
    pub setting: Seq<char>,
    pub conditions: Seq<ValueModel>,
    pub values: TableModel,
}

impl DeepView for Conditional {
    type V = ConditionalModel;

    open spec fn deep_view(&self) -> ConditionalModel {
        ConditionalModel {
            setting: self.setting@,
            conditions: self.conditions.deep_view(),
            values: self.values.deep_view(),
        }
    }
}

/// One rule of a weights document.
#[derive(Debug, Clone)]
pub enum WeightsRule {
    /// A weighted choice, with optional conditional branches consulted in
    /// order before the default table.
    Custom { setting: String, conditionals: Vec<Conditional>, values: Vec<(String, u64)> },
    /// An integer drawn from the closed interval `[min, max]`.
    Range { setting: String, distribution: Distribution, min: u64, max: u64 },
}

/// The mathematical shape of a [`WeightsRule`].
#[verifier::ext_equal]
pub enum RuleModel {
    Custom { setting: Seq<char>, conditionals: Seq<ConditionalModel>, values: TableModel },
    Range { setting: Seq<char>, distribution: Distribution, min: u64, max: u64 },
}

impl DeepView for WeightsRule {
    type V = RuleModel;

    open spec fn deep_view(&self) -> RuleModel {
        match self {
            WeightsRule::Custom { setting, conditionals, values } => RuleModel::Custom {
                setting: setting@,
                conditionals: conditionals.deep_view(),
                values: values.deep_view(),
            },
            WeightsRule::Range { setting, distribution, min, max } => RuleModel::Range {
                setting: setting@,
                distribution: *distribution,
                min: *min,
                max: *max,
            },
        }
    }
}

/// The setting name a rule targets.
pub open spec fn spec_rule_setting(r: RuleModel) -> Seq<char> {
    match r {
        RuleModel::Custom { setting, .. } => setting,
        RuleModel::Range { setting, .. } => setting,
    }
}

/// A range rule keeps its bounds ordered; a choice rule has no constraint.
pub open spec fn spec_rule_wf(r: RuleModel) -> bool {
    match r {
        RuleModel::Custom { .. } => true,
        RuleModel::Range { min, max, .. } => min <= max,
    }
}

impl WeightsRule {
    /// The setting name this rule targets.
    pub fn setting(&self) -> (r: &String)
        ensures
            r@ == spec_rule_setting(self.deep_view()),
    {
        match self {
            WeightsRule::Custom { setting, .. } => setting,
            WeightsRule::Range { setting, .. } => setting,
        }
    }

    /// A mutable handle on the setting name this rule targets: it reads the
    /// current name, and writing through it retargets the rule the same way
    /// [`WeightsRule::set_setting`] does.
    pub fn setting_mut(&mut self) -> (r: &mut String)
        ensures
            r@ == spec_rule_setting(old(self).deep_view()),
            final(self).deep_view() == spec_retarget(old(self).deep_view(), final(r)@),
    {
        match self {
            WeightsRule::Custom { setting, .. } => setting,
            WeightsRule::Range { setting, .. } => setting,
        }
    }

}

/// `r` with its setting name replaced by `n`.
pub open spec fn spec_retarget(r: RuleModel, n: Seq<char>) -> RuleModel {
    match r {
        RuleModel::Custom { setting, conditionals, values } => RuleModel::Custom {
            setting: n,
            conditionals,
            values,
        },
        RuleModel::Range { setting, distribution, min, max } => RuleModel::Range {
            setting: n,
            distribution,
            min,
            max,
        },
    }
}

/// The item pools a random starting inventory is drawn from. They belong to
/// the external tool's data, so callers supply them.
#[derive(Debug, Clone)]
pub struct ItemPools {
    pub inventory: Vec<String>,
    pub songs: Vec<String>,
    pub equipment: Vec<String>,
}

/// The mathematical shape of [`ItemPools`].
#[verifier::ext_equal]
pub struct PoolsModel {
    pub inventory: Seq<Seq<char>>,
    pub songs: Seq<Seq<char>>,
    pub equipment: Seq<Seq<char>>,
}

impl DeepView for ItemPools {
    type V = PoolsModel;

    open spec fn deep_view(&self) -> PoolsModel {
        PoolsModel {
            inventory: self.inventory.deep_view(),
            songs: self.songs.deep_view(),
            equipment: self.equipment.deep_view(),
        }
    }
}

/// The root weights document.
#[derive(Debug, Clone)]
pub struct Weights {
    /// The two fixed hash icons every result starts with.
    pub hash: [HashIcon; 2],
    /// Number of worlds the result is generated for; at least 1.
    pub world_count: u8,
    /// Location names passed through verbatim.
    pub disabled_locations: Vec<String>,
    /// Trick names passed through verbatim.
    pub allowed_tricks: Vec<String>,
    /// Whether starting inventories are sampled at random.
    pub random_starting_items: bool,
    /// Items always added to the starting inventory.
    pub starting_items: Vec<String>,
    /// Songs always added to the starting inventory.
    pub starting_songs: Vec<String>,
    /// Equipment always added to the starting inventory.
    pub starting_equipment: Vec<String>,
    /// The rules, evaluated in order.
    pub weights: Vec<WeightsRule>,
}

/// The mathematical shape of a [`Weights`] document.
#[verifier::ext_equal]
pub struct WeightsModel {
    pub hash: Seq<HashIcon>,
    pub world_count: u8,
    pub disabled_locations: Seq<Seq<char>>,
    pub allowed_tricks: Seq<Seq<char>>,
    pub random_starting_items: bool,
    pub starting_items: Seq<Seq<char>>,
    pub starting_songs: Seq<Seq<char>>,
    pub starting_equipment: Seq<Seq<char>>,
    pub weights: Seq<RuleModel>,
}

impl DeepView for Weights {
    type V = WeightsModel;

    open spec fn deep_view(&self) -> WeightsModel {
        WeightsModel {
            hash: self.hash.deep_view(),
            world_count: self.world_count,
            disabled_locations: self.disabled_locations.deep_view(),
            allowed_tricks: self.allowed_tricks.deep_view(),
            random_starting_items: self.random_starting_items,
            starting_items: self.starting_items.deep_view(),
            starting_songs: self.starting_songs.deep_view(),
            starting_equipment: self.starting_equipment.deep_view(),
            weights: self.weights.deep_view(),
        }
    }
}

/// A well-formed document: at least one world, ordered range bounds.
pub open spec fn spec_weights_wf(w: WeightsModel) -> bool {
    &&& w.world_count >= 1
    &&& w.hash.len() == 2
    &&& forall|i: int| 0 <= i < w.weights.len() ==> spec_rule_wf(#[trigger] w.weights[i])
}

impl Weights {
    /// Whether the document is well-formed: at least one world, and every
    /// range rule's bounds ordered.
    pub fn is_wf(&self) -> (r: bool)
        ensures
            r == spec_weights_wf(self.deep_view()),
    {
        if self.world_count < 1 {
            return false;
        }
        let mut i: usize = 0;
        while i < self.weights.len()
            invariant
                0 <= i <= self.weights@.len(),
                self.world_count >= 1,
                forall|j: int| 0 <= j < i ==> spec_rule_wf(#[trigger] self.weights.deep_view()[j]),
            decreases self.weights@.len() - i,
        {
            let rule = &self.weights[i];
            let ok = match rule {
                WeightsRule::Custom { .. } => true,
                WeightsRule::Range { min, max, .. } => *min <= *max,
            };
            proof {
                assert(self.weights.deep_view()[i as int] == rule.deep_view());
                assert(ok == spec_rule_wf(rule.deep_view()));
            }
            if !ok {
                proof {
                    assert(!spec_rule_wf(self.deep_view().weights[i as int]));
                }
                return false;
            }
            i = i + 1;
        }
        proof {
            assert(self.deep_view().hash.len() == 2);
        }
        true
    }
}

/// A partial patch document composed onto a base document.
#[derive(Debug, Clone)]
pub struct Override {
    /// Wholesale replacement of the forced starting items, if present.
    pub starting_items: Option<Vec<String>>,
    /// Wholesale replacement of the forced starting songs, if present.
    pub starting_songs: Option<Vec<String>>,
    /// Wholesale replacement of the forced starting equipment, if present.
    pub starting_equipment: Option<Vec<String>>,
    /// Rules that replace same-named base rules in place, or go to the end.
    pub weights: Vec<WeightsRule>,
}

/// The mathematical shape of an [`Override`].
#[verifier::ext_equal]
pub struct OverrideModel {
    pub starting_items: Option<Seq<Seq<char>>>,
    pub starting_songs: Option<Seq<Seq<char>>>,
    pub starting_equipment: Option<Seq<Seq<char>>>,
    pub weights: Seq<RuleModel>,
}

impl DeepView for Override {
    type V = OverrideModel;

    open spec fn deep_view(&self) -> OverrideModel {
        OverrideModel {
            starting_items: self.starting_items.deep_view(),
            starting_songs: self.starting_songs.deep_view(),
            starting_equipment: self.starting_equipment.deep_view(),
            weights: self.weights.deep_view(),
        }
    }
}

/// The first rule of `rules` targeting `name`, if any.
pub open spec fn spec_find_rule(rules: Seq<RuleModel>, name: Seq<char>) -> Option<int>
    decreases rules.len(),
{
    if rules.len() == 0 {
        None
    } else if spec_rule_setting(rules[0]) == name {
        Some(0)
    } else {
        match spec_find_rule(rules.drop_first(), name) {
            Some(i) => Some(i + 1),
            None => None,
        }
    }
}

/// One pass of the composer over the base rules: each base rule is replaced
/// by the first remaining patch rule targeting the same setting, which is
/// consumed; the result is the rewritten base and the patch rules left over.
pub open spec fn spec_compose_rules(base: Seq<RuleModel>, patch: Seq<RuleModel>) -> (
    Seq<RuleModel>,
    Seq<RuleModel>,
)
    decreases base.len(),
{
    if base.len() == 0 {
        (Seq::empty(), patch)
    } else {
        let (head, patch2) = match spec_find_rule(patch, spec_rule_setting(base[0])) {
            Some(j) => (patch[j], patch.remove(j)),
            None => (base[0], patch),
        };
        let (rest, patch3) = spec_compose_rules(base.drop_first(), patch2);
        (seq![head] + rest, patch3)
    }
}

/// The composed rule list: patch wins on a name collision, keeping the base
/// rule's position; patch rules matching nothing are appended at the end.
pub open spec fn spec_compose(base: Seq<RuleModel>, patch: Seq<RuleModel>) -> Seq<RuleModel> {
    let (rewritten, leftover) = spec_compose_rules(base, patch);
    rewritten + leftover
}

/// Composing with an empty patch leaves the base rules unchanged.
proof fn lemma_compose_rules_empty_patch(base: Seq<RuleModel>)
    ensures
        spec_compose_rules(base, Seq::empty()).0 == base,
        spec_compose_rules(base, Seq::empty()).1 == Seq::<RuleModel>::empty(),
    decreases base.len(),
{
    if base.len() == 0 {
        assert(spec_compose_rules(base, Seq::empty()).0 =~= base);
    } else {
        lemma_compose_rules_empty_patch(base.drop_first());
        assert(seq![base[0]] + base.drop_first() =~= base);
    }
}

/// A singleton patch whose setting differs from `name` matches nothing.
proof fn lemma_find_single_miss(patch: Seq<RuleModel>, name: Seq<char>)
    requires
        patch.len() == 1,
        spec_rule_setting(patch[0]) != name,
    ensures
        spec_find_rule(patch, name) is None,
{
    assert(patch.drop_first().len() == 0);
    assert(spec_find_rule(patch.drop_first(), name) is None);
}

/// Composing a single patch rule onto a base that holds a rule with the same
/// setting name at position `p` (and none earlier) replaces exactly that
/// rule, in place: the result has the base's length, the patch rule at `p`,
/// and every other rule unchanged.
pub proof fn lemma_compose_replaces_in_place(base: Seq<RuleModel>, patch: Seq<RuleModel>, p: int)
    requires
        patch.len() == 1,
        0 <= p < base.len(),
        spec_rule_setting(base[p]) == spec_rule_setting(patch[0]),
        forall|q: int|
            0 <= q < p ==> spec_rule_setting(#[trigger] base[q]) != spec_rule_setting(patch[0]),
    ensures
        spec_compose(base, patch).len() == base.len(),
        spec_compose(base, patch)[p] == patch[0],
        forall|q: int|
            0 <= q < base.len() && q != p ==> #[trigger] spec_compose(base, patch)[q] == base[q],
    decreases p,
{
    let bdf = base.drop_first();
    if p == 0 {
        assert(spec_find_rule(patch, spec_rule_setting(base[0])) == Some(0int));
        assert(patch.remove(0) =~= Seq::<RuleModel>::empty());
        lemma_compose_rules_empty_patch(bdf);
        assert(spec_compose(base, patch) =~= seq![patch[0]] + bdf);
    } else {
        lemma_find_single_miss(patch, spec_rule_setting(base[0]));
        assert(spec_rule_setting(bdf[p - 1]) == spec_rule_setting(patch[0]));
        assert(forall|q: int|
            0 <= q < p - 1 ==> spec_rule_setting(#[trigger] bdf[q]) != spec_rule_setting(patch[0]));
        lemma_compose_replaces_in_place(bdf, patch, p - 1);
        assert(spec_compose(base, patch) =~= seq![base[0]] + spec_compose(bdf, patch));
    }
}

/// Composing a single patch rule whose setting name no base rule targets
/// appends it at the end, leaving every base rule in place.
pub proof fn lemma_compose_appends_new(base: Seq<RuleModel>, patch: Seq<RuleModel>)
    requires
        patch.len() == 1,
        forall|q: int|
            0 <= q < base.len() ==> spec_rule_setting(#[trigger] base[q]) != spec_rule_setting(
                patch[0],
            ),
    ensures
        spec_compose(base, patch) == base.push(patch[0]),
    decreases base.len(),
{
    if base.len() == 0 {
        assert(spec_compose(base, patch) =~= base.push(patch[0]));
    } else {
        let bdf = base.drop_first();
        lemma_find_single_miss(patch, spec_rule_setting(base[0]));
        lemma_compose_appends_new(bdf, patch);
        assert(spec_compose(base, patch) =~= seq![base[0]] + spec_compose(bdf, patch));
        assert(seq![base[0]] + bdf.push(patch[0]) =~= base.push(patch[0]));
    }
}

/// One document composed with one patch: each replacement set taken
/// wholesale if present, and the rule list rewritten as [`spec_compose`]
/// states; everything else unchanged.
pub open spec fn spec_compose_weights(base: WeightsModel, patch: OverrideModel) -> WeightsModel {
    WeightsModel {
        starting_items: match patch.starting_items {
            Some(v) => v,
            None => base.starting_items,
        },
        starting_songs: match patch.starting_songs {
            Some(v) => v,
            None => base.starting_songs,
        },
        starting_equipment: match patch.starting_equipment {
            Some(v) => v,
            None => base.starting_equipment,
        },
        weights: spec_compose(base.weights, patch.weights),
        ..base
    }
}

/// Finding a rule is unchanged by skipping a prefix with no match.
proof fn lemma_find_rule_skip(rules: Seq<RuleModel>, name: Seq<char>, i: int)
    requires
        0 <= i <= rules.len(),
        forall|j: int| 0 <= j < i ==> spec_rule_setting(#[trigger] rules[j]) != name,
    ensures
        spec_find_rule(rules, name) == match spec_find_rule(rules.skip(i), name) {
            Some(t) => Some(t + i),
            None => None::<int>,
        },
    decreases i,
{
    if i == 0 {
        assert(rules.skip(0) =~= rules);
        match spec_find_rule(rules, name) {
            Some(t) => {},
            None => {},
        }
    } else {
        assert(rules.skip(i - 1).drop_first() =~= rules.skip(i));
        assert(rules.skip(i - 1)[0] == rules[i - 1]);
        lemma_find_rule_skip(rules, name, i - 1);
    }
}

/// The first rule of `rules` targeting `name`, exactly as [`spec_find_rule`]
/// states.
fn find_rule_by_setting(rules: &Vec<WeightsRule>, name: &String) -> (r: Option<usize>)
    ensures
        match r {
            Some(j) => j < rules@.len() && spec_find_rule(rules.deep_view(), name@) == Some(
                j as int,
            ),
            None => spec_find_rule(rules.deep_view(), name@) is None,
        },
{
    let ghost m = rules.deep_view();
    let mut i: usize = 0;
    while i < rules.len()
        invariant
            0 <= i <= rules@.len(),
            m == rules.deep_view(),
            m.len() == rules@.len(),
            forall|j: int| 0 <= j < i ==> spec_rule_setting(#[trigger] m[j]) != name@,
        decreases rules@.len() - i,
    {
        let rule = &rules[i];
        if *rule.setting() == *name {
            proof {
                lemma_find_rule_skip(m, name@, i as int);
                assert(m.skip(i as int)[0] == m[i as int]);
            }
            return Some(i);
        }
        proof {
            assert(m[i as int] == rule.deep_view());
        }
        i = i + 1;
    }
    proof {
        lemma_find_rule_skip(m, name@, m.len() as int);
        assert(m.skip(m.len() as int) =~= Seq::<RuleModel>::empty());
    }
    None
}

impl Weights {
    /// Composes the patch `rhs` onto this document: each replacement set is
    /// taken wholesale if present, and the rule list is rewritten as
    /// [`spec_compose`] states — a patch rule replaces the first base rule
    /// with the same setting name in place, and the rest go to the end.
    pub fn compose(&mut self, rhs: Override)
        ensures
            final(self).hash == old(self).hash,
            final(self).world_count == old(self).world_count,
            final(self).disabled_locations == old(self).disabled_locations,
            final(self).allowed_tricks == old(self).allowed_tricks,
            final(self).random_starting_items == old(self).random_starting_items,
            final(self).starting_items.deep_view() == match rhs.starting_items {
                Some(v) => v.deep_view(),
                None => old(self).starting_items.deep_view(),
            },
            final(self).starting_songs.deep_view() == match rhs.starting_songs {
                Some(v) => v.deep_view(),
                None => old(self).starting_songs.deep_view(),
            },
            final(self).starting_equipment.deep_view() == match rhs.starting_equipment {
                Some(v) => v.deep_view(),
                None => old(self).starting_equipment.deep_view(),
            },
            final(self).weights.deep_view() == spec_compose(
                old(self).weights.deep_view(),
                rhs.weights.deep_view(),
            ),
            final(self).deep_view() == spec_compose_weights(old(self).deep_view(), rhs.deep_view()),
    {
        let ghost rhsd = rhs.deep_view();
        let Override { starting_items, starting_songs, starting_equipment, weights } = rhs;
        let mut patch = weights;
        let ghost base0 = old(self).weights.deep_view();
        let ghost patch0 = patch.deep_view();
        proof {
            assert(base0.skip(0) =~= base0);
            assert(base0.subrange(0, 0) + spec_compose_rules(base0.skip(0), patch0).0
                =~= spec_compose_rules(base0, patch0).0);
        }
        let mut i: usize = 0;
        while i < self.weights.len()
            invariant
                0 <= i <= base0.len(),
                self.weights@.len() == base0.len(),
                self.hash == old(self).hash,
                self.world_count == old(self).world_count,
                self.disabled_locations == old(self).disabled_locations,
                self.allowed_tricks == old(self).allowed_tricks,
                self.random_starting_items == old(self).random_starting_items,
                self.starting_items == old(self).starting_items,
                self.starting_songs == old(self).starting_songs,
                self.starting_equipment == old(self).starting_equipment,
                forall|j: int|
                    i <= j < base0.len() ==> #[trigger] self.weights.deep_view()[j] == base0[j],
                spec_compose_rules(base0, patch0).0 == self.weights.deep_view().subrange(
                    0,
                    i as int,
                ) + spec_compose_rules(base0.skip(i as int), patch.deep_view()).0,
                spec_compose_rules(base0, patch0).1 == spec_compose_rules(
                    base0.skip(i as int),
                    patch.deep_view(),
                ).1,
            decreases base0.len() - i,
        {
            let ghost patchd = patch.deep_view();
            let ghost pre = self.weights.deep_view();
            proof {
                assert(base0.skip(i as int)[0] == base0[i as int]);
                assert(base0.skip(i as int).drop_first() =~= base0.skip(i + 1));
            }
            let name = self.weights[i].setting().clone();
            proof {
                assert(pre[i as int] == base0[i as int]);
                assert(name@ == spec_rule_setting(base0[i as int]));
            }
            match find_rule_by_setting(&patch, &name) {
                Some(j) => {
                    let ghost prev = self.weights@;
                    let r = patch.remove(j);
                    proof {
                        assert(r.deep_view() == patchd[j as int]);
                        assert(patch.deep_view() =~= patchd.remove(j as int));
                    }
                    self.weights.set(i, r);
                    proof {
                        assert(self.weights@ == prev.update(i as int, r));
                        assert forall|k: int|
                            0 <= k < base0.len() && k != i ==> #[trigger] self.weights.deep_view()[k]
                                == pre[k] by {
                            assert(forall|k: int|
                                0 <= k < base0.len() && k != i ==> #[trigger] self.weights@[k]
                                    == prev[k]);
                        }
                        assert(self.weights.deep_view().subrange(0, i + 1) =~= pre.subrange(
                            0,
                            i as int,
                        ).push(patchd[j as int]));
                        assert(self.weights.deep_view().subrange(0, i as int) =~= pre.subrange(
                            0,
                            i as int,
                        ));
                        assert(forall|k: int|
                            i + 1 <= k < base0.len() ==> #[trigger] self.weights.deep_view()[k]
                                == base0[k]);
                        assert(spec_compose_rules(base0.skip(i as int), patchd).0 == seq![
                            patchd[j as int],
                        ] + spec_compose_rules(base0.skip(i + 1), patch.deep_view()).0);
                        assert(pre.subrange(0, i as int) + (seq![patchd[j as int]]
                            + spec_compose_rules(base0.skip(i + 1), patch.deep_view()).0)
                            =~= self.weights.deep_view().subrange(0, i + 1) + spec_compose_rules(
                            base0.skip(i + 1),
                            patch.deep_view(),
                        ).0);
                    }
                },
                None => {
                    proof {
                        assert(spec_compose_rules(base0.skip(i as int), patchd).0 == seq![
                            base0[i as int],
                        ] + spec_compose_rules(base0.skip(i + 1), patchd).0);
                        assert(self.weights.deep_view().subrange(0, i + 1) =~= pre.subrange(
                            0,
                            i as int,
                        ).push(base0[i as int]));
                        assert(pre.subrange(0, i as int) + (seq![base0[i as int]]
                            + spec_compose_rules(base0.skip(i + 1), patchd).0)
                            =~= self.weights.deep_view().subrange(0, i + 1) + spec_compose_rules(
                            base0.skip(i + 1),
                            patchd,
                        ).0);
                    }
                },
            }
            i = i + 1;
        }
        proof {
            assert(base0.skip(base0.len() as int) =~= Seq::<RuleModel>::empty());
            assert(self.weights.deep_view().subrange(0, base0.len() as int)
                =~= self.weights.deep_view());
            assert(self.weights.deep_view() + patch.deep_view() =~= spec_compose(base0, patch0));
        }
        while patch.len() > 0
            invariant
                self.hash == old(self).hash,
                self.world_count == old(self).world_count,
                self.disabled_locations == old(self).disabled_locations,
                self.allowed_tricks == old(self).allowed_tricks,
                self.random_starting_items == old(self).random_starting_items,
                self.starting_items == old(self).starting_items,
                self.starting_songs == old(self).starting_songs,
                self.starting_equipment == old(self).starting_equipment,
                self.weights.deep_view() + patch.deep_view() =~= spec_compose(base0, patch0),
            decreases patch@.len(),
        {
            let ghost patchd = patch.deep_view();
            let ghost pre = self.weights.deep_view();
            let r = patch.remove(0);
            self.weights.push(r);
            proof {
                assert(patch.deep_view() =~= patchd.drop_first());
                assert(self.weights.deep_view() =~= pre.push(patchd[0]));
                assert(self.weights.deep_view() + patch.deep_view() =~= pre + patchd);
            }
        }
        proof {
            assert(patch.deep_view() =~= Seq::<RuleModel>::empty());
            assert(self.weights.deep_view() + patch.deep_view() =~= self.weights.deep_view());
        }
        if let Some(v) = starting_items {
            self.starting_items = v;
        }
        if let Some(v) = starting_songs {
            self.starting_songs = v;
        }
        if let Some(v) = starting_equipment {
            self.starting_equipment = v;
        }
        proof {
            assert(self.deep_view() =~= spec_compose_weights(old(self).deep_view(), rhsd));
        }
    }
}

} // verus!
