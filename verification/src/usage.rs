//! Usage counters and their merge.
//!
//! Merging adds counters that both sides hold and keeps what only one side
//! holds. Addition saturates at `u64::MAX`, so the merge is total; it is
//! commutative and associative, with absence as its identity.

use crate::ordered_map::{
    distinct_keys, entries_map, index_of, keys_of, lemma_entries_map, lemma_upsert, lookup,
    upsert, OrderedMap,
};
use vstd::prelude::*;

verus! {

/// The sum of two counters, held at `u64::MAX` where it would pass it.
pub open spec fn sat_add(a: u64, b: u64) -> u64 {
    if a + b > u64::MAX {
        u64::MAX
    } else {
        (a + b) as u64
    }
}

/// What one model has used.
#[derive(Clone, Copy, Debug, PartialEq, Eq, Structural)]
pub struct ModelUsage {
    pub tokens: u64,
}

/// What the hardware has been used for.
#[derive(Clone, Copy, Debug, PartialEq, Eq, Structural)]
pub struct HardwareUsage {
    pub cpu: u64,
    pub payload_io_read: u64,
    pub payload_io_write: u64,
    pub payload_index_io_read: u64,
    pub payload_index_io_write: u64,
    pub vector_io_read: u64,
    pub vector_io_write: u64,
}

/// What inference has used, by the name of the model.
#[derive(Debug, PartialEq)]
pub struct InferenceUsage {
    pub models: OrderedMap<ModelUsage>,
}

/// The usage of an operation. Each part may be absent.
#[derive(Debug, PartialEq)]
pub struct Usage {
    pub hardware: Option<HardwareUsage>,
    pub inference: Option<InferenceUsage>,
}

/// The usage of an operation with the models as a mathematical map.
pub struct UsageView {
    pub hardware: Option<HardwareUsage>,
    pub inference: Option<Map<Seq<char>, ModelUsage>>,
}

/// The merge of two optional hardware usages.
pub open spec fn merge_hardware_opts(
    a: Option<HardwareUsage>,
    b: Option<HardwareUsage>,
) -> Option<HardwareUsage> {
    match (a, b) {
        (Some(x), Some(y)) => Some(x.spec_aggregate(y)),
        (Some(x), None) => Some(x),
        (None, Some(y)) => Some(y),
        (None, None) => None,
    }
}

/// The merge of two model maps: the keys of both, with the usages of a shared
/// key added up.
pub open spec fn merge_models(
    a: Map<Seq<char>, ModelUsage>,
    b: Map<Seq<char>, ModelUsage>,
) -> Map<Seq<char>, ModelUsage> {
    Map::new(
        |k: Seq<char>| a.contains_key(k) || b.contains_key(k),
        |k: Seq<char>|
            if a.contains_key(k) && b.contains_key(k) {
                a[k].spec_aggregate(b[k])
            } else if a.contains_key(k) {
                a[k]
            } else {
                b[k]
            },
    )
}

/// The merge of two optional model maps.
pub open spec fn merge_models_opts(
    a: Option<Map<Seq<char>, ModelUsage>>,
    b: Option<Map<Seq<char>, ModelUsage>>,
) -> Option<Map<Seq<char>, ModelUsage>> {
    match (a, b) {
        (Some(x), Some(y)) => Some(merge_models(x, y)),
        (Some(x), None) => Some(x),
        (None, Some(y)) => Some(y),
        (None, None) => None,
    }
}

/// The merge of two usages, part by part.
pub open spec fn merge_usage(a: UsageView, b: UsageView) -> UsageView {
    UsageView {
        hardware: merge_hardware_opts(a.hardware, b.hardware),
        inference: merge_models_opts(a.inference, b.inference),
    }
}

/// The merge of two optional usages.
pub open spec fn merge_usage_opts(a: Option<UsageView>, b: Option<UsageView>) -> Option<UsageView> {
    match (a, b) {
        (Some(x), Some(y)) => Some(merge_usage(x, y)),
        (Some(x), None) => Some(x),
        (None, Some(y)) => Some(y),
        (None, None) => None,
    }
}

/// The names among `names` that `models` lacks, in their order.
pub open spec fn new_names(
    models: Map<Seq<char>, ModelUsage>,
    names: Seq<Seq<char>>,
) -> Seq<Seq<char>> {
    names.filter(|name: Seq<char>| !models.contains_key(name))
}

/// The entries that merging leaves: those of `a` in their order, each with the
/// usage of `b` added where `b` holds the name, then the entries that only `b`
/// holds, in the order of `b`.
pub open spec fn merge_entries(
    a: Seq<(Seq<char>, ModelUsage)>,
    b: Seq<(Seq<char>, ModelUsage)>,
) -> Seq<(Seq<char>, ModelUsage)>
    decreases b.len(),
{
    if b.len() == 0 {
        a
    } else {
        let merged = merge_entries(a, b.drop_last());
        let name = b.last().0;
        let usage = match lookup(merged, name) {
            Some(existing) => existing.spec_aggregate(b.last().1),
            None => b.last().1,
        };
        upsert(merged, name, usage)
    }
}

/// Merging entries merges the maps that they stand for, and keeps the keys
/// distinct.
pub proof fn lemma_merge_entries(a: Seq<(Seq<char>, ModelUsage)>, b: Seq<(Seq<char>, ModelUsage)>)
    requires
        distinct_keys(a),
        distinct_keys(b),
    ensures
        distinct_keys(merge_entries(a, b)),
        entries_map(merge_entries(a, b)) == merge_models(entries_map(a), entries_map(b)),
    decreases b.len(),
{
    if b.len() == 0 {
        assert(entries_map(b) =~= Map::<Seq<char>, ModelUsage>::empty()) by {
            assert forall|k: Seq<char>| !entries_map(b).dom().contains(k) by {
                assert(index_of(b, k) is None);
            }
        }
        assert(entries_map(a) =~= merge_models(entries_map(a), entries_map(b)));
    } else {
        let front = b.drop_last();
        let name = b.last().0;
        let merged = merge_entries(a, front);
        assert(distinct_keys(front)) by {
            assert forall|i: int, j: int| 0 <= i < j < front.len() implies (#[trigger] front[i]).0
                != (#[trigger] front[j]).0 by {
                assert(b[i].0 != b[j].0);
            }
        }
        lemma_merge_entries(a, front);
        assert(index_of(front, name) is None) by {
            if index_of(front, name) is Some {
                let i = index_of(front, name).unwrap();
                assert(front[i].0 == name);
                assert(b[i].0 != b[b.len() - 1].0);
            }
        }
        assert(upsert(front, name, b.last().1) =~= b);
        lemma_upsert(front, name, b.last().1);
        let usage = match lookup(merged, name) {
            Some(existing) => existing.spec_aggregate(b.last().1),
            None => b.last().1,
        };
        lemma_upsert(merged, name, usage);
        let am = entries_map(a);
        let fm = entries_map(front);
        let mm = entries_map(merged);
        let target = merge_models(am, fm.insert(name, b.last().1));
        assert(!fm.contains_key(name));
        assert(mm.contains_key(name) == am.contains_key(name));
        assert(lookup(merged, name) is Some == mm.contains_key(name));
        if am.contains_key(name) {
            assert(mm[name] == am[name]);
            assert(lookup(merged, name) == Some(am[name]));
        }
        assert forall|k: Seq<char>| mm.insert(name, usage).contains_key(k) implies #[trigger]
            target.contains_key(k) && mm.insert(name, usage)[k] == target[k] by {
            if k != name {
                assert(mm.contains_key(k));
                assert(am.contains_key(k) || fm.contains_key(k));
                assert(mm[k] == merge_models(am, fm)[k]);
            }
        }
        assert forall|k: Seq<char>| #[trigger] target.contains_key(k) implies mm.insert(
            name,
            usage,
        ).contains_key(k) by {
            if k != name {
                assert(am.contains_key(k) || fm.contains_key(k));
                assert(merge_models(am, fm).contains_key(k));
            }
        }
        assert(mm.insert(name, usage) =~= target);
    }
}

/// Merging entries keeps the names of `a` in their order and puts the names
/// that only `b` holds behind them, in the order of `b`.
pub proof fn lemma_merge_entries_names(
    a: Seq<(Seq<char>, ModelUsage)>,
    b: Seq<(Seq<char>, ModelUsage)>,
)
    requires
        distinct_keys(a),
        distinct_keys(b),
    ensures
        keys_of(merge_entries(a, b)) == keys_of(a) + new_names(entries_map(a), keys_of(b)),
    decreases b.len(),
{
    let absent = |name: Seq<char>| !entries_map(a).contains_key(name);
    reveal(Seq::filter);
    if b.len() == 0 {
        assert(keys_of(b).filter(absent) =~= Seq::<Seq<char>>::empty());
        assert(keys_of(a) =~= keys_of(a) + new_names(entries_map(a), keys_of(b)));
    } else {
        let front = b.drop_last();
        let name = b.last().0;
        let merged = merge_entries(a, front);
        assert(distinct_keys(front)) by {
            assert forall|i: int, j: int| 0 <= i < j < front.len() implies (#[trigger] front[i]).0
                != (#[trigger] front[j]).0 by {
                assert(b[i].0 != b[j].0);
            }
        }
        lemma_merge_entries_names(a, front);
        lemma_merge_entries(a, front);
        lemma_entries_map(merged);
        lemma_entries_map(front);
        assert(!entries_map(front).contains_key(name)) by {
            if index_of(front, name) is Some {
                let i = index_of(front, name).unwrap();
                assert(front[i].0 == name);
                assert(b[i].0 != b[b.len() - 1].0);
            }
        }
        assert(entries_map(merged).contains_key(name) == entries_map(a).contains_key(name));
        assert(keys_of(b).drop_last() =~= keys_of(front));
        assert(keys_of(b).last() == name);
        let usage = match lookup(merged, name) {
            Some(existing) => existing.spec_aggregate(b.last().1),
            None => b.last().1,
        };
        let after = upsert(merged, name, usage);
        if entries_map(a).contains_key(name) {
            assert(index_of(merged, name) is Some);
            let at = index_of(merged, name).unwrap();
            assert(merged[at].0 == name);
            assert(keys_of(after) =~= keys_of(merged));
            assert(keys_of(b).filter(absent) == keys_of(front).filter(absent));
        } else {
            assert(index_of(merged, name) is None);
            assert(keys_of(after) =~= keys_of(merged).push(name));
            assert(keys_of(b).filter(absent) == keys_of(front).filter(absent).push(name));
            assert(keys_of(after) =~= keys_of(a) + new_names(entries_map(a), keys_of(b)));
        }
    }
}

/// Saturating addition does not depend on the order of its operands.
pub proof fn lemma_sat_add_commutative(a: u64, b: u64)
    ensures
        sat_add(a, b) == sat_add(b, a),
{
}

/// Saturating addition does not depend on how three operands are grouped.
pub proof fn lemma_sat_add_associative(a: u64, b: u64, c: u64)
    ensures
        sat_add(sat_add(a, b), c) == sat_add(a, sat_add(b, c)),
{
}

/// Merging the usages of a model is commutative.
pub proof fn lemma_model_usage_commutative(a: ModelUsage, b: ModelUsage)
    ensures
        a.spec_aggregate(b) == b.spec_aggregate(a),
{
}

/// Merging the usages of a model is associative.
pub proof fn lemma_model_usage_associative(a: ModelUsage, b: ModelUsage, c: ModelUsage)
    ensures
        a.spec_aggregate(b).spec_aggregate(c) == a.spec_aggregate(b.spec_aggregate(c)),
{
}

/// Merging hardware usages is commutative.
pub proof fn lemma_hardware_usage_commutative(a: HardwareUsage, b: HardwareUsage)
    ensures
        a.spec_aggregate(b) == b.spec_aggregate(a),
{
}

/// Merging hardware usages is associative.
pub proof fn lemma_hardware_usage_associative(a: HardwareUsage, b: HardwareUsage, c: HardwareUsage)
    ensures
        a.spec_aggregate(b).spec_aggregate(c) == a.spec_aggregate(b.spec_aggregate(c)),
{
}

/// Merging model maps is commutative.
pub proof fn lemma_merge_models_commutative(
    a: Map<Seq<char>, ModelUsage>,
    b: Map<Seq<char>, ModelUsage>,
)
    ensures
        merge_models(a, b) == merge_models(b, a),
{
    assert(merge_models(a, b) =~= merge_models(b, a));
}

/// Merging model maps is associative.
pub proof fn lemma_merge_models_associative(
    a: Map<Seq<char>, ModelUsage>,
    b: Map<Seq<char>, ModelUsage>,
    c: Map<Seq<char>, ModelUsage>,
)
    ensures
        merge_models(merge_models(a, b), c) == merge_models(a, merge_models(b, c)),
{
    assert(merge_models(merge_models(a, b), c) =~= merge_models(a, merge_models(b, c)));
}

/// Absence is the identity of merging optional hardware usages.
pub proof fn lemma_hardware_opts_identity(x: Option<HardwareUsage>)
    ensures
        merge_hardware_opts(x, None) == x,
        merge_hardware_opts(None, x) == x,
{
}

/// Merging optional hardware usages is commutative.
pub proof fn lemma_hardware_opts_commutative(a: Option<HardwareUsage>, b: Option<HardwareUsage>)
    ensures
        merge_hardware_opts(a, b) == merge_hardware_opts(b, a),
{
}

/// Merging optional hardware usages is associative.
pub proof fn lemma_hardware_opts_associative(
    a: Option<HardwareUsage>,
    b: Option<HardwareUsage>,
    c: Option<HardwareUsage>,
)
    ensures
        merge_hardware_opts(merge_hardware_opts(a, b), c) == merge_hardware_opts(
            a,
            merge_hardware_opts(b, c),
        ),
{
}

/// Absence is the identity of merging optional model maps.
pub proof fn lemma_models_opts_identity(x: Option<Map<Seq<char>, ModelUsage>>)
    ensures
        merge_models_opts(x, None) == x,
        merge_models_opts(None, x) == x,
{
}

/// Merging optional model maps is commutative.
pub proof fn lemma_models_opts_commutative(
    a: Option<Map<Seq<char>, ModelUsage>>,
    b: Option<Map<Seq<char>, ModelUsage>>,
)
    ensures
        merge_models_opts(a, b) == merge_models_opts(b, a),
{
    if a is Some && b is Some {
        lemma_merge_models_commutative(a.unwrap(), b.unwrap());
    }
}

/// Merging optional model maps is associative.
pub proof fn lemma_models_opts_associative(
    a: Option<Map<Seq<char>, ModelUsage>>,
    b: Option<Map<Seq<char>, ModelUsage>>,
    c: Option<Map<Seq<char>, ModelUsage>>,
)
    ensures
        merge_models_opts(merge_models_opts(a, b), c) == merge_models_opts(
            a,
            merge_models_opts(b, c),
        ),
{
    if a is Some && b is Some && c is Some {
        lemma_merge_models_associative(a.unwrap(), b.unwrap(), c.unwrap());
    }
}

/// Merging usages is commutative.
pub proof fn lemma_usage_commutative(a: UsageView, b: UsageView)
    ensures
        merge_usage(a, b) == merge_usage(b, a),
{
    lemma_hardware_opts_commutative(a.hardware, b.hardware);
    lemma_models_opts_commutative(a.inference, b.inference);
}

/// Merging usages is associative.
pub proof fn lemma_usage_associative(a: UsageView, b: UsageView, c: UsageView)
    ensures
        merge_usage(merge_usage(a, b), c) == merge_usage(a, merge_usage(b, c)),
{
    lemma_hardware_opts_associative(a.hardware, b.hardware, c.hardware);
    lemma_models_opts_associative(a.inference, b.inference, c.inference);
}

/// A usage without parts is the identity of merging usages.
pub proof fn lemma_usage_identity(x: UsageView)
    ensures
        merge_usage(x, UsageView { hardware: None, inference: None }) == x,
        merge_usage(UsageView { hardware: None, inference: None }, x) == x,
{
}

/// Absence is the identity of merging optional usages.
pub proof fn lemma_usage_opts_identity(x: Option<UsageView>)
    ensures
        merge_usage_opts(x, None) == x,
        merge_usage_opts(None, x) == x,
{
}

/// Merging optional usages is commutative.
pub proof fn lemma_usage_opts_commutative(a: Option<UsageView>, b: Option<UsageView>)
    ensures
        merge_usage_opts(a, b) == merge_usage_opts(b, a),
{
    if a is Some && b is Some {
        lemma_usage_commutative(a.unwrap(), b.unwrap());
    }
}

/// Merging optional usages is associative.
pub proof fn lemma_usage_opts_associative(
    a: Option<UsageView>,
    b: Option<UsageView>,
    c: Option<UsageView>,
)
    ensures
        merge_usage_opts(merge_usage_opts(a, b), c) == merge_usage_opts(a, merge_usage_opts(b, c)),
{
    if a is Some && b is Some && c is Some {
        lemma_usage_associative(a.unwrap(), b.unwrap(), c.unwrap());
    }
}

/// Merging an optional usage with an absent one returns it as it is, with its
/// models in their order.
pub proof fn lemma_aggregate_opts_identity(x: Option<Usage>, merged: Option<Usage>)
    requires
        Usage::merged_opts(x, None, merged) || Usage::merged_opts(None, x, merged),
    ensures
        merged == x,
{
}

/// Merging an optional inference usage with an absent one returns it as it
/// is, with its models in their order.
pub proof fn lemma_inference_aggregate_opts_identity(
    x: Option<InferenceUsage>,
    merged: Option<InferenceUsage>,
)
    requires
        InferenceUsage::merged_opts(x, None, merged) || InferenceUsage::merged_opts(
            None,
            x,
            merged,
        ),
    ensures
        merged == x,
{
}

impl ModelUsage {
    /// The merge of two usages of a model: the sum of the tokens.
    pub open spec fn spec_aggregate(self, other: Self) -> Self {
        ModelUsage { tokens: sat_add(self.tokens, other.tokens) }
    }

    /// Merges two usages of a model.
    pub fn aggregate(self, other: Self) -> (r: Self)
        ensures
            r == self.spec_aggregate(other),
    {
        ModelUsage { tokens: self.tokens.saturating_add(other.tokens) }
    }
}

impl HardwareUsage {
    /// The merge of two hardware usages: each counter is the sum of the two.
    pub open spec fn spec_aggregate(self, other: Self) -> Self {
        HardwareUsage {
            cpu: sat_add(self.cpu, other.cpu),
            payload_io_read: sat_add(self.payload_io_read, other.payload_io_read),
            payload_io_write: sat_add(self.payload_io_write, other.payload_io_write),
            payload_index_io_read: sat_add(self.payload_index_io_read, other.payload_index_io_read),
            payload_index_io_write: sat_add(
                self.payload_index_io_write,
                other.payload_index_io_write,
            ),
            vector_io_read: sat_add(self.vector_io_read, other.vector_io_read),
            vector_io_write: sat_add(self.vector_io_write, other.vector_io_write),
        }
    }

    /// Merges two optional hardware usages: the merge of both where both are
    /// present, else the one that is present.
    pub fn aggregate_opts(this: Option<Self>, other: Option<Self>) -> (r: Option<Self>)
        ensures
            r == merge_hardware_opts(this, other),
    {
        match (this, other) {
            (Some(this), Some(other)) => Some(this.aggregate(other)),
            (Some(this), None) => Some(this),
            (None, Some(other)) => Some(other),
            (None, None) => None,
        }
    }

    /// Merges two hardware usages.
    pub fn aggregate(self, other: Self) -> (r: Self)
        ensures
            r == self.spec_aggregate(other),
    {
        let Self {
            cpu,
            payload_io_read,
            payload_io_write,
            payload_index_io_read,
            payload_index_io_write,
            vector_io_read,
            vector_io_write,
        } = other;

        Self {
            cpu: self.cpu.saturating_add(cpu),
            payload_io_read: self.payload_io_read.saturating_add(payload_io_read),
            payload_io_write: self.payload_io_write.saturating_add(payload_io_write),
            payload_index_io_read: self.payload_index_io_read.saturating_add(payload_index_io_read),
            payload_index_io_write: self.payload_index_io_write.saturating_add(
                payload_index_io_write,
            ),
            vector_io_read: self.vector_io_read.saturating_add(vector_io_read),
            vector_io_write: self.vector_io_write.saturating_add(vector_io_write),
        }
    }
}

impl View for InferenceUsage {
    type V = Map<Seq<char>, ModelUsage>;

    open spec fn view(&self) -> Map<Seq<char>, ModelUsage> {
        self.models@
    }
}

impl InferenceUsage {
    /// Whether `merged` is the merge of `this` and `other`: the merge of both
    /// where both are present, else the one that is present, unchanged.
    pub open spec fn merged_opts(this: Option<Self>, other: Option<Self>, merged: Option<Self>) -> bool {
        match (this, other) {
            (Some(a), Some(b)) => merged matches Some(m) && Self::merged(a, b, m),
            (Some(a), None) => merged == Some(a),
            (None, Some(b)) => merged == Some(b),
            (None, None) => merged is None,
        }
    }

    /// Whether `merged` is the merge of `a` and `b`: it holds the merged
    /// models, those of `a` first in their order, then those that only `b`
    /// holds, in the order of `b`.
    pub open spec fn merged(a: Self, b: Self, merged: Self) -> bool {
        &&& merged@ == merge_models(a@, b@)
        &&& merged.models.keys() == a.models.keys() + new_names(a@, b.models.keys())
    }

    /// The models of an optional inference usage as a map.
    pub open spec fn view_opt(this: Option<Self>) -> Option<Map<Seq<char>, ModelUsage>> {
        match this {
            Some(a) => Some(a@),
            None => None,
        }
    }

    /// Merges two optional inference usages.
    pub fn aggregate_opts(this: Option<Self>, other: Option<Self>) -> (r: Option<Self>)
        ensures
            Self::merged_opts(this, other, r),
            Self::view_opt(r) == merge_models_opts(Self::view_opt(this), Self::view_opt(other)),
    {
        match (this, other) {
            (Some(this), Some(other)) => Some(this.aggregate(other)),
            (Some(this), None) => Some(this),
            (None, Some(other)) => Some(other),
            (None, None) => None,
        }
    }

    /// Merges two inference usages: a model that both hold gets the sum of its
    /// tokens, every other model is kept as it is.
    pub fn aggregate(self, other: Self) -> (r: Self)
        ensures
            Self::merged(self, other, r),
    {
        let ghost a = self.models.entries();
        let ghost b = other.models.entries();
        let mut models = self.models;
        proof {
            use_type_invariant(&models);
        }
        let incoming = other.models.into_entries();
        let ghost moved = incoming@;
        proof {
            lemma_merge_entries(a, b);
            lemma_merge_entries_names(a, b);
        }
        for e in it: incoming
            invariant
                it.seq() == moved,
                moved.len() == b.len(),
                forall|k: int|
                    0 <= k < moved.len() ==> (#[trigger] moved[k]).0@ == b[k].0 && moved[k].1
                        == b[k].1,
                models.entries() == merge_entries(a, b.take(it.index())),
        {
            let ghost i = it.index();
            proof {
                assert(b.take(i + 1).drop_last() =~= b.take(i));
                assert(b.take(i + 1).last() == b[i]);
            }
            let usage = match models.get(e.0.as_str()) {
                Some(existing) => existing.aggregate(e.1),
                None => e.1,
            };
            models.insert(e.0, usage);
        }
        proof {
            assert(b.take(b.len() as int) =~= b);
        }
        Self { models }
    }
}

impl View for Usage {
    type V = UsageView;

    open spec fn view(&self) -> UsageView {
        UsageView { hardware: self.hardware, inference: InferenceUsage::view_opt(self.inference) }
    }
}

impl Usage {
    /// Whether `merged` is the merge of `this` and `other`: the merge of both
    /// where both are present, else the one that is present, unchanged.
    pub open spec fn merged_opts(this: Option<Self>, other: Option<Self>, merged: Option<Self>) -> bool {
        match (this, other) {
            (Some(a), Some(b)) => merged matches Some(m) && Self::merged(a, b, m),
            (Some(a), None) => merged == Some(a),
            (None, Some(b)) => merged == Some(b),
            (None, None) => merged is None,
        }
    }

    /// Whether `merged` is the merge of `a` and `b`, part by part.
    pub open spec fn merged(a: Self, b: Self, merged: Self) -> bool {
        &&& merged.hardware == merge_hardware_opts(a.hardware, b.hardware)
        &&& InferenceUsage::merged_opts(a.inference, b.inference, merged.inference)
        &&& merged@ == merge_usage(a@, b@)
    }

    /// The view of an optional usage.
    pub open spec fn view_opt(this: Option<Self>) -> Option<UsageView> {
        match this {
            Some(a) => Some(a@),
            None => None,
        }
    }

    /// Merges two optional usages.
    pub fn aggregate_opts(this: Option<Self>, other: Option<Self>) -> (r: Option<Self>)
        ensures
            Self::merged_opts(this, other, r),
            Self::view_opt(r) == merge_usage_opts(Self::view_opt(this), Self::view_opt(other)),
    {
        match (this, other) {
            (Some(this), Some(other)) => Some(this.aggregate(other)),
            (Some(this), None) => Some(this),
            (None, Some(other)) => Some(other),
            (None, None) => None,
        }
    }

    /// Merges two usages: the hardware parts and the inference parts are
    /// merged independently.
    pub fn aggregate(self, other: Self) -> (r: Self)
        ensures
            Self::merged(self, other, r),
    {
        Self {
            hardware: HardwareUsage::aggregate_opts(self.hardware, other.hardware),
            inference: InferenceUsage::aggregate_opts(self.inference, other.inference),
        }
    }
}

} // verus!
