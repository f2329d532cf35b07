use vstd::prelude::*;
use crate::schema::{Schema, Value, ValueModel, opt_value_view, duplicate_opt};

verus! {

/// One field of a merged layer: a field already set keeps its value.
pub open spec fn first_set<T>(a: Option<T>, b: Option<T>) -> Option<T> {
    if a is Some {
        a
    } else {
        b
    }
}

/// The mathematical model of a [`PartialLayer`]: one `Option` per parameter
/// and per switch, `None` meaning unset.
#[verifier::ext_equal]
pub struct LayerModel {
    pub params: Seq<Option<ValueModel>>,
    pub switches: Seq<Option<bool>>,
}

impl LayerModel {
    /// The layer with every field unset.
    pub open spec fn empty(n_params: nat, n_switches: nat) -> LayerModel {
        LayerModel {
            params: Seq::new(n_params, |i: int| None),
            switches: Seq::new(n_switches, |i: int| None),
        }
    }

    /// Field by field, this layer's value where set, else `other`'s.
    pub open spec fn set_if_absent(self, other: LayerModel) -> LayerModel {
        LayerModel {
            params: Seq::new(self.params.len(), |i: int| first_set(self.params[i], other.params[i])),
            switches: Seq::new(
                self.switches.len(),
                |i: int| first_set(self.switches[i], other.switches[i]),
            ),
        }
    }

    pub open spec fn overwrite_param(self, i: int, v: ValueModel) -> LayerModel {
        LayerModel { params: self.params.update(i, Some(v)), switches: self.switches }
    }

    pub open spec fn overwrite_switch(self, i: int, b: bool) -> LayerModel {
        LayerModel { params: self.params, switches: self.switches.update(i, Some(b)) }
    }

    pub open spec fn same_shape(self, other: LayerModel) -> bool {
        self.params.len() == other.params.len() && self.switches.len() == other.switches.len()
    }

    /// One field per schema entry, and every set parameter of its declared type.
    pub open spec fn fits(self, schema: &Schema) -> bool {
        &&& self.params.len() == schema.params@.len()
        &&& self.switches.len() == schema.switches@.len()
        &&& forall|i: int|
            0 <= i < self.params.len() && (#[trigger] self.params[i]) is Some
                ==> self.params[i]->Some_0.has_type(schema.params@[i].ty)
    }
}

/// `base` with `layers` folded into it left to right by `set_if_absent`.
pub open spec fn fold_layers(base: LayerModel, layers: Seq<LayerModel>) -> LayerModel
    decreases layers.len(),
{
    if layers.len() == 0 {
        base
    } else {
        fold_layers(base.set_if_absent(layers[0]), layers.drop_first())
    }
}

/// Every layer in `layers` has the shape of `base`.
pub open spec fn all_same_shape(base: LayerModel, layers: Seq<LayerModel>) -> bool {
    forall|k: int| 0 <= k < layers.len() ==> base.same_shape(#[trigger] layers[k])
}

/// Folding keeps the shape of the base layer.
pub proof fn lemma_fold_shape(base: LayerModel, layers: Seq<LayerModel>)
    requires
        all_same_shape(base, layers),
    ensures
        fold_layers(base, layers).same_shape(base),
    decreases layers.len(),
{
    if layers.len() > 0 {
        let next = base.set_if_absent(layers[0]);
        assert(all_same_shape(next, layers.drop_first())) by {
            assert forall|k: int| 0 <= k < layers.drop_first().len() implies next.same_shape(
                #[trigger] layers.drop_first()[k],
            ) by {
                assert(layers.drop_first()[k] == layers[k + 1]);
            }
        }
        lemma_fold_shape(next, layers.drop_first());
    }
}

/// A field set in the base layer keeps its value through any fold.
pub proof fn lemma_fold_keeps_set(base: LayerModel, layers: Seq<LayerModel>)
    requires
        all_same_shape(base, layers),
    ensures
        forall|i: int|
            0 <= i < base.params.len() && (#[trigger] base.params[i]) is Some ==> fold_layers(
                base,
                layers,
            ).params[i] == base.params[i],
        forall|i: int|
            0 <= i < base.switches.len() && (#[trigger] base.switches[i]) is Some ==> fold_layers(
                base,
                layers,
            ).switches[i] == base.switches[i],
    decreases layers.len(),
{
    if layers.len() > 0 {
        let next = base.set_if_absent(layers[0]);
        assert(all_same_shape(next, layers.drop_first())) by {
            assert forall|k: int| 0 <= k < layers.drop_first().len() implies next.same_shape(
                #[trigger] layers.drop_first()[k],
            ) by {
                assert(layers.drop_first()[k] == layers[k + 1]);
            }
        }
        lemma_fold_keeps_set(next, layers.drop_first());
        assert forall|i: int|
            0 <= i < base.params.len() && (#[trigger] base.params[i]) is Some implies fold_layers(
                base,
                layers,
            ).params[i] == base.params[i] by {
            assert(next.params[i] == base.params[i]);
        }
        assert forall|i: int|
            0 <= i < base.switches.len() && (#[trigger] base.switches[i]) is Some implies fold_layers(
                base,
                layers,
            ).switches[i] == base.switches[i] by {
            assert(next.switches[i] == base.switches[i]);
        }
    }
}

/// Merging is associative, and two merges in a row equal folding the three
/// layers left to right from an empty layer: field by field the earliest
/// layer that sets a field decides it, however the merges are grouped.
pub proof fn lemma_set_if_absent_fold(a: LayerModel, b: LayerModel, c: LayerModel)
    requires
        a.same_shape(b),
        a.same_shape(c),
    ensures
        a.set_if_absent(b).set_if_absent(c) == a.set_if_absent(b.set_if_absent(c)),
        a.set_if_absent(b).set_if_absent(c) == fold_layers(
            LayerModel::empty(a.params.len(), a.switches.len()),
            seq![a, b, c],
        ),
{
    let e = LayerModel::empty(a.params.len(), a.switches.len());
    let s = seq![a, b, c];
    assert(e.set_if_absent(a) =~= a);
    assert(s.drop_first() =~= seq![b, c]);
    assert(s.drop_first().drop_first() =~= seq![c]);
    assert(s.drop_first().drop_first().drop_first() =~= Seq::<LayerModel>::empty());
    assert(s[0] == a && s.drop_first()[0] == b && s.drop_first().drop_first()[0] == c);
    reveal_with_fuel(fold_layers, 4);
    assert(a.set_if_absent(b).set_if_absent(c) =~= a.set_if_absent(b.set_if_absent(c)));
}

/// A command-line overwrite is never masked by file layers: applied after
/// any fold it decides the field, and a field overwritten before further
/// layers are merged in keeps the overwritten value.
pub proof fn lemma_overwrite_wins(
    base: LayerModel,
    layers: Seq<LayerModel>,
    i: int,
    v: ValueModel,
    k: int,
    b: bool,
)
    requires
        all_same_shape(base, layers),
        0 <= i < base.params.len(),
        0 <= k < base.switches.len(),
    ensures
        fold_layers(base, layers).overwrite_param(i, v).params[i] == Some(v),
        fold_layers(base, layers).overwrite_switch(k, b).switches[k] == Some(b),
        fold_layers(base.overwrite_param(i, v), layers).params[i] == Some(v),
        fold_layers(base.overwrite_switch(k, b), layers).switches[k] == Some(b),
{
    lemma_fold_shape(base, layers);
    let bp = base.overwrite_param(i, v);
    let bs = base.overwrite_switch(k, b);
    assert(all_same_shape(bp, layers));
    assert(all_same_shape(bs, layers));
    lemma_fold_keeps_set(bp, layers);
    lemma_fold_keeps_set(bs, layers);
    assert(bp.params[i] is Some);
    assert(bs.switches[k] is Some);
}

/// For every parameter and switch of a schema, unset or a value.
#[derive(Debug)]
pub struct PartialLayer {
    pub params: Vec<Option<Value>>,
    pub switches: Vec<Option<bool>>,
}

impl View for PartialLayer {
    type V = LayerModel;

    open spec fn view(&self) -> LayerModel {
        LayerModel {
            params: Seq::new(self.params@.len(), |i: int| opt_value_view(self.params@[i])),
            switches: self.switches@,
        }
    }
}

impl PartialLayer {
    /// A layer for `schema` with every field unset.
    pub fn empty(schema: &Schema) -> (r: PartialLayer)
        ensures
            r@ == LayerModel::empty(schema.params@.len(), schema.switches@.len()),
            r@.fits(schema),
    {
        let mut params: Vec<Option<Value>> = Vec::new();
        let mut i: usize = 0;
        while i < schema.params.len()
            invariant
                i <= schema.params@.len(),
                params@.len() == i,
                forall|j: int| 0 <= j < i ==> params@[j] is None,
            decreases schema.params@.len() - i,
        {
            params.push(None);
            i = i + 1;
        }
        let mut switches: Vec<Option<bool>> = Vec::new();
        let mut k: usize = 0;
        while k < schema.switches.len()
            invariant
                k <= schema.switches@.len(),
                switches@.len() == k,
                forall|j: int| 0 <= j < k ==> switches@[j] is None,
            decreases schema.switches@.len() - k,
        {
            switches.push(None);
            k = k + 1;
        }
        let r = PartialLayer { params, switches };
        assert(r@ =~= LayerModel::empty(schema.params@.len(), schema.switches@.len()));
        r
    }

    /// Copies each of `other`'s fields into this layer where this layer's
    /// field is unset; fields already set are left alone.
    pub fn set_if_absent(&mut self, other: &PartialLayer)
        requires
            old(self)@.same_shape(other@),
        ensures
            final(self)@ == old(self)@.set_if_absent(other@),
    {
        let ghost start = self@;
        let mut i: usize = 0;
        while i < self.params.len()
            invariant
                self@.switches == start.switches,
                self.params@.len() == start.params.len(),
                start.same_shape(other@),
                i <= self.params@.len(),
                forall|j: int|
                    0 <= j < i ==> opt_value_view(#[trigger] self.params@[j]) == first_set(
                        start.params[j],
                        other@.params[j],
                    ),
                forall|j: int|
                    i <= j < self.params@.len() ==> opt_value_view(#[trigger] self.params@[j])
                        == start.params[j],
            decreases self.params@.len() - i,
        {
            if self.params[i].is_none() {
                let v = duplicate_opt(&other.params[i]);
                self.params[i] = v;
            }
            i = i + 1;
        }
        let mut k: usize = 0;
        while k < self.switches.len()
            invariant
                self@.params == start.set_if_absent(other@).params,
                self@.switches.len() == start.switches.len(),
                start.same_shape(other@),
                k <= self@.switches.len(),
                forall|j: int|
                    0 <= j < k ==> self@.switches[j] == first_set(
                        start.switches[j],
                        other@.switches[j],
                    ),
                forall|j: int| k <= j < self@.switches.len() ==> self@.switches[j] == start.switches[j],
            decreases self@.switches.len() - k,
        {
            if self.switches[k].is_none() {
                self.switches[k] = other.switches[k];
            }
            k = k + 1;
        }
        assert(self@ =~= start.set_if_absent(other@));
    }

    /// Whether this layer has one field per schema entry and every set
    /// parameter holds a value of its declared type.
    pub fn fits_schema(&self, schema: &Schema) -> (r: bool)
        ensures
            r == self@.fits(schema),
    {
        if self.params.len() != schema.params.len() || self.switches.len()
            != schema.switches.len() {
            return false;
        }
        let mut i: usize = 0;
        while i < self.params.len()
            invariant
                i <= self.params@.len(),
                self.params@.len() == schema.params@.len(),
                forall|j: int|
                    0 <= j < i && (#[trigger] self@.params[j]) is Some ==> self@.params[j]->Some_0.has_type(
                        schema.params@[j].ty,
                    ),
            decreases self.params@.len() - i,
        {
            match &self.params[i] {
                Some(v) => {
                    if v.value_type() != schema.params[i].ty {
                        assert(!v@.has_type(schema.params@[i as int].ty));
                        assert(self@.params[i as int] == Some(v@));
                        return false;
                    }
                },
                None => {},
            }
            i = i + 1;
        }
        true
    }

    /// Sets parameter `i` to `v`, whatever it held.
    pub fn overwrite_param(&mut self, i: usize, v: Value)
        requires
            i < old(self)@.params.len(),
        ensures
            final(self)@ == old(self)@.overwrite_param(i as int, v@),
    {
        let ghost start = self@;
        let ghost vm = v@;
        self.params[i] = Some(v);
        assert(self@ =~= start.overwrite_param(i as int, vm));
    }

    /// Sets switch `i` to `b`, whatever it held.
    pub fn overwrite_switch(&mut self, i: usize, b: bool)
        requires
            i < old(self)@.switches.len(),
        ensures
            final(self)@ == old(self)@.overwrite_switch(i as int, b),
    {
        let ghost start = self@;
        self.switches[i] = Some(b);
        assert(self@ =~= start.overwrite_switch(i as int, b));
    }
}

} // verus!
