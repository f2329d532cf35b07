use vstd::prelude::*;
use crate::schema::{
    Schema, SwitchKind, Optionality, Value, ValueModel, opt_value_view, duplicate_opt,
    switch_default,
};
use crate::layer::{LayerModel, PartialLayer};

verus! {

/// Validation failure: a mandatory parameter is unset after all layers were merged.
#[derive(Debug)]
pub enum ValidationError {
    MissingField(String),
}

/// Parameter `i` is mandatory and unset in `layer`.
pub open spec fn is_missing(schema: &Schema, layer: LayerModel, i: int) -> bool {
    0 <= i < schema.params@.len() && schema.is_mandatory(i) && layer.params[i] is None
}

/// Parameter `i` is the first missing one in declaration order.
pub open spec fn is_first_missing(schema: &Schema, layer: LayerModel, i: int) -> bool {
    is_missing(schema, layer, i) && forall|j: int| 0 <= j < i ==> !is_missing(schema, layer, j)
}

/// The index of the first mandatory parameter left unset, if any.
pub open spec fn first_missing(schema: &Schema, layer: LayerModel) -> Option<int> {
    if exists|i: int| is_first_missing(schema, layer, i) {
        Some(choose|i: int| is_first_missing(schema, layer, i))
    } else {
        None
    }
}

/// The mathematical model of a [`ResolvedConfig`]: `None` is an absent
/// optional parameter.
#[verifier::ext_equal]
pub struct ConfigModel {
    pub params: Seq<Option<ValueModel>>,
    pub switches: Seq<bool>,
}

/// What an unset parameter resolves to under its optionality.
pub open spec fn fallback(opt: Optionality) -> Option<ValueModel> {
    match opt {
        Optionality::DefaultValue(d) => Some(d@),
        _ => None,
    }
}

/// The configuration that `layer` validates to, when no mandatory field is missing.
pub open spec fn resolved_model(schema: &Schema, layer: LayerModel) -> ConfigModel {
    ConfigModel {
        params: Seq::new(
            schema.params@.len(),
            |i: int|
                match layer.params[i] {
                    Some(v) => Some(v),
                    None => fallback(schema.params@[i].optionality),
                },
        ),
        switches: Seq::new(
            schema.switches@.len(),
            |i: int|
                match layer.switches[i] {
                    Some(b) => b,
                    None => switch_default(schema.switches@[i].kind),
                },
        ),
    }
}

impl ConfigModel {
    /// A value for every field, of its declared type, and present for every
    /// parameter that is not optional.
    pub open spec fn fits(self, schema: &Schema) -> bool {
        &&& self.params.len() == schema.params@.len()
        &&& self.switches.len() == schema.switches@.len()
        &&& forall|i: int|
            0 <= i < self.params.len() ==> match #[trigger] self.params[i] {
                Some(v) => v.has_type(schema.params@[i].ty),
                None => schema.params@[i].optionality is Optional,
            }
    }

    /// The configuration as a layer: every present value set.
    pub open spec fn as_layer(self) -> LayerModel {
        LayerModel {
            params: self.params,
            switches: Seq::new(self.switches.len(), |i: int| Some(self.switches[i])),
        }
    }
}

/// A total configuration: one value per parameter (`None` only for an absent
/// optional one) and one `bool` per switch.
#[derive(Debug)]
pub struct ResolvedConfig {
    pub params: Vec<Option<Value>>,
    pub switches: Vec<bool>,
}

impl View for ResolvedConfig {
    type V = ConfigModel;

    open spec fn view(&self) -> ConfigModel {
        ConfigModel {
            params: Seq::new(self.params@.len(), |i: int| opt_value_view(self.params@[i])),
            switches: self.switches@,
        }
    }
}

impl ResolvedConfig {
    /// The configuration re-expressed as a layer with every present value set.
    pub fn to_layer(&self) -> (r: PartialLayer)
        ensures
            r@ == self@.as_layer(),
    {
        let mut params: Vec<Option<Value>> = Vec::new();
        let mut i: usize = 0;
        while i < self.params.len()
            invariant
                i <= self.params@.len(),
                params@.len() == i,
                forall|j: int|
                    0 <= j < i ==> opt_value_view(#[trigger] params@[j]) == opt_value_view(
                        self.params@[j],
                    ),
            decreases self.params@.len() - i,
        {
            params.push(duplicate_opt(&self.params[i]));
            i = i + 1;
        }
        let mut switches: Vec<Option<bool>> = Vec::new();
        let mut k: usize = 0;
        while k < self.switches.len()
            invariant
                k <= self.switches@.len(),
                switches@.len() == k,
                forall|j: int| 0 <= j < k ==> switches@[j] == Some(self.switches@[j]),
            decreases self.switches@.len() - k,
        {
            switches.push(Some(self.switches[k]));
            k = k + 1;
        }
        let r = PartialLayer { params, switches };
        assert(r@ =~= self@.as_layer());
        r
    }
}

impl PartialLayer {
    /// Converts this merged layer into a total configuration. Unset
    /// parameters take their optionality's fallback and unset switches their
    /// kind's default; fails on the first unset mandatory parameter in
    /// declaration order.
    pub fn validate(&self, schema: &Schema) -> (r: Result<ResolvedConfig, ValidationError>)
        requires
            self@.fits(schema),
        ensures
            match r {
                Ok(c) => {
                    &&& first_missing(schema, self@) is None
                    &&& c@ == resolved_model(schema, self@)
                    &&& schema.wf() ==> c@.fits(schema)
                },
                Err(ValidationError::MissingField(name)) => first_missing(schema, self@) is Some
                    && name@ == schema.params@[first_missing(schema, self@)->Some_0].name@,
            },
    {
        let ghost goal = resolved_model(schema, self@);
        let mut params: Vec<Option<Value>> = Vec::new();
        let mut i: usize = 0;
        while i < schema.params.len()
            invariant
                self@.fits(schema),
                i <= schema.params@.len(),
                params@.len() == i,
                goal == resolved_model(schema, self@),
                forall|j: int| 0 <= j < i ==> !is_missing(schema, self@, j),
                forall|j: int|
                    0 <= j < i ==> opt_value_view(#[trigger] params@[j]) == goal.params[j],
            decreases schema.params@.len() - i,
        {
            let spec_i = &schema.params[i];
            match &self.params[i] {
                Some(v) => {
                    params.push(Some(v.duplicate()));
                },
                None => match &spec_i.optionality {
                    Optionality::Mandatory => {
                        assert(is_first_missing(schema, self@, i as int));
                        return Err(ValidationError::MissingField(spec_i.name.clone()));
                    },
                    Optionality::Optional => {
                        params.push(None);
                    },
                    Optionality::DefaultValue(d) => {
                        params.push(Some(d.duplicate()));
                    },
                },
            }
            i = i + 1;
        }
        assert(!exists|j: int| is_first_missing(schema, self@, j));
        let mut switches: Vec<bool> = Vec::new();
        let mut k: usize = 0;
        while k < schema.switches.len()
            invariant
                self@.fits(schema),
                k <= schema.switches@.len(),
                switches@.len() == k,
                goal == resolved_model(schema, self@),
                forall|j: int| 0 <= j < k ==> switches@[j] == goal.switches[j],
            decreases schema.switches@.len() - k,
        {
            let b = match self.switches[k] {
                Some(b) => b,
                None => schema.switches[k].kind.default_value(),
            };
            switches.push(b);
            k = k + 1;
        }
        let c = ResolvedConfig { params, switches };
        assert(c@ =~= goal);
        assert(schema.wf() ==> c@.fits(schema)) by {
            if schema.wf() {
                assert forall|j: int| 0 <= j < c@.params.len() implies match #[trigger] c@.params[j] {
                    Some(v) => v.has_type(schema.params@[j].ty),
                    None => schema.params@[j].optionality is Optional,
                } by {
                    assert(!is_missing(schema, self@, j));
                    if self@.params[j] is Some {
                        assert(self@.params[j]->Some_0.has_type(schema.params@[j].ty));
                    }
                }
            }
        }
        Ok(c)
    }
}

/// Some parameter is missing whenever a mandatory one is unset, and then a
/// first one exists.
pub proof fn lemma_first_missing_exists(schema: &Schema, layer: LayerModel, i: int)
    requires
        is_missing(schema, layer, i),
    ensures
        first_missing(schema, layer) is Some,
        is_first_missing(schema, layer, first_missing(schema, layer)->Some_0),
    decreases i,
{
    if forall|j: int| 0 <= j < i ==> !is_missing(schema, layer, j) {
        assert(is_first_missing(schema, layer, i));
    } else {
        let j = choose|j: int| 0 <= j < i && is_missing(schema, layer, j);
        lemma_first_missing_exists(schema, layer, j);
    }
}

/// Validating a layer with every field unset fails exactly when the schema
/// has a mandatory parameter, and then names the first mandatory parameter
/// in declaration order.
pub proof fn lemma_empty_layer_names_first_mandatory(schema: &Schema)
    ensures
        ({
            let e = LayerModel::empty(schema.params@.len(), schema.switches@.len());
            match first_missing(schema, e) {
                Some(k) => 0 <= k < schema.params@.len() && schema.is_mandatory(k) && forall|
                    j: int,
                | 0 <= j < k ==> !schema.is_mandatory(j),
                None => forall|j: int|
                    0 <= j < schema.params@.len() ==> !schema.is_mandatory(j),
            }
        }),
{
    let e = LayerModel::empty(schema.params@.len(), schema.switches@.len());
    if exists|j: int| 0 <= j < schema.params@.len() && schema.is_mandatory(j) {
        let j = choose|j: int| 0 <= j < schema.params@.len() && schema.is_mandatory(j);
        assert(is_missing(schema, e, j));
        lemma_first_missing_exists(schema, e, j);
        let k = first_missing(schema, e)->Some_0;
        assert forall|m: int| 0 <= m < k implies !schema.is_mandatory(m) by {
            assert(!is_missing(schema, e, m));
        }
    } else if first_missing(schema, e) is Some {
        let k = choose|i: int| is_first_missing(schema, e, i);
        assert(is_first_missing(schema, e, k));
    }
}

/// An unset Normal switch resolves to `false` and an unset Inverted switch
/// to `true`.
pub proof fn lemma_unset_switch_default(schema: &Schema, layer: LayerModel, i: int)
    requires
        layer.fits(schema),
        0 <= i < schema.switches@.len(),
        layer.switches[i] is None,
    ensures
        schema.switches@[i].kind == SwitchKind::Normal ==> !resolved_model(schema, layer).switches[i],
        schema.switches@[i].kind == SwitchKind::Inverted ==> resolved_model(schema, layer).switches[i],
{
}

/// A resolved configuration re-expressed as a layer validates to itself.
pub proof fn lemma_validate_round_trip(schema: &Schema, c: ConfigModel)
    requires
        c.fits(schema),
    ensures
        c.as_layer().fits(schema),
        first_missing(schema, c.as_layer()) is None,
        resolved_model(schema, c.as_layer()) == c,
{
    let l = c.as_layer();
    assert forall|i: int| 0 <= i < l.params.len() && (#[trigger] l.params[i]) is Some implies l.params[i]->Some_0.has_type(schema.params@[i].ty) by {
        assert(c.params[i] is Some);
    }
    if first_missing(schema, l) is Some {
        let k = choose|i: int| is_first_missing(schema, l, i);
        assert(is_first_missing(schema, l, k));
        assert(c.params[k] is None);
    }
    assert forall|i: int| 0 <= i < c.params.len() implies resolved_model(schema, l).params[i] == c.params[i] by {
        if c.params[i] is None {
            assert(schema.params@[i].optionality is Optional);
        }
    }
    assert(resolved_model(schema, l) =~= c);
}

} // verus!
