use vstd::prelude::*;

verus! {

/// The scalar types a parameter can hold.
#[derive(Clone, Copy, Debug, PartialEq, Eq, Structural)]
pub enum ValueType {
    /// A signed 64-bit integer, written in decimal.
    Integer,
    /// Arbitrary text, taken verbatim.
    Text,
}

/// A concrete parameter value.
#[derive(Debug)]
pub enum Value {
    Integer(i64),
    Text(String),
}

/// The mathematical model of a [`Value`].
pub enum ValueModel {
    Integer(i64),
    Text(Seq<char>),
}

impl View for Value {
    type V = ValueModel;

    open spec fn view(&self) -> ValueModel {
        match self {
            Value::Integer(n) => ValueModel::Integer(*n),
            Value::Text(s) => ValueModel::Text(s@),
        }
    }
}

impl ValueModel {
    pub open spec fn has_type(self, ty: ValueType) -> bool {
        match self {
            ValueModel::Integer(_) => ty == ValueType::Integer,
            ValueModel::Text(_) => ty == ValueType::Text,
        }
    }
}

pub open spec fn opt_value_view(v: Option<Value>) -> Option<ValueModel> {
    match v {
        Some(x) => Some(x@),
        None => None,
    }
}

impl Value {
    /// An independent copy of this value.
    pub fn duplicate(&self) -> (r: Value)
        ensures
            r@ == self@,
    {
        match self {
            Value::Integer(n) => Value::Integer(*n),
            Value::Text(s) => Value::Text(s.clone()),
        }
    }

    pub fn value_type(&self) -> (r: ValueType)
        ensures
            self@.has_type(r),
    {
        match self {
            Value::Integer(_) => ValueType::Integer,
            Value::Text(_) => ValueType::Text,
        }
    }
}

pub fn duplicate_opt(v: &Option<Value>) -> (r: Option<Value>)
    ensures
        opt_value_view(r) == opt_value_view(*v),
{
    match v {
        Some(x) => Some(x.duplicate()),
        None => None,
    }
}

/// What happens to a parameter that no layer sets.
#[derive(Debug)]
pub enum Optionality {
    /// Validation fails with a missing-field error.
    Mandatory,
    /// The resolved value is explicitly absent.
    Optional,
    /// The given fallback value is used.
    DefaultValue(Value),
}

/// Whether a switch defaults to `false` (set by `--name`) or to `true`
/// (cleared by `--no-name`).
#[derive(Clone, Copy, Debug, PartialEq, Eq, Structural)]
pub enum SwitchKind {
    Normal,
    Inverted,
}

/// A typed, value-taking setting.
#[derive(Debug)]
pub struct ParamSpec {
    pub name: String,
    pub ty: ValueType,
    pub optionality: Optionality,
    /// Whether `--<hyphenated-name> <value>` is recognized on the command line.
    pub argument: bool,
}

/// A boolean setting.
#[derive(Debug)]
pub struct SwitchSpec {
    pub name: String,
    pub kind: SwitchKind,
}

/// The value an unset switch of this kind resolves to.
pub open spec fn switch_default(kind: SwitchKind) -> bool {
    kind == SwitchKind::Inverted
}

impl SwitchKind {
    pub fn default_value(self) -> (r: bool)
        ensures
            r == switch_default(self),
    {
        match self {
            SwitchKind::Normal => false,
            SwitchKind::Inverted => true,
        }
    }
}

/// The whole configuration surface: parameters and switches in declaration order.
#[derive(Debug)]
pub struct Schema {
    pub params: Vec<ParamSpec>,
    pub switches: Vec<SwitchSpec>,
}

impl Schema {
    /// Every default value has its parameter's declared type.
    pub open spec fn wf(&self) -> bool {
        forall|i: int|
            0 <= i < self.params@.len() ==> match #[trigger] self.params@[i].optionality {
                Optionality::DefaultValue(v) => v@.has_type(self.params@[i].ty),
                _ => true,
            }
    }

    pub open spec fn is_mandatory(&self, i: int) -> bool {
        self.params@[i].optionality is Mandatory
    }
}

} // verus!
