use vstd::prelude::*;
use crate::schema::{Schema, Value, ValueModel, ValueType, switch_default};
use crate::layer::{LayerModel, PartialLayer};
use crate::names::{param_flag, switch_flag, param_flag_name, switch_flag_name};

verus! {

/// One command-line token: valid text, or bytes that are not valid UTF-8.
#[derive(Debug)]
pub enum Arg {
    Text(String),
    Raw(Vec<u8>),
}

pub enum ArgModel {
    Text(Seq<char>),
    Raw(Seq<u8>),
}

impl View for Arg {
    type V = ArgModel;

    open spec fn view(&self) -> ArgModel {
        match self {
            Arg::Text(s) => ArgModel::Text(s@),
            Arg::Raw(b) => ArgModel::Raw(b@),
        }
    }
}

pub open spec fn args_view(args: Seq<Arg>) -> Seq<ArgModel> {
    Seq::new(args.len(), |i: int| args[i]@)
}

/// Why a value token could not be read as its parameter's type.
#[derive(Debug, Clone, Copy, PartialEq, Eq)]
pub enum ValueError {
    NotAnInteger,
}

/// Failure of the tokenizer. The `String`s are parameter names.
#[derive(Debug)]
pub enum ArgParseError {
    /// A value-taking flag was the last token.
    MissingArgument(String),
    /// A token starting with `--` names no flag of the schema.
    UnknownArgument,
    /// The value token of a flag is not valid UTF-8.
    BadUtf8(String),
    /// The value token of a flag does not parse as the parameter's type.
    FieldParse(String, ValueError),
}

/// The tokenizer's failures, by parameter index.
pub enum ArgFault {
    MissingArgument(int),
    UnknownArgument,
    BadUtf8(int),
    FieldParse(int),
}

/// The decimal integer that `s` spells, as `i64`'s `FromStr` reads it.
pub uninterp spec fn parsed_integer(s: Seq<char>) -> Option<i64>;

/// Relies on `<i64 as FromStr>::from_str`: the integer the text spells, or
/// `None` when it spells none or one out of range.
#[verifier::external_body]
fn parse_integer(s: &str) -> (r: Option<i64>)
    ensures
        r == parsed_integer(s@),
{
    s.parse::<i64>().ok()
}

/// What a value token gives for a parameter of type `ty`.
pub open spec fn value_of_token(ty: ValueType, s: Seq<char>) -> Option<ValueModel> {
    match ty {
        ValueType::Integer => match parsed_integer(s) {
            Some(n) => Some(ValueModel::Integer(n)),
            None => None,
        },
        ValueType::Text => Some(ValueModel::Text(s)),
    }
}

/// Reads a value token as a value of type `ty`.
pub fn parse_value(ty: ValueType, token: &String) -> (r: Result<Value, ValueError>)
    ensures
        match r {
            Ok(v) => value_of_token(ty, token@) == Some(v@),
            Err(_) => value_of_token(ty, token@) is None,
        },
{
    match ty {
        ValueType::Integer => match parse_integer(token.as_str()) {
            Some(n) => Ok(Value::Integer(n)),
            None => Err(ValueError::NotAnInteger),
        },
        ValueType::Text => Ok(Value::Text(token.clone())),
    }
}

pub open spec fn dashes() -> Seq<char> {
    seq!['-', '-']
}

pub open spec fn starts_with_dashes(t: Seq<char>) -> bool {
    t.len() >= 2 && t[0] == '-' && t[1] == '-'
}

/// Token `t` is the flag of value-taking parameter `p`.
pub open spec fn names_param(schema: &Schema, t: Seq<char>, p: int) -> bool {
    0 <= p < schema.params@.len() && schema.params@[p].argument && t == param_flag(
        schema.params@[p].name@,
    )
}

/// Token `t` is the flag of switch `k`.
pub open spec fn names_switch(schema: &Schema, t: Seq<char>, k: int) -> bool {
    0 <= k < schema.switches@.len() && t == switch_flag(
        schema.switches@[k].name@,
        schema.switches@[k].kind,
    )
}

pub open spec fn first_param(schema: &Schema, t: Seq<char>, p: int) -> bool {
    names_param(schema, t, p) && forall|q: int| 0 <= q < p ==> !names_param(schema, t, q)
}

pub open spec fn first_switch(schema: &Schema, t: Seq<char>, k: int) -> bool {
    names_switch(schema, t, k) && forall|q: int| 0 <= q < k ==> !names_switch(schema, t, q)
}

/// The scanning state at token `i` with the layer built so far: either the
/// final layer and the index where the remainder starts, or a failure.
pub open spec fn scan(schema: &Schema, layer: LayerModel, args: Seq<ArgModel>, i: int) -> Result<
    (LayerModel, int),
    ArgFault,
>
    decreases args.len() - i,
{
    if i >= args.len() || i < 0 {
        Ok((layer, args.len() as int))
    } else {
        match args[i] {
            ArgModel::Raw(_) => Ok((layer, i)),
            ArgModel::Text(t) => if t == dashes() {
                Ok((layer, i + 1))
            } else if exists|p: int| first_param(schema, t, p) {
                let p = choose|p: int| first_param(schema, t, p);
                if i + 1 >= args.len() {
                    Err(ArgFault::MissingArgument(p))
                } else {
                    match args[i + 1] {
                        ArgModel::Raw(_) => Err(ArgFault::BadUtf8(p)),
                        ArgModel::Text(s) => match value_of_token(schema.params@[p].ty, s) {
                            Some(v) => scan(schema, layer.overwrite_param(p, v), args, i + 2),
                            None => Err(ArgFault::FieldParse(p)),
                        },
                    }
                }
            } else if exists|k: int| first_switch(schema, t, k) {
                let k = choose|k: int| first_switch(schema, t, k);
                scan(
                    schema,
                    layer.overwrite_switch(k, !switch_default(schema.switches@[k].kind)),
                    args,
                    i + 1,
                )
            } else if starts_with_dashes(t) {
                Err(ArgFault::UnknownArgument)
            } else {
                Ok((layer, i))
            },
        }
    }
}

/// The whole token stream: the first token is the program and is skipped.
pub open spec fn tokenize(schema: &Schema, layer: LayerModel, args: Seq<ArgModel>) -> Result<
    (LayerModel, int),
    ArgFault,
> {
    if args.len() == 0 {
        Ok((layer, 0))
    } else {
        scan(schema, layer, args, 1)
    }
}

/// `e` is the error that reports fault `f`.
pub open spec fn reports(schema: &Schema, e: ArgParseError, f: ArgFault) -> bool {
    match (e, f) {
        (ArgParseError::MissingArgument(n), ArgFault::MissingArgument(p)) => n@
            == schema.params@[p].name@,
        (ArgParseError::BadUtf8(n), ArgFault::BadUtf8(p)) => n@ == schema.params@[p].name@,
        (ArgParseError::FieldParse(n, _), ArgFault::FieldParse(p)) => n@
            == schema.params@[p].name@,
        (ArgParseError::UnknownArgument, ArgFault::UnknownArgument) => true,
        _ => false,
    }
}

/// The outcome of tokenizing: the layer with the flags applied, the
/// program's own token, and the tokens left for the caller.
#[derive(Debug)]
pub struct MergedArgs {
    pub layer: PartialLayer,
    pub program: Option<Arg>,
    pub remainder: Vec<Arg>,
}

/// `r` is what tokenizing `args` onto `layer` gives.
pub open spec fn merge_outcome(
    schema: &Schema,
    layer: LayerModel,
    args: Seq<Arg>,
    r: Result<MergedArgs, ArgParseError>,
) -> bool {
    match (r, tokenize(schema, layer, args_view(args))) {
        (Ok(m), Ok((l, start))) => {
            &&& m.layer@ == l
            &&& m.layer@.fits(schema)
            &&& args_view(m.remainder@) == args_view(args).subrange(start, args.len() as int)
            &&& match m.program {
                Some(a) => args.len() > 0 && a@ == args[0]@,
                None => args.len() == 0,
            }
        },
        (Err(e), Err(f)) => reports(schema, e, f),
        _ => false,
    }
}

fn is_dashes(t: &String) -> (r: bool)
    ensures
        r == (t@ == dashes()),
{
    let n = t.unicode_len();
    if n == 2 && t.get_char(0) == '-' && t.get_char(1) == '-' {
        assert(t@ =~= dashes());
        true
    } else {
        false
    }
}

fn has_dashes(t: &String) -> (r: bool)
    ensures
        r == starts_with_dashes(t@),
{
    let n = t.unicode_len();
    n >= 2 && t.get_char(0) == '-' && t.get_char(1) == '-'
}

fn find_param(schema: &Schema, flags: &Vec<String>, t: &String) -> (r: Option<usize>)
    requires
        flags@.len() == schema.params@.len(),
        forall|p: int|
            0 <= p < flags@.len() ==> (#[trigger] flags@[p])@ == param_flag(
                schema.params@[p].name@,
            ),
    ensures
        match r {
            Some(p) => first_param(schema, t@, p as int),
            None => forall|p: int| !names_param(schema, t@, p),
        },
{
    let mut p: usize = 0;
    while p < flags.len()
        invariant
            p <= flags@.len(),
            flags@.len() == schema.params@.len(),
            forall|q: int|
                0 <= q < flags@.len() ==> (#[trigger] flags@[q])@ == param_flag(
                    schema.params@[q].name@,
                ),
            forall|q: int| 0 <= q < p ==> !names_param(schema, t@, q),
        decreases flags@.len() - p,
    {
        if schema.params[p].argument && flags[p].eq(t) {
            return Some(p);
        }
        p = p + 1;
    }
    None
}

fn find_switch(schema: &Schema, flags: &Vec<String>, t: &String) -> (r: Option<usize>)
    requires
        flags@.len() == schema.switches@.len(),
        forall|k: int|
            0 <= k < flags@.len() ==> (#[trigger] flags@[k])@ == switch_flag(
                schema.switches@[k].name@,
                schema.switches@[k].kind,
            ),
    ensures
        match r {
            Some(k) => first_switch(schema, t@, k as int),
            None => forall|k: int| !names_switch(schema, t@, k),
        },
{
    let mut k: usize = 0;
    while k < flags.len()
        invariant
            k <= flags@.len(),
            flags@.len() == schema.switches@.len(),
            forall|q: int|
                0 <= q < flags@.len() ==> (#[trigger] flags@[q])@ == switch_flag(
                    schema.switches@[q].name@,
                    schema.switches@[q].kind,
                ),
            forall|q: int| 0 <= q < k ==> !names_switch(schema, t@, q),
        decreases flags@.len() - k,
    {
        if flags[k].eq(t) {
            return Some(k);
        }
        k = k + 1;
    }
    None
}

/// The flags of all value-taking parameters, in declaration order.
fn param_flags(schema: &Schema) -> (r: Vec<String>)
    ensures
        r@.len() == schema.params@.len(),
        forall|p: int|
            0 <= p < r@.len() ==> (#[trigger] r@[p])@ == param_flag(schema.params@[p].name@),
{
    let mut flags: Vec<String> = Vec::new();
    let mut p: usize = 0;
    while p < schema.params.len()
        invariant
            p <= schema.params@.len(),
            flags@.len() == p,
            forall|q: int|
                0 <= q < p ==> (#[trigger] flags@[q])@ == param_flag(schema.params@[q].name@),
        decreases schema.params@.len() - p,
    {
        flags.push(param_flag_name(schema.params[p].name.as_str()));
        p = p + 1;
    }
    flags
}

/// The flags of all switches, in declaration order.
fn switch_flags(schema: &Schema) -> (r: Vec<String>)
    ensures
        r@.len() == schema.switches@.len(),
        forall|k: int|
            0 <= k < r@.len() ==> (#[trigger] r@[k])@ == switch_flag(
                schema.switches@[k].name@,
                schema.switches@[k].kind,
            ),
{
    let mut flags: Vec<String> = Vec::new();
    let mut k: usize = 0;
    while k < schema.switches.len()
        invariant
            k <= schema.switches@.len(),
            flags@.len() == k,
            forall|q: int|
                0 <= q < k ==> (#[trigger] flags@[q])@ == switch_flag(
                    schema.switches@[q].name@,
                    schema.switches@[q].kind,
                ),
        decreases schema.switches@.len() - k,
    {
        flags.push(switch_flag_name(&schema.switches[k]));
        k = k + 1;
    }
    flags
}

impl PartialLayer {
    /// Applies the command-line tokens `args` to this layer. The first token
    /// is the program's own and is set aside. Flags overwrite their fields
    /// until `--` (consumed), a token that is no flag (kept), or the end;
    /// the tokens after that point are returned in order.
    pub fn merge_args(self, schema: &Schema, args: Vec<Arg>) -> (r: Result<MergedArgs, ArgParseError>)
        requires
            self@.fits(schema),
        ensures
            merge_outcome(schema, self@, args@, r),
    {
        let ghost a = args_view(args@);
        let n = args.len();
        if n == 0 {
            assert(args_view(args@).subrange(0, 0) =~= args_view(args@));
            return Ok(MergedArgs { layer: self, program: None, remainder: args });
        }
        let pflags = param_flags(schema);
        let sflags = switch_flags(schema);
        let ghost start = self@;
        let mut layer = self;
        let mut i: usize = 1;
        let mut stop: usize;
        loop
            invariant_except_break
                1 <= i <= n,
                scan(schema, layer@, a, i as int) == scan(schema, start, a, 1),
            invariant
                n == args@.len(),
                start == self@,
                a == args_view(args@),
                layer@.fits(schema),
                pflags@.len() == schema.params@.len(),
                forall|p: int|
                    0 <= p < pflags@.len() ==> (#[trigger] pflags@[p])@ == param_flag(
                        schema.params@[p].name@,
                    ),
                sflags@.len() == schema.switches@.len(),
                forall|k: int|
                    0 <= k < sflags@.len() ==> (#[trigger] sflags@[k])@ == switch_flag(
                        schema.switches@[k].name@,
                        schema.switches@[k].kind,
                    ),
            ensures
                1 <= stop <= n,
                scan(schema, start, a, 1) == Ok::<(LayerModel, int), ArgFault>((layer@, stop as int)),
            decreases n - i,
        {
            if i >= n {
                stop = n;
                break;
            }
            assert(a[i as int] == args@[i as int]@);
            match &args[i] {
                Arg::Raw(_) => {
                    stop = i;
                    break;
                },
                Arg::Text(t) => {
                    if is_dashes(t) {
                        stop = i + 1;
                        break;
                    }
                    match find_param(schema, &pflags, t) {
                        Some(p) => {
                            assert(forall|q: int| first_param(schema, t@, q) ==> q == p);
                            let name = &schema.params[p].name;
                            if i + 1 >= n {
                                return Err(ArgParseError::MissingArgument(name.clone()));
                            }
                            assert(a[i + 1] == args@[i + 1]@);
                            match &args[i + 1] {
                                Arg::Raw(_) => {
                                    return Err(ArgParseError::BadUtf8(name.clone()));
                                },
                                Arg::Text(s) => match parse_value(schema.params[p].ty, s) {
                                    Ok(v) => {
                                        layer.overwrite_param(p, v);
                                        i = i + 2;
                                    },
                                    Err(e) => {
                                        return Err(ArgParseError::FieldParse(name.clone(), e));
                                    },
                                },
                            }
                        },
                        None => match find_switch(schema, &sflags, t) {
                            Some(k) => {
                                assert(forall|q: int| first_switch(schema, t@, q) ==> q == k);
                                let b = !schema.switches[k].kind.default_value();
                                layer.overwrite_switch(k, b);
                                i = i + 1;
                            },
                            None => {
                                if has_dashes(t) {
                                    return Err(ArgParseError::UnknownArgument);
                                }
                                stop = i;
                                break;
                            },
                        },
                    }
                },
            }
        }
        let mut args = args;
        let remainder = args.split_off(stop);
        let program = args.remove(0);
        assert(args_view(remainder@) =~= a.subrange(stop as int, n as int));
        Ok(MergedArgs { layer, program: Some(program), remainder })
    }
}

} // verus!
